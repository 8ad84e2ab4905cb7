use mikan::sanitize::{
    is_unsafe_display_char, sanitize_stem, strip_unsafe, torrent_filename, url_stem,
};

const URL: &str =
    "https://mikanani.me/Download/20260628/b66771fd95710ab32a19a4797994196780c94527.torrent";

#[test]
fn keeps_cjk_brackets_and_fullwidth_colon() {
    assert_eq!(
        torrent_filename("[猎户压制部] Dr.STONE：Science Future [37] [1080p]", URL),
        "[猎户压制部] Dr.STONE：Science Future [37] [1080p].torrent"
    );
}

#[test]
fn replaces_slash_with_fraction_slash() {
    assert_eq!(torrent_filename("新石纪 / Dr.STONE [37]", URL), "新石纪 ⁄ Dr.STONE [37].torrent");
}

#[test]
fn replaces_ascii_windows_illegal_chars() {
    assert_eq!(torrent_filename(r#"a\b:c*d?e"f<g>h|i"#, URL), "a_b_c_d_e_f_g_h_i.torrent");
}

#[test]
fn strips_control_chars() {
    assert_eq!(torrent_filename("a\u{0}b\tc\u{7f}d", URL), "abcd.torrent");
}

#[test]
fn trims_whitespace_and_trailing_dots() {
    assert_eq!(torrent_filename("  name.. ", URL), "name.torrent");
}

#[test]
fn strips_bidi_and_zero_width_chars() {
    // RLO override + zero-width space + BOM must not survive into a filename.
    assert_eq!(torrent_filename("ab\u{202E}cd\u{200B}ef\u{feff}", URL), "abcdef.torrent");
}

#[test]
fn strip_unsafe_drops_format_and_separator_chars_but_keeps_cjk() {
    assert_eq!(strip_unsafe("a\u{202e}b\u{2028}c\u{feff}d"), "abcd");
    assert_eq!(strip_unsafe("石纪元 ： Dr.STONE"), "石纪元 ： Dr.STONE");
}

#[test]
fn empty_title_falls_back_to_url_hash() {
    assert_eq!(
        torrent_filename("...", URL),
        "b66771fd95710ab32a19a4797994196780c94527.torrent"
    );
}

#[test]
fn empty_title_and_useless_url_falls_back_to_episode() {
    assert_eq!(torrent_filename("...", "https://mikanani.me/"), "episode.torrent");
}

#[test]
fn empty_title_with_url_having_illegal_chars_in_filename() {
    assert_eq!(torrent_filename("...", "https://x/file?x.torrent"), "file_x.torrent");
}

#[test]
fn a_url_without_slashes_names_nothing() {
    assert_eq!(url_stem("mailto:x"), "");
    assert_eq!(url_stem("plain.torrent.torrent"), "plain");
    assert_eq!(torrent_filename("", "mailto:x"), "episode.torrent");
}

#[test]
fn unsafe_characters_are_these() {
    for u in 0..=0x10ffffu32 {
        let Some(c) = char::from_u32(u) else { continue };
        let expected = c.is_control()
            || matches!(
                c,
                '\u{200b}'..='\u{200f}'
                    | '\u{202a}'..='\u{202e}'
                    | '\u{2060}'..='\u{2064}'
                    | '\u{2066}'..='\u{2069}'
                    | '\u{2028}'
                    | '\u{2029}'
                    | '\u{061c}'
                    | '\u{feff}'
            );
        assert_eq!(is_unsafe_display_char(c), expected, "U+{u:04X}");
    }
}

#[test]
fn stripping_twice_is_stripping_once() {
    let s = "a\u{202e}b\nc\u{200b}";
    let once = strip_unsafe(s);
    assert_eq!(once, "abc");
    assert_eq!(strip_unsafe(&once), once);
    assert_eq!(strip_unsafe("a\u{202e}") + &strip_unsafe("b\nc\u{200b}"), once);
}

#[test]
fn sanitizing_a_stem_again_changes_nothing_but_trailing_space() {
    let stem = sanitize_stem("  A / B: C.. ");
    assert_eq!(stem, "A ⁄ B_ C");
    assert_eq!(sanitize_stem(&stem), stem);
    // An ideographic space can be left at the end once a full stop is cut off.
    let odd = sanitize_stem("a\u{3000}.");
    assert_eq!(odd, "a\u{3000}");
    assert_eq!(sanitize_stem(&odd), "a");
}
