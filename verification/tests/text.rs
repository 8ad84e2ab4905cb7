use mikan::text::{
    chars_of, comes_before, concat3, contains_text, copy_texts, cut_after, cut_before,
    decimal_text, is_blank, is_control, is_white_space, join, last_segment, pad_left, pad_right,
    parse_u32, parse_u64, same, starts_with, strip_prefix, trim, trim_end_slashes,
    trim_end_suffix,
};

#[test]
fn characters_are_classed_as_in_std() {
    for u in 0..=0x10ffffu32 {
        let Some(c) = char::from_u32(u) else { continue };
        assert_eq!(is_white_space(c), c.is_whitespace(), "U+{u:04X}");
        assert_eq!(is_control(c), c.is_control(), "U+{u:04X}");
    }
}

#[test]
fn trimming_is_as_in_std() {
    for s in ["", " ", "a", " a ", "\u{3000}\ta b\u{a0}\n", "  \u{200b} x \u{2028}", "x\u{85}"] {
        assert_eq!(trim(s), s.trim());
        assert_eq!(is_blank(s), s.trim().is_empty());
    }
    for s in ["", "/", "a", "a/", "a//", "/a/b///"] {
        assert_eq!(trim_end_slashes(s), s.trim_end_matches('/'));
    }
    for s in ["", "a.torrent", "a.torrent.torrent", ".torrent", "a.torrentx"] {
        assert_eq!(trim_end_suffix(s, ".torrent"), s.trim_end_matches(".torrent"));
    }
}

#[test]
fn searching_is_as_in_std() {
    let texts = ["", "a", "ab", "aab", "abab", "石纪元", "x=y&z=w", "aaa"];
    let patterns = ["", "a", "ab", "b", "纪", "=", "&", "aa"];
    for s in texts {
        for p in patterns {
            assert_eq!(contains_text(s, p), s.contains(p), "{s:?} {p:?}");
            assert_eq!(starts_with(s, p), s.starts_with(p), "{s:?} {p:?}");
            assert_eq!(strip_prefix(s, p).as_deref(), s.strip_prefix(p), "{s:?} {p:?}");
            let split = s.split_once(p);
            assert_eq!(cut_after(s, p).as_deref(), split.map(|x| x.1), "{s:?} {p:?}");
            assert_eq!(cut_before(s, p), split.map_or(s, |x| x.0), "{s:?} {p:?}");
        }
        for t in texts {
            assert_eq!(same(s, t), s == t);
            assert_eq!(comes_before(s, t), s < t, "{s:?} {t:?}");
        }
        assert_eq!(last_segment(s, 'a'), s.rsplit('a').next().unwrap());
        assert_eq!(chars_of(s), s.chars().collect::<Vec<_>>());
    }
}

#[test]
fn numbers_are_read_as_in_std() {
    for s in [
        "", "+", "-", "0", "+0", "-0", "007", "12", "+12", "++1", "1 ", " 1", "1a", "４",
        "4294967295", "4294967296", "18446744073709551615", "18446744073709551616",
        "99999999999999999999999", "00000000000000000000000001",
    ] {
        assert_eq!(parse_u64(s), s.parse::<u64>().ok(), "{s:?}");
        assert_eq!(parse_u32(s), s.parse::<u32>().ok(), "{s:?}");
    }
}

#[test]
fn numbers_are_written_as_in_std() {
    for n in [0u64, 7, 10, 99, 100, 4_294_967_295, u64::MAX] {
        assert_eq!(decimal_text(n), n.to_string());
        assert_eq!(parse_u64(&decimal_text(n)), Some(n));
    }
}

#[test]
fn padding_counts_characters() {
    for s in ["", "a", "失败", "已添加到 qBittorrent", "much too long for the column"] {
        assert_eq!(pad_right(s, 16), format!("{s:<16}"));
        assert_eq!(pad_left(s, 3), format!("{s:>3}"));
    }
}

#[test]
fn texts_are_put_together() {
    assert_eq!(mikan::text::concat("a", "石"), "a石");
    assert_eq!(concat3("a", "", "c"), "ac");
    let parts = vec!["x".to_string(), "y".to_string(), "z".to_string()];
    assert_eq!(join(&parts, ", "), "x, y, z");
    assert_eq!(join(&Vec::new(), ", "), "");
    assert_eq!(copy_texts(&parts), parts);
}
