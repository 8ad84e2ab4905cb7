//! Text that is safe to print and names that are safe to use for files.
use crate::text;
use crate::text::{
    chars_of, concat, contains_text, is_control, last_segment, string_of, trim, trim_end_suffix,
};
use vstd::prelude::*;

verus! {

/// Characters unsafe to print to a terminal or to put in a file name: control
/// codes, bidirectional overrides and isolates, zero-width and other invisible
/// format characters, and the line and paragraph separators.
pub open spec fn unsafe_display(c: char) -> bool {
    let u = c as u32;
    ||| text::control(c)
    ||| 0x200b <= u <= 0x200f
    ||| 0x202a <= u <= 0x202e
    ||| 0x2060 <= u <= 0x2064
    ||| 0x2066 <= u <= 0x2069
    ||| u == 0x2028
    ||| u == 0x2029
    ||| u == 0x061c
    ||| u == 0xfeff
}

/// Whether `c` is unsafe to print to a terminal or to put in a file name.
pub fn is_unsafe_display_char(c: char) -> (r: bool)
    ensures
        r == unsafe_display(c),
{
    let u: u32 = c as u32;
    is_control(c) || (0x200b <= u && u <= 0x200f)  // zero-width space and joiners, LRM, RLM
     || (0x202a <= u && u <= 0x202e)  // LRE, RLE, PDF, LRO, RLO
     || (0x2060 <= u && u <= 0x2064)  // word joiner, invisible operators
     || (0x2066 <= u && u <= 0x2069)  // LRI, RLI, FSI, PDI
     || u == 0x2028 || u == 0x2029  // line and paragraph separators
     || u == 0x061c  // Arabic letter mark
     || u == 0xfeff  // byte order mark

}

/// The characters that may be shown, as a predicate.
pub open spec fn shown() -> spec_fn(char) -> bool {
    |c: char| !unsafe_display(c)
}

/// `s` without its unsafe characters.
pub open spec fn stripped(s: Seq<char>) -> Seq<char> {
    s.filter(shown())
}

/// One more character at the end of a text, stripped.
pub proof fn lemma_stripped_push(s: Seq<char>, c: char)
    ensures
        stripped(s.push(c)) == if unsafe_display(c) {
            stripped(s)
        } else {
            stripped(s).push(c)
        },
{
    reveal(Seq::filter);
    assert(s.push(c).drop_last() == s);
    assert(shown()(c) == !unsafe_display(c));
}

/// Drops every unsafe character from `s`. Applied to remote text before it
/// reaches the terminal or an exported file.
pub fn strip_unsafe(s: &str) -> (r: String)
    ensures
        r@ == stripped(s@),
{
    let v = chars_of(s);
    let mut out = String::new();
    let mut i: usize = 0;
    proof {
        reveal(Seq::filter);
        assert(v@.take(0) == Seq::<char>::empty());
    }
    while i < v.len()
        invariant
            i <= v@.len(),
            out@ == stripped(v@.take(i as int)),
        decreases v@.len() - i,
    {
        let c = v[i];
        proof {
            assert(v@.take(i + 1) == v@.take(i as int).push(c));
            lemma_stripped_push(v@.take(i as int), c);
        }
        if !is_unsafe_display_char(c) {
            out.push(c);
        }
        i = i + 1;
    }
    proof {
        assert(v@.take(v@.len() as int) == v@);
    }
    out
}

/// What stands in a file name for `c`: a fraction slash for a slash, an
/// underscore for the other characters that some file system forbids.
pub open spec fn file_char(c: char) -> char {
    if c == '/' {
        '\u{2044}'
    } else if c == '\\' || c == ':' || c == '*' || c == '?' || c == '"' || c == '<' || c == '>' || c
        == '|' {
        '_'
    } else {
        c
    }
}

/// `file_char` of every character.
pub open spec fn file_chars(s: Seq<char>) -> Seq<char> {
    s.map_values(|c: char| file_char(c))
}

/// A full stop or a space, as a predicate.
pub open spec fn dot_or_space() -> spec_fn(char) -> bool {
    |c: char| c == '.' || c == ' '
}

/// The file name stem for `title`.
pub open spec fn stem(title: Seq<char>) -> Seq<char> {
    text::trim_end_where(text::trimmed(file_chars(stripped(title))), dot_or_space())
}

/// What stands in a file name for `c`.
fn to_file_char(c: char) -> (r: char)
    ensures
        r == file_char(c),
{
    if c == '/' {
        '\u{2044}'
    } else if c == '\\' || c == ':' || c == '*' || c == '?' || c == '"' || c == '<' || c == '>' || c
        == '|' {
        '_'
    } else {
        c
    }
}

/// `title` made fit to be the stem of a file name: unsafe characters dropped,
/// forbidden ones replaced, white space trimmed at both ends, and full stops
/// and spaces trimmed at the end. It can be empty.
pub fn sanitize_stem(title: &str) -> (r: String)
    ensures
        r@ == stem(title@),
{
    let clean = strip_unsafe(title);
    let v = chars_of(&clean);
    let mut mapped = String::new();
    let mut i: usize = 0;
    while i < v.len()
        invariant
            i <= v@.len(),
            mapped@ == file_chars(v@.take(i as int)),
        decreases v@.len() - i,
    {
        mapped.push(to_file_char(v[i]));
        proof {
            assert(file_chars(v@.take(i + 1)) == file_chars(v@.take(i as int)).push(
                file_char(v@[i as int]),
            ));
        }
        i = i + 1;
    }
    proof {
        assert(v@.take(v@.len() as int) == v@);
    }
    let t = trim(&mapped);
    let w = chars_of(&t);
    let mut b: usize = w.len();
    while b > 0 && (w[b - 1] == '.' || w[b - 1] == ' ')
        invariant
            b <= w@.len(),
            forall|k: int| b <= k < w@.len() ==> dot_or_space()(#[trigger] w@[k]),
        decreases b,
    {
        b = b - 1;
    }
    proof {
        text::lemma_trim_end_at(w@, dot_or_space(), b as int);
        assert(w@.take(b as int) == w@.subrange(0, b as int));
    }
    string_of(&w, 0, b)
}

/// The part of a torrent URL that can name a file: its last path segment
/// without the `.torrent` ending, or nothing where that holds a `:` (a URL
/// without slashes, such as `mailto:x`).
pub open spec fn url_name(url: Seq<char>) -> Seq<char> {
    let last = text::strip_suffixes(text::after_last_char(url, '/'), ".torrent"@);
    if text::contains(last, seq![':']) {
        Seq::empty()
    } else {
        last
    }
}

/// The part of a torrent URL that can name a file.
pub fn url_stem(url: &str) -> (r: String)
    ensures
        r@ == url_name(url@),
{
    let segment = last_segment(url, '/');
    let last = trim_end_suffix(&segment, ".torrent");
    proof {
        reveal_strlit(":");
        assert(":"@ == seq![':']);
    }
    if contains_text(&last, ":") {
        String::new()
    } else {
        last
    }
}

/// The stem of a torrent file's name: from the title, else from the URL, else
/// `episode`.
pub open spec fn torrent_stem(title: Seq<char>, torrent_url: Seq<char>) -> Seq<char> {
    if stem(title).len() > 0 {
        stem(title)
    } else if stem(url_name(torrent_url)).len() > 0 {
        stem(url_name(torrent_url))
    } else {
        "episode"@
    }
}

/// `<sanitized title>.torrent`, falling back to the torrent's URL hash (its
/// last path segment) and finally to `episode` when the title sanitizes to
/// nothing.
pub fn torrent_filename(title: &str, torrent_url: &str) -> (r: String)
    ensures
        r@ == torrent_stem(title@, torrent_url@) + ".torrent"@,
{
    let mut name = sanitize_stem(title);
    if name.as_str().is_empty() {
        let from_url = url_stem(torrent_url);
        name = sanitize_stem(&from_url);
    }
    if name.as_str().is_empty() {
        name = "episode".to_owned();
    }
    concat(&name, ".torrent")
}

// ---------------------------------------------------------------------------
// Laws

/// No character of `s` is unsafe to print.
pub open spec fn safe_to_print(s: Seq<char>) -> bool {
    forall|i: int| 0 <= i < s.len() ==> !unsafe_display(#[trigger] s[i])
}

/// A character that may stand in a file name.
pub open spec fn file_safe(c: char) -> bool {
    !unsafe_display(c) && file_char(c) == c
}

/// Every character of `s` may stand in a file name.
pub open spec fn safe_for_file(s: Seq<char>) -> bool {
    forall|i: int| 0 <= i < s.len() ==> file_safe(#[trigger] s[i])
}

/// No unsafe character survives stripping.
pub proof fn law_stripped_is_safe(s: Seq<char>)
    ensures
        safe_to_print(stripped(s)),
        stripped(s).len() <= s.len(),
    decreases s.len(),
{
    reveal(Seq::filter);
    if s.len() > 0 {
        law_stripped_is_safe(s.drop_last());
        assert(s == s.drop_last().push(s.last()));
        lemma_stripped_push(s.drop_last(), s.last());
        let t = stripped(s.drop_last());
        assert forall|i: int| 0 <= i < stripped(s).len() implies !unsafe_display(
            #[trigger] stripped(s)[i],
        ) by {
            if i < t.len() {
                assert(stripped(s)[i] == t[i]);
            }
        }
    }
}

/// Stripping keeps a safe text as it is.
pub proof fn law_stripping_keeps_safe_text(s: Seq<char>)
    requires
        safe_to_print(s),
    ensures
        stripped(s) == s,
    decreases s.len(),
{
    reveal(Seq::filter);
    if s.len() > 0 {
        assert(!unsafe_display(s[s.len() - 1]));
        law_stripping_keeps_safe_text(s.drop_last());
        assert(s == s.drop_last().push(s.last()));
        lemma_stripped_push(s.drop_last(), s.last());
    }
}

/// Stripping twice is stripping once.
pub proof fn law_stripping_is_idempotent(s: Seq<char>)
    ensures
        stripped(stripped(s)) == stripped(s),
{
    law_stripped_is_safe(s);
    law_stripping_keeps_safe_text(stripped(s));
}

/// Stripping works piece by piece: a text that arrives in parts is stripped the
/// same way as the whole.
pub proof fn law_stripping_distributes(a: Seq<char>, b: Seq<char>)
    ensures
        stripped(a + b) == stripped(a) + stripped(b),
    decreases b.len(),
{
    if b.len() == 0 {
        reveal(Seq::filter);
        assert(a + b == a);
        assert(stripped(b) == Seq::<char>::empty());
    } else {
        let c = b.drop_last();
        law_stripping_distributes(a, c);
        assert(b == c.push(b.last()));
        assert(a + b == (a + c).push(b.last()));
        lemma_stripped_push(c, b.last());
        lemma_stripped_push(a + c, b.last());
        assert(stripped(a + b) == stripped(a) + stripped(b));
    }
}

/// A stem holds only characters that may stand in a file name, does not begin
/// with white space, and does not end in a full stop or a space.
pub proof fn law_stem_is_safe(title: Seq<char>)
    ensures
        safe_for_file(stem(title)),
        stem(title).len() > 0 ==> !text::white_space(stem(title)[0]),
        stem(title).len() > 0 ==> stem(title).last() != '.' && stem(title).last() != ' ',
{
    let s = stripped(title);
    let m = file_chars(s);
    let t = text::trimmed(m);
    let r = stem(title);
    law_stripped_is_safe(title);
    text::lemma_trimmed(m);
    text::lemma_trim_ends(t, dot_or_space());
    let (a, b) = choose|a: int, b: int| 0 <= a <= b <= m.len() && t == #[trigger] m.subrange(a, b);
    assert forall|i: int| 0 <= i < r.len() implies file_safe(#[trigger] r[i]) by {
        assert(r[i] == t[i]);
        assert(t[i] == m[a + i]);
        assert(m[a + i] == file_char(s[a + i]));
        assert(!unsafe_display(s[a + i]));
    }
    if r.len() > 0 {
        assert(r[0] == t[0]);
        assert(!dot_or_space()(r.last()));
    }
}

/// A text of characters that may stand in a file name, with no white space at
/// either end and no full stop at the end, is its own stem.
pub proof fn law_stem_keeps_clean_names(s: Seq<char>)
    requires
        safe_for_file(s),
        s.len() > 0 ==> !text::white_space(s[0]) && !text::white_space(s.last()) && s.last() != '.',
    ensures
        stem(s) == s,
{
    assert(safe_to_print(s)) by {
        assert forall|i: int| 0 <= i < s.len() implies !unsafe_display(#[trigger] s[i]) by {
            assert(file_safe(s[i]));
        }
    }
    law_stripping_keeps_safe_text(s);
    assert(file_chars(s) == s) by {
        assert forall|i: int| 0 <= i < s.len() implies file_chars(s)[i] == s[i] by {
            assert(file_safe(s[i]));
        }
    }
    text::lemma_trimmed_fixed(s);
    if s.len() > 0 {
        assert(!dot_or_space()(s.last()));
    }
}

/// Sanitizing a stem again changes nothing, where the stem does not end in
/// white space (which it can, after a trailing full stop was cut off).
pub proof fn law_sanitizing_a_stem_again(title: Seq<char>)
    requires
        stem(title).len() > 0 ==> !text::white_space(stem(title).last()),
    ensures
        stem(stem(title)) == stem(title),
{
    law_stem_is_safe(title);
    law_stem_keeps_clean_names(stem(title));
}

/// Every torrent file name is a non-empty stem of characters that may stand in
/// a file name, followed by `.torrent`: it never holds a path separator.
pub proof fn law_torrent_filename_is_safe(title: Seq<char>, torrent_url: Seq<char>)
    ensures
        torrent_stem(title, torrent_url).len() > 0,
        safe_for_file(torrent_stem(title, torrent_url) + ".torrent"@),
        text::stands_at(
            torrent_stem(title, torrent_url) + ".torrent"@,
            ".torrent"@,
            torrent_stem(title, torrent_url).len() as int,
        ),
{
    let t = torrent_stem(title, torrent_url);
    let whole = t + ".torrent"@;
    reveal_strlit("episode");
    reveal_strlit(".torrent");
    law_stem_is_safe(title);
    law_stem_is_safe(url_name(torrent_url));
    assert(safe_for_file("episode"@));
    assert(safe_for_file(".torrent"@));
    assert forall|i: int| 0 <= i < whole.len() implies file_safe(#[trigger] whole[i]) by {
        if i < t.len() {
            assert(whole[i] == t[i]);
        } else {
            assert(whole[i] == ".torrent"@[i - t.len()]);
        }
    }
    assert(whole.subrange(t.len() as int, whole.len() as int) == ".torrent"@);
}

/// Stripping takes a text character by character: a safe one stays as it is, and
/// an unsafe one goes.
pub proof fn law_stripping_goes_by_character(s: Seq<char>, c: char)
    ensures
        stripped(Seq::empty()) == Seq::<char>::empty(),
        stripped(s.push(c)) == if unsafe_display(c) {
            stripped(s)
        } else {
            stripped(s).push(c)
        },
{
    reveal(Seq::filter);
    lemma_stripped_push(s, c);
}

/// Only the characters that some file system forbids are replaced, each by one.
pub proof fn law_forbidden_characters_are_replaced(s: Seq<char>, i: int)
    requires
        0 <= i < s.len(),
    ensures
        file_chars(s).len() == s.len(),
        s[i] == '/' ==> file_chars(s)[i] == '\u{2044}',
        "\\:*?\"<>|"@.contains(s[i]) ==> file_chars(s)[i] == '_',
        s[i] != '/' && !"\\:*?\"<>|"@.contains(s[i]) ==> file_chars(s)[i] == s[i],
{
    reveal_strlit("\\:*?\"<>|");
    let f = "\\:*?\"<>|"@;
    assert(f.len() == 8);
    assert(f[0] == '\\' && f[1] == ':' && f[2] == '*' && f[3] == '?' && f[4] == '"' && f[5] == '<'
        && f[6] == '>' && f[7] == '|');
}

/// The stem of a title is the whole of its characters that can be shown, each as
/// it may stand in a file name, but for white space around them and for full
/// stops and spaces behind them: nothing else is cut off, however long it is.
pub proof fn law_a_stem_is_the_whole_title(title: Seq<char>) -> (r: (int, int, int))
    ensures
        0 <= r.0 <= r.1 <= r.2 <= stripped(title).len(),
        stem(title) == file_chars(stripped(title)).subrange(r.0, r.1),
        forall|i: int| 0 <= i < r.0 ==> text::white_space(#[trigger] file_chars(stripped(title))[i]),
        forall|i: int|
            r.1 <= i < r.2 ==> (#[trigger] file_chars(stripped(title))[i] == '.' || file_chars(
                stripped(title),
            )[i] == ' '),
        forall|i: int|
            r.2 <= i < stripped(title).len() ==> text::white_space(
                #[trigger] file_chars(stripped(title))[i],
            ),
{
    let m = file_chars(stripped(title));
    let (a, c) = text::law_trimming_cuts_only_white_space(m);
    let t = text::trimmed(m);
    text::law_trimming_an_end_cuts_only_that(t, dot_or_space());
    let b = a + stem(title).len();
    assert(stem(title) == m.subrange(a, b));
    assert forall|i: int| b <= i < c implies (#[trigger] m[i] == '.' || m[i] == ' ') by {
        assert(m[i] == t[i - a]);
        assert(dot_or_space()(t[i - a]));
    }
    (a, b, c)
}

/// Where anything of a title can stand in a file name, the name of its torrent
/// file is the whole stem, whatever its length, and `.torrent`.
pub proof fn law_a_torrent_file_has_the_whole_stem(title: Seq<char>, torrent_url: Seq<char>)
    ensures
        stem(title).len() > 0 ==> torrent_stem(title, torrent_url) == stem(title),
        stem(title).len() == 0 && stem(url_name(torrent_url)).len() > 0 ==> torrent_stem(
            title,
            torrent_url,
        ) == stem(url_name(torrent_url)),
{
}

/// Titles with different stems, neither of them empty, never share a file name:
/// no episode hides another.
pub proof fn law_different_stems_have_different_files(
    a: Seq<char>,
    b: Seq<char>,
    url_a: Seq<char>,
    url_b: Seq<char>,
)
    requires
        stem(a).len() > 0,
        stem(b).len() > 0,
        stem(a) != stem(b),
    ensures
        torrent_stem(a, url_a) + ".torrent"@ != torrent_stem(b, url_b) + ".torrent"@,
{
    let x = torrent_stem(a, url_a) + ".torrent"@;
    let y = torrent_stem(b, url_b) + ".torrent"@;
    if x == y {
        assert(x.take(x.len() - ".torrent"@.len()) == stem(a));
        assert(y.take(y.len() - ".torrent"@.len()) == stem(b));
    }
}

/// Titles that differ, and that are fit for a file name as they are, never share
/// one: two episodes of a show are two files.
pub proof fn law_clean_titles_have_their_own_files(
    a: Seq<char>,
    b: Seq<char>,
    url_a: Seq<char>,
    url_b: Seq<char>,
)
    requires
        a != b,
        safe_for_file(a),
        safe_for_file(b),
        a.len() > 0 && !text::white_space(a[0]) && !text::white_space(a.last()) && a.last() != '.',
        b.len() > 0 && !text::white_space(b[0]) && !text::white_space(b.last()) && b.last() != '.',
    ensures
        torrent_stem(a, url_a) == a,
        torrent_stem(a, url_a) + ".torrent"@ != torrent_stem(b, url_b) + ".torrent"@,
{
    law_stem_keeps_clean_names(a);
    law_stem_keeps_clean_names(b);
    law_different_stems_have_different_files(a, b, url_a, url_b);
}

/// The name in an address of a torrent is what stands between the last `/` and
/// `.torrent`, whole, where it holds no `:`.
pub proof fn law_an_address_names_its_file(front: Seq<char>, name: Seq<char>)
    requires
        front.len() > 0 ==> front.last() == '/',
        forall|i: int| 0 <= i < name.len() ==> #[trigger] name[i] != '/' && name[i] != ':',
        name.len() < 8 || name.subrange(name.len() - 8, name.len() as int) != ".torrent"@,
    ensures
        url_name(front + name + ".torrent"@) == name,
        url_name(front + name) == name,
{
    reveal_strlit(".torrent");
    let suffix = ".torrent"@;
    assert(suffix.len() == 8);
    assert forall|i: int| 0 <= i < suffix.len() implies #[trigger] suffix[i] != '/' && suffix[i]
        != ':' by {
        assert(i == 0 || i == 1 || i == 2 || i == 3 || i == 4 || i == 5 || i == 6 || i == 7);
    }
    let last = name + suffix;
    lemma_segment(front, last);
    lemma_segment(front, name);
    assert(front + last == front + name + suffix);
    text::law_a_suffix_comes_off(name, suffix);
    text::law_containing_is_having_a_part(name, seq![':']);
    if text::contains(name, seq![':']) {
        let i = choose|i: int|
            0 <= i <= name.len() - 1 && #[trigger] name.subrange(i, i + 1) == seq![':'];
        assert(name.subrange(i, i + 1)[0] == name[i]);
    }
}

proof fn lemma_segment(front: Seq<char>, last: Seq<char>)
    requires
        front.len() > 0 ==> front.last() == '/',
        forall|i: int| 0 <= i < last.len() ==> #[trigger] last[i] != '/',
    ensures
        text::after_last_char(front + last, '/') == last,
{
    let s = front + last;
    text::law_the_last_segment_is_last(s, '/');
    let r = text::after_last_char(s, '/');
    if r.len() < last.len() {
        let k = s.len() - r.len() - 1;
        assert(s[k] == last[k - front.len()]);
    } else if r.len() > last.len() {
        let k = front.len() - 1;
        assert(r[r.len() - last.len() - 1] == s[k]);
        assert(s[k] == front.last());
    }
    assert(s.skip(front.len() as int) == last);
}

/// Stripping takes out control codes, marks of direction and other characters that
/// do not show, and no letter, digit, space, mark or symbol.
pub proof fn law_only_what_does_not_show_is_stripped(c: char)
    ensures
        c as u32 <= 0x1f || 0x7f <= c as u32 <= 0x9f ==> stripped(seq![c]).len() == 0,
        c == '\u{61c}' || c == '\u{feff}' || c == '\u{2028}' || c == '\u{2029}' ==> stripped(
            seq![c],
        ).len() == 0,
        0x200b <= c as u32 <= 0x200f || 0x202a <= c as u32 <= 0x202e || 0x2060 <= c as u32 <= 0x2064
            || 0x2066 <= c as u32 <= 0x2069 ==> stripped(seq![c]).len() == 0,
        0x20 <= c as u32 <= 0x7e || 0xa0 <= c as u32 <= 0x61b || 0x61d <= c as u32 <= 0x200a
            ==> stripped(seq![c]) == seq![c],
        0x2010 <= c as u32 <= 0x2027 || 0x202f <= c as u32 <= 0x205f || c as u32 == 0x2065
            ==> stripped(seq![c]) == seq![c],
        0x206a <= c as u32 <= 0xfefe || 0xff00 <= c as u32 ==> stripped(seq![c]) == seq![c],
{
    law_stripping_goes_by_character(Seq::empty(), c);
    assert(Seq::<char>::empty().push(c) == seq![c]);
}

/// An address whose last part holds a `:` names no file. Where neither the title nor
/// the address gives a name, the file is called `episode`.
pub proof fn law_without_a_name_a_file_is_an_episode(
    front: Seq<char>,
    a: Seq<char>,
    b: Seq<char>,
    title: Seq<char>,
)
    requires
        front.len() > 0 ==> front.last() == '/',
        forall|i: int| 0 <= i < a.len() ==> #[trigger] a[i] != '/',
        forall|i: int| 0 <= i < b.len() ==> #[trigger] b[i] != '/',
        (a + seq![':'] + b).len() < 8 || (a + seq![':'] + b).subrange(
            (a + seq![':'] + b).len() - 8,
            (a + seq![':'] + b).len() as int,
        ) != ".torrent"@,
    ensures
        url_name(front + (a + seq![':'] + b)).len() == 0,
        stem(title).len() == 0 ==> torrent_stem(title, front + (a + seq![':'] + b)) == "episode"@,
{
    reveal_strlit(".torrent");
    let last = a + seq![':'] + b;
    assert forall|i: int| 0 <= i < last.len() implies #[trigger] last[i] != '/' by {
        if i < a.len() {
            assert(last[i] == a[i]);
        } else if i > a.len() {
            assert(last[i] == b[i - a.len() - 1]);
        }
    }
    lemma_segment(front, last);
    text::law_a_suffix_comes_off(last, ".torrent"@);
    text::law_containing_is_having_a_part(last, seq![':']);
    assert(last.subrange(a.len() as int, a.len() as int + 1) == seq![':']);
    let none = Seq::<char>::empty();
    assert(stripped(none) == none) by {
        law_stripping_goes_by_character(none, 'x');
    }
    law_a_stem_is_the_whole_title(none);
}

}
