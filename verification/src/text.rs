//! Character classes and string operations, stated over sequences of characters.
use vstd::prelude::*;

verus! {

/// Unicode general category `Cc`: the C0 and C1 control codes.
pub open spec fn control(c: char) -> bool {
    c as u32 <= 0x1f || 0x7f <= c as u32 <= 0x9f
}

/// The Unicode `White_Space` property.
pub open spec fn white_space(c: char) -> bool {
    let u = c as u32;
    ||| 0x9 <= u <= 0xd
    ||| u == 0x20
    ||| u == 0x85
    ||| u == 0xa0
    ||| u == 0x1680
    ||| 0x2000 <= u <= 0x200a
    ||| u == 0x2028
    ||| u == 0x2029
    ||| u == 0x202f
    ||| u == 0x205f
    ||| u == 0x3000
}

/// Whether `c` is a control code.
pub fn is_control(c: char) -> (r: bool)
    ensures
        r == control(c),
{
    let u: u32 = c as u32;
    u <= 0x1f || (0x7f <= u && u <= 0x9f)
}

/// Whether `c` has the `White_Space` property.
pub fn is_white_space(c: char) -> (r: bool)
    ensures
        r == white_space(c),
{
    let u: u32 = c as u32;
    (0x9 <= u && u <= 0xd) || u == 0x20 || u == 0x85 || u == 0xa0 || u == 0x1680 || (0x2000 <= u
        && u <= 0x200a) || u == 0x2028 || u == 0x2029 || u == 0x202f || u == 0x205f || u == 0x3000
}

/// `String::push` appends one character to the end of the string.
pub assume_specification[ String::push ](s: &mut String, c: char)
    ensures
        final(s)@ == old(s)@.push(c),
;

/// The characters of `s`, in order.
pub fn chars_of(s: &str) -> (v: Vec<char>)
    ensures
        v@ == s@,
{
    let mut v: Vec<char> = Vec::new();
    for c in it: s.chars()
        invariant
            it.seq() == s@,
            v@ == s@.take(it.index()),
    {
        v.push(c);
    }
    proof {
        assert(s@.take(s@.len() as int) == s@);
    }
    v
}

/// The string made of `v[from..to]`.
pub fn string_of(v: &Vec<char>, from: usize, to: usize) -> (s: String)
    requires
        from <= to <= v@.len(),
    ensures
        s@ == v@.subrange(from as int, to as int),
{
    let mut s = String::new();
    let mut i: usize = from;
    while i < to
        invariant
            from <= i <= to <= v@.len(),
            s@ == v@.subrange(from as int, i as int),
        decreases to - i,
    {
        s.push(v[i]);
        i = i + 1;
    }
    s
}


// ---------------------------------------------------------------------------
// Trimming

/// `s` without its longest prefix of characters that satisfy `p`.
pub open spec fn trim_start_where(s: Seq<char>, p: spec_fn(char) -> bool) -> Seq<char>
    decreases s.len(),
{
    if s.len() > 0 && p(s[0]) {
        trim_start_where(s.skip(1), p)
    } else {
        s
    }
}

/// `s` without its longest suffix of characters that satisfy `p`.
pub open spec fn trim_end_where(s: Seq<char>, p: spec_fn(char) -> bool) -> Seq<char>
    decreases s.len(),
{
    if s.len() > 0 && p(s.last()) {
        trim_end_where(s.drop_last(), p)
    } else {
        s
    }
}

/// White space as a predicate.
pub open spec fn blank() -> spec_fn(char) -> bool {
    |c: char| white_space(c)
}

/// One fixed character as a predicate.
pub open spec fn is_char(x: char) -> spec_fn(char) -> bool {
    |c: char| c == x
}

/// `s` without leading and trailing white space.
pub open spec fn trimmed(s: Seq<char>) -> Seq<char> {
    trim_end_where(trim_start_where(s, blank()), blank())
}

/// A cut at `k` is the start trim when everything before it satisfies `p` and
/// the character at it does not.
pub proof fn lemma_trim_start_at(s: Seq<char>, p: spec_fn(char) -> bool, k: int)
    requires
        0 <= k <= s.len(),
        forall|i: int| 0 <= i < k ==> p(#[trigger] s[i]),
        k < s.len() ==> !p(s[k]),
    ensures
        trim_start_where(s, p) == s.skip(k),
    decreases k,
{
    if k > 0 {
        assert(p(s[0]));
        let t = s.skip(1);
        assert forall|i: int| 0 <= i < k - 1 implies p(#[trigger] t[i]) by {
            assert(t[i] == s[i + 1]);
        }
        lemma_trim_start_at(t, p, k - 1);
        assert(t.skip(k - 1) == s.skip(k));
    } else {
        assert(s.skip(0) == s);
    }
}

/// A cut at `k` is the end trim when everything from it on satisfies `p` and
/// the character before it does not.
pub proof fn lemma_trim_end_at(s: Seq<char>, p: spec_fn(char) -> bool, k: int)
    requires
        0 <= k <= s.len(),
        forall|i: int| k <= i < s.len() ==> p(#[trigger] s[i]),
        k > 0 ==> !p(s[k - 1]),
    ensures
        trim_end_where(s, p) == s.take(k),
    decreases s.len(),
{
    if k < s.len() {
        assert(p(s[s.len() - 1]));
        let t = s.drop_last();
        lemma_trim_end_at(t, p, k);
        assert(t.take(k) == s.take(k));
    } else {
        assert(s.take(k) == s);
    }
}

/// What the two trims leave: a contiguous part of `s` whose ends do not satisfy
/// the predicate.
pub proof fn lemma_trim_ends(s: Seq<char>, p: spec_fn(char) -> bool)
    ensures
        trim_start_where(s, p).len() > 0 ==> !p(trim_start_where(s, p)[0]),
        trim_end_where(s, p).len() > 0 ==> !p(trim_end_where(s, p).last()),
        trim_start_where(s, p).len() <= s.len(),
        trim_end_where(s, p).len() <= s.len(),
        trim_start_where(s, p) == s.skip(s.len() - trim_start_where(s, p).len()),
        trim_end_where(s, p) == s.take(trim_end_where(s, p).len() as int),
    decreases s.len(),
{
    if s.len() > 0 {
        if p(s[0]) {
            lemma_trim_ends(s.skip(1), p);
            let t = trim_start_where(s.skip(1), p);
            assert(s.skip(1).skip(s.skip(1).len() - t.len()) == s.skip(s.len() - t.len()));
        }
        if p(s.last()) {
            lemma_trim_ends(s.drop_last(), p);
            let t = trim_end_where(s.drop_last(), p);
            assert(s.drop_last().take(t.len() as int) == s.take(t.len() as int));
        }
    }
    if s.len() == 0 || !p(s[0]) {
        assert(s.skip(0) == s);
    }
    if s.len() == 0 || !p(s.last()) {
        assert(s.take(s.len() as int) == s);
    }
}

/// `trimmed` is a contiguous part of `s`, and neither end of it is white space.
pub proof fn lemma_trimmed(s: Seq<char>)
    ensures
        trimmed(s).len() <= s.len(),
        trimmed(s).len() > 0 ==> !white_space(trimmed(s)[0]) && !white_space(trimmed(s).last()),
        exists|a: int, b: int|
            0 <= a <= b <= s.len() && trimmed(s) == #[trigger] s.subrange(a, b),
{
    let m = trim_start_where(s, blank());
    let t = trimmed(s);
    lemma_trim_ends(s, blank());
    lemma_trim_ends(m, blank());
    let a = s.len() - m.len();
    assert(t == s.subrange(a, a + t.len()));
    if t.len() > 0 {
        assert(t[0] == m[0]);
        assert(!blank()(m[0]));
        assert(!blank()(t.last()));
    }
}

/// A text with no white space at either end is its own trim.
pub proof fn lemma_trimmed_fixed(s: Seq<char>)
    requires
        s.len() > 0 ==> !white_space(s[0]) && !white_space(s.last()),
    ensures
        trimmed(s) == s,
{
    if s.len() > 0 {
        assert(!blank()(s[0]));
        assert(!blank()(s.last()));
    }
}

/// `s` without leading and trailing white space.
pub fn trim(s: &str) -> (r: String)
    ensures
        r@ == trimmed(s@),
{
    let v = chars_of(s);
    let n: usize = v.len();
    let mut a: usize = 0;
    while a < n && is_white_space(v[a])
        invariant
            a <= n == v@.len(),
            v@ == s@,
            forall|i: int| 0 <= i < a ==> white_space(#[trigger] v@[i]),
        decreases n - a,
    {
        a = a + 1;
    }
    let mut b: usize = n;
    while b > a && is_white_space(v[b - 1])
        invariant
            a <= b <= n == v@.len(),
            v@ == s@,
            forall|i: int| b <= i < n ==> white_space(#[trigger] v@[i]),
        decreases b,
    {
        b = b - 1;
    }
    proof {
        assert forall|i: int| 0 <= i < a implies blank()(#[trigger] s@[i]) by {
            assert(white_space(v@[i]));
        }
        lemma_trim_start_at(s@, blank(), a as int);
        let m = s@.skip(a as int);
        assert forall|i: int| b - a <= i < m.len() implies blank()(#[trigger] m[i]) by {
            assert(white_space(v@[i + a]));
        }
        if b > a {
            assert(m[b - a - 1] == v@[b - 1]);
        }
        lemma_trim_end_at(m, blank(), b - a);
        assert(m.take(b - a) == s@.subrange(a as int, b as int));
    }
    string_of(&v, a, b)
}

/// Whether nothing but white space is in `s`.
pub fn is_blank(s: &str) -> (r: bool)
    ensures
        r == (trimmed(s@).len() == 0),
{
    let t = trim(s);
    t.as_str().is_empty()
}

/// `s` without its trailing `/` characters.
pub fn trim_end_slashes(s: &str) -> (r: String)
    ensures
        r@ == trim_end_where(s@, is_char('/')),
{
    let v = chars_of(s);
    let mut b: usize = v.len();
    while b > 0 && v[b - 1] == '/'
        invariant
            b <= v@.len(),
            v@ == s@,
            forall|i: int| b <= i < v@.len() ==> #[trigger] v@[i] == '/',
        decreases b,
    {
        b = b - 1;
    }
    proof {
        assert forall|i: int| b <= i < s@.len() implies is_char('/')(#[trigger] s@[i]) by {
            assert(v@[i] == '/');
        }
        lemma_trim_end_at(s@, is_char('/'), b as int);
        assert(s@.take(b as int) == s@.subrange(0, b as int));
    }
    string_of(&v, 0, b)
}

// ---------------------------------------------------------------------------
// Searching

/// `pat` stands in `s` at position `i`.
pub open spec fn stands_at(s: Seq<char>, pat: Seq<char>, i: int) -> bool {
    0 <= i && i + pat.len() <= s.len() && s.subrange(i, i + pat.len()) == pat
}

/// `pat` stands somewhere in `s`.
pub open spec fn contains(s: Seq<char>, pat: Seq<char>) -> bool {
    exists|i: int| stands_at(s, pat, i)
}

/// The first position at or after `i` at which `pat` stands in `s`.
pub open spec fn find_from(s: Seq<char>, pat: Seq<char>, i: int) -> Option<int>
    decreases s.len() - i,
{
    if i < 0 || i + pat.len() > s.len() {
        None
    } else if stands_at(s, pat, i) {
        Some(i)
    } else if i == s.len() {
        None
    } else {
        find_from(s, pat, i + 1)
    }
}

/// The first position at which `pat` stands in `s`.
pub open spec fn find(s: Seq<char>, pat: Seq<char>) -> Option<int> {
    find_from(s, pat, 0)
}

/// What comes before the first `pat` in `s`; all of `s` where there is none.
pub open spec fn before_first(s: Seq<char>, pat: Seq<char>) -> Seq<char> {
    match find(s, pat) {
        Some(i) => s.take(i),
        None => s,
    }
}

/// What comes after the first `pat` in `s`.
pub open spec fn after_first(s: Seq<char>, pat: Seq<char>) -> Option<Seq<char>> {
    match find(s, pat) {
        Some(i) => Some(s.skip(i + pat.len())),
        None => None,
    }
}

/// What comes after the last `c` in `s`; all of `s` where there is none.
pub open spec fn after_last_char(s: Seq<char>, c: char) -> Seq<char>
    decreases s.len(),
{
    if s.len() == 0 {
        s
    } else if s.last() == c {
        Seq::empty()
    } else {
        after_last_char(s.drop_last(), c).push(s.last())
    }
}

/// `find_from` gives the least position, and `None` only where there is none.
pub proof fn lemma_find_from(s: Seq<char>, pat: Seq<char>, i: int)
    requires
        0 <= i <= s.len(),
    ensures
        find_from(s, pat, i) matches Some(k) ==> i <= k && stands_at(s, pat, k) && forall|j: int|
            i <= j < k ==> !stands_at(s, pat, j),
        find_from(s, pat, i) is None ==> forall|j: int| i <= j ==> !stands_at(s, pat, j),
    decreases s.len() - i,
{
    if i + pat.len() <= s.len() && !stands_at(s, pat, i) && i < s.len() {
        lemma_find_from(s, pat, i + 1);
    }
}

/// `find` succeeds exactly where the pattern is contained.
pub proof fn lemma_find(s: Seq<char>, pat: Seq<char>)
    ensures
        contains(s, pat) <==> find(s, pat) is Some,
        find(s, pat) matches Some(k) ==> stands_at(s, pat, k) && forall|j: int|
            0 <= j < k ==> !stands_at(s, pat, j),
{
    lemma_find_from(s, pat, 0);
}

/// Whether `pat` stands in `v` at `i`.
pub fn matches_at(v: &Vec<char>, pat: &Vec<char>, i: usize) -> (r: bool)
    ensures
        r == stands_at(v@, pat@, i as int),
{
    if i > v.len() || pat.len() > v.len() - i {
        return false;
    }
    let n: usize = v.len();
    let mut k: usize = 0;
    while k < pat.len()
        invariant
            k <= pat@.len(),
            n == v@.len(),
            i + pat@.len() <= n,
            forall|j: int| 0 <= j < k ==> v@[i + j] == #[trigger] pat@[j],
        decreases pat@.len() - k,
    {
        if v[i + k] != pat[k] {
            assert(v@.subrange(i as int, i + pat@.len())[k as int] != pat@[k as int]);
            return false;
        }
        k = k + 1;
    }
    assert(v@.subrange(i as int, i + pat@.len()) == pat@);
    true
}

/// The first position at which `pat` stands in `v`.
pub fn find_in(v: &Vec<char>, pat: &Vec<char>) -> (r: Option<usize>)
    ensures
        r is Some <==> find(v@, pat@) is Some,
        r matches Some(k) ==> find(v@, pat@) == Some(k as int) && k + pat@.len() <= v@.len(),
{
    let n: usize = v.len();
    let mut i: usize = 0;
    while i <= n && pat.len() <= n - i
        invariant
            n == v@.len(),
            i <= n + 1,
            i <= n ==> find(v@, pat@) == find_from(v@, pat@, i as int),
            i == n + 1 ==> find(v@, pat@) is None,
        decreases n + 1 - i,
    {
        if matches_at(v, pat, i) {
            return Some(i);
        }
        if i == n {
            return None;
        }
        i = i + 1;
    }
    None
}

/// Whether `pat` stands somewhere in `s`.
pub fn contains_text(s: &str, pat: &str) -> (r: bool)
    ensures
        r == contains(s@, pat@),
{
    let v = chars_of(s);
    let p = chars_of(pat);
    proof {
        lemma_find(s@, pat@);
    }
    match find_in(&v, &p) {
        Some(_) => true,
        None => false,
    }
}

/// Whether `s` begins with `pat`.
pub fn starts_with(s: &str, pat: &str) -> (r: bool)
    ensures
        r == stands_at(s@, pat@, 0),
{
    let v = chars_of(s);
    let p = chars_of(pat);
    matches_at(&v, &p, 0)
}

/// What follows `pat` at the front of `s`.
pub fn strip_prefix(s: &str, pat: &str) -> (r: Option<String>)
    ensures
        r is Some <==> stands_at(s@, pat@, 0),
        r matches Some(t) ==> t@ == s@.skip(pat@.len() as int),
{
    let v = chars_of(s);
    let p = chars_of(pat);
    if matches_at(&v, &p, 0) {
        proof {
            assert(v@.subrange(p@.len() as int, v@.len() as int) == s@.skip(pat@.len() as int));
        }
        Some(string_of(&v, p.len(), v.len()))
    } else {
        None
    }
}

/// Whether the two texts are equal.
pub fn same(a: &str, b: &str) -> (r: bool)
    ensures
        r == (a@ == b@),
{
    let v = chars_of(a);
    let w = chars_of(b);
    proof {
        if stands_at(v@, w@, 0) && v@.len() == w@.len() {
            assert(v@.subrange(0, w@.len() as int) == v@);
        }
        if v@ == w@ {
            assert(v@.subrange(0, w@.len() as int) == v@);
        }
    }
    v.len() == w.len() && matches_at(&v, &w, 0)
}

/// What comes before the first `pat` in `s`; all of `s` where there is none.
pub fn cut_before(s: &str, pat: &str) -> (r: String)
    ensures
        r@ == before_first(s@, pat@),
{
    let v = chars_of(s);
    let p = chars_of(pat);
    match find_in(&v, &p) {
        Some(k) => {
            proof {
                assert(v@.subrange(0, k as int) == s@.take(k as int));
            }
            string_of(&v, 0, k)
        },
        None => s.to_owned(),
    }
}

/// What comes after the first `pat` in `s`.
pub fn cut_after(s: &str, pat: &str) -> (r: Option<String>)
    ensures
        r is Some <==> after_first(s@, pat@) is Some,
        r matches Some(t) ==> after_first(s@, pat@) == Some(t@),
{
    let v = chars_of(s);
    let p = chars_of(pat);
    match find_in(&v, &p) {
        Some(k) => {
            proof {
                assert(v@.subrange(k + p@.len(), v@.len() as int) == s@.skip(k + p@.len()));
            }
            let n: usize = v.len();
            Some(string_of(&v, k + p.len(), n))
        },
        None => None,
    }
}

/// A cut at `k` is the last segment when no `c` follows it and a `c` stands
/// right before it.
proof fn lemma_after_last_char(s: Seq<char>, c: char, k: int)
    requires
        0 <= k <= s.len(),
        forall|i: int| k <= i < s.len() ==> #[trigger] s[i] != c,
        k > 0 ==> s[k - 1] == c,
    ensures
        after_last_char(s, c) == s.skip(k),
    decreases s.len(),
{
    if k < s.len() {
        assert(s[s.len() - 1] != c);
        lemma_after_last_char(s.drop_last(), c, k);
        assert(s.drop_last().skip(k).push(s.last()) == s.skip(k));
    } else {
        assert(s.skip(k) == Seq::<char>::empty());
    }
}

/// What comes after the last `c` in `s`; all of `s` where there is none.
pub fn last_segment(s: &str, c: char) -> (r: String)
    ensures
        r@ == after_last_char(s@, c),
{
    let v = chars_of(s);
    let mut k: usize = v.len();
    while k > 0 && v[k - 1] != c
        invariant
            k <= v@.len(),
            forall|i: int| k <= i < v@.len() ==> #[trigger] v@[i] != c,
        decreases k,
    {
        k = k - 1;
    }
    proof {
        lemma_after_last_char(v@, c, k as int);
        assert(v@.subrange(k as int, v@.len() as int) == v@.skip(k as int));
    }
    string_of(&v, k, v.len())
}

// ---------------------------------------------------------------------------
// Repeated suffixes

/// `s` without every trailing copy of `suffix`.
pub open spec fn strip_suffixes(s: Seq<char>, suffix: Seq<char>) -> Seq<char>
    decreases s.len(),
{
    if suffix.len() > 0 && stands_at(s, suffix, s.len() - suffix.len()) {
        strip_suffixes(s.take(s.len() - suffix.len()), suffix)
    } else {
        s
    }
}

/// `s` without every trailing copy of `suffix`.
pub fn trim_end_suffix(s: &str, suffix: &str) -> (r: String)
    ensures
        r@ == strip_suffixes(s@, suffix@),
{
    let mut v = chars_of(s);
    let p = chars_of(suffix);
    let mut going: bool = p.len() > 0;
    while going && p.len() <= v.len() && matches_at(&v, &p, v.len() - p.len())
        invariant
            p@ == suffix@,
            going == (p@.len() > 0),
            strip_suffixes(s@, suffix@) == strip_suffixes(v@, suffix@),
        decreases v@.len(),
    {
        let k: usize = v.len() - p.len();
        proof {
            assert(v@.subrange(0, k as int) == v@.take(k as int));
        }
        v.truncate(k);
    }
    proof {
        assert(v@.subrange(0, v@.len() as int) == v@);
    }
    string_of(&v, 0, v.len())
}


// ---------------------------------------------------------------------------
// Numbers

/// An ASCII digit.
pub open spec fn digit(c: char) -> bool {
    '0' <= c && c <= '9'
}

/// The value of a string of digits.
pub open spec fn digits_value(s: Seq<char>) -> nat
    decreases s.len(),
{
    if s.len() == 0 {
        0
    } else {
        digits_value(s.drop_last()) * 10 + (s.last() as u32 - '0' as u32) as nat
    }
}

/// The number that `s` writes: an optional `+` and then only digits, at least
/// one of them, with a value of at most `max`.
pub open spec fn unsigned(s: Seq<char>, max: nat) -> Option<nat> {
    let d = without_plus(s);
    if all_digits(d) && digits_value(d) <= max {
        Some(digits_value(d))
    } else {
        None
    }
}

/// `s` without one leading `+`.
pub open spec fn without_plus(s: Seq<char>) -> Seq<char> {
    if s.len() > 0 && s[0] == '+' {
        s.skip(1)
    } else {
        s
    }
}

/// At least one character, and nothing but digits.
pub open spec fn all_digits(s: Seq<char>) -> bool {
    s.len() > 0 && forall|i: int| 0 <= i < s.len() ==> digit(#[trigger] s[i])
}

/// More digits never make a smaller number.
proof fn lemma_digits_grow(s: Seq<char>, k: int)
    requires
        0 <= k <= s.len(),
        forall|i: int| 0 <= i < s.len() ==> digit(#[trigger] s[i]),
    ensures
        digits_value(s.take(k)) <= digits_value(s),
    decreases s.len() - k,
{
    if k < s.len() {
        let t = s.drop_last();
        lemma_digits_grow(t, k);
        assert(t.take(k) == s.take(k));
        assert(digit(s[s.len() - 1]));
    } else {
        assert(s.take(k) == s);
    }
}

/// The `u64` that `s` writes.
pub fn parse_u64(s: &str) -> (r: Option<u64>)
    ensures
        r is Some <==> unsigned(s@, u64::MAX as nat) is Some,
        r matches Some(n) ==> unsigned(s@, u64::MAX as nat) == Some(n as nat),
{
    let v = chars_of(s);
    let start: usize = if v.len() > 0 && v[0] == '+' {
        1
    } else {
        0
    };
    let ghost d = without_plus(s@);
    proof {
        assert(d == v@.skip(start as int));
    }
    if v.len() == start {
        return None;
    }
    let mut value: u64 = 0;
    let mut i: usize = start;
    while i < v.len()
        invariant
            start <= i <= v@.len(),
            start <= 1,
            start < v@.len(),
            v@ == s@,
            d == v@.skip(start as int),
            d == without_plus(s@),
            forall|j: int| 0 <= j < i - start ==> digit(#[trigger] d[j]),
            value == digits_value(d.take(i - start)),
        decreases v@.len() - i,
    {
        let c = v[i];
        let ghost k = i - start;
        proof {
            assert(d[k] == c);
            assert(d.take(k + 1).drop_last() == d.take(k));
            assert(d.take(k + 1).last() == c);
        }
        if !('0' <= c && c <= '9') {
            assert(!digit(d[k]));
            return None;
        }
        let x: u64 = (c as u32 - 48) as u64;
        if value > (u64::MAX - x) / 10 {
            proof {
                if forall|j: int| 0 <= j < d.len() ==> digit(#[trigger] d[j]) {
                    lemma_digits_grow(d, k + 1);
                }
            }
            return None;
        }
        value = value * 10 + x;
        i = i + 1;
    }
    proof {
        assert(d.take(d.len() as int) == d);
    }
    Some(value)
}

/// The `u32` that `s` writes.
pub fn parse_u32(s: &str) -> (r: Option<u32>)
    ensures
        r is Some <==> unsigned(s@, u32::MAX as nat) is Some,
        r matches Some(n) ==> unsigned(s@, u32::MAX as nat) == Some(n as nat),
{
    match parse_u64(s) {
        Some(n) => {
            if n <= u32::MAX as u64 {
                Some(n as u32)
            } else {
                None
            }
        },
        None => None,
    }
}

/// The decimal digits of `n`, without leading zeros.
pub open spec fn decimal(n: nat) -> Seq<char>
    decreases n,
{
    let last = (('0' as u32 + n % 10) as u32) as char;
    if n < 10 {
        seq![last]
    } else {
        decimal(n / 10).push(last)
    }
}

/// The ASCII digit of value `x`.
fn digit_char(x: u64) -> (c: char)
    requires
        x < 10,
    ensures
        c == (('0' as u32 + x) as u32) as char,
        digit(c),
{
    let b: u8 = (48 + x) as u8;
    b as char
}

/// `n` in decimal.
pub fn decimal_text(n: u64) -> (s: String)
    ensures
        s@ == decimal(n as nat),
    decreases n,
{
    let last = digit_char(n % 10);
    if n < 10 {
        let mut s = String::new();
        s.push(last);
        s
    } else {
        let mut s = decimal_text(n / 10);
        s.push(last);
        s
    }
}

/// Reading back what `decimal` writes gives the number.
pub proof fn lemma_decimal_read_back(n: nat)
    ensures
        decimal(n).len() > 0,
        forall|i: int| 0 <= i < decimal(n).len() ==> digit(#[trigger] decimal(n)[i]),
        digits_value(decimal(n)) == n,
        without_plus(decimal(n)) == decimal(n),
    decreases n,
{
    let d = decimal(n);
    let last = (('0' as u32 + n % 10) as u32) as char;
    assert(digit(last));
    if n < 10 {
        assert(d.drop_last() == Seq::<char>::empty());
        assert(digits_value(d.drop_last()) == 0);
        assert(d.last() == last);
    } else {
        lemma_decimal_read_back(n / 10);
        assert(d.drop_last() == decimal(n / 10));
        assert forall|i: int| 0 <= i < d.len() implies digit(#[trigger] d[i]) by {
            if i < d.len() - 1 {
                assert(d[i] == decimal(n / 10)[i]);
            }
        }
    }
    assert(digit(d[0]));
}

// ---------------------------------------------------------------------------
// Order

/// The order of texts by code point, character by character; a prefix comes
/// before what it begins.
pub open spec fn less(a: Seq<char>, b: Seq<char>) -> bool
    decreases a.len(),
{
    if b.len() == 0 {
        false
    } else if a.len() == 0 {
        true
    } else if a[0] != b[0] {
        a[0] < b[0]
    } else {
        less(a.skip(1), b.skip(1))
    }
}

/// `less` is a strict total order.
pub proof fn lemma_less_order(a: Seq<char>, b: Seq<char>, c: Seq<char>)
    ensures
        !less(a, a),
        less(a, b) ==> !less(b, a),
        less(a, b) || less(b, a) || a == b,
        less(a, b) && less(b, c) ==> less(a, c),
    decreases a.len(),
{
    if a.len() > 0 && b.len() > 0 && a[0] == b[0] {
        lemma_less_order(a.skip(1), b.skip(1), c.skip(1));
        if a.skip(1) == b.skip(1) {
            assert(a == seq![a[0]] + a.skip(1));
            assert(b == seq![b[0]] + b.skip(1));
        }
    }
    if a.len() > 0 {
        lemma_less_order(a.skip(1), a.skip(1), a.skip(1));
    }
    if a.len() == 0 && b.len() == 0 {
        assert(a == b);
    }
}

/// Whether `a` comes before `b`.
pub fn comes_before(a: &str, b: &str) -> (r: bool)
    ensures
        r == less(a@, b@),
{
    let v = chars_of(a);
    let w = chars_of(b);
    let mut i: usize = 0;
    proof {
        assert(v@.skip(0) == a@);
        assert(w@.skip(0) == b@);
    }
    while i < v.len() && i < w.len() && v[i] == w[i]
        invariant
            i <= v@.len(),
            i <= w@.len(),
            less(a@, b@) == less(v@.skip(i as int), w@.skip(i as int)),
        decreases v@.len() - i,
    {
        proof {
            assert(v@.skip(i as int).skip(1) == v@.skip(i + 1));
            assert(w@.skip(i as int).skip(1) == w@.skip(i + 1));
        }
        i = i + 1;
    }
    if i == w.len() {
        false
    } else if i == v.len() {
        true
    } else {
        v[i] < w[i]
    }
}

/// The items whose text among `texts` holds `needle`.
pub open spec fn holding<A>(items: Seq<A>, texts: Seq<Seq<char>>, needle: Seq<char>) -> Seq<A>
    recommends
        texts.len() == items.len(),
    decreases items.len(),
{
    if items.len() == 0 {
        items
    } else {
        let before = holding(items.drop_last(), texts.drop_last(), needle);
        if contains(texts.last(), needle) {
            before.push(items.last())
        } else {
            before
        }
    }
}

// ---------------------------------------------------------------------------
// Case and joining

/// What `str::to_lowercase` makes of a text.
pub uninterp spec fn lowercase(s: Seq<char>) -> Seq<char>;

/// `str::to_lowercase`: the Unicode lowercase of the text. Which characters it
/// gives for which is left to `lowercase`.
#[verifier::external_body]
pub(crate) fn to_lowercase(s: &str) -> (r: String)
    ensures
        r@ == lowercase(s@),
{
    s.to_lowercase()
}

/// What the `Debug` of a text writes: the text in quotes, with escapes.
pub uninterp spec fn quoted(s: Seq<char>) -> Seq<char>;

/// `<str as Debug>::fmt`: the text in quotes, with escapes. Which characters it
/// escapes is left to `quoted`.
#[verifier::external_body]
pub(crate) fn quote(s: &str) -> (r: String)
    ensures
        r@ == quoted(s@),
{
    format!("{s:?}")
}

/// The texts in order, with `sep` between neighbours.
pub open spec fn joined(parts: Seq<Seq<char>>, sep: Seq<char>) -> Seq<char>
    decreases parts.len(),
{
    if parts.len() == 0 {
        Seq::empty()
    } else if parts.len() == 1 {
        parts[0]
    } else {
        joined(parts.drop_last(), sep) + sep + parts.last()
    }
}

/// The texts of a list.
pub open spec fn texts(v: Seq<String>) -> Seq<Seq<char>> {
    v.map_values(|s: String| s@)
}

/// The same texts again.
pub fn copy_texts(v: &Vec<String>) -> (w: Vec<String>)
    ensures
        w@ == v@,
{
    let mut w: Vec<String> = Vec::new();
    let mut i: usize = 0;
    while i < v.len()
        invariant
            i <= v@.len(),
            w@ == v@.take(i as int),
        decreases v@.len() - i,
    {
        w.push(v[i].clone());
        i = i + 1;
    }
    assert(w@ == v@);
    w
}

/// The texts in order, with `sep` between neighbours.
pub fn join(parts: &Vec<String>, sep: &str) -> (r: String)
    ensures
        r@ == joined(texts(parts@), sep@),
{
    let mut out = String::new();
    let mut i: usize = 0;
    while i < parts.len()
        invariant
            i <= parts@.len(),
            out@ == joined(texts(parts@).take(i as int), sep@),
        decreases parts@.len() - i,
    {
        let ghost t = texts(parts@);
        proof {
            assert(t.take(i + 1).drop_last() == t.take(i as int));
            assert(t.take(i + 1).last() == parts@[i as int]@);
        }
        if i > 0 {
            out.append(sep);
        } else {
            assert(out@ + parts@[0]@ == t.take(1)[0]);
        }
        out.append(&parts[i]);
        i = i + 1;
    }
    proof {
        assert(texts(parts@).take(parts@.len() as int) == texts(parts@));
    }
    out
}

/// `a` followed by `b`.
pub fn concat(a: &str, b: &str) -> (r: String)
    ensures
        r@ == a@ + b@,
{
    let mut out = a.to_owned();
    out.append(b);
    out
}

/// `a`, `b` and `c` in a row.
pub fn concat3(a: &str, b: &str, c: &str) -> (r: String)
    ensures
        r@ == a@ + b@ + c@,
{
    let mut out = a.to_owned();
    out.append(b);
    out.append(c);
    out
}

/// `s` filled up with spaces to at least `width` characters.
pub open spec fn padded_right(s: Seq<char>, width: nat) -> Seq<char> {
    if s.len() < width {
        s + spaces((width - s.len()) as nat)
    } else {
        s
    }
}

/// `s` with spaces in front, up to at least `width` characters.
pub open spec fn padded_left(s: Seq<char>, width: nat) -> Seq<char> {
    if s.len() < width {
        spaces((width - s.len()) as nat) + s
    } else {
        s
    }
}

/// `n` spaces.
pub open spec fn spaces(n: nat) -> Seq<char> {
    Seq::new(n, |i: int| ' ')
}

/// `n` spaces.
fn space_text(n: usize) -> (s: String)
    ensures
        s@ == spaces(n as nat),
{
    let mut s = String::new();
    let mut i: usize = 0;
    while i < n
        invariant
            i <= n,
            s@ == spaces(i as nat),
        decreases n - i,
    {
        s.push(' ');
        proof {
            assert(spaces(i as nat).push(' ') == spaces((i + 1) as nat));
        }
        i = i + 1;
    }
    s
}

/// `s` filled up with spaces to at least `width` characters.
pub fn pad_right(s: &str, width: usize) -> (r: String)
    ensures
        r@ == padded_right(s@, width as nat),
{
    let v = chars_of(s);
    let n: usize = v.len();
    if n < width {
        let fill = space_text(width - n);
        concat(s, &fill)
    } else {
        s.to_owned()
    }
}

/// `s` with spaces in front, up to at least `width` characters.
pub fn pad_left(s: &str, width: usize) -> (r: String)
    ensures
        r@ == padded_left(s@, width as nat),
{
    let v = chars_of(s);
    let n: usize = v.len();
    if n < width {
        let fill = space_text(width - n);
        concat(&fill, s)
    } else {
        s.to_owned()
    }
}

// ---------------------------------------------------------------------------
// Laws

/// Trimming cuts off white space at the two ends and nothing else: what is left
/// is one part of the text, all around it is white space, and it neither begins
/// nor ends with any.
pub proof fn law_trimming_cuts_only_white_space(s: Seq<char>) -> (r: (int, int))
    ensures
        0 <= r.0 <= r.1 <= s.len(),
        trimmed(s) == s.subrange(r.0, r.1),
        forall|i: int| 0 <= i < r.0 ==> white_space(#[trigger] s[i]),
        forall|i: int| r.1 <= i < s.len() ==> white_space(#[trigger] s[i]),
        r.0 < r.1 ==> !white_space(s[r.0]) && !white_space(s[r.1 - 1]),
{
    let m = trim_start_where(s, blank());
    lemma_trim_start_cuts(s, blank());
    lemma_trim_end_cuts(m, blank());
    lemma_trimmed(s);
    let a = s.len() - m.len();
    let b = a + trimmed(s).len();
    assert(trimmed(s) == s.subrange(a, b));
    assert forall|i: int| 0 <= i < a implies white_space(#[trigger] s[i]) by {
        assert(blank()(s[i]));
    }
    assert forall|i: int| b <= i < s.len() implies white_space(#[trigger] s[i]) by {
        assert(s[i] == m[i - a]);
        assert(blank()(m[i - a]));
    }
    if a < b {
        assert(trimmed(s)[0] == s[a]);
        assert(trimmed(s).last() == s[b - 1]);
    }
    (a, b)
}

proof fn lemma_trim_start_cuts(s: Seq<char>, p: spec_fn(char) -> bool)
    ensures
        trim_start_where(s, p).len() <= s.len(),
        trim_start_where(s, p) == s.skip(s.len() - trim_start_where(s, p).len()),
        forall|i: int| 0 <= i < s.len() - trim_start_where(s, p).len() ==> p(#[trigger] s[i]),
    decreases s.len(),
{
    lemma_trim_ends(s, p);
    if s.len() > 0 && p(s[0]) {
        let t = s.skip(1);
        lemma_trim_start_cuts(t, p);
        assert forall|i: int| 0 <= i < s.len() - trim_start_where(s, p).len() implies p(
            #[trigger] s[i],
        ) by {
            if i > 0 {
                assert(s[i] == t[i - 1]);
            }
        }
    }
}

proof fn lemma_trim_end_cuts(s: Seq<char>, p: spec_fn(char) -> bool)
    ensures
        trim_end_where(s, p).len() <= s.len(),
        trim_end_where(s, p) == s.take(trim_end_where(s, p).len() as int),
        forall|i: int| trim_end_where(s, p).len() <= i < s.len() ==> p(#[trigger] s[i]),
    decreases s.len(),
{
    lemma_trim_ends(s, p);
    if s.len() > 0 && p(s.last()) {
        let t = s.drop_last();
        lemma_trim_end_cuts(t, p);
        assert forall|i: int| trim_end_where(s, p).len() <= i < s.len() implies p(
            #[trigger] s[i],
        ) by {
            if i < t.len() {
                assert(s[i] == t[i]);
            }
        }
    }
}

/// Trimming the characters of one kind off the end cuts off all of them there
/// and nothing else.
pub proof fn law_trimming_an_end_cuts_only_that(s: Seq<char>, p: spec_fn(char) -> bool)
    ensures
        trim_end_where(s, p).len() <= s.len(),
        trim_end_where(s, p) == s.take(trim_end_where(s, p).len() as int),
        forall|i: int| trim_end_where(s, p).len() <= i < s.len() ==> p(#[trigger] s[i]),
        trim_end_where(s, p).len() > 0 ==> !p(trim_end_where(s, p).last()),
{
    lemma_trim_end_cuts(s, p);
    lemma_trim_ends(s, p);
}

/// A text contains another exactly where some part of it is equal to the other.
pub proof fn law_containing_is_having_a_part(s: Seq<char>, pat: Seq<char>)
    ensures
        contains(s, pat) <==> exists|i: int|
            0 <= i <= s.len() - pat.len() && #[trigger] s.subrange(i, i + pat.len()) == pat,
{
    if contains(s, pat) {
        let i = choose|i: int| stands_at(s, pat, i);
        assert(s.subrange(i, i + pat.len()) == pat);
    }
    if exists|i: int|
        0 <= i <= s.len() - pat.len() && #[trigger] s.subrange(i, i + pat.len()) == pat {
        let i = choose|i: int|
            0 <= i <= s.len() - pat.len() && #[trigger] s.subrange(i, i + pat.len()) == pat;
        assert(stands_at(s, pat, i));
    }
}

/// Cutting at a pattern takes a text apart at its first occurrence: the parts and
/// the pattern make up the whole, and the pattern stands nowhere before. Without
/// an occurrence the text stays whole.
pub proof fn law_cutting_is_at_the_first(s: Seq<char>, pat: Seq<char>)
    ensures
        match after_first(s, pat) {
            Some(rest) => s == before_first(s, pat) + pat + rest && forall|j: int|
                0 <= j < before_first(s, pat).len() && j + pat.len() <= s.len()
                    ==> #[trigger] s.subrange(j, j + pat.len()) != pat,
            None => before_first(s, pat) == s && forall|j: int|
                0 <= j && j + pat.len() <= s.len() ==> #[trigger] s.subrange(j, j + pat.len())
                    != pat,
        },
{
    lemma_find(s, pat);
    match find(s, pat) {
        Some(k) => {
            assert(s == s.take(k) + s.subrange(k, k + pat.len()) + s.skip(k + pat.len()));
            assert forall|j: int| 0 <= j < k && j + pat.len() <= s.len() implies
                #[trigger] s.subrange(j, j + pat.len()) != pat by {
                assert(!stands_at(s, pat, j));
            }
        },
        None => {
            lemma_find_from(s, pat, 0);
            assert forall|j: int| 0 <= j && j + pat.len() <= s.len() implies
                #[trigger] s.subrange(j, j + pat.len()) != pat by {
                assert(!stands_at(s, pat, j));
            }
        },
    }
}

/// What stands before the first pattern and after it is found again, wherever the
/// pattern does not begin earlier.
pub proof fn law_parts_are_found_again(front: Seq<char>, pat: Seq<char>, rest: Seq<char>)
    requires
        forall|j: int|
            0 <= j < front.len() ==> (#[trigger] (front + pat + rest).subrange(j, j + pat.len()))
                != pat,
    ensures
        before_first(front + pat + rest, pat) == front,
        after_first(front + pat + rest, pat) == Some(rest),
{
    let s = front + pat + rest;
    lemma_find(s, pat);
    let k = front.len() as int;
    assert(s.subrange(k, k + pat.len()) == pat);
    assert(stands_at(s, pat, k));
    assert forall|j: int| 0 <= j < k implies !stands_at(s, pat, j) by {
        assert(s.subrange(j, j + pat.len()) != pat);
    }
    assert(find(s, pat) == Some(k));
    assert(s.take(k) == front);
    assert(s.skip(k + pat.len()) == rest);
}

/// What comes after the last separator holds none, and the separator stands right
/// before it wherever anything does.
pub proof fn law_the_last_segment_is_last(s: Seq<char>, c: char)
    ensures
        after_last_char(s, c).len() <= s.len(),
        after_last_char(s, c) == s.skip(s.len() - after_last_char(s, c).len()),
        forall|i: int| 0 <= i < after_last_char(s, c).len() ==> #[trigger] after_last_char(s, c)[i] != c,
        after_last_char(s, c).len() < s.len() ==> s[s.len() - after_last_char(s, c).len() - 1] == c,
    decreases s.len(),
{
    if s.len() > 0 {
        if s.last() == c {
            assert(s.skip(s.len() as int) == Seq::<char>::empty());
        } else {
            let t = s.drop_last();
            law_the_last_segment_is_last(t, c);
            let r = after_last_char(t, c);
            assert(after_last_char(s, c) == r.push(s.last()));
            assert(t.skip(t.len() - r.len()).push(s.last()) == s.skip(s.len() - r.len() - 1));
            if r.len() < t.len() {
                assert(s[t.len() - r.len() - 1] == t[t.len() - r.len() - 1]);
            }
        }
    } else {
        assert(s.skip(0) == s);
    }
}

/// Taking off a suffix gives back what it was put behind, however often, where
/// that does not end in it.
pub proof fn law_a_suffix_comes_off(s: Seq<char>, suffix: Seq<char>)
    ensures
        suffix.len() > 0 ==> strip_suffixes(s + suffix, suffix) == strip_suffixes(s, suffix),
        suffix.len() == 0 || s.len() < suffix.len() || s.subrange(s.len() - suffix.len(), s.len() as int)
            != suffix ==> strip_suffixes(s, suffix) == s,
{
    let t = s + suffix;
    if suffix.len() > 0 {
        assert(t.subrange(t.len() - suffix.len(), t.len() as int) == suffix);
        assert(t.take(t.len() - suffix.len()) == s);
    }
}

/// One digit more makes the number ten times as large and adds the digit.
pub proof fn law_a_digit_more(s: Seq<char>, c: char)
    requires
        digit(c),
    ensures
        digits_value(Seq::empty()) == 0,
        digits_value(s.push(c)) == 10 * digits_value(s) + (c as u32 - 48),
{
    assert(s.push(c).drop_last() == s);
}

/// A number in decimal is that of its tenth, followed by its last digit; a number
/// below ten is its digit.
pub proof fn law_decimal_is_digit_by_digit(n: nat, d: nat)
    requires
        d < 10,
    ensures
        decimal(d) == seq![((48 + d) as u32) as char],
        n > 0 ==> decimal(10 * n + d) == decimal(n).push(((48 + d) as u32) as char),
{
    assert((10 * n + d) / 10 == n && (10 * n + d) % 10 == d);
}

/// Numbers are read as they are written: a number in decimal, with or without a
/// `+` in front and any number of zeros, is read where it is not too large, and
/// not read where it is.
pub proof fn law_numbers_read_back(n: nat, max: nat)
    ensures
        unsigned(decimal(n), max) == if n <= max {
            Some(n)
        } else {
            None
        },
        unsigned(seq!['+'] + decimal(n), max) == unsigned(decimal(n), max),
        unsigned(seq!['0'] + decimal(n), max) == unsigned(decimal(n), max),
{
    lemma_decimal_read_back(n);
    let d = decimal(n);
    assert((seq!['+'] + d).skip(1) == d);
    let z = seq!['0'] + d;
    lemma_leading_zero(d);
    assert forall|i: int| 0 <= i < z.len() implies digit(#[trigger] z[i]) by {
        if i > 0 {
            assert(z[i] == d[i - 1]);
        }
    }
    assert(without_plus(z) == z);
}

proof fn lemma_leading_zero(d: Seq<char>)
    ensures
        digits_value(seq!['0'] + d) == digits_value(d),
    decreases d.len(),
{
    let z = seq!['0'] + d;
    if d.len() == 0 {
        assert(z.drop_last() == Seq::<char>::empty());
        assert(digits_value(z.drop_last()) == 0);
    } else {
        lemma_leading_zero(d.drop_last());
        assert(z.drop_last() == seq!['0'] + d.drop_last());
        assert(z.last() == d.last());
    }
}

/// Only digits are read as a number, after at most one `+`.
pub proof fn law_only_digits_are_numbers(s: Seq<char>, max: nat, i: int)
    requires
        0 <= i < s.len(),
        !('0' <= s[i] && s[i] <= '9'),
        i > 0 || s[0] != '+' || s.len() == 1,
    ensures
        unsigned(s, max) is None,
        unsigned(Seq::empty(), max) is None,
{
    let d = without_plus(s);
    if s[0] == '+' {
        if i > 0 {
            assert(d[i - 1] == s[i]);
            assert(!digit(d[i - 1]));
        }
    } else {
        assert(!digit(d[i]));
    }
}

/// Texts compare like words in a dictionary: by the first character in which they
/// differ, and a text comes before those that go on from it.
pub proof fn law_texts_compare_like_words(
    front: Seq<char>,
    a: Seq<char>,
    b: Seq<char>,
    x: char,
    y: char,
)
    ensures
        !less(front, front),
        less(front, front + seq![x] + a),
        !less(front + seq![x] + a, front),
        x < y ==> less(front + seq![x] + a, front + seq![y] + b),
        x < y ==> !less(front + seq![y] + b, front + seq![x] + a),
    decreases front.len(),
{
    let p = front + seq![x] + a;
    let q = front + seq![y] + b;
    if front.len() > 0 {
        let rest = front.skip(1);
        law_texts_compare_like_words(rest, a, b, x, y);
        assert(p.skip(1) == rest + seq![x] + a);
        assert(q.skip(1) == rest + seq![y] + b);
    }
}

/// Any two texts are equal, or one goes on from the other, or they part at some
/// place: there is no third way for them to compare.
pub proof fn law_texts_part_somewhere(s: Seq<char>, t: Seq<char>) -> (k: int)
    ensures
        0 <= k <= s.len(),
        k <= t.len(),
        s.take(k) == t.take(k),
        k < s.len() && k < t.len() ==> s[k] != t[k],
        less(s, t) <==> k < t.len() && (k == s.len() || s[k] < t[k]),
    decreases s.len(),
{
    if s.len() == 0 || t.len() == 0 || s[0] != t[0] {
        assert(s.take(0) == t.take(0));
        0
    } else {
        let j = law_texts_part_somewhere(s.skip(1), t.skip(1));
        assert(s.take(j + 1) == seq![s[0]] + s.skip(1).take(j));
        assert(t.take(j + 1) == seq![t[0]] + t.skip(1).take(j));
        j + 1
    }
}

/// Joining two lists joins their joins, and a list of one is its text.
pub proof fn law_joining_goes_through(a: Seq<Seq<char>>, b: Seq<Seq<char>>, sep: Seq<char>)
    ensures
        joined(Seq::empty(), sep) == Seq::<char>::empty(),
        a.len() == 1 ==> joined(a, sep) == a[0],
        a.len() > 0 && b.len() > 0 ==> joined(a + b, sep) == joined(a, sep) + sep + joined(b, sep),
    decreases b.len(),
{
    if a.len() > 0 && b.len() > 0 {
        let c = b.drop_last();
        assert((a + b).drop_last() == a + c);
        if b.len() == 1 {
            assert(a + c == a);
        } else {
            law_joining_goes_through(a, c, sep);
            assert(joined(a + b, sep) == joined(a, sep) + sep + joined(b, sep));
        }
    }
}

/// Padding adds spaces on one side up to the width, and nothing else.
pub proof fn law_padding_adds_spaces(s: Seq<char>, width: nat, i: int)
    ensures
        padded_right(s, width).len() == if s.len() < width { width } else { s.len() },
        padded_left(s, width).len() == if s.len() < width { width } else { s.len() },
        0 <= i < s.len() ==> padded_right(s, width)[i] == s[i],
        s.len() <= i < width ==> padded_right(s, width)[i] == ' ',
        0 <= i < s.len() ==> padded_left(s, width)[padded_left(s, width).len() - s.len() + i] == s[i],
        0 <= i < width - s.len() ==> padded_left(s, width)[i] == ' ',
{
}

/// Choosing by a text works item by item: from two lists it gives what it gives
/// from each, and of one item it keeps that or nothing.
pub proof fn law_holding_goes_item_by_item<A>(
    a: Seq<A>,
    ta: Seq<Seq<char>>,
    b: Seq<A>,
    tb: Seq<Seq<char>>,
    needle: Seq<char>,
)
    requires
        a.len() == ta.len(),
        b.len() == tb.len(),
    ensures
        holding(a + b, ta + tb, needle) == holding(a, ta, needle) + holding(b, tb, needle),
        a.len() == 1 ==> holding(a, ta, needle) == if contains(ta[0], needle) {
            a
        } else {
            Seq::empty()
        },
    decreases b.len(),
{
    if a.len() == 1 {
        reveal_with_fuel(holding, 2);
        assert(a.drop_last() == Seq::<A>::empty());
        assert(Seq::<A>::empty().push(a[0]) == a);
    }
    if b.len() == 0 {
        assert(a + b == a);
        assert(ta + tb == ta);
        assert(holding(b, tb, needle) == Seq::<A>::empty());
        assert(holding(a, ta, needle) + Seq::<A>::empty() == holding(a, ta, needle));
    } else {
        law_holding_goes_item_by_item(a, ta, b.drop_last(), tb.drop_last(), needle);
        assert((a + b).drop_last() == a + b.drop_last());
        assert((ta + tb).drop_last() == ta + tb.drop_last());
        assert((a + b).last() == b.last());
        assert((ta + tb).last() == tb.last());
        assert(holding(a + b, ta + tb, needle) == holding(a, ta, needle) + holding(b, tb, needle));
    }
}

/// The texts of a list over sequences are all of them, each whole.
pub proof fn law_texts_are_seen_whole(v: Seq<String>, i: int)
    ensures
        texts(v).len() == v.len(),
        0 <= i < v.len() ==> texts(v)[i] == v[i]@,
{
}

/// Trimming takes off tabs and line ends, the space, the no-break and ideographic
/// spaces and the other spaces of Unicode, and no letter, digit, mark or symbol.
pub proof fn law_spaces_are_trimmed_and_nothing_else(c: char)
    ensures
        c == ' ' || c == '\t' || c == '\n' || c == '\r' || c == '\u{b}' || c == '\u{c}' || c
            == '\u{85}' || c == '\u{a0}' || c == '\u{3000}' ==> trimmed(seq![c]).len() == 0,
        c == '\u{1680}' || c == '\u{2028}' || c == '\u{2029}' || c == '\u{202f}' || c == '\u{205f}'
            ==> trimmed(seq![c]).len() == 0,
        0x2000 <= c as u32 <= 0x200a ==> trimmed(seq![c]).len() == 0,
        c as u32 <= 0x8 || 0xe <= c as u32 <= 0x1f || 0x21 <= c as u32 <= 0x84 ==> trimmed(seq![c])
            == seq![c],
        0x86 <= c as u32 <= 0x9f || 0xa1 <= c as u32 <= 0x167f || 0x1681 <= c as u32 <= 0x1fff
            ==> trimmed(seq![c]) == seq![c],
        0x200b <= c as u32 <= 0x2027 || 0x202a <= c as u32 <= 0x202e || 0x2030 <= c as u32 <= 0x205e
            ==> trimmed(seq![c]) == seq![c],
        0x2060 <= c as u32 <= 0x2fff || 0x3001 <= c as u32 ==> trimmed(seq![c]) == seq![c],
{
    let (a, b) = law_trimming_cuts_only_white_space(seq![c]);
    if a < b {
        assert(seq![c].subrange(0, 1) == seq![c]);
    } else {
        assert(a == 1 || b == 0);
        assert(white_space(seq![c][0]));
    }
}

}
