//! How episodes and progress are shown.
use crate::feed::{Episode, EpisodeView};
use crate::text;
use crate::text::{chars_of, concat, concat3, decimal_text, pad_left, pad_right, string_of};
use vstd::prelude::*;
use vstd::utf8::*;

verus! {

// ---------------------------------------------------------------------------
// Sizes

/// `a` divided by `d`, rounded to the nearest number, and to the even one of
/// two that are equally near.
pub open spec fn rounded_quotient(a: nat, d: nat) -> nat {
    let q = a / d;
    let r = a % d;
    if 2 * r > d || (2 * r == d && q % 2 == 1) {
        q + 1
    } else {
        q
    }
}

/// The distance of neighbouring numbers of 53 significant bits around `n`.
pub open spec fn spacing(n: nat) -> nat
    decreases n,
{
    if n < 0x20_0000_0000_0000 {
        1
    } else {
        2 * spacing(n / 2)
    }
}

/// `n` to 53 significant bits.
pub open spec fn significant(n: nat) -> nat {
    rounded_quotient(n, spacing(n)) * spacing(n)
}

/// `tenths` tenths.
pub open spec fn one_decimal(tenths: nat) -> Seq<char> {
    text::decimal(tenths / 10) + "."@ + text::decimal(tenths % 10)
}

/// `hundredths` hundredths.
pub open spec fn two_decimals(hundredths: nat) -> Seq<char> {
    text::decimal(hundredths / 100) + "."@ + text::decimal(hundredths / 10 % 10) + text::decimal(
        hundredths % 10,
    )
}

/// A number of bytes: in GiB to two decimals from one GiB on, below that in MiB
/// to one decimal. It is rounded first to 53 bits and then to the decimals.
pub open spec fn size_text(bytes: nat) -> Seq<char> {
    let n = significant(bytes);
    if n >= 0x4000_0000 {
        two_decimals(rounded_quotient(n * 100, 0x4000_0000)) + " GiB"@
    } else {
        one_decimal(rounded_quotient(n * 10, 0x10_0000)) + " MiB"@
    }
}

/// `a` divided by `d`, rounded.
fn divide_rounded(a: u128, d: u128) -> (q: u128)
    requires
        0 < d <= 0x1_0000_0000_0000_0000,
        a <= 0x1000_0000_0000_0000_0000,
    ensures
        q == rounded_quotient(a as nat, d as nat),
        q <= a / d + 1,
{
    let q: u128 = a / d;
    let r: u128 = a % d;
    if 2 * r > d || (2 * r == d && q % 2 == 1) {
        proof {
            assert(q <= a) by (nonlinear_arith)
                requires
                    q == a / d,
                    d > 0,
            ;
        }
        q + 1
    } else {
        q
    }
}

proof fn lemma_spacing(n: nat)
    requires
        n <= u64::MAX,
    ensures
        1 <= spacing(n) <= 2048,
{
    reveal_with_fuel(spacing, 12);
}

/// `n` to 53 significant bits.
fn to_significant(n: u64) -> (r: u128)
    ensures
        r == significant(n as nat),
        r <= 0x1_0000_0000_0000_0800,
{
    let mut step: u128 = 1;
    let mut m: u64 = n;
    proof {
        lemma_spacing(n as nat);
    }
    while m >= 0x20_0000_0000_0000
        invariant
            1 <= step,
            m <= n,
            step * spacing(m as nat) == spacing(n as nat),
            step <= spacing(n as nat) <= 2048,
        decreases m,
    {
        proof {
            lemma_spacing(m as nat);
            lemma_spacing(n as nat);
            assert((step * 2) * spacing((m / 2) as nat) == step * (2 * spacing((m / 2) as nat)))
                by (nonlinear_arith);
            assert(step * 2 <= (step * 2) * spacing((m / 2) as nat)) by (nonlinear_arith)
                requires
                    spacing((m / 2) as nat) >= 1,
            ;
            lemma_spacing((m / 2) as nat);
        }
        step = step * 2;
        m = m / 2;
    }
    let q: u128 = divide_rounded(n as u128, step);
    proof {
        lemma_significant_bound(n as nat);
        assert(step == spacing(n as nat)) by {
            assert(spacing(m as nat) == 1);
            assert(step * 1 == step);
        }
    }
    q * step
}

proof fn lemma_significant_bound(n: nat)
    requires
        n <= u64::MAX,
    ensures
        significant(n) <= 0x1_0000_0000_0000_0800,
{
    lemma_spacing(n);
    let d = spacing(n);
    let q = n / d;
    assert(q * d <= n && (q + 1) * d <= n + d) by (nonlinear_arith)
        requires
            q == n / d,
            d > 0,
    ;
}

/// `tenths` tenths.
fn one_decimal_text(tenths: u64) -> (s: String)
    ensures
        s@ == one_decimal(tenths as nat),
{
    let whole = decimal_text(tenths / 10);
    let part = decimal_text(tenths % 10);
    concat3(&whole, ".", &part)
}

/// `hundredths` hundredths.
fn two_decimals_text(hundredths: u64) -> (s: String)
    ensures
        s@ == two_decimals(hundredths as nat),
{
    let whole = decimal_text(hundredths / 100);
    let first = decimal_text(hundredths / 10 % 10);
    let second = decimal_text(hundredths % 10);
    let front = concat3(&whole, ".", &first);
    concat(&front, &second)
}

/// A number of bytes as it is shown.
pub fn fmt_size(bytes: u64) -> (s: String)
    ensures
        s@ == size_text(bytes as nat),
{
    let n: u128 = to_significant(bytes);
    if n >= 0x4000_0000 {
        let h: u128 = divide_rounded(n * 100, 0x4000_0000);
        let t = two_decimals_text(h as u64);
        concat(&t, " GiB")
    } else {
        let t: u128 = divide_rounded(n * 10, 0x10_0000);
        let u = one_decimal_text(t as u64);
        concat(&u, " MiB")
    }
}

/// Below 2^53 bytes nothing is lost but by the decimals that are shown.
pub proof fn law_small_sizes_are_rounded_once(bytes: nat)
    requires
        bytes < 0x20_0000_0000_0000,
    ensures
        significant(bytes) == bytes,
{
    assert(rounded_quotient(bytes, 1) == bytes);
    assert(bytes * 1 == bytes);
}

// ---------------------------------------------------------------------------
// Episodes

/// The number of bytes that a character takes up in UTF-8.
pub open spec fn byte_width(c: char) -> nat {
    let u = c as u32;
    if u < 0x80 {
        1
    } else if u < 0x800 {
        2
    } else if u < 0x1_0000 {
        3
    } else {
        4
    }
}

/// The text that the first `n` bytes of `s` hold: nothing where `s` is shorter
/// or where they end inside a character.
pub open spec fn byte_prefix(s: Seq<char>, n: nat) -> Option<Seq<char>>
    decreases s.len(),
{
    if n == 0 {
        Some(Seq::empty())
    } else if s.len() == 0 || byte_width(s[0]) > n {
        None
    } else {
        match byte_prefix(s.skip(1), (n - byte_width(s[0])) as nat) {
            Some(t) => Some(seq![s[0]] + t),
            None => None,
        }
    }
}

/// The day of a date, which is its first ten bytes.
pub open spec fn day(date: Option<Seq<char>>) -> Seq<char> {
    match date {
        Some(d) => match byte_prefix(d, 10) {
            Some(t) => t,
            None => "?"@,
        },
        None => "?"@,
    }
}

/// A size that may be unknown.
pub open spec fn size_or_unknown(size: Option<u64>) -> Seq<char> {
    match size {
        Some(n) => size_text(n as nat),
        None => "?"@,
    }
}

/// An episode in a list: title, size and day.
pub open spec fn row_text(e: EpisodeView) -> Seq<char> {
    e.title + "  ("@ + size_or_unknown(e.size) + ", "@ + day(e.pub_date) + ")"@
}

/// An episode in a list.
pub struct Row(pub Episode);

/// The number of bytes that a character takes up in UTF-8.
fn utf8_width(c: char) -> (n: usize)
    ensures
        n == byte_width(c),
{
    let u: u32 = c as u32;
    if u < 0x80 {
        1
    } else if u < 0x800 {
        2
    } else if u < 0x1_0000 {
        3
    } else {
        4
    }
}

/// The text that the first `n` bytes of `s` hold.
pub fn first_bytes(s: &str, n: usize) -> (r: Option<String>)
    ensures
        r is Some <==> byte_prefix(s@, n as nat) is Some,
        r matches Some(t) ==> byte_prefix(s@, n as nat) == Some(t@),
{
    let v = chars_of(s);
    let mut i: usize = 0;
    let mut left: usize = n;
    proof {
        assert(v@.skip(0) == s@);
    }
    while left > 0
        invariant
            i <= v@.len(),
            v@ == s@,
            match byte_prefix(v@.skip(i as int), left as nat) {
                Some(t) => byte_prefix(s@, n as nat) == Some(v@.take(i as int) + t),
                None => byte_prefix(s@, n as nat) is None,
            },
        decreases left,
    {
        if i >= v.len() {
            return None;
        }
        let w: usize = utf8_width(v[i]);
        proof {
            assert(v@.skip(i as int)[0] == v@[i as int]);
        }
        if w > left {
            return None;
        }
        proof {
            assert(v@.skip(i as int).skip(1) == v@.skip(i + 1));
            if let Some(t) = byte_prefix(v@.skip(i + 1), (left - w) as nat) {
                assert(v@.take(i as int) + (seq![v@[i as int]] + t) == v@.take(i + 1) + t);
            }
        }
        left = left - w;
        i = i + 1;
    }
    proof {
        assert(v@.take(i as int) + Seq::<char>::empty() == v@.subrange(0, i as int));
    }
    Some(string_of(&v, 0, i))
}

/// What `byte_prefix` finds is the part of `s` whose UTF-8 takes up exactly `n`
/// bytes, and it finds nothing only where there is no such part.
pub proof fn law_byte_prefix_counts_utf8(s: Seq<char>, n: nat, k: int)
    requires
        0 <= k <= s.len(),
    ensures
        byte_prefix(s, n) matches Some(t) ==> t.len() <= s.len() && t == s.take(t.len() as int)
            && encode_utf8(t).len() == n,
        byte_prefix(s, n) is None ==> encode_utf8(s.take(k)).len() != n,
    decreases s.len(),
{
    if n == 0 {
        assert(s.take(0) == Seq::<char>::empty());
    } else {
        if s.len() > 0 {
            let w = byte_width(s[0]);
            char_is_scalar(s[0]);
            assert(encode_scalar(s[0] as u32).len() == w);
            let rest = s.skip(1);
            if k > 0 {
                assert(s.take(k).drop_first() == rest.take(k - 1));
                assert(s.take(k)[0] == s[0]);
                assert(encode_utf8(s.take(k)).len() == w + encode_utf8(rest.take(k - 1)).len());
            }
            if w <= n {
                let m = (n - w) as nat;
                law_byte_prefix_counts_utf8(
                    rest,
                    m,
                    if k > 0 {
                        k - 1
                    } else {
                        0
                    },
                );
                if let Some(t) = byte_prefix(rest, m) {
                    let whole = seq![s[0]] + t;
                    assert(whole.drop_first() == t);
                    assert(whole == s.take(whole.len() as int));
                }
            }
        }
        assert(s.take(0) == Seq::<char>::empty());
    }
}

impl Row {
    /// What a list shows of it.
    pub fn label(&self) -> (s: String)
        ensures
            s@ == row_text(self.0@),
    {
        let size = match self.0.size {
            Some(n) => fmt_size(n),
            None => "?".to_owned(),
        };
        let date = match &self.0.pub_date {
            Some(d) => match first_bytes(d, 10) {
                Some(t) => t,
                None => "?".to_owned(),
            },
            None => "?".to_owned(),
        };
        let front = concat3(&self.0.title, "  (", &size);
        let back = concat3(&front, ", ", &date);
        concat(&back, ")")
    }
}

/// The episodes in a list of rows.
pub open spec fn row_views(rows: Seq<&Row>) -> Seq<EpisodeView> {
    rows.map_values(|r: &Row| r.0@)
}

/// The sum of the sizes that are known.
pub open spec fn total_size(episodes: Seq<EpisodeView>) -> nat
    decreases episodes.len(),
{
    if episodes.len() == 0 {
        0
    } else {
        total_size(episodes.drop_last()) + match episodes.last().size {
            Some(n) => n as nat,
            None => 0,
        }
    }
}

/// Some episode has a known size.
pub open spec fn some_size(episodes: Seq<EpisodeView>) -> bool {
    exists|i: int| 0 <= i < episodes.len() && (#[trigger] episodes[i]).size is Some
}

/// The titles, one to a line.
pub open spec fn bulleted(episodes: Seq<EpisodeView>) -> Seq<char>
    decreases episodes.len(),
{
    if episodes.len() == 0 {
        Seq::empty()
    } else {
        bulleted(episodes.drop_last()) + "\n  • "@ + episodes.last().title
    }
}

/// What is shown of the episodes that were picked: their number, the size of
/// those whose size is known, and their titles.
pub open spec fn summary(episodes: Seq<EpisodeView>) -> Seq<char> {
    let count = "\n"@ + text::decimal(episodes.len()) + " 集"@;
    let header = if some_size(episodes) {
        count + " · "@ + size_text(total_size(episodes))
    } else {
        count
    };
    header + bulleted(episodes)
}

proof fn lemma_total_grows(episodes: Seq<EpisodeView>, k: int)
    requires
        0 <= k <= episodes.len(),
    ensures
        total_size(episodes.take(k)) <= total_size(episodes),
    decreases episodes.len() - k,
{
    if k < episodes.len() {
        lemma_total_grows(episodes.drop_last(), k);
        assert(episodes.drop_last().take(k) == episodes.take(k));
    } else {
        assert(episodes.take(k) == episodes);
    }
}

/// What is shown of the episodes that were picked. Their sizes must add up to a
/// number of 64 bits.
pub fn episode_selection_summary(selected: &Vec<&Row>) -> (s: String)
    requires
        total_size(row_views(selected@)) <= u64::MAX,
    ensures
        s@ == summary(row_views(selected@)),
{
    let ghost all = row_views(selected@);
    let mut total: u64 = 0;
    let mut sized: bool = false;
    let mut list = String::new();
    let mut i: usize = 0;
    proof {
        assert(all.take(0) == Seq::<EpisodeView>::empty());
    }
    while i < selected.len()
        invariant
            i <= selected@.len(),
            all == row_views(selected@),
            total_size(all) <= u64::MAX,
            total == total_size(all.take(i as int)),
            sized == some_size(all.take(i as int)),
            list@ == bulleted(all.take(i as int)),
        decreases selected@.len() - i,
    {
        let row: &Row = selected[i];
        proof {
            let next = all.take(i + 1);
            assert(next.drop_last() == all.take(i as int));
            assert(next.last() == row.0@);
            lemma_total_grows(all, i + 1);
            if some_size(all.take(i as int)) {
                let k = choose|k: int|
                    0 <= k < i && (#[trigger] all.take(i as int)[k]).size is Some;
                assert(next[k].size is Some);
            }
            if row.0.size is Some {
                assert(next[i as int].size is Some);
            }
            if some_size(next) && row.0.size is None {
                let k = choose|k: int| 0 <= k < i + 1 && (#[trigger] next[k]).size is Some;
                assert(all.take(i as int)[k].size is Some);
            }
        }
        if let Some(n) = row.0.size {
            total = total + n;
            sized = true;
        }
        list.append("\n  • ");
        list.append(&row.0.title);
        i = i + 1;
    }
    proof {
        assert(all.take(all.len() as int) == all);
    }
    let count = decimal_text(selected.len() as u64);
    let mut out = concat3("\n", &count, " 集");
    if sized {
        let size = fmt_size(total);
        out.append(" · ");
        out.append(&size);
    }
    out.append(&list);
    out
}

// ---------------------------------------------------------------------------
// Progress

/// A line to print: to the standard output, or to the error output.
#[derive(Debug)]
pub enum Line {
    Out(String),
    Warning(String),
}

/// A line over a sequence of characters.
pub enum LineView {
    Out(Seq<char>),
    Warning(Seq<char>),
}

impl View for Line {
    type V = LineView;

    open spec fn view(&self) -> LineView {
        match self {
            Line::Out(t) => LineView::Out(t@),
            Line::Warning(t) => LineView::Warning(t@),
        }
    }
}

/// The lines of a list.
pub open spec fn lines(v: Seq<Line>) -> Seq<LineView> {
    v.map_values(|l: Line| l@)
}

/// No line.
pub fn nothing() -> (v: Vec<Line>)
    ensures
        lines(v@) == Seq::<LineView>::empty(),
{
    let v: Vec<Line> = Vec::new();
    assert(lines(v@) == Seq::<LineView>::empty());
    v
}

/// One line to the standard output.
pub fn said(text: String) -> (v: Vec<Line>)
    ensures
        lines(v@) == seq![LineView::Out(text@)],
{
    let mut v: Vec<Line> = Vec::new();
    v.push(Line::Out(text));
    assert(lines(v@) == seq![LineView::Out(text@)]);
    v
}

/// One line to the error output.
pub fn warned(text: String) -> (v: Vec<Line>)
    ensures
        lines(v@) == seq![LineView::Warning(text@)],
{
    let mut v: Vec<Line> = Vec::new();
    v.push(Line::Warning(text));
    assert(lines(v@) == seq![LineView::Warning(text@)]);
    v
}

/// A line of progress: the counter, the status in a column of sixteen, and what
/// it is about.
pub open spec fn progress_text(tag: Seq<char>, status: Seq<char>, detail: Seq<char>) -> Seq<char> {
    tag + " "@ + text::padded_right(status, 16) + " "@ + detail
}

/// A line of progress.
pub fn progress(tag: &str, status: &str, detail: &str) -> (s: String)
    ensures
        s@ == progress_text(tag@, status@, detail@),
{
    let column = pad_right(status, 16);
    let front = concat3(tag, " ", &column);
    concat3(&front, " ", detail)
}

/// The counter of the item at `index` (from zero) among `count`, as wide for
/// each of them as for the last.
pub open spec fn counter(index: nat, count: nat) -> Seq<char> {
    "["@ + text::padded_left(text::decimal(index + 1), text::decimal(count).len()) + "/"@
        + text::decimal(count) + "]"@
}

/// The counter of the item at `index` (from zero) among `count`.
pub fn counter_tag(index: usize, count: usize) -> (s: String)
    requires
        index < count,
    ensures
        s@ == counter(index as nat, count as nat),
{
    let all = decimal_text(count as u64);
    let width: usize = chars_of(&all).len();
    let here = decimal_text(index as u64 + 1);
    let number = pad_left(&here, width);
    let front = concat3("[", &number, "/");
    concat3(&front, &all, "]")
}

proof fn lemma_longer_numbers(a: nat, b: nat)
    requires
        a <= b,
    ensures
        text::decimal(a).len() <= text::decimal(b).len(),
    decreases b,
{
    if b >= 10 && a >= 10 {
        lemma_longer_numbers(a / 10, b / 10);
    }
}

/// The counters of one list are equally long, so that what follows them stands
/// in one column.
pub proof fn law_counters_are_aligned(i: nat, j: nat, count: nat)
    requires
        i < count,
        j < count,
    ensures
        counter(i, count).len() == counter(j, count).len(),
{
    lemma_longer_numbers(i + 1, count);
    lemma_longer_numbers(j + 1, count);
}

/// A status of up to sixteen characters takes up one column with any other.
pub proof fn law_progress_is_aligned(
    tag: Seq<char>,
    a: Seq<char>,
    b: Seq<char>,
    detail: Seq<char>,
)
    requires
        a.len() <= 16,
        b.len() <= 16,
    ensures
        progress_text(tag, a, detail).len() == progress_text(tag, b, detail).len(),
        progress_text(tag, a, detail).len() == tag.len() + 18 + detail.len(),
{
    reveal_strlit(" ");
}

// ---------------------------------------------------------------------------
// Laws of what is shown

/// A rounded quotient is the nearest number, and of two that are equally near the
/// even one.
pub proof fn law_rounding_is_to_the_nearest(a: nat, d: nat)
    requires
        d > 0,
    ensures
        2 * (a - rounded_quotient(a, d) * d) <= d,
        2 * (rounded_quotient(a, d) * d - a) <= d,
        2 * (a - rounded_quotient(a, d) * d) == d || 2 * (rounded_quotient(a, d) * d - a) == d
            ==> rounded_quotient(a, d) % 2 == 0,
{
    let q = a / d;
    let r = a % d;
    assert(a == q * d + r && r < d) by (nonlinear_arith)
        requires
            q == a / d,
            r == a % d,
            d > 0,
    ;
    assert((q + 1) * d == q * d + d) by (nonlinear_arith);
}

/// A number of at most 53 bits is kept as it is. A longer one is kept to the nearest
/// multiple of the power of two, returned by its exponent, that leaves 53 bits.
pub proof fn law_significant_bits_are_kept(n: nat) -> (k: nat)
    ensures
        n < 0x20_0000_0000_0000 ==> k == 0 && significant(n) == n,
        n >= 0x20_0000_0000_0000 ==> 0x10_0000_0000_0000 <= n / vstd::arithmetic::power2::pow2(k)
            < 0x20_0000_0000_0000,
        vstd::arithmetic::power2::pow2(k) > 0,
        significant(n) % vstd::arithmetic::power2::pow2(k) == 0,
        2 * (n - significant(n)) <= vstd::arithmetic::power2::pow2(k),
        2 * (significant(n) - n) <= vstd::arithmetic::power2::pow2(k),
{
    let k = lemma_spacing_is_a_power(n);
    let p = vstd::arithmetic::power2::pow2(k);
    vstd::arithmetic::power2::lemma_pow2_pos(k);
    law_rounding_is_to_the_nearest(n, p);
    let q = rounded_quotient(n, p);
    vstd::arithmetic::div_mod::lemma_mod_multiples_basic(q as int, p as int);
    if n < 0x20_0000_0000_0000 {
        law_small_sizes_are_rounded_once(n);
    }
    k
}

proof fn lemma_spacing_is_a_power(n: nat) -> (k: nat)
    ensures
        spacing(n) == vstd::arithmetic::power2::pow2(k),
        n < 0x20_0000_0000_0000 ==> k == 0,
        n >= 0x20_0000_0000_0000 ==> 0x10_0000_0000_0000 <= n / vstd::arithmetic::power2::pow2(k)
            < 0x20_0000_0000_0000,
    decreases n,
{
    if n < 0x20_0000_0000_0000 {
        vstd::arithmetic::power2::lemma2_to64();
        0
    } else {
        let j = lemma_spacing_is_a_power(n / 2);
        vstd::arithmetic::power2::lemma2_to64();
        vstd::arithmetic::power2::lemma_pow2_pos(j);
        vstd::arithmetic::power2::lemma_pow2_unfold(j + 1);
        let p = vstd::arithmetic::power2::pow2(j);
        vstd::arithmetic::div_mod::lemma_div_denominator(n as int, 2, p as int);
        assert(n / vstd::arithmetic::power2::pow2(j + 1) == (n / 2) / p);
        j + 1
    }
}

/// A size of at least one GiB is shown as the nearest number of hundredths of a GiB,
/// which is returned; a smaller one as the nearest number of tenths of a MiB.
pub proof fn law_sizes_are_shown_to_the_nearest(bytes: nat) -> (h: nat)
    requires
        bytes < 0x20_0000_0000_0000,
    ensures
        bytes >= 0x4000_0000 ==> {
            &&& 2 * (bytes * 100 - h * 0x4000_0000) <= 0x4000_0000
            &&& 2 * (h * 0x4000_0000 - bytes * 100) <= 0x4000_0000
            &&& size_text(bytes) == text::decimal(h / 100) + "."@ + text::decimal(h / 10 % 10)
                + text::decimal(h % 10) + " GiB"@
        },
        bytes < 0x4000_0000 ==> {
            &&& 2 * (bytes * 10 - h * 0x10_0000) <= 0x10_0000
            &&& 2 * (h * 0x10_0000 - bytes * 10) <= 0x10_0000
            &&& size_text(bytes) == text::decimal(h / 10) + "."@ + text::decimal(h % 10) + " MiB"@
        },
{
    law_small_sizes_are_rounded_once(bytes);
    if bytes >= 0x4000_0000 {
        law_rounding_is_to_the_nearest(bytes * 100, 0x4000_0000);
        rounded_quotient(bytes * 100, 0x4000_0000)
    } else {
        law_rounding_is_to_the_nearest(bytes * 10, 0x10_0000);
        rounded_quotient(bytes * 10, 0x10_0000)
    }
}

/// A larger size is shown as the size of what is kept of it in 53 bits.
pub proof fn law_large_sizes_are_shown_by_their_bits(bytes: nat) -> (h: nat)
    requires
        bytes >= 0x20_0000_0000_0000,
    ensures
        2 * (significant(bytes) * 100 - h * 0x4000_0000) <= 0x4000_0000,
        2 * (h * 0x4000_0000 - significant(bytes) * 100) <= 0x4000_0000,
        size_text(bytes) == text::decimal(h / 100) + "."@ + text::decimal(h / 10 % 10)
            + text::decimal(h % 10) + " GiB"@,
{
    let k = law_significant_bits_are_kept(bytes);
    let p = vstd::arithmetic::power2::pow2(k);
    assert(p <= bytes) by (nonlinear_arith)
        requires
            bytes / p >= 1,
            p > 0,
    ;
    assert(significant(bytes) >= 0x4000_0000);
    law_rounding_is_to_the_nearest(significant(bytes) * 100, 0x4000_0000);
    rounded_quotient(significant(bytes) * 100, 0x4000_0000)
}

/// A row shows the whole title, then the size, and the first ten characters of a
/// date written in ASCII; what is unknown is shown as `?`.
pub proof fn law_a_row_shows_its_episode(e: EpisodeView)
    ensures
        e.size is None && e.pub_date is None ==> row_text(e) == e.title + "  (?, ?)"@,
        e.size is Some && e.pub_date is None ==> row_text(e) == e.title + "  ("@
            + size_text(e.size->0 as nat) + ", "@ + "?"@ + ")"@,
        (e.size is Some && (e.pub_date matches Some(d) && (d.len() >= 10 && forall|i: int|
            0 <= i < 10 ==> (#[trigger] d[i]) as u32 <= 0x7f)) ==> row_text(e) == e.title + "  ("@
            + size_text(e.size->0 as nat) + ", "@ + e.pub_date->0.take(10) + ")"@),
        (e.size is None && (e.pub_date matches Some(d) && (d.len() >= 10 && forall|i: int|
            0 <= i < 10 ==> (#[trigger] d[i]) as u32 <= 0x7f)) ==> row_text(e) == e.title + "  ("@
            + "?"@ + ", "@ + e.pub_date->0.take(10) + ")"@),
{
    reveal_strlit("  (");
    reveal_strlit("?");
    reveal_strlit(", ");
    reveal_strlit(")");
    reveal_strlit("  (?, ?)");
    if e.size is None && e.pub_date is None {
        assert(row_text(e) =~= e.title + "  (?, ?)"@);
    }
    if let Some(d) = e.pub_date {
        if d.len() >= 10 && forall|i: int| 0 <= i < 10 ==> (#[trigger] d[i]) as u32 <= 0x7f {
            lemma_ascii_prefix(d, 10);
        }
    }
}

proof fn lemma_ascii_prefix(s: Seq<char>, n: nat)
    requires
        n <= s.len(),
        forall|i: int| 0 <= i < n ==> (#[trigger] s[i]) as u32 <= 0x7f,
    ensures
        byte_prefix(s, n) == Some(s.take(n as int)),
    decreases n,
{
    if n == 0 {
        assert(s.take(0) == Seq::<char>::empty());
    } else {
        let t = s.skip(1);
        assert(s[0] as u32 <= 0x7f);
        assert forall|i: int| 0 <= i < n - 1 implies (#[trigger] t[i]) as u32 <= 0x7f by {
            assert(t[i] == s[i + 1]);
        }
        lemma_ascii_prefix(t, (n - 1) as nat);
        assert(seq![s[0]] + t.take(n - 1) == s.take(n as int));
    }
}

/// A summary counts all the episodes, adds up all the known sizes and lists every
/// title: the sums and the lists of two parts make those of the whole.
pub proof fn law_a_summary_goes_through_all(a: Seq<EpisodeView>, b: Seq<EpisodeView>)
    ensures
        total_size(a + b) == total_size(a) + total_size(b),
        total_size(Seq::empty()) == 0,
        a.len() == 1 && a[0].size is None ==> total_size(a) == 0,
        a.len() == 1 ==> (a[0].size matches Some(n) ==> total_size(a) == n),
        bulleted(a + b) == bulleted(a) + bulleted(b),
        bulleted(Seq::empty()) == Seq::<char>::empty(),
        a.len() == 1 ==> bulleted(a) == "\n  • "@ + a[0].title,
    decreases b.len(),
{
    if b.len() == 0 {
        assert(a + b == a);
        assert(bulleted(a) + Seq::<char>::empty() == bulleted(a));
        assert(b == Seq::<EpisodeView>::empty());
    } else {
        law_a_summary_goes_through_all(a, b.drop_last());
        assert((a + b).drop_last() == a + b.drop_last());
        assert((a + b).last() == b.last());
        assert(bulleted(a) + bulleted(b) == bulleted(a) + bulleted(b.drop_last()) + "\n  • "@
            + b.last().title);
    }
    if a.len() == 1 {
        assert(a.drop_last() == Seq::<EpisodeView>::empty());
        reveal_with_fuel(total_size, 2);
        reveal_with_fuel(bulleted, 2);
        assert(Seq::<char>::empty() + "\n  • "@ == "\n  • "@);
    }
}

/// A summary begins with the number of episodes, and with the sum of the sizes
/// where one is known; the titles follow.
pub proof fn law_a_summary_begins_with_the_count(episodes: Seq<EpisodeView>)
    ensures
        (forall|i: int| 0 <= i < episodes.len() ==> (#[trigger] episodes[i]).size is None)
            ==> summary(episodes) == "\n"@ + text::decimal(episodes.len()) + " 集"@ + bulleted(
            episodes,
        ),
        (exists|i: int| 0 <= i < episodes.len() && (#[trigger] episodes[i]).size is Some)
            ==> summary(episodes) == "\n"@ + text::decimal(episodes.len()) + " 集"@ + " · "@
            + size_text(total_size(episodes)) + bulleted(episodes),
{
}

/// A counter shows the number of the item, from one on, before the number of all,
/// with spaces in front that make up for missing digits.
pub proof fn law_a_counter_counts_from_one(index: nat, count: nat) -> (k: nat)
    requires
        index < count,
    ensures
        counter(index, count) == "["@ + Seq::new(k, |i: int| ' ') + text::decimal(index + 1) + "/"@
            + text::decimal(count) + "]"@,
        k + text::decimal(index + 1).len() == text::decimal(count).len(),
{
    lemma_longer_numbers(index + 1, count);
    let here = text::decimal(index + 1);
    let width = text::decimal(count).len();
    let k = (width - here.len()) as nat;
    let padded = text::padded_left(here, width);
    assert forall|i: int| 0 <= i < padded.len() implies #[trigger] padded[i] == (Seq::new(
        k,
        |i: int| ' ',
    ) + here)[i] by {
        text::law_padding_adds_spaces(here, width, i);
        text::law_padding_adds_spaces(here, width, i - k);
    }
    text::law_padding_adds_spaces(here, width, 0);
    assert(padded =~= Seq::new(k, |i: int| ' ') + here);
    assert("["@ + padded == "["@ + Seq::new(k, |i: int| ' ') + here);
    k
}

/// A line of progress has the whole counter, the whole status and the whole of what
/// it is about, with spaces behind a status of fewer than sixteen characters.
pub proof fn law_progress_is_told_whole(
    tag: Seq<char>,
    status: Seq<char>,
    detail: Seq<char>,
) -> (k: nat)
    ensures
        progress_text(tag, status, detail) == tag + " "@ + status + Seq::new(k, |i: int| ' ') + " "@
            + detail,
        status.len() < 16 ==> k + status.len() == 16,
        status.len() >= 16 ==> k == 0,
{
    let k = if status.len() < 16 {
        (16 - status.len()) as nat
    } else {
        0
    };
    let padded = text::padded_right(status, 16);
    text::law_padding_adds_spaces(status, 16, 0);
    assert forall|i: int| 0 <= i < padded.len() implies #[trigger] padded[i] == (status + Seq::new(
        k,
        |i: int| ' ',
    ))[i] by {
        text::law_padding_adds_spaces(status, 16, i);
    }
    assert(padded =~= status + Seq::new(k, |i: int| ' '));
    assert(tag + " "@ + padded == tag + " "@ + status + Seq::new(k, |i: int| ' '));
    k
}

/// Lines and rows over sequences are all of them, each whole.
pub proof fn law_lines_are_seen_whole(v: Seq<Line>, rows: Seq<&Row>, i: int)
    ensures
        lines(v).len() == v.len(),
        0 <= i < v.len() ==> lines(v)[i] == v[i]@,
        0 <= i < v.len() ==> (v[i] matches Line::Out(t) ==> v[i]@ == LineView::Out(t@)),
        0 <= i < v.len() ==> (v[i] matches Line::Warning(t) ==> v[i]@ == LineView::Warning(t@)),
        row_views(rows).len() == rows.len(),
        0 <= i < rows.len() ==> row_views(rows)[i] == rows[i].0@,
{
}

}
