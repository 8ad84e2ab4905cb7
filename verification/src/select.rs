//! Ordering and choosing episodes.
use crate::feed;
use crate::feed::{Episode, EpisodeView};
use crate::text;
use crate::text::{comes_before, contains_text, to_lowercase};
use vstd::prelude::*;

verus! {

// ---------------------------------------------------------------------------
// Order

/// The date of an episode, where it has one.
pub open spec fn date(e: EpisodeView) -> Seq<char> {
    match e.pub_date {
        Some(d) => d,
        None => Seq::empty(),
    }
}

/// Every episode has a date.
pub open spec fn all_dated(episodes: Seq<EpisodeView>) -> bool {
    forall|i: int| 0 <= i < episodes.len() ==> (#[trigger] episodes[i]).pub_date is Some
}

/// `a` is newer than `b`. ISO 8601 dates compare as texts.
pub open spec fn newer(a: EpisodeView, b: EpisodeView) -> bool {
    text::less(date(b), date(a))
}

/// `e` put into `episodes` behind those in front that are newer.
pub open spec fn inserted(e: EpisodeView, episodes: Seq<EpisodeView>) -> Seq<EpisodeView>
    decreases episodes.len(),
{
    if episodes.len() == 0 || !newer(episodes[0], e) {
        seq![e] + episodes
    } else {
        seq![episodes[0]] + inserted(e, episodes.skip(1))
    }
}

/// The episodes from the newest to the oldest, those of one date in the order
/// that they had.
pub open spec fn newest_first(episodes: Seq<EpisodeView>) -> Seq<EpisodeView>
    decreases episodes.len(),
{
    if episodes.len() == 0 {
        episodes
    } else {
        inserted(episodes[0], newest_first(episodes.skip(1)))
    }
}

/// The order in which episodes are offered: newest first where every one has a
/// date, else that of the feed.
pub open spec fn in_order(episodes: Seq<EpisodeView>) -> Seq<EpisodeView> {
    if all_dated(episodes) {
        newest_first(episodes)
    } else {
        episodes
    }
}

/// Whether every episode has a date.
fn every_dated(episodes: &Vec<Episode>) -> (r: bool)
    ensures
        r == all_dated(feed::views(episodes@)),
{
    let mut i: usize = 0;
    while i < episodes.len()
        invariant
            i <= episodes@.len(),
            forall|k: int| 0 <= k < i ==> (#[trigger] feed::views(episodes@)[k]).pub_date is Some,
        decreases episodes@.len() - i,
    {
        assert(feed::views(episodes@)[i as int] == episodes@[i as int]@);
        if episodes[i].pub_date.is_none() {
            return false;
        }
        i = i + 1;
    }
    true
}

/// Whether `a` is newer than `b`.
fn is_newer(a: &Episode, b: &Episode) -> (r: bool)
    ensures
        r == newer(a@, b@),
{
    proof {
        reveal_strlit("");
        assert(""@ == Seq::<char>::empty());
    }
    match (&a.pub_date, &b.pub_date) {
        (Some(x), Some(y)) => comes_before(y, x),
        (Some(x), None) => comes_before("", x),
        (None, Some(y)) => comes_before(y, ""),
        (None, None) => comes_before("", ""),
    }
}

proof fn lemma_inserted_at(e: EpisodeView, s: Seq<EpisodeView>, k: int)
    requires
        0 <= k <= s.len(),
        forall|i: int| 0 <= i < k ==> newer(#[trigger] s[i], e),
        k < s.len() ==> !newer(s[k], e),
    ensures
        inserted(e, s) == s.insert(k, e),
    decreases k,
{
    if k > 0 {
        assert(newer(s[0], e));
        let t = s.skip(1);
        assert forall|i: int| 0 <= i < k - 1 implies newer(#[trigger] t[i], e) by {
            assert(t[i] == s[i + 1]);
        }
        lemma_inserted_at(e, t, k - 1);
        assert(seq![s[0]] + t.insert(k - 1, e) == s.insert(k, e));
    } else {
        assert(seq![e] + s == s.insert(0, e));
    }
}

/// Sorts newest first, but only where every episode has a date: the order of a
/// feed is already the newest first.
pub fn sort_episodes(episodes: Vec<Episode>) -> (r: Vec<Episode>)
    ensures
        feed::views(r@) == in_order(feed::views(episodes@)),
{
    if !every_dated(&episodes) {
        return episodes;
    }
    let mut rest = episodes;
    let mut out: Vec<Episode> = Vec::new();
    let ghost all = feed::views(episodes@);
    proof {
        assert(feed::views(out@) == all.skip(all.len() as int));
    }
    while rest.len() > 0
        invariant
            rest@.len() <= all.len(),
            feed::views(rest@) == all.take(rest@.len() as int),
            feed::views(out@) == newest_first(all.skip(rest@.len() as int)),
        decreases rest@.len(),
    {
        let ghost n = rest@.len();
        let ghost tail = all.skip(n - 1);
        let ghost sorted = feed::views(out@);
        if let Some(e) = rest.pop() {
            proof {
                assert(e@ == all.take(n as int)[n - 1]) by {
                    assert(feed::views(rest@.push(e))[n - 1] == e@);
                }
                assert(tail[0] == e@);
                assert(tail.skip(1) == all.skip(n as int));
                assert(feed::views(rest@) == all.take(n - 1)) by {
                    assert(feed::views(rest@) == feed::views(rest@.push(e)).drop_last());
                }
            }
            let mut k: usize = 0;
            while k < out.len() && is_newer(&out[k], &e)
                invariant
                    k <= out@.len(),
                    sorted == feed::views(out@),
                    forall|i: int| 0 <= i < k ==> newer(#[trigger] sorted[i], e@),
                decreases out@.len() - k,
            {
                assert(sorted[k as int] == out@[k as int]@);
                k = k + 1;
            }
            proof {
                if k < out@.len() {
                    assert(sorted[k as int] == out@[k as int]@);
                }
                lemma_inserted_at(e@, sorted, k as int);
            }
            let ghost added = e@;
            out.insert(k, e);
            proof {
                assert(feed::views(out@) == sorted.insert(k as int, added));
            }
        }
    }
    proof {
        assert(all.skip(0) == all);
    }
    out
}

// ---------------------------------------------------------------------------
// Choice

/// The titles of episodes in lower case.
pub open spec fn lower_titles(episodes: Seq<EpisodeView>) -> Seq<Seq<char>> {
    episodes.map_values(|e: EpisodeView| text::lowercase(e.title))
}

/// The episodes whose title holds `filter`, whatever the case of either; all of
/// them without a filter.
pub open spec fn matching(episodes: Seq<EpisodeView>, filter: Option<Seq<char>>) -> Seq<
    EpisodeView,
> {
    match filter {
        Some(f) => text::holding(episodes, lower_titles(episodes), text::lowercase(f)),
        None => episodes,
    }
}

/// At most the first `latest`.
pub open spec fn first_few(episodes: Seq<EpisodeView>, latest: Option<usize>) -> Seq<EpisodeView> {
    match latest {
        Some(n) => if n < episodes.len() {
            episodes.take(n as int)
        } else {
            episodes
        },
        None => episodes,
    }
}

/// The episodes chosen without asking.
pub open spec fn chosen(
    episodes: Seq<EpisodeView>,
    latest: Option<usize>,
    filter: Option<Seq<char>>,
) -> Seq<EpisodeView> {
    first_few(in_order(matching(episodes, filter)), latest)
}

/// Keeps the episodes whose text among `texts` holds `needle`.
pub fn keep_holding(episodes: Vec<Episode>, texts: &Vec<String>, needle: &str) -> (r: Vec<Episode>)
    requires
        texts@.len() == episodes@.len(),
    ensures
        feed::views(r@) == text::holding(feed::views(episodes@), text::texts(texts@), needle@),
{
    let mut out = episodes;
    let mut i: usize = 0;
    let mut k: usize = 0;
    let ghost all = feed::views(episodes@);
    let ghost lines = text::texts(texts@);
    proof {
        assert(all.skip(0) == all);
        assert(all.take(0) == Seq::<EpisodeView>::empty());
        assert(feed::views(out@) == Seq::<EpisodeView>::empty() + all);
    }
    while k < texts.len()
        invariant
            i <= k <= texts@.len(),
            all.len() == texts@.len(),
            lines == text::texts(texts@),
            out@.len() == i + all.len() - k,
            i == text::holding(all.take(k as int), lines.take(k as int), needle@).len(),
            feed::views(out@) == text::holding(all.take(k as int), lines.take(k as int), needle@)
                + all.skip(k as int),
        decreases texts@.len() - k,
    {
        let ghost kept = text::holding(all.take(k as int), lines.take(k as int), needle@);
        let ghost before = feed::views(out@);
        proof {
            assert(all.take(k + 1).drop_last() == all.take(k as int));
            assert(lines.take(k + 1).drop_last() == lines.take(k as int));
            assert(lines.take(k + 1).last() == texts@[k as int]@);
            assert(all.take(k + 1).last() == all[k as int]);
            assert(all.skip(k as int) == seq![all[k as int]] + all.skip(k + 1));
        }
        if contains_text(&texts[k], needle) {
            proof {
                assert(before == kept.push(all[k as int]) + all.skip(k + 1));
            }
            i = i + 1;
        } else {
            let _ = out.remove(i);
            proof {
                assert(feed::views(out@) == before.remove(i as int));
                assert(feed::views(out@) == kept + all.skip(k + 1));
            }
        }
        k = k + 1;
    }
    proof {
        assert(all.take(k as int) == all);
        assert(lines.take(k as int) == lines);
        assert(feed::views(out@) == text::holding(all, lines, needle@));
    }
    out
}

/// Chooses episodes without asking: those whose title holds `filter`, newest
/// first, and of these the first `latest`.
pub fn select(episodes: Vec<Episode>, latest: Option<usize>, filter: Option<&str>) -> (r: Vec<
    Episode,
>)
    ensures
        feed::views(r@) == chosen(
            feed::views(episodes@),
            latest,
            match filter {
                Some(f) => Some(f@),
                None => None,
            },
        ),
{
    let kept = match filter {
        Some(f) => {
            let needle = to_lowercase(f);
            let mut titles: Vec<String> = Vec::new();
            let mut i: usize = 0;
            while i < episodes.len()
                invariant
                    i <= episodes@.len(),
                    titles@.len() == i,
                    forall|k: int|
                        0 <= k < i ==> (#[trigger] titles@[k])@ == text::lowercase(
                            episodes@[k].title@,
                        ),
                decreases episodes@.len() - i,
            {
                titles.push(to_lowercase(&episodes[i].title));
                i = i + 1;
            }
            proof {
                assert(text::texts(titles@) == lower_titles(feed::views(episodes@)));
            }
            keep_holding(episodes, &titles, &needle)
        },
        None => episodes,
    };
    let mut sorted = sort_episodes(kept);
    if let Some(n) = latest {
        let ghost before = sorted@;
        sorted.truncate(n);
        proof {
            if n < before.len() {
                assert(feed::views(sorted@) == feed::views(before).take(n as int));
            }
        }
    }
    sorted
}

// ---------------------------------------------------------------------------
// Laws

/// No episode is newer than one in front of it.
pub open spec fn never_newer(episodes: Seq<EpisodeView>) -> bool {
    forall|i: int, j: int|
        0 <= i < j < episodes.len() ==> !newer(#[trigger] episodes[j], #[trigger] episodes[i])
}

proof fn lemma_inserted_is_sorted(e: EpisodeView, s: Seq<EpisodeView>)
    requires
        never_newer(s),
    ensures
        never_newer(inserted(e, s)),
        inserted(e, s).to_multiset() == s.to_multiset().insert(e),
        forall|i: int| 0 <= i < inserted(e, s).len() ==> #[trigger] inserted(e, s)[i] == e
            || s.contains(inserted(e, s)[i]),
    decreases s.len(),
{
    let r = inserted(e, s);
    if s.len() == 0 || !newer(s[0], e) {
        assert forall|i: int, j: int| 0 <= i < j < r.len() implies !newer(
            #[trigger] r[j],
            #[trigger] r[i],
        ) by {
            if i == 0 {
                assert(r[j] == s[j - 1]);
                if j > 1 {
                    assert(!newer(s[j - 1], s[0]));
                }
                text::lemma_less_order(date(e), date(s[0]), date(s[j - 1]));
                text::lemma_less_order(date(s[0]), date(s[j - 1]), date(e));
                text::lemma_less_order(date(e), date(s[j - 1]), date(s[0]));
            } else {
                assert(r[i] == s[i - 1] && r[j] == s[j - 1]);
            }
        }
        assert(r == s.insert(0, e));
        vstd::seq_lib::lemma_multiset_commutative(seq![e], s);
        assert(seq![e] =~= Seq::<EpisodeView>::empty().push(e));
        broadcast use vstd::seq_lib::group_to_multiset_ensures;
        assert(r.to_multiset() =~= s.to_multiset().insert(e));
        assert forall|i: int| 0 <= i < r.len() implies #[trigger] r[i] == e || s.contains(r[i]) by {
            if i > 0 {
                assert(r[i] == s[i - 1]);
            }
        }
    } else {
        let t = s.skip(1);
        assert(never_newer(t)) by {
            assert forall|i: int, j: int| 0 <= i < j < t.len() implies !newer(
                #[trigger] t[j],
                #[trigger] t[i],
            ) by {
                assert(t[i] == s[i + 1] && t[j] == s[j + 1]);
            }
        }
        lemma_inserted_is_sorted(e, t);
        let u = inserted(e, t);
        assert(r == seq![s[0]] + u);
        assert forall|i: int, j: int| 0 <= i < j < r.len() implies !newer(
            #[trigger] r[j],
            #[trigger] r[i],
        ) by {
            assert(r[j] == u[j - 1]);
            if i == 0 {
                if u[j - 1] == e {
                    text::lemma_less_order(date(e), date(s[0]), date(e));
                } else {
                    let k = choose|k: int| 0 <= k < t.len() && t[k] == u[j - 1];
                    assert(t[k] == s[k + 1]);
                }
            } else {
                assert(r[i] == u[i - 1]);
            }
        }
        assert(s == seq![s[0]] + t);
        vstd::seq_lib::lemma_multiset_commutative(seq![s[0]], t);
        vstd::seq_lib::lemma_multiset_commutative(seq![s[0]], u);
        assert(r.to_multiset() =~= s.to_multiset().insert(e));
        assert forall|i: int| 0 <= i < r.len() implies #[trigger] r[i] == e || s.contains(r[i]) by {
            if i > 0 {
                assert(r[i] == u[i - 1]);
                if u[i - 1] != e {
                    let k = choose|k: int| 0 <= k < t.len() && t[k] == u[i - 1];
                    assert(s[k + 1] == r[i]);
                }
            } else {
                assert(s[0] == r[0]);
            }
        }
    }
}

/// Sorting puts no episode in front of a newer one, and neither adds nor drops
/// any.
pub proof fn law_sorting_puts_the_newest_first(episodes: Seq<EpisodeView>)
    ensures
        never_newer(newest_first(episodes)),
        newest_first(episodes).to_multiset() == episodes.to_multiset(),
        newest_first(episodes).len() == episodes.len(),
    decreases episodes.len(),
{
    if episodes.len() > 0 {
        let t = episodes.skip(1);
        law_sorting_puts_the_newest_first(t);
        lemma_inserted_is_sorted(episodes[0], newest_first(t));
        assert(episodes == seq![episodes[0]] + t);
        vstd::seq_lib::lemma_multiset_commutative(seq![episodes[0]], t);
        assert(seq![episodes[0]] =~= Seq::<EpisodeView>::empty().push(episodes[0]));
        broadcast use vstd::seq_lib::group_to_multiset_ensures;
        assert(episodes.to_multiset() =~= t.to_multiset().insert(episodes[0]));
    }
    broadcast use vstd::seq_lib::group_to_multiset_ensures;
    assert(newest_first(episodes).to_multiset().len() == episodes.to_multiset().len());
}

/// The episodes of one date.
pub open spec fn of_date(d: Seq<char>) -> spec_fn(EpisodeView) -> bool {
    |e: EpisodeView| date(e) == d
}

proof fn lemma_filter_front(e: EpisodeView, s: Seq<EpisodeView>, d: Seq<char>)
    ensures
        (seq![e] + s).filter(of_date(d)) == (if date(e) == d {
            seq![e]
        } else {
            Seq::empty()
        }) + s.filter(of_date(d)),
{
    Seq::filter_distributes_over_add(seq![e], s, of_date(d));
    reveal_with_fuel(Seq::filter, 2);
    assert(seq![e].drop_last() == Seq::<EpisodeView>::empty());
    assert(Seq::<EpisodeView>::empty().push(e) == seq![e]);
    assert(of_date(d)(e) == (date(e) == d));
    assert(seq![e].filter(of_date(d)) == (if date(e) == d {
        seq![e]
    } else {
        Seq::empty()
    }));
}

proof fn lemma_inserted_is_stable(e: EpisodeView, s: Seq<EpisodeView>, d: Seq<char>)
    ensures
        inserted(e, s).filter(of_date(d)) == (seq![e] + s).filter(of_date(d)),
    decreases s.len(),
{
    if s.len() > 0 && newer(s[0], e) {
        let t = s.skip(1);
        lemma_inserted_is_stable(e, t, d);
        assert(s == seq![s[0]] + t);
        lemma_filter_front(e, s, d);
        lemma_filter_front(s[0], t, d);
        lemma_filter_front(e, t, d);
        lemma_filter_front(s[0], inserted(e, t), d);
        text::lemma_less_order(date(e), date(s[0]), d);
        assert(date(e) != date(s[0]));
    }
}

/// Episodes of the same date keep the order that they had.
pub proof fn law_sorting_is_stable(episodes: Seq<EpisodeView>, d: Seq<char>)
    ensures
        newest_first(episodes).filter(of_date(d)) == episodes.filter(of_date(d)),
    decreases episodes.len(),
{
    if episodes.len() > 0 {
        let t = episodes.skip(1);
        law_sorting_is_stable(t, d);
        lemma_inserted_is_stable(episodes[0], newest_first(t), d);
        assert(episodes == seq![episodes[0]] + t);
        lemma_filter_front(episodes[0], newest_first(t), d);
        lemma_filter_front(episodes[0], t, d);
    }
}

/// Episodes that are in order stay as they are: sorting again changes nothing.
pub proof fn law_sorting_keeps_what_is_sorted(episodes: Seq<EpisodeView>)
    requires
        never_newer(episodes),
    ensures
        newest_first(episodes) == episodes,
    decreases episodes.len(),
{
    if episodes.len() > 0 {
        let t = episodes.skip(1);
        assert forall|i: int, j: int| 0 <= i < j < t.len() implies !newer(
            #[trigger] t[j],
            #[trigger] t[i],
        ) by {
            assert(t[i] == episodes[i + 1] && t[j] == episodes[j + 1]);
        }
        law_sorting_keeps_what_is_sorted(t);
        if t.len() > 0 {
            assert(t[0] == episodes[1]);
            assert(!newer(episodes[1], episodes[0]));
        }
        assert(episodes == seq![episodes[0]] + t);
    }
}

proof fn lemma_holding(
    episodes: Seq<EpisodeView>,
    texts: Seq<Seq<char>>,
    needle: Seq<char>,
    e: EpisodeView,
)
    requires
        texts.len() == episodes.len(),
        text::holding(episodes, texts, needle).contains(e),
    ensures
        exists|i: int|
            0 <= i < episodes.len() && episodes[i] == e && text::contains(
                #[trigger] texts[i],
                needle,
            ),
    decreases episodes.len(),
{
    let n = episodes.len() - 1;
    let before = text::holding(episodes.drop_last(), texts.drop_last(), needle);
    let k = choose|k: int|
        0 <= k < text::holding(episodes, texts, needle).len() && text::holding(episodes, texts, needle)[k] == e;
    if k < before.len() {
        assert(before[k] == e);
        lemma_holding(episodes.drop_last(), texts.drop_last(), needle, e);
        let i = choose|i: int|
            0 <= i < n && episodes.drop_last()[i] == e && text::contains(
                #[trigger] texts.drop_last()[i],
                needle,
            );
        assert(texts[i] == texts.drop_last()[i]);
        assert(episodes[i] == e);
    } else {
        assert(texts[n] == texts.last());
    }
}

/// Whatever is chosen is an episode of the feed whose title holds the filter,
/// and never more than asked for.
pub proof fn law_chosen_episodes_match(
    episodes: Seq<EpisodeView>,
    latest: Option<usize>,
    filter: Option<Seq<char>>,
    i: int,
)
    requires
        0 <= i < chosen(episodes, latest, filter).len(),
    ensures
        episodes.contains(chosen(episodes, latest, filter)[i]),
        filter matches Some(f) ==> text::contains(
            text::lowercase(chosen(episodes, latest, filter)[i].title),
            text::lowercase(f),
        ),
        latest matches Some(n) ==> chosen(episodes, latest, filter).len() <= n,
{
    let m = matching(episodes, filter);
    let s = in_order(m);
    let e = chosen(episodes, latest, filter)[i];
    assert(s[i] == e);
    assert(m.contains(e)) by {
        if all_dated(m) {
            law_sorting_puts_the_newest_first(m);
            broadcast use vstd::seq_lib::group_to_multiset_ensures;
            assert(s.contains(e));
            assert(s.to_multiset().count(e) > 0);
        } else {
            assert(m[i] == e);
        }
    }
    if let Some(f) = filter {
        let titles = lower_titles(episodes);
        lemma_holding(episodes, titles, text::lowercase(f), e);
        let k = choose|k: int|
            0 <= k < episodes.len() && episodes[k] == e && text::contains(
                #[trigger] titles[k],
                text::lowercase(f),
            );
        assert(episodes[k] == e);
    }
}

/// The case of a filter does not matter.
pub proof fn law_filter_ignores_case(
    episodes: Seq<EpisodeView>,
    latest: Option<usize>,
    f: Seq<char>,
    g: Seq<char>,
)
    requires
        text::lowercase(f) == text::lowercase(g),
    ensures
        chosen(episodes, latest, Some(f)) == chosen(episodes, latest, Some(g)),
{
}

/// Asked for nothing in particular, the choice is the whole feed in order; asked
/// for at least as many as match, it is all that match.
pub proof fn law_no_limit_chooses_all(
    episodes: Seq<EpisodeView>,
    latest: Option<usize>,
    filter: Option<Seq<char>>,
)
    requires
        latest matches Some(n) ==> n >= matching(episodes, filter).len(),
    ensures
        chosen(episodes, latest, filter) == in_order(matching(episodes, filter)),
        chosen(episodes, latest, filter).to_multiset() == matching(episodes, filter).to_multiset(),
        filter is None ==> matching(episodes, filter) == episodes,
{
    law_sorting_puts_the_newest_first(matching(episodes, filter));
}

/// Asking for the latest few gives the first of what is given without a limit.
pub proof fn law_the_latest_come_first(
    episodes: Seq<EpisodeView>,
    n: usize,
    filter: Option<Seq<char>>,
)
    ensures
        chosen(episodes, Some(n), filter).is_prefix_of(chosen(episodes, None, filter)),
        chosen(episodes, Some(n), filter).len() == if n < chosen(episodes, None, filter).len() {
            n as nat
        } else {
            chosen(episodes, None, filter).len()
        },
{
}

/// Where every episode has a date, the whole text of no date stands in front of
/// a greater one. The episodes are the same, and those with the same date keep
/// the order that they had. Where a date is missing nothing moves.
pub proof fn law_dates_never_rise(episodes: Seq<EpisodeView>, d: Seq<char>)
    ensures
        (forall|i: int| 0 <= i < episodes.len() ==> (#[trigger] episodes[i]).pub_date is Some) ==> {
            let r = in_order(episodes);
            &&& r.len() == episodes.len()
            &&& r.to_multiset() == episodes.to_multiset()
            &&& forall|i: int, j: int|
                0 <= i < j < r.len() ==> (#[trigger] r[i]).pub_date is Some && (
                #[trigger] r[j]).pub_date is Some && !text::less(
                    r[i].pub_date->0,
                    r[j].pub_date->0,
                )
            &&& r.filter(|e: EpisodeView| e.pub_date == Some(d)) == episodes.filter(
                |e: EpisodeView| e.pub_date == Some(d),
            )
        },
        (exists|i: int| 0 <= i < episodes.len() && (#[trigger] episodes[i]).pub_date is None)
            ==> in_order(episodes) == episodes,
{
    if forall|i: int| 0 <= i < episodes.len() ==> (#[trigger] episodes[i]).pub_date is Some {
        let r = in_order(episodes);
        law_sorting_puts_the_newest_first(episodes);
        law_sorting_is_stable(episodes, d);
        assert forall|i: int| 0 <= i < r.len() implies (#[trigger] r[i]).pub_date is Some by {
            broadcast use vstd::seq_lib::group_to_multiset_ensures;
            assert(r.contains(r[i]));
            assert(r.to_multiset().count(r[i]) > 0);
            assert(episodes.contains(r[i]));
        }
        assert forall|i: int, j: int| 0 <= i < j < r.len() implies (#[trigger] r[i]).pub_date is Some
            && (#[trigger] r[j]).pub_date is Some && !text::less(
            r[i].pub_date->0,
            r[j].pub_date->0,
        ) by {
            assert(!newer(r[j], r[i]));
        }
        lemma_same_filter(r, d);
        lemma_same_filter(episodes, d);
    }
}

proof fn lemma_same_filter(s: Seq<EpisodeView>, d: Seq<char>)
    requires
        forall|i: int| 0 <= i < s.len() ==> (#[trigger] s[i]).pub_date is Some,
    ensures
        s.filter(of_date(d)) == s.filter(|e: EpisodeView| e.pub_date == Some(d)),
    decreases s.len(),
{
    reveal(Seq::filter);
    if s.len() > 0 {
        let t = s.drop_last();
        assert forall|i: int| 0 <= i < t.len() implies (#[trigger] t[i]).pub_date is Some by {
            assert(t[i] == s[i]);
        }
        lemma_same_filter(t, d);
        assert(s[s.len() - 1].pub_date is Some);
    }
}

/// A filter goes episode by episode: each is kept or not by its own title, and
/// the kept ones stay in order.
pub proof fn law_each_title_decides(
    a: Seq<EpisodeView>,
    b: Seq<EpisodeView>,
    filter: Seq<char>,
)
    ensures
        matching(a + b, Some(filter)) == matching(a, Some(filter)) + matching(b, Some(filter)),
        matching(Seq::empty(), Some(filter)) == Seq::<EpisodeView>::empty(),
        a.len() == 1 ==> matching(a, Some(filter)) == if text::contains(
            text::lowercase(a[0].title),
            text::lowercase(filter),
        ) {
            a
        } else {
            Seq::empty()
        },
        matching(a, None) == a,
{
    let needle = text::lowercase(filter);
    assert(lower_titles(a + b) == lower_titles(a) + lower_titles(b));
    text::law_holding_goes_item_by_item(a, lower_titles(a), b, lower_titles(b), needle);
    if a.len() == 1 {
        assert(lower_titles(a)[0] == text::lowercase(a[0].title));
    }
}

proof fn lemma_kept(episodes: Seq<EpisodeView>, filter: Seq<char>, k: int)
    requires
        0 <= k < episodes.len(),
        text::contains(text::lowercase(episodes[k].title), text::lowercase(filter)),
    ensures
        matching(episodes, Some(filter)).contains(episodes[k]),
{
    let a = episodes.take(k);
    let b = episodes.skip(k + 1);
    let e = seq![episodes[k]];
    assert(episodes == a + e + b);
    law_each_title_decides(a + e, b, filter);
    law_each_title_decides(a, e, filter);
    law_each_title_decides(e, Seq::empty(), filter);
    let m = matching(a, Some(filter));
    assert(matching(episodes, Some(filter))[m.len() as int] == episodes[k]);
}

/// Without a limit, every episode whose title holds the filter is chosen, each as
/// often as it is in the feed; without a filter too, every episode is. Whatever
/// the limit, where all that match have a date the dates never rise.
pub proof fn law_every_match_is_chosen(
    episodes: Seq<EpisodeView>,
    latest: Option<usize>,
    filter: Option<Seq<char>>,
    k: int,
)
    ensures
        0 <= k < episodes.len() && (filter matches Some(f) ==> text::contains(
            text::lowercase(episodes[k].title),
            text::lowercase(f),
        )) ==> chosen(episodes, None, filter).contains(episodes[k]),
        filter is None ==> chosen(episodes, None, filter).to_multiset() == episodes.to_multiset(),
        (forall|i: int|
            0 <= i < chosen(episodes, None, filter).len() ==> (#[trigger] chosen(
                episodes,
                None,
                filter,
            )[i]).pub_date is Some) ==> {
            let r = chosen(episodes, latest, filter);
            forall|i: int, j: int|
                0 <= i < j < r.len() ==> !text::less(
                    (#[trigger] r[i]).pub_date->0,
                    (#[trigger] r[j]).pub_date->0,
                )
        },
{
    let m = matching(episodes, filter);
    let s = chosen(episodes, None, filter);
    assert(s == in_order(m));
    law_sorting_puts_the_newest_first(m);
    broadcast use vstd::seq_lib::group_to_multiset_ensures;
    assert(s.to_multiset() == m.to_multiset());
    if 0 <= k < episodes.len() && (filter matches Some(f) ==> text::contains(
        text::lowercase(episodes[k].title),
        text::lowercase(f),
    )) {
        if let Some(f) = filter {
            lemma_kept(episodes, f, k);
        }
        assert(m.contains(episodes[k]));
        assert(m.to_multiset().count(episodes[k]) > 0);
        assert(s.to_multiset().count(episodes[k]) > 0);
    }
    if forall|i: int| 0 <= i < s.len() ==> (#[trigger] s[i]).pub_date is Some {
        assert forall|i: int| 0 <= i < m.len() implies (#[trigger] m[i]).pub_date is Some by {
            assert(m.contains(m[i]));
            assert(m.to_multiset().count(m[i]) > 0);
            assert(s.contains(m[i]));
        }
        law_dates_never_rise(m, Seq::empty());
        let r = chosen(episodes, latest, filter);
        assert(r.is_prefix_of(s));
        assert forall|i: int, j: int| 0 <= i < j < r.len() implies !text::less(
            (#[trigger] r[i]).pub_date->0,
            (#[trigger] r[j]).pub_date->0,
        ) by {
            assert(r[i] == s[i] && r[j] == s[j]);
        }
    }
}

}
