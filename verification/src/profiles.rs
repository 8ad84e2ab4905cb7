//! Connection profiles, kept by name.
use crate::text;
use crate::text::{comes_before, concat3, quote, same};
use vstd::prelude::*;

verus! {

/// How to reach the web interface of a qBittorrent. An empty user name stands
/// for its "bypass authentication for localhost" mode: nothing logs in.
#[derive(Clone, PartialEq)]
pub struct QbtProfile {
    pub endpoint: String,
    pub username: String,
    pub password: String,
}

/// A profile over sequences of characters.
pub struct ProfileView {
    pub endpoint: Seq<char>,
    pub username: Seq<char>,
    pub password: Seq<char>,
}

impl View for QbtProfile {
    type V = ProfileView;

    open spec fn view(&self) -> ProfileView {
        ProfileView {
            endpoint: self.endpoint@,
            username: self.username@,
            password: self.password@,
        }
    }
}

/// What may be shown of a profile whose endpoint and user name are quoted as
/// given: everything but its password.
pub open spec fn shown_profile(endpoint: Seq<char>, username: Seq<char>) -> Seq<char> {
    "QbtProfile { endpoint: "@ + endpoint + ", username: "@ + username
        + ", password: \"<redacted>\" }"@
}

/// What may be shown of a profile whose endpoint and user name are quoted as
/// given.
pub fn profile_text(endpoint: &str, username: &str) -> (s: String)
    ensures
        s@ == shown_profile(endpoint@, username@),
{
    let front = concat3("QbtProfile { endpoint: ", endpoint, ", username: ");
    concat3(&front, username, ", password: \"<redacted>\" }")
}

impl QbtProfile {
    /// The same profile again.
    pub fn duplicate(&self) -> (p: QbtProfile)
        ensures
            p == *self,
    {
        QbtProfile {
            endpoint: self.endpoint.clone(),
            username: self.username.clone(),
            password: self.password.clone(),
        }
    }

    /// What may be shown of it.
    pub fn debug_text(&self) -> (s: String)
        ensures
            s@ == shown_profile(text::quoted(self@.endpoint), text::quoted(self@.username)),
    {
        let endpoint = quote(&self.endpoint);
        let username = quote(&self.username);
        profile_text(&endpoint, &username)
    }
}

/// A name and the profile that it stands for.
pub type NamedProfile = (Seq<char>, ProfileView);

/// Names in strictly ascending order.
pub open spec fn ascending(entries: Seq<NamedProfile>) -> bool {
    forall|i: int, j: int|
        0 <= i < j < entries.len() ==> text::less(
            (#[trigger] entries[i]).0,
            (#[trigger] entries[j]).0,
        )
}

/// The entries of a list.
pub open spec fn named(entries: Seq<(String, QbtProfile)>) -> Seq<NamedProfile> {
    entries.map_values(|e: (String, QbtProfile)| (e.0@, e.1@))
}

/// The profile of a name.
pub open spec fn lookup(entries: Seq<NamedProfile>, name: Seq<char>) -> Option<ProfileView>
    decreases entries.len(),
{
    if entries.len() == 0 {
        None
    } else if entries[0].0 == name {
        Some(entries[0].1)
    } else {
        lookup(entries.skip(1), name)
    }
}

/// The entries with `profile` under `name`, in order.
pub open spec fn put(entries: Seq<NamedProfile>, name: Seq<char>, profile: ProfileView) -> Seq<
    NamedProfile,
>
    decreases entries.len(),
{
    if entries.len() == 0 || text::less(name, entries[0].0) {
        seq![(name, profile)] + entries
    } else if entries[0].0 == name {
        seq![(name, profile)] + entries.skip(1)
    } else {
        seq![entries[0]] + put(entries.skip(1), name, profile)
    }
}

/// The entries without the one under `name`.
pub open spec fn without(entries: Seq<NamedProfile>, name: Seq<char>) -> Seq<NamedProfile>
    decreases entries.len(),
{
    if entries.len() == 0 {
        entries
    } else if entries[0].0 == name {
        entries.skip(1)
    } else {
        seq![entries[0]] + without(entries.skip(1), name)
    }
}

/// The names in order.
pub open spec fn names_of(entries: Seq<NamedProfile>) -> Seq<Seq<char>> {
    entries.map_values(|e: NamedProfile| e.0)
}

/// The entries of a list of pairs, of which the last one counts where a name
/// occurs more than once.
pub open spec fn put_all(pairs: Seq<NamedProfile>) -> Seq<NamedProfile>
    decreases pairs.len(),
{
    if pairs.len() == 0 {
        pairs
    } else {
        put(put_all(pairs.drop_last()), pairs.last().0, pairs.last().1)
    }
}

/// Profiles by name, each name once, in the order of the names.
pub struct ProfileMap {
    entries: Vec<(String, QbtProfile)>,
}

impl View for ProfileMap {
    type V = Seq<NamedProfile>;

    closed spec fn view(&self) -> Seq<NamedProfile> {
        named(self.entries@)
    }
}

proof fn lemma_put_at(
    entries: Seq<NamedProfile>,
    name: Seq<char>,
    profile: ProfileView,
    k: int,
)
    requires
        0 <= k <= entries.len(),
        forall|i: int| 0 <= i < k ==> text::less((#[trigger] entries[i]).0, name),
    ensures
        k == entries.len() || text::less(name, entries[k].0) ==> put(entries, name, profile)
            == entries.insert(k, (name, profile)),
        k < entries.len() && entries[k].0 == name ==> put(entries, name, profile) == entries.update(
            k,
            (name, profile),
        ),
        k < entries.len() && entries[k].0 == name ==> lookup(entries, name) == Some(entries[k].1)
            && without(entries, name) == entries.remove(k),
    decreases k,
{
    if k > 0 {
        let t = entries.skip(1);
        text::lemma_less_order(entries[0].0, name, name);
        text::lemma_less_order(name, entries[0].0, name);
        assert forall|i: int| 0 <= i < k - 1 implies text::less((#[trigger] t[i]).0, name) by {
            assert(t[i] == entries[i + 1]);
        }
        lemma_put_at(t, name, profile, k - 1);
        assert(seq![entries[0]] + t.insert(k - 1, (name, profile)) == entries.insert(
            k,
            (name, profile),
        ));
        if k < entries.len() {
            assert(t[k - 1] == entries[k]);
            assert(seq![entries[0]] + t.update(k - 1, (name, profile)) == entries.update(
                k,
                (name, profile),
            ));
            assert(seq![entries[0]] + t.remove(k - 1) == entries.remove(k));
        }
    } else {
        assert(seq![(name, profile)] + entries == entries.insert(0, (name, profile)));
        if entries.len() > 0 {
            text::lemma_less_order(name, name, name);
            assert(seq![(name, profile)] + entries.skip(1) == entries.update(0, (name, profile)));
            assert(entries.skip(1) == entries.remove(0));
        }
    }
}

proof fn lemma_absent(entries: Seq<NamedProfile>, name: Seq<char>)
    requires
        forall|i: int| 0 <= i < entries.len() ==> (#[trigger] entries[i]).0 != name,
    ensures
        lookup(entries, name) is None,
        without(entries, name) == entries,
    decreases entries.len(),
{
    if entries.len() > 0 {
        let t = entries.skip(1);
        assert forall|i: int| 0 <= i < t.len() implies (#[trigger] t[i]).0 != name by {
            assert(t[i] == entries[i + 1]);
        }
        lemma_absent(t, name);
        assert(seq![entries[0]] + t == entries);
    }
}

proof fn lemma_absent_at(entries: Seq<NamedProfile>, name: Seq<char>, k: int)
    requires
        ascending(entries),
        0 <= k <= entries.len(),
        forall|i: int| 0 <= i < k ==> text::less((#[trigger] entries[i]).0, name),
        k < entries.len() ==> !text::less(entries[k].0, name) && entries[k].0 != name,
    ensures
        lookup(entries, name) is None,
        without(entries, name) == entries,
{
    assert forall|i: int| 0 <= i < entries.len() implies (#[trigger] entries[i]).0 != name by {
        if i < k {
            text::lemma_less_order(name, entries[i].0, name);
        } else if i > k {
            assert(text::less(entries[k].0, entries[i].0));
            text::lemma_less_order(name, entries[k].0, entries[i].0);
            text::lemma_less_order(entries[k].0, entries[i].0, name);
        }
    }
    lemma_absent(entries, name);
}

/// Putting a profile under a name keeps the names in order.
pub proof fn law_put_keeps_order(entries: Seq<NamedProfile>, name: Seq<char>, profile: ProfileView)
    requires
        ascending(entries),
    ensures
        ascending(put(entries, name, profile)),
        forall|i: int|
            0 <= i < put(entries, name, profile).len() ==> (#[trigger] put(
                entries,
                name,
                profile,
            )[i]).0 == name || exists|k: int|
                0 <= k < entries.len() && #[trigger] entries[k] == put(entries, name, profile)[i],
    decreases entries.len(),
{
    let r = put(entries, name, profile);
    if entries.len() == 0 || text::less(name, entries[0].0) {
        assert forall|i: int, j: int| 0 <= i < j < r.len() implies text::less(
            (#[trigger] r[i]).0,
            (#[trigger] r[j]).0,
        ) by {
            assert(r[j] == entries[j - 1]);
            if i == 0 {
                if j > 1 {
                    text::lemma_less_order(name, entries[0].0, entries[j - 1].0);
                }
            } else {
                assert(r[i] == entries[i - 1]);
            }
        }
        assert forall|i: int| 0 <= i < r.len() implies (#[trigger] r[i]).0 == name || exists|k: int|
            0 <= k < entries.len() && #[trigger] entries[k] == r[i] by {
            if i > 0 {
                assert(entries[i - 1] == r[i]);
            }
        }
    } else if entries[0].0 == name {
        assert forall|i: int, j: int| 0 <= i < j < r.len() implies text::less(
            (#[trigger] r[i]).0,
            (#[trigger] r[j]).0,
        ) by {
            assert(r[j] == entries[j]);
            assert(r[i].0 == entries[i].0);
        }
        assert forall|i: int| 0 <= i < r.len() implies (#[trigger] r[i]).0 == name || exists|k: int|
            0 <= k < entries.len() && #[trigger] entries[k] == r[i] by {
            if i > 0 {
                assert(entries[i] == r[i]);
            }
        }
    } else {
        let t = entries.skip(1);
        assert forall|i: int, j: int| 0 <= i < j < t.len() implies text::less(
            (#[trigger] t[i]).0,
            (#[trigger] t[j]).0,
        ) by {
            assert(t[i] == entries[i + 1] && t[j] == entries[j + 1]);
        }
        law_put_keeps_order(t, name, profile);
        let u = put(t, name, profile);
        text::lemma_less_order(name, entries[0].0, name);
        assert forall|i: int, j: int| 0 <= i < j < r.len() implies text::less(
            (#[trigger] r[i]).0,
            (#[trigger] r[j]).0,
        ) by {
            assert(r[j] == u[j - 1]);
            if i == 0 {
                if u[j - 1].0 != name {
                    let k = choose|k: int| 0 <= k < t.len() && #[trigger] t[k] == u[j - 1];
                    assert(t[k] == entries[k + 1]);
                }
            } else {
                assert(r[i] == u[i - 1]);
            }
        }
        assert forall|i: int| 0 <= i < r.len() implies (#[trigger] r[i]).0 == name || exists|k: int|
            0 <= k < entries.len() && #[trigger] entries[k] == r[i] by {
            if i > 0 {
                assert(r[i] == u[i - 1]);
                if u[i - 1].0 != name {
                    let k = choose|k: int| 0 <= k < t.len() && #[trigger] t[k] == u[i - 1];
                    assert(entries[k + 1] == t[k]);
                }
            } else {
                assert(entries[0] == r[0]);
            }
        }
    }
}

impl ProfileMap {
    #[verifier::type_invariant]
    closed spec fn in_order(self) -> bool {
        ascending(named(self.entries@))
    }

    /// No profile.
    pub fn new() -> (m: ProfileMap)
        ensures
            m@ == Seq::<NamedProfile>::empty(),
    {
        let m = ProfileMap { entries: Vec::new() };
        assert(m@ == Seq::<NamedProfile>::empty());
        m
    }

    /// How many profiles there are.
    pub fn len(&self) -> (n: usize)
        ensures
            n == self@.len(),
    {
        self.entries.len()
    }

    /// Whether there is none.
    pub fn is_empty(&self) -> (r: bool)
        ensures
            r == (self@.len() == 0),
    {
        self.entries.len() == 0
    }

    /// The place of the first name that does not come before `name`.
    fn place(&self, name: &str) -> (k: usize)
        ensures
            k <= self.entries@.len(),
            forall|i: int|
                0 <= i < k ==> text::less((#[trigger] named(self.entries@)[i]).0, name@),
            k < self.entries@.len() ==> !text::less(named(self.entries@)[k as int].0, name@),
    {
        let mut k: usize = 0;
        while k < self.entries.len() && comes_before(&self.entries[k].0, name)
            invariant
                k <= self.entries@.len(),
                forall|i: int|
                    0 <= i < k ==> text::less((#[trigger] named(self.entries@)[i]).0, name@),
            decreases self.entries@.len() - k,
        {
            assert(named(self.entries@)[k as int].0 == self.entries@[k as int].0@);
            k = k + 1;
        }
        proof {
            if k < self.entries@.len() {
                assert(named(self.entries@)[k as int].0 == self.entries@[k as int].0@);
            }
        }
        k
    }

    /// The profile of a name.
    pub fn get(&self, name: &str) -> (p: Option<&QbtProfile>)
        ensures
            p is Some <==> lookup(self@, name@) is Some,
            p matches Some(q) ==> lookup(self@, name@) == Some(q@),
    {
        let k: usize = self.place(name);
        let ghost all = named(self.entries@);
        proof {
            use_type_invariant(self);
        }
        if k < self.entries.len() && same(&self.entries[k].0, name) {
            proof {
                assert(all[k as int].0 == name@);
                lemma_put_at(all, name@, all[k as int].1, k as int);
            }
            Some(&self.entries[k].1)
        } else {
            proof {
                if k < all.len() {
                    assert(all[k as int].0 == self.entries@[k as int].0@);
                }
                lemma_absent_at(all, name@, k as int);
            }
            None
        }
    }

    /// The entries again.
    fn copy_entries(&self) -> (entries: Vec<(String, QbtProfile)>)
        ensures
            entries@ == self.entries@,
    {
        let mut entries: Vec<(String, QbtProfile)> = Vec::new();
        let mut i: usize = 0;
        while i < self.entries.len()
            invariant
                i <= self.entries@.len(),
                entries@ == self.entries@.take(i as int),
            decreases self.entries@.len() - i,
        {
            let e = &self.entries[i];
            entries.push((e.0.clone(), e.1.duplicate()));
            i = i + 1;
        }
        assert(entries@ == self.entries@);
        entries
    }

    /// The same profiles again.
    pub fn duplicate(&self) -> (m: ProfileMap)
        ensures
            m@ == self@,
    {
        proof {
            use_type_invariant(self);
        }
        ProfileMap { entries: self.copy_entries() }
    }

    /// The names and profiles as pairs, in strictly ascending order of the names.
    pub fn pairs(&self) -> (v: Vec<(String, QbtProfile)>)
        ensures
            named(v@) == self@,
            ascending(self@),
    {
        proof {
            use_type_invariant(self);
        }
        self.copy_entries()
    }

    /// The profiles that pairs give, of which the last one counts where a name
    /// occurs more than once.
    pub fn from_pairs(pairs: Vec<(String, QbtProfile)>) -> (m: ProfileMap)
        ensures
            m@ == put_all(named(pairs@)),
    {
        let mut m = ProfileMap::new();
        let mut i: usize = 0;
        let ghost all = named(pairs@);
        proof {
            assert(m@ == all.take(0));
        }
        while i < pairs.len()
            invariant
                i <= pairs@.len(),
                all == named(pairs@),
                m@ == put_all(all.take(i as int)),
            decreases pairs@.len() - i,
        {
            let e = &pairs[i];
            proof {
                assert(all.take(i + 1).drop_last() == all.take(i as int));
                assert(all.take(i + 1).last() == (e.0@, e.1@));
            }
            m = m.insert(e.0.clone(), e.1.duplicate());
            i = i + 1;
        }
        proof {
            assert(all.take(all.len() as int) == all);
        }
        m
    }

    /// The names, in strictly ascending order.
    pub fn names(&self) -> (v: Vec<String>)
        ensures
            text::texts(v@) == names_of(self@),
            ascending(self@),
    {
        proof {
            use_type_invariant(self);
        }
        let mut v: Vec<String> = Vec::new();
        let mut i: usize = 0;
        while i < self.entries.len()
            invariant
                i <= self.entries@.len(),
                v@.len() == i,
                forall|k: int| 0 <= k < i ==> (#[trigger] v@[k])@ == self.entries@[k].0@,
            decreases self.entries@.len() - i,
        {
            v.push(self.entries[i].0.clone());
            i = i + 1;
        }
        assert(text::texts(v@) == names_of(self@));
        v
    }

    /// The entry at a place in the order.
    pub fn at(&self, i: usize) -> (e: (&String, &QbtProfile))
        requires
            i < self@.len(),
        ensures
            (e.0@, e.1@) == self@[i as int],
    {
        let e = &self.entries[i];
        (&e.0, &e.1)
    }

    /// The same profiles, with `profile` under `name` in place of the one that
    /// was there.
    pub fn insert(self, name: String, profile: QbtProfile) -> (m: ProfileMap)
        ensures
            m@ == put(self@, name@, profile@),
            ascending(m@),
    {
        let k: usize = self.place(&name);
        proof {
            use_type_invariant(&self);
        }
        let ghost all = named(self.entries@);
        let mut entries = self.entries;
        let ghost new = (name@, profile@);
        proof {
            lemma_put_at(all, name@, profile@, k as int);
            law_put_keeps_order(all, name@, profile@);
        }
        if k < entries.len() && same(&entries[k].0, &name) {
            proof {
                assert(all[k as int].0 == name@);
            }
            entries.set(k, (name, profile));
            proof {
                assert(named(entries@) == all.update(k as int, new));
            }
        } else {
            proof {
                if k < all.len() {
                    assert(all[k as int].0 == entries@[k as int].0@);
                    text::lemma_less_order(all[k as int].0, name@, name@);
                }
            }
            entries.insert(k, (name, profile));
            proof {
                assert(named(entries@) == all.insert(k as int, new));
            }
        }
        ProfileMap { entries }
    }

    /// The same profiles without the one under `name`.
    pub fn remove(self, name: &str) -> (m: ProfileMap)
        ensures
            m@ == without(self@, name@),
            ascending(m@),
    {
        let k: usize = self.place(name);
        proof {
            use_type_invariant(&self);
        }
        let ghost all = named(self.entries@);
        let mut entries = self.entries;
        if k < entries.len() && same(&entries[k].0, name) {
            let _ = entries.remove(k);
            proof {
                assert(all[k as int].0 == name@);
                lemma_put_at(all, name@, all[k as int].1, k as int);
                assert(named(entries@) == all.remove(k as int));
                let r = all.remove(k as int);
                assert forall|i: int, j: int| 0 <= i < j < r.len() implies text::less(
                    (#[trigger] r[i]).0,
                    (#[trigger] r[j]).0,
                ) by {
                    let a = if i < k {
                        i
                    } else {
                        i + 1
                    };
                    let b = if j < k {
                        j
                    } else {
                        j + 1
                    };
                    assert(r[i] == all[a] && r[j] == all[b]);
                }
            }
        } else {
            proof {
                if k < all.len() {
                    assert(all[k as int].0 == entries@[k as int].0@);
                }
                lemma_absent_at(all, name@, k as int);
            }
        }
        ProfileMap { entries }
    }
}

// ---------------------------------------------------------------------------
// Laws

/// What is put under a name is found there, and nothing else changes.
pub proof fn law_put_then_lookup(
    entries: Seq<NamedProfile>,
    name: Seq<char>,
    profile: ProfileView,
    other: Seq<char>,
)
    ensures
        lookup(put(entries, name, profile), name) == Some(profile),
        other != name ==> lookup(put(entries, name, profile), other) == lookup(entries, other),
    decreases entries.len(),
{
    let r = put(entries, name, profile);
    if entries.len() == 0 || text::less(name, entries[0].0) {
        assert(r.skip(1) == entries);
    } else if entries[0].0 == name {
        assert(r.skip(1) == entries.skip(1));
    } else {
        law_put_then_lookup(entries.skip(1), name, profile, other);
        assert(r.skip(1) == put(entries.skip(1), name, profile));
    }
}

/// What is removed is not found any more, and nothing else changes.
pub proof fn law_removed_is_gone(entries: Seq<NamedProfile>, name: Seq<char>, other: Seq<char>)
    requires
        ascending(entries),
    ensures
        lookup(without(entries, name), name) is None,
        other != name ==> lookup(without(entries, name), other) == lookup(entries, other),
    decreases entries.len(),
{
    if entries.len() > 0 {
        let t = entries.skip(1);
        assert forall|i: int, j: int| 0 <= i < j < t.len() implies text::less(
            (#[trigger] t[i]).0,
            (#[trigger] t[j]).0,
        ) by {
            assert(t[i] == entries[i + 1] && t[j] == entries[j + 1]);
        }
        if entries[0].0 == name {
            assert forall|i: int| 0 <= i < t.len() implies (#[trigger] t[i]).0 != name by {
                assert(t[i] == entries[i + 1]);
                assert(text::less(entries[0].0, entries[i + 1].0));
                text::lemma_less_order(name, name, name);
            }
            lemma_absent(t, name);
        } else {
            law_removed_is_gone(t, name, other);
            let r = without(entries, name);
            assert(r.skip(1) == without(t, name));
        }
    }
}

/// Removing a name that was new before it was put gives back what there was.
pub proof fn law_remove_undoes_put(
    entries: Seq<NamedProfile>,
    name: Seq<char>,
    profile: ProfileView,
)
    requires
        lookup(entries, name) is None,
    ensures
        without(put(entries, name, profile), name) == entries,
    decreases entries.len(),
{
    let r = put(entries, name, profile);
    if entries.len() == 0 || text::less(name, entries[0].0) {
        assert(r.skip(1) == entries);
    } else {
        law_remove_undoes_put(entries.skip(1), name, profile);
        assert(r.skip(1) == put(entries.skip(1), name, profile));
        assert(seq![entries[0]] + entries.skip(1) == entries);
    }
}

/// Putting twice under one name is putting the last.
pub proof fn law_put_replaces(
    entries: Seq<NamedProfile>,
    name: Seq<char>,
    a: ProfileView,
    b: ProfileView,
)
    ensures
        put(put(entries, name, a), name, b) == put(entries, name, b),
    decreases entries.len(),
{
    let r = put(entries, name, a);
    text::lemma_less_order(name, name, name);
    if entries.len() == 0 || text::less(name, entries[0].0) {
        assert(r.skip(1) == entries);
    } else if entries[0].0 == name {
        assert(r.skip(1) == entries.skip(1));
    } else {
        law_put_replaces(entries.skip(1), name, a, b);
        assert(r.skip(1) == put(entries.skip(1), name, a));
    }
}

proof fn lemma_put_behind(entries: Seq<NamedProfile>, name: Seq<char>, profile: ProfileView)
    requires
        forall|i: int| 0 <= i < entries.len() ==> text::less((#[trigger] entries[i]).0, name),
    ensures
        put(entries, name, profile) == entries.push((name, profile)),
{
    lemma_put_at(entries, name, profile, entries.len() as int);
    assert(entries.insert(entries.len() as int, (name, profile)) == entries.push((name, profile)));
}

/// Profiles taken apart into pairs and put together again are the same: the
/// pairs of a map are in order, and pairs in order give themselves.
pub proof fn law_pairs_give_back_the_map(pairs: Seq<NamedProfile>)
    requires
        ascending(pairs),
    ensures
        put_all(pairs) == pairs,
    decreases pairs.len(),
{
    if pairs.len() > 0 {
        let before = pairs.drop_last();
        assert forall|i: int, j: int| 0 <= i < j < before.len() implies text::less(
            (#[trigger] before[i]).0,
            (#[trigger] before[j]).0,
        ) by {
            assert(before[i] == pairs[i] && before[j] == pairs[j]);
        }
        law_pairs_give_back_the_map(before);
        let last = pairs[pairs.len() - 1];
        assert forall|i: int| 0 <= i < before.len() implies text::less(
            (#[trigger] before[i]).0,
            last.0,
        ) by {
            assert(before[i] == pairs[i]);
        }
        lemma_put_behind(before, last.0, last.1);
        assert(before.push(last) == pairs);
    }
}

/// Whatever the pairs, the map that they give is in order.
pub proof fn law_pairs_give_a_map_in_order(pairs: Seq<NamedProfile>)
    ensures
        ascending(put_all(pairs)),
    decreases pairs.len(),
{
    if pairs.len() > 0 {
        law_pairs_give_a_map_in_order(pairs.drop_last());
        law_put_keeps_order(put_all(pairs.drop_last()), pairs.last().0, pairs.last().1);
    }
}

/// The profile of a name is that of the first entry with the name, wherever it
/// stands; where no entry has the name there is none.
pub proof fn law_lookup_finds_the_entry(entries: Seq<NamedProfile>, name: Seq<char>, k: int)
    ensures
        0 <= k < entries.len() && entries[k].0 == name && (forall|i: int|
            0 <= i < k ==> (#[trigger] entries[i]).0 != name) ==> lookup(entries, name) == Some(
            entries[k].1,
        ),
        (forall|i: int| 0 <= i < entries.len() ==> (#[trigger] entries[i]).0 != name) ==> lookup(
            entries,
            name,
        ) is None,
    decreases entries.len(),
{
    if entries.len() > 0 {
        let t = entries.skip(1);
        if entries[0].0 != name {
            law_lookup_finds_the_entry(t, name, k - 1);
            if forall|i: int| 0 <= i < k ==> (#[trigger] entries[i]).0 != name {
                assert forall|i: int| 0 <= i < k - 1 && i < t.len() implies (#[trigger] t[i]).0
                    != name by {
                    assert(t[i] == entries[i + 1]);
                }
            }
            if forall|i: int| 0 <= i < entries.len() ==> (#[trigger] entries[i]).0 != name {
                assert forall|i: int| 0 <= i < t.len() implies (#[trigger] t[i]).0 != name by {
                    assert(t[i] == entries[i + 1]);
                }
            }
        } else {
            assert(entries[0].0 == name);
        }
    }
}

/// Names and entries are seen whole, all of them and in order.
pub proof fn law_profiles_are_seen_whole(
    entries: Seq<NamedProfile>,
    stored: Seq<(String, QbtProfile)>,
    i: int,
)
    ensures
        names_of(entries).len() == entries.len(),
        0 <= i < entries.len() ==> names_of(entries)[i] == entries[i].0,
        named(stored).len() == stored.len(),
        0 <= i < stored.len() ==> {
            &&& named(stored)[i].0 == stored[i].0@
            &&& named(stored)[i].1.endpoint == stored[i].1.endpoint@
            &&& named(stored)[i].1.username == stored[i].1.username@
            &&& named(stored)[i].1.password == stored[i].1.password@
        },
{
}

/// Of a list of pairs every name is found, with the last profile under it, and no
/// other name is. The names ascend, whole.
pub proof fn law_every_pair_is_kept(pairs: Seq<NamedProfile>, name: Seq<char>, k: int, i: int, j: int)
    ensures
        0 <= k < pairs.len() && pairs[k].0 == name && (forall|m: int|
            k < m < pairs.len() ==> (#[trigger] pairs[m]).0 != name) ==> lookup(
            put_all(pairs),
            name,
        ) == Some(pairs[k].1),
        (forall|m: int| 0 <= m < pairs.len() ==> (#[trigger] pairs[m]).0 != name) ==> lookup(
            put_all(pairs),
            name,
        ) is None,
        0 <= i < j < put_all(pairs).len() ==> text::less(
            put_all(pairs)[i].0,
            put_all(pairs)[j].0,
        ),
    decreases pairs.len(),
{
    law_pairs_give_a_map_in_order(pairs);
    if pairs.len() > 0 {
        let before = pairs.drop_last();
        let last = pairs[pairs.len() - 1];
        law_every_pair_is_kept(before, name, k, 0, 0);
        law_put_then_lookup(put_all(before), last.0, last.1, name);
        if 0 <= k < pairs.len() - 1 && pairs[k].0 == name && (forall|m: int|
            k < m < pairs.len() ==> (#[trigger] pairs[m]).0 != name) {
            assert(last.0 != name);
            assert forall|m: int| k < m < before.len() implies (#[trigger] before[m]).0 != name by {
                assert(before[m] == pairs[m]);
            }
        }
        if forall|m: int| 0 <= m < pairs.len() ==> (#[trigger] pairs[m]).0 != name {
            assert(last.0 != name);
            assert forall|m: int| 0 <= m < before.len() implies (#[trigger] before[m]).0 != name by {
                assert(before[m] == pairs[m]);
            }
        }
    }
}

/// Putting and removing keep the names ascending, whole.
pub proof fn law_names_keep_ascending(
    entries: Seq<NamedProfile>,
    name: Seq<char>,
    profile: ProfileView,
    i: int,
    j: int,
)
    requires
        forall|i: int, j: int|
            0 <= i < j < entries.len() ==> text::less(
                (#[trigger] entries[i]).0,
                (#[trigger] entries[j]).0,
            ),
    ensures
        0 <= i < j < put(entries, name, profile).len() ==> text::less(
            put(entries, name, profile)[i].0,
            put(entries, name, profile)[j].0,
        ),
        put(entries, name, profile).len() == entries.len() + if lookup(entries, name) is Some {
            0nat
        } else {
            1nat
        },
        without(entries, name).len() + if lookup(entries, name) is Some {
            1nat
        } else {
            0nat
        } == entries.len(),
        lookup(entries, name) is None ==> without(entries, name) == entries,
{
    assert(ascending(entries));
    law_put_keeps_order(entries, name, profile);
    lemma_put_len(entries, name, profile);
    lemma_without_len(entries, name);
}

proof fn lemma_put_len(entries: Seq<NamedProfile>, name: Seq<char>, profile: ProfileView)
    requires
        ascending(entries),
    ensures
        put(entries, name, profile).len() == entries.len() + if lookup(entries, name) is Some {
            0nat
        } else {
            1nat
        },
    decreases entries.len(),
{
    if entries.len() > 0 {
        let t = entries.skip(1);
        assert(ascending(t)) by {
            assert forall|i: int, j: int| 0 <= i < j < t.len() implies text::less(
                (#[trigger] t[i]).0,
                (#[trigger] t[j]).0,
            ) by {
                assert(t[i] == entries[i + 1] && t[j] == entries[j + 1]);
            }
        }
        lemma_put_len(t, name, profile);
        text::lemma_less_order(name, name, name);
        if text::less(name, entries[0].0) {
            assert forall|i: int| 0 <= i < entries.len() implies (#[trigger] entries[i]).0 != name by {
                if i > 0 {
                    assert(text::less(entries[0].0, entries[i].0));
                    text::lemma_less_order(name, entries[0].0, name);
                }
            }
            lemma_absent(entries, name);
        }
    }
}

proof fn lemma_without_len(entries: Seq<NamedProfile>, name: Seq<char>)
    ensures
        without(entries, name).len() + if lookup(entries, name) is Some {
            1nat
        } else {
            0nat
        } == entries.len(),
        lookup(entries, name) is None ==> without(entries, name) == entries,
    decreases entries.len(),
{
    if entries.len() > 0 && entries[0].0 != name {
        lemma_without_len(entries.skip(1), name);
        assert(seq![entries[0]] + entries.skip(1) == entries);
    }
}

/// What may be shown of a profile has its whole endpoint and user name, and says
/// the same whatever the password.
pub proof fn law_a_password_is_never_shown(endpoint: Seq<char>, username: Seq<char>)
    ensures
        shown_profile(endpoint, username) == "QbtProfile { endpoint: "@ + endpoint
            + ", username: "@ + username + ", password: \"<redacted>\" }"@,
{
}

}
