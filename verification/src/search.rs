//! From a search to a feed: which question comes next, and what each answer
//! leads to.
use crate::display;
use crate::display::{nothing, said, Line, LineView};
use crate::feed;
use crate::feed::Feed;
use crate::mikan;
use crate::mikan::{Show, Subgroup};
use crate::prompts;
use crate::prompts::{
    add_proxy_hint, rss_url, subgroup_choice, take_or_cancel, GroupNav, Prompted, ShowChoice,
    SubgroupChoice,
};
use crate::text;
use crate::text::{concat3, trim};
use vstd::prelude::*;

verus! {

/// What the search waits for.
pub enum Search {
    /// What to search for.
    Asking,
    /// The shows that match.
    Searching { query: String },
    /// Which of them it is.
    Picking { query: String, shows: Vec<Show> },
    /// The groups of the show.
    Loading { query: String, shows: Vec<Show>, id: u32 },
    /// Which of them it is.
    Grouping { query: String, shows: Vec<Show>, id: u32 },
    /// The feed.
    Fetching,
    /// Nothing any more.
    Over,
}

/// What has happened.
pub enum SearchEvent {
    Query(Prompted<String>),
    Shows(Result<Vec<Show>, String>),
    Picked(Prompted<ShowChoice>),
    Groups(Result<Vec<Subgroup>, String>),
    Grouped(Prompted<GroupNav>),
    Fetched(Result<Feed, String>),
}

/// What to do next.
pub enum SearchAction {
    /// Ask what to search for, with a text to begin with.
    AskQuery { initial: Option<String> },
    Search { query: String },
    PickShow { options: Vec<ShowChoice> },
    LoadGroups { id: u32 },
    PickGroup { options: Vec<GroupNav> },
    FetchFeed { url: String },
    /// Export the episodes of the feed.
    Export(Feed),
    /// End with an exit code.
    Finish(i32),
    /// End with an error.
    Fail(String),
    /// What happened answers nothing that was asked.
    Ignored,
}

/// What to print, and what to do next.
pub struct SearchStep {
    pub lines: Vec<Line>,
    pub action: SearchAction,
}

// ---------------------------------------------------------------------------
// What each step amounts to

/// Nothing is printed.
pub open spec fn silent(out: SearchStep) -> bool {
    display::lines(out.lines@) == Seq::<LineView>::empty()
}

/// The user gave up: that is told, and no error.
pub open spec fn cancelled(t: Search, out: SearchStep) -> bool {
    &&& t is Over
    &&& display::lines(out.lines@) == seq![LineView::Out("已取消"@)]
    &&& out.action == SearchAction::Finish(0)
}

/// The search ends with an error.
pub open spec fn failed(message: Seq<char>, t: Search, out: SearchStep) -> bool {
    &&& t is Over
    &&& silent(out)
    &&& out.action matches SearchAction::Fail(m)
    &&& m@ == message
}

/// The words are looked up.
pub open spec fn looks_up(words: Seq<char>, t: Search, out: SearchStep) -> bool {
    &&& t matches Search::Searching { query }
    &&& query@ == words
    &&& silent(out)
    &&& out.action matches SearchAction::Search { query: q }
    &&& q@ == words
}

/// The user is asked for other words, and has the last ones to begin with.
pub open spec fn asks_again(words: Seq<char>, t: Search, out: SearchStep) -> bool {
    &&& t is Asking
    &&& out.action matches SearchAction::AskQuery { initial }
    &&& feed::text_of(initial) == Some(words)
}

/// Each show as a choice, and another search as the last.
pub open spec fn show_options(shows: Seq<Show>) -> Seq<ShowChoice> {
    shows.map_values(|s: Show| ShowChoice::Pick(s)).push(ShowChoice::SearchAgain)
}

/// The shows are offered.
pub open spec fn offers(query: String, shows: Vec<Show>, t: Search, out: SearchStep) -> bool {
    &&& t == Search::Picking { query, shows }
    &&& silent(out)
    &&& out.action matches SearchAction::PickShow { options }
    &&& options@ == show_options(shows@)
}

/// All groups as the first choice, then each group, and the way back as the
/// last.
pub open spec fn group_options(groups: Seq<Subgroup>, options: Seq<GroupNav>) -> bool {
    &&& options.len() == groups.len() + 2
    &&& options[0] matches GroupNav::Group(all)
    &&& all.id == 0
    &&& all.name@ == "全部字幕组"@
    &&& forall|i: int| 0 <= i < groups.len() ==> #[trigger] options[i + 1] == GroupNav::Group(groups[i])
    &&& options.last() is Back
}

/// The feed of a group is fetched.
pub open spec fn fetches(id: u32, group: u32, t: Search, out: SearchStep) -> bool {
    &&& t is Fetching
    &&& silent(out)
    &&& out.action matches SearchAction::FetchFeed { url }
    &&& url@ == prompts::feed_address(id, group)
}

/// An error of the network, with the advice to check the proxy where that may
/// help.
pub open spec fn network_error(cause: Seq<char>) -> Seq<char> {
    prompts::hinted(cause, text::lowercase(cause))
}

/// The complaint about a feed without episodes.
pub open spec fn no_episodes(title: Seq<char>) -> Seq<char> {
    "订阅「"@ + title + "」中没有剧集"@
}

/// A question was answered, given up or failed: the answer leads to `next`.
pub open spec fn asked<T>(
    p: Prompted<T>,
    what: Seq<char>,
    next: spec_fn(T) -> bool,
    t: Search,
    out: SearchStep,
) -> bool {
    match p {
        Prompted::Answered(v) => next(v),
        Prompted::Skipped => cancelled(t, out),
        Prompted::Interrupted => cancelled(t, out),
        Prompted::Broken(cause) => failed(prompts::asking_failed(what, cause@), t, out),
    }
}

/// The shows were found, or none, or the site could not be reached.
pub open spec fn after_shows(
    query: String,
    shows: Result<Vec<Show>, String>,
    t: Search,
    out: SearchStep,
) -> bool {
    match shows {
        Err(cause) => failed(network_error(cause@), t, out),
        Ok(shows) => if shows@.len() == 0 {
            &&& asks_again(query@, t, out)
            &&& display::lines(out.lines@) == seq![
                LineView::Out("未找到与「"@ + query@ + "」匹配的番剧"@),
            ]
        } else {
            offers(query, shows, t, out)
        },
    }
}

/// A show was chosen, or another search.
pub open spec fn after_choice(
    query: String,
    shows: Vec<Show>,
    choice: ShowChoice,
    t: Search,
    out: SearchStep,
) -> bool {
    match choice {
        ShowChoice::SearchAgain => asks_again(query@, t, out) && silent(out),
        ShowChoice::Pick(show) => {
            &&& t == Search::Loading { query, shows, id: show.id }
            &&& silent(out)
            &&& out.action == SearchAction::LoadGroups { id: show.id }
        },
    }
}

/// The groups of a show were found, or the site could not be reached. Without a
/// choice nothing is asked.
pub open spec fn after_groups(
    query: String,
    shows: Vec<Show>,
    id: u32,
    groups: Result<Vec<Subgroup>, String>,
    t: Search,
    out: SearchStep,
) -> bool {
    match groups {
        Err(cause) => failed(network_error(cause@), t, out),
        Ok(groups) => if groups@.len() == 0 {
            fetches(id, 0, t, out)
        } else if groups@.len() == 1 {
            fetches(id, groups@[0].id, t, out)
        } else {
            &&& t == Search::Grouping { query, shows, id }
            &&& silent(out)
            &&& out.action matches SearchAction::PickGroup { options }
            &&& group_options(groups@, options@)
        },
    }
}

/// A group was chosen, or the way back.
pub open spec fn after_group(
    query: String,
    shows: Vec<Show>,
    id: u32,
    nav: GroupNav,
    t: Search,
    out: SearchStep,
) -> bool {
    match nav {
        GroupNav::Group(group) => fetches(id, group.id, t, out),
        GroupNav::Back => offers(query, shows, t, out),
    }
}

/// The feed was fetched, or not. One without episodes is an error.
pub open spec fn after_feed(fetched: Result<Feed, String>, t: Search, out: SearchStep) -> bool {
    match fetched {
        Err(cause) => failed(network_error(cause@), t, out),
        Ok(feed) => if feed.episodes@.len() == 0 {
            failed(no_episodes(feed.channel_title@), t, out)
        } else {
            t is Over && silent(out) && out.action == SearchAction::Export(feed)
        },
    }
}

/// How `e` takes the search from `s` to `t`, with `out` to print and to do.
pub open spec fn search_step(s: Search, e: SearchEvent, t: Search, out: SearchStep) -> bool {
    match (s, e) {
        (Search::Asking, SearchEvent::Query(p)) => asked(
            p,
            "搜索关键词"@,
            |q: String| looks_up(text::trimmed(q@), t, out),
            t,
            out,
        ),
        (Search::Searching { query }, SearchEvent::Shows(r)) => after_shows(query, r, t, out),
        (Search::Picking { query, shows }, SearchEvent::Picked(p)) => asked(
            p,
            "番剧"@,
            |c: ShowChoice| after_choice(query, shows, c, t, out),
            t,
            out,
        ),
        (Search::Loading { query, shows, id }, SearchEvent::Groups(r)) => after_groups(
            query,
            shows,
            id,
            r,
            t,
            out,
        ),
        (Search::Grouping { query, shows, id }, SearchEvent::Grouped(p)) => asked(
            p,
            "字幕组"@,
            |n: GroupNav| after_group(query, shows, id, n, t, out),
            t,
            out,
        ),
        (Search::Fetching, SearchEvent::Fetched(r)) => after_feed(r, t, out),
        _ => t == s && silent(out) && out.action is Ignored,
    }
}

// ---------------------------------------------------------------------------
// The steps

/// The user gave up.
fn cancel() -> (r: (Search, SearchStep))
    ensures
        cancelled(r.0, r.1),
{
    (
        Search::Over,
        SearchStep { lines: said("已取消".to_owned()), action: SearchAction::Finish(0) },
    )
}

/// The search ends with an error.
fn fail(message: String) -> (r: (Search, SearchStep))
    ensures
        failed(message@, r.0, r.1),
{
    (Search::Over, SearchStep { lines: nothing(), action: SearchAction::Fail(message) })
}

/// The words are looked up.
fn look_up(words: &str) -> (r: (Search, SearchStep))
    ensures
        looks_up(text::trimmed(words@), r.0, r.1),
{
    let query = trim(words);
    let asked = query.clone();
    (
        Search::Searching { query },
        SearchStep { lines: nothing(), action: SearchAction::Search { query: asked } },
    )
}

/// The shows are offered.
fn offer(query: String, shows: Vec<Show>) -> (r: (Search, SearchStep))
    ensures
        offers(query, shows, r.0, r.1),
{
    let mut options: Vec<ShowChoice> = Vec::new();
    let mut i: usize = 0;
    while i < shows.len()
        invariant
            i <= shows@.len(),
            options@.len() == i,
            forall|k: int| 0 <= k < i ==> #[trigger] options@[k] == ShowChoice::Pick(shows@[k]),
        decreases shows@.len() - i,
    {
        options.push(ShowChoice::Pick(shows[i].duplicate()));
        i = i + 1;
    }
    options.push(ShowChoice::SearchAgain);
    assert(options@ == show_options(shows@));
    (
        Search::Picking { query, shows },
        SearchStep { lines: nothing(), action: SearchAction::PickShow { options } },
    )
}

/// The feed of a group is fetched.
fn fetch(id: u32, group: u32) -> (r: (Search, SearchStep))
    ensures
        fetches(id, group, r.0, r.1),
{
    let url = rss_url(id, group);
    (
        Search::Fetching,
        SearchStep { lines: nothing(), action: SearchAction::FetchFeed { url } },
    )
}

/// The choices among groups.
fn offer_groups(menu: Vec<Subgroup>) -> (options: Vec<GroupNav>)
    ensures
        options@.len() == menu@.len() + 1,
        forall|i: int| 0 <= i < menu@.len() ==> #[trigger] options@[i] == GroupNav::Group(menu@[i]),
        options@.last() is Back,
{
    let mut options: Vec<GroupNav> = Vec::new();
    let mut i: usize = 0;
    while i < menu.len()
        invariant
            i <= menu@.len(),
            options@.len() == i,
            forall|k: int| 0 <= k < i ==> #[trigger] options@[k] == GroupNav::Group(menu@[k]),
        decreases menu@.len() - i,
    {
        options.push(GroupNav::Group(menu[i].duplicate()));
        i = i + 1;
    }
    options.push(GroupNav::Back);
    options
}

/// Begins a search: with the words given, or by asking for them.
pub fn search_flow(query: Option<String>) -> (r: (Search, SearchStep))
    ensures
        query is Some && text::trimmed(query->0@).len() > 0 ==> looks_up(
            text::trimmed(query->0@),
            r.0,
            r.1,
        ),
        query is None || text::trimmed(query->0@).len() == 0 ==> {
            &&& r.0 is Asking
            &&& silent(r.1)
            &&& r.1.action == SearchAction::AskQuery { initial: None }
        },
{
    if let Some(q) = query {
        let words = trim(&q);
        if !words.as_str().is_empty() {
            return look_up(&q);
        }
    }
    (
        Search::Asking,
        SearchStep { lines: nothing(), action: SearchAction::AskQuery { initial: None } },
    )
}

/// Begins with the address of a feed.
pub fn wizard(url: &str) -> (r: (Search, SearchStep))
    ensures
        r.0 is Fetching,
        silent(r.1),
        r.1.action matches SearchAction::FetchFeed { url: u } && u@ == url@,
{
    (
        Search::Fetching,
        SearchStep { lines: nothing(), action: SearchAction::FetchFeed { url: url.to_owned() } },
    )
}

impl Search {
    /// What follows what has happened.
    pub fn step(self, event: SearchEvent) -> (r: (Search, SearchStep))
        ensures
            search_step(self, event, r.0, r.1),
    {
        match (self, event) {
            (Search::Asking, SearchEvent::Query(p)) => match take_or_cancel(p, "搜索关键词") {
                Ok(Some(q)) => look_up(&q),
                Ok(None) => cancel(),
                Err(message) => fail(message),
            },
            (Search::Searching { query }, SearchEvent::Shows(Ok(shows))) => {
                if shows.len() == 0 {
                    let line = concat3("未找到与「", &query, "」匹配的番剧");
                    (
                        Search::Asking,
                        SearchStep {
                            lines: said(line),
                            action: SearchAction::AskQuery { initial: Some(query) },
                        },
                    )
                } else {
                    offer(query, shows)
                }
            },
            (Search::Searching { query: _ }, SearchEvent::Shows(Err(cause))) => fail(
                add_proxy_hint(&cause),
            ),
            (Search::Picking { query, shows }, SearchEvent::Picked(p)) => match take_or_cancel(
                p,
                "番剧",
            ) {
                Ok(Some(ShowChoice::SearchAgain)) => (
                    Search::Asking,
                    SearchStep {
                        lines: nothing(),
                        action: SearchAction::AskQuery { initial: Some(query) },
                    },
                ),
                Ok(Some(ShowChoice::Pick(show))) => {
                    let id: u32 = show.id;
                    (
                        Search::Loading { query, shows, id },
                        SearchStep { lines: nothing(), action: SearchAction::LoadGroups { id } },
                    )
                },
                Ok(None) => cancel(),
                Err(message) => fail(message),
            },
            (Search::Loading { query, shows, id }, SearchEvent::Groups(Ok(groups))) => {
                match subgroup_choice(groups) {
                    SubgroupChoice::Auto(group) => fetch(id, group),
                    SubgroupChoice::Menu(menu) => {
                        let ghost all = menu@;
                        let options = offer_groups(menu);
                        proof {
                            assert(all.len() == groups@.len() + 1);
                            assert(options@[0] == GroupNav::Group(all[0]));
                            assert forall|i: int| 0 <= i < groups@.len() implies #[trigger] options@[i
                                + 1] == GroupNav::Group(groups@[i]) by {
                                assert(all.skip(1)[i] == all[i + 1]);
                            }
                        }
                        (
                            Search::Grouping { query, shows, id },
                            SearchStep {
                                lines: nothing(),
                                action: SearchAction::PickGroup { options },
                            },
                        )
                    },
                }
            },
            (Search::Loading { query: _, shows: _, id: _ }, SearchEvent::Groups(Err(cause))) => fail(
                add_proxy_hint(&cause),
            ),
            (Search::Grouping { query, shows, id }, SearchEvent::Grouped(p)) => match take_or_cancel(
                p,
                "字幕组",
            ) {
                Ok(Some(GroupNav::Group(group))) => fetch(id, group.id),
                Ok(Some(GroupNav::Back)) => offer(query, shows),
                Ok(None) => cancel(),
                Err(message) => fail(message),
            },
            (Search::Fetching, SearchEvent::Fetched(Ok(feed))) => {
                if feed.episodes.len() == 0 {
                    fail(concat3("订阅「", &feed.channel_title, "」中没有剧集"))
                } else {
                    (
                        Search::Over,
                        SearchStep { lines: nothing(), action: SearchAction::Export(feed) },
                    )
                }
            },
            (Search::Fetching, SearchEvent::Fetched(Err(cause))) => fail(add_proxy_hint(&cause)),
            (same, _) => (
                same,
                SearchStep { lines: nothing(), action: SearchAction::Ignored },
            ),
        }
    }
}

// ---------------------------------------------------------------------------
// Laws

/// A question given up.
pub open spec fn given_up<T>(p: Prompted<T>) -> bool {
    p is Skipped || p is Interrupted
}

/// Giving up any question ends the run without an error, by Esc or by Ctrl-C.
pub proof fn law_cancelling_is_no_error(s: Search, e: SearchEvent, t: Search, out: SearchStep)
    requires
        search_step(s, e, t, out),
        match (s, e) {
            (Search::Asking, SearchEvent::Query(p)) => given_up(p),
            (Search::Picking { .. }, SearchEvent::Picked(p)) => given_up(p),
            (Search::Grouping { .. }, SearchEvent::Grouped(p)) => given_up(p),
            _ => false,
        },
    ensures
        t is Over,
        out.action == SearchAction::Finish(0),
        display::lines(out.lines@) == seq![LineView::Out("已取消"@)],
{
}

/// The way back from the groups offers the same shows again, without another
/// search.
pub proof fn law_back_offers_the_same_shows(
    query: String,
    shows: Vec<Show>,
    id: u32,
    t: Search,
    out: SearchStep,
)
    requires
        search_step(
            Search::Grouping { query, shows, id },
            SearchEvent::Grouped(Prompted::Answered(GroupNav::Back)),
            t,
            out,
        ),
    ensures
        t == (Search::Picking { query, shows }),
        out.action matches SearchAction::PickShow { options } && options@ == show_options(shows@),
{
}

/// A search without a result, and one that is to be tried again, ask anew with
/// the last words to begin with.
pub proof fn law_searching_again_begins_with_the_last_words(
    s: Search,
    e: SearchEvent,
    t: Search,
    out: SearchStep,
)
    requires
        search_step(s, e, t, out),
        out.action is AskQuery,
    ensures
        t is Asking,
        out.action matches SearchAction::AskQuery { initial } && match s {
            Search::Searching { query } => feed::text_of(initial) == Some(query@),
            Search::Picking { query, .. } => feed::text_of(initial) == Some(query@),
            _ => false,
        },
{
}

/// What is searched for is trimmed, and not empty where the answer was not
/// blank.
pub proof fn law_queries_are_trimmed(s: Search, p: Prompted<String>, t: Search, out: SearchStep)
    requires
        search_step(s, SearchEvent::Query(p), t, out),
    ensures
        out.action matches SearchAction::Search { query } ==> feed::tight(query@)
            && (text::trimmed(p->Answered_0@).len() > 0 ==> query@.len() > 0),
{
    if let Prompted::Answered(q) = p {
        text::lemma_trimmed(q@);
    }
}

/// Only a feed with episodes is exported.
pub proof fn law_exported_feeds_have_episodes(s: Search, e: SearchEvent, t: Search, out: SearchStep)
    requires
        search_step(s, e, t, out),
        out.action is Export,
    ensures
        out.action matches SearchAction::Export(feed) && feed.episodes@.len() > 0,
{
}

/// The feed that is fetched is that of the show that was picked, and of the
/// group that was: its address names the group, and none for all groups.
pub proof fn law_the_feed_is_of_the_chosen_group(
    query: String,
    shows: Vec<Show>,
    id: u32,
    group: Subgroup,
    t: Search,
    out: SearchStep,
)
    requires
        search_step(
            Search::Grouping { query, shows, id },
            SearchEvent::Grouped(Prompted::Answered(GroupNav::Group(group))),
            t,
            out,
        ),
    ensures
        out.action matches SearchAction::FetchFeed { url } && mikan::group_id(url@) == if group.id
            == 0 {
            None::<u32>
        } else {
            Some(group.id)
        },
{
    prompts::law_feed_addresses_read_back(id, group.id);
}

/// Every show that was found is offered, whole and in its place, with another
/// search as the last choice; where none was found that is told, with the words.
pub proof fn law_every_show_is_offered(query: String, shows: Vec<Show>, t: Search, out: SearchStep)
    requires
        search_step(Search::Searching { query }, SearchEvent::Shows(Ok(shows)), t, out),
    ensures
        shows@.len() > 0 ==> {
            &&& out.action is PickShow
            &&& out.action->PickShow_options@.len() == shows@.len() + 1
            &&& forall|i: int|
                0 <= i < shows@.len() ==> (#[trigger] out.action->PickShow_options@[i])
                    == ShowChoice::Pick(shows@[i])
            &&& out.action->PickShow_options@[shows@.len() as int] is SearchAgain
            &&& t == Search::Picking { query, shows }
            &&& out.lines@.len() == 0
        },
        shows@.len() == 0 ==> {
            &&& t is Asking
            &&& out.action is AskQuery
            &&& out.action->initial is Some
            &&& out.action->initial->0@ == query@
            &&& out.lines@.len() == 1
            &&& out.lines@[0]@ == LineView::Out("未找到与「"@ + query@ + "」匹配的番剧"@)
        },
{
    assert(display::lines(out.lines@).len() == out.lines@.len());
    if shows@.len() == 0 {
        assert(display::lines(out.lines@)[0] == out.lines@[0]@);
    }
}

/// The groups that are looked for are those of the show that was picked.
pub proof fn law_the_picked_show_is_the_one(
    query: String,
    shows: Vec<Show>,
    show: Show,
    t: Search,
    out: SearchStep,
)
    requires
        search_step(
            Search::Picking { query, shows },
            SearchEvent::Picked(Prompted::Answered(ShowChoice::Pick(show))),
            t,
            out,
        ),
    ensures
        out.action is LoadGroups,
        out.action->id == show.id,
        t == (Search::Loading { query, shows, id: show.id }),
        out.lines@.len() == 0,
{
    assert(display::lines(out.lines@).len() == out.lines@.len());
}

/// Of several groups every one is offered, whole and in its place, behind the choice
/// of all and before the way back. A single one is taken, and without any the feed
/// of the show is.
pub proof fn law_every_group_is_offered(
    query: String,
    shows: Vec<Show>,
    id: u32,
    groups: Vec<Subgroup>,
    t: Search,
    out: SearchStep,
)
    requires
        search_step(
            Search::Loading { query, shows, id },
            SearchEvent::Groups(Ok(groups)),
            t,
            out,
        ),
    ensures
        groups@.len() > 1 ==> {
            &&& out.action is PickGroup
            &&& out.action->PickGroup_options@.len() == groups@.len() + 2
            &&& out.action->PickGroup_options@[0] is Group
            &&& out.action->PickGroup_options@[0]->Group_0.id == 0
            &&& out.action->PickGroup_options@[0]->Group_0.name@ == "全部字幕组"@
            &&& forall|i: int|
                0 <= i < groups@.len() ==> #[trigger] out.action->PickGroup_options@[i + 1]
                    == GroupNav::Group(groups@[i])
            &&& out.action->PickGroup_options@[groups@.len() as int + 1] is Back
            &&& t == Search::Grouping { query, shows, id }
        },
        groups@.len() == 1 && groups@[0].id > 0 ==> out.action is FetchFeed
            && out.action->FetchFeed_url@ == "https://mikanani.me/RSS/Bangumi?bangumiId="@
            + text::decimal(id as nat) + "&subgroupid="@ + text::decimal(groups@[0].id as nat),
        groups@.len() == 0 || (groups@.len() == 1 && groups@[0].id == 0) ==> out.action is FetchFeed
            && out.action->FetchFeed_url@ == "https://mikanani.me/RSS/Bangumi?bangumiId="@
            + text::decimal(id as nat),
        groups@.len() <= 1 ==> t is Fetching,
        out.lines@.len() == 0,
{
    assert(display::lines(out.lines@).len() == out.lines@.len());
}

/// The feed fetched for a group that was chosen has the ids of the show and of the
/// group in its address, and that of the show alone where all groups were.
pub proof fn law_the_chosen_feed_is_fetched(
    query: String,
    shows: Vec<Show>,
    id: u32,
    group: Subgroup,
    t: Search,
    out: SearchStep,
)
    requires
        search_step(
            Search::Grouping { query, shows, id },
            SearchEvent::Grouped(Prompted::Answered(GroupNav::Group(group))),
            t,
            out,
        ),
    ensures
        t is Fetching,
        out.action is FetchFeed,
        group.id == 0 ==> out.action->FetchFeed_url@
            == "https://mikanani.me/RSS/Bangumi?bangumiId="@ + text::decimal(id as nat),
        group.id > 0 ==> out.action->FetchFeed_url@
            == "https://mikanani.me/RSS/Bangumi?bangumiId="@ + text::decimal(id as nat)
            + "&subgroupid="@ + text::decimal(group.id as nat),
        out.lines@.len() == 0,
{
    assert(display::lines(out.lines@).len() == out.lines@.len());
}

/// A feed with episodes is exported as it was fetched, whole; one without is told
/// by its title.
pub proof fn law_a_fetched_feed_is_exported_whole(feed: Feed, t: Search, out: SearchStep)
    requires
        search_step(Search::Fetching, SearchEvent::Fetched(Ok(feed)), t, out),
    ensures
        t is Over,
        feed.episodes@.len() > 0 ==> out.action == SearchAction::Export(feed),
        feed.episodes@.len() == 0 ==> out.action is Fail && out.action->Fail_0@ == "订阅「"@
            + feed.channel_title@ + "」中没有剧集"@,
        out.lines@.len() == 0,
{
    assert(display::lines(out.lines@).len() == out.lines@.len());
}

/// The words searched for are all that was typed, without the white space around.
pub proof fn law_the_whole_query_is_searched(q: String, t: Search, out: SearchStep)
    requires
        search_step(Search::Asking, SearchEvent::Query(Prompted::Answered(q)), t, out),
    ensures
        out.action is Search,
        out.action->Search_query@ == text::trimmed(q@),
        t is Searching,
        t->Searching_query@ == text::trimmed(q@),
{
}

/// Where the network fails the whole cause is told, with advice in front of it
/// where that may help.
pub proof fn law_a_network_error_is_told(s: Search, cause: String, t: Search, out: SearchStep)
    requires
        ({
            ||| s is Searching && search_step(s, SearchEvent::Shows(Err(cause)), t, out)
            ||| s is Loading && search_step(s, SearchEvent::Groups(Err(cause)), t, out)
            ||| s is Fetching && search_step(s, SearchEvent::Fetched(Err(cause)), t, out)
        }),
    ensures
        t is Over,
        out.action is Fail,
        out.action->Fail_0@ == prompts::hinted(cause@, text::lowercase(cause@)),
        out.lines@.len() == 0,
{
    assert(display::lines(out.lines@).len() == out.lines@.len());
}

/// A question that fails is told by what was asked and the whole cause.
pub proof fn law_a_broken_question_is_told(s: Search, cause: String, t: Search, out: SearchStep)
    requires
        ({
            ||| s is Asking && search_step(
                s,
                SearchEvent::Query(Prompted::Broken(cause)),
                t,
                out,
            )
            ||| s is Picking && search_step(
                s,
                SearchEvent::Picked(Prompted::Broken(cause)),
                t,
                out,
            )
            ||| s is Grouping && search_step(
                s,
                SearchEvent::Grouped(Prompted::Broken(cause)),
                t,
                out,
            )
        }),
    ensures
        t is Over,
        out.action is Fail,
        s is Asking ==> out.action->Fail_0@ == "获取"@ + "搜索关键词"@ + ": "@ + cause@,
        s is Picking ==> out.action->Fail_0@ == "获取"@ + "番剧"@ + ": "@ + cause@,
        s is Grouping ==> out.action->Fail_0@ == "获取"@ + "字幕组"@ + ": "@ + cause@,
{
}

/// What answers nothing that was asked changes nothing.
pub proof fn law_what_was_not_asked_is_ignored(s: Search, e: SearchEvent, t: Search, out: SearchStep)
    requires
        search_step(s, e, t, out),
        match s {
            Search::Asking => !(e is Query),
            Search::Searching { .. } => !(e is Shows),
            Search::Picking { .. } => !(e is Picked),
            Search::Loading { .. } => !(e is Groups),
            Search::Grouping { .. } => !(e is Grouped),
            Search::Fetching => !(e is Fetched),
            Search::Over => true,
        },
    ensures
        t == s,
        out.action is Ignored,
        out.lines@.len() == 0,
{
    assert(display::lines(out.lines@).len() == out.lines@.len());
}

/// Another search, chosen instead of a show, asks with the last words whole, and
/// tells nothing.
pub proof fn law_another_search_asks_again(
    query: String,
    shows: Vec<Show>,
    t: Search,
    out: SearchStep,
)
    requires
        search_step(
            Search::Picking { query, shows },
            SearchEvent::Picked(Prompted::Answered(ShowChoice::SearchAgain)),
            t,
            out,
        ),
    ensures
        t is Asking,
        out.action is AskQuery,
        out.action->initial is Some,
        out.action->initial->0@ == query@,
        out.lines@.len() == 0,
{
    assert(display::lines(out.lines@).len() == out.lines@.len());
}

}
