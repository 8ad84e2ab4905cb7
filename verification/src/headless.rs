//! An export without questions, told by the arguments alone. Each step says
//! what to do next. Profiles are read, and nothing is remembered.
use crate::batch::Totals;
use crate::cli::Unattended;
use crate::commands;
use crate::commands::tell_no_profile;
use crate::config::Config;
use crate::display;
use crate::display::{nothing, said, Line, LineView};
use crate::export;
use crate::export::{url_list_body, url_list_filename};
use crate::feed;
use crate::feed::{Episode, Feed};
use crate::flow;
use crate::flow::{code_for, tell_list, tell_totals};
use crate::profiles;
use crate::profiles::QbtProfile;
use crate::prompts;
use crate::prompts::{add_proxy_hint, default_category};
use crate::qbt;
use crate::qbt::{QbtClient, QbtSetup, Reply, Request};
use crate::sanitize;
use crate::search;
use crate::select;
use crate::select::select;
use crate::setup;
use crate::text;
use crate::text::{concat, concat3, decimal_text};
use vstd::prelude::*;

verus! {

/// Which of the two directories of an export.
#[derive(Debug, Clone, Copy, PartialEq, Eq, Structural)]
pub enum Place {
    /// That of the torrent files.
    Out,
    /// That of the list of URLs.
    UrlList,
}

/// What is to be done: the arguments, and the episodes of the channel that they
/// select.
pub struct Job {
    pub args: Unattended,
    pub title: String,
    pub selected: Vec<Episode>,
}

/// A list of URLs to be written.
pub struct ListFile {
    pub filename: String,
    pub body: String,
}

/// What the export waits for.
pub enum Headless {
    /// The feed.
    Fetching { args: Unattended },
    /// What is remembered.
    Loading { job: Job, profile: String },
    /// A connection.
    Connecting { job: Job },
    /// That the category is there.
    EnsuringCategory { job: Job, setup: QbtSetup },
    /// That a directory is there.
    Making { place: Place, job: Job, setup: Option<QbtSetup> },
    /// The episodes being done.
    Running { torrents: bool, qbt: bool, list: Option<ListFile> },
    /// The list being written.
    Listing { totals: Totals },
    /// Nothing any more.
    Over,
}

/// What has happened.
pub enum HeadlessEvent {
    Fetched(Result<Feed, String>),
    Loaded(Result<Config, String>),
    Connected(Result<QbtClient, String>),
    Replied(Reply),
    Made(Result<(), String>),
    Ran(Totals),
    /// The list was written to the path, or not.
    Listed(Result<String, String>),
}

/// What to do next.
pub enum HeadlessAction {
    FetchFeed { url: String },
    LoadConfig,
    Connect { profile: QbtProfile },
    Send(Request),
    MakeDir { place: Place },
    /// Do the episodes: download them where `to_disk` says so, and add them to
    /// the qBittorrent where there is one.
    Run { episodes: Vec<Episode>, to_disk: bool, qbt: Option<QbtSetup> },
    WriteList(ListFile),
    Finish(i32),
    Fail(String),
    /// What happened answers nothing that was asked.
    Ignored,
}

/// What to print, and what to do next.
pub struct HeadlessStep {
    pub lines: Vec<Line>,
    pub action: HeadlessAction,
}

// ---------------------------------------------------------------------------
// What each step amounts to

/// The given lines are printed.
pub open spec fn prints(out: HeadlessStep, lines: Seq<LineView>) -> bool {
    display::lines(out.lines@) == lines
}

/// It ends with an exit code.
pub open spec fn ends(lines: Seq<LineView>, code: i32, t: Headless, out: HeadlessStep) -> bool {
    t is Over && prints(out, lines) && out.action == HeadlessAction::Finish(code)
}

/// It ends with an error.
pub open spec fn fails(message: Seq<char>, t: Headless, out: HeadlessStep) -> bool {
    &&& t is Over
    &&& prints(out, Seq::empty())
    &&& out.action matches HeadlessAction::Fail(m)
    &&& m@ == message
}

/// The list of URLs of an export, where it has one.
pub open spec fn list_for(job: Job, list: Option<ListFile>) -> bool {
    if job.args.url_list is Some {
        &&& list matches Some(l)
        &&& l.filename@ == export::list_stem(job.title@) + ".txt"@
        &&& l.body@ == export::on_lines(export::urls(feed::views(job.selected@)))
    } else {
        list is None
    }
}

/// The episodes are done.
pub open spec fn runs(
    job: Job,
    setup: Option<QbtSetup>,
    lines: Seq<LineView>,
    t: Headless,
    out: HeadlessStep,
) -> bool {
    &&& t matches Headless::Running { torrents, qbt, list }
    &&& torrents == job.args.out is Some
    &&& qbt == job.args.qbt is Some
    &&& list_for(job, list)
    &&& prints(out, lines)
    &&& out.action matches HeadlessAction::Run { episodes, to_disk, qbt: q }
    &&& episodes == job.selected
    &&& to_disk == job.args.out is Some
    &&& q == setup
}

/// A directory is made.
pub open spec fn makes(
    place: Place,
    job: Job,
    setup: Option<QbtSetup>,
    lines: Seq<LineView>,
    t: Headless,
    out: HeadlessStep,
) -> bool {
    &&& t == Headless::Making { place, job, setup }
    &&& prints(out, lines)
    &&& out.action == HeadlessAction::MakeDir { place }
}

/// The directory of the torrent files is there, or not needed: next is that of
/// the list.
pub open spec fn after_out(
    job: Job,
    setup: Option<QbtSetup>,
    lines: Seq<LineView>,
    t: Headless,
    out: HeadlessStep,
) -> bool {
    if job.args.url_list is Some {
        makes(Place::UrlList, job, setup, lines, t, out)
    } else {
        runs(job, setup, lines, t, out)
    }
}

/// The qBittorrent is ready, or not needed: next are the directories.
pub open spec fn after_qbt(
    job: Job,
    setup: Option<QbtSetup>,
    lines: Seq<LineView>,
    t: Headless,
    out: HeadlessStep,
) -> bool {
    if job.args.out is Some {
        makes(Place::Out, job, setup, lines, t, out)
    } else {
        after_out(job, setup, lines, t, out)
    }
}

/// How many episodes are selected.
pub open spec fn count_line(n: nat) -> LineView {
    LineView::Out("已选择 "@ + text::decimal(n) + " 集"@)
}

/// The episodes of a feed that the arguments select.
pub open spec fn selection(args: Unattended, feed: Feed) -> Seq<feed::EpisodeView> {
    select::chosen(feed::views(feed.episodes@), args.latest, feed::text_of(args.filter))
}

/// The feed was fetched, or not. One without episodes is an error, and one
/// without any that match is none.
pub open spec fn after_feed(
    args: Unattended,
    fetched: Result<Feed, String>,
    t: Headless,
    out: HeadlessStep,
) -> bool {
    match fetched {
        Err(cause) => fails(search::network_error(cause@), t, out),
        Ok(feed) => if feed.episodes@.len() == 0 {
            fails(search::no_episodes(feed.channel_title@), t, out)
        } else if selection(args, feed).len() == 0 {
            ends(seq![LineView::Out("没有匹配的剧集"@)], 0, t, out)
        } else {
            exists|job: Job| #[trigger] selected_job(args, feed, job) && begins(job, t, out)
        },
    }
}

/// What is to be done with a feed.
pub open spec fn selected_job(args: Unattended, feed: Feed, job: Job) -> bool {
    &&& job.args == args
    &&& job.title == feed.channel_title
    &&& feed::views(job.selected@) == selection(args, feed)
}

/// The episodes are selected: next is the qBittorrent, where one is wanted.
pub open spec fn begins(job: Job, t: Headless, out: HeadlessStep) -> bool {
    let lines = seq![count_line(job.selected@.len())];
    match job.args.qbt {
        Some(name) => {
            &&& t matches Headless::Loading { job: j, profile }
            &&& j == job
            &&& profile@ == name@
            &&& prints(out, lines)
            &&& out.action is LoadConfig
        },
        None => after_qbt(job, None, lines, t, out),
    }
}

/// What is remembered was loaded, or not. The profile must be there: none is
/// created.
pub open spec fn after_load(
    job: Job,
    profile: String,
    loaded: Result<Config, String>,
    t: Headless,
    out: HeadlessStep,
) -> bool {
    match loaded {
        Err(m) => fails(m@, t, out),
        Ok(config) => match profiles::lookup(config.qbt@, profile@) {
            None => fails(commands::no_profile(profile@, config.qbt@), t, out),
            Some(p) => {
                &&& t == Headless::Connecting { job }
                &&& prints(out, Seq::empty())
                &&& out.action matches HeadlessAction::Connect { profile: q }
                &&& q@ == p
            },
        },
    }
}

/// The category: the one in the arguments, or one for the channel.
pub open spec fn category(job: Job) -> Seq<char> {
    match job.args.category {
        Some(c) => c@,
        None => prompts::category_for(job.title@),
    }
}

/// A connection stands, or not: next is the category.
pub open spec fn after_connect(
    job: Job,
    connected: Result<QbtClient, String>,
    t: Headless,
    out: HeadlessStep,
) -> bool {
    match connected {
        Err(m) => fails(m@, t, out),
        Ok(client) => {
            &&& t matches Headless::EnsuringCategory { job: j, setup }
            &&& j == job
            &&& setup.client == client
            &&& setup.category@ == category(job)
            &&& setup.save_as is None
            &&& prints(out, seq![setup::connected_line(client)])
            &&& out.action matches HeadlessAction::Send(r)
            &&& r@ == qbt::category_request(client@, category(job))
        },
    }
}

/// The category is there, or not.
pub open spec fn after_category(
    job: Job,
    setup: QbtSetup,
    reply: Reply,
    t: Headless,
    out: HeadlessStep,
) -> bool {
    match flow::category_refusal(setup, reply) {
        Some(m) => fails(m, t, out),
        None => after_qbt(job, Some(setup), Seq::empty(), t, out),
    }
}

/// The text of a directory in the arguments.
pub open spec fn place_text(args: Unattended, place: Place) -> Seq<char> {
    let text = match place {
        Place::Out => args.out,
        Place::UrlList => args.url_list,
    };
    match text {
        Some(t) => t@,
        None => Seq::empty(),
    }
}

/// A directory is there, or not.
pub open spec fn after_made(
    place: Place,
    job: Job,
    setup: Option<QbtSetup>,
    made: Result<(), String>,
    t: Headless,
    out: HeadlessStep,
) -> bool {
    match made {
        Err(cause) => fails("创建 "@ + place_text(job.args, place) + ": "@ + cause@, t, out),
        Ok(_) => match place {
            Place::Out => after_out(job, setup, Seq::empty(), t, out),
            Place::UrlList => runs(job, setup, Seq::empty(), t, out),
        },
    }
}

/// The episodes are done: next is the list, where there is one.
pub open spec fn after_run(
    torrents: bool,
    qbt: bool,
    list: Option<ListFile>,
    totals: Totals,
    t: Headless,
    out: HeadlessStep,
) -> bool {
    let lines = flow::totals_lines(torrents, qbt, totals);
    match list {
        Some(l) => {
            &&& t == Headless::Listing { totals }
            &&& prints(out, lines)
            &&& out.action == HeadlessAction::WriteList(l)
        },
        None => ends(lines, flow::exit_code(totals, false), t, out),
    }
}

/// How `e` takes the export from `s` to `t`, with `out` to print and to do.
pub open spec fn headless_step(
    s: Headless,
    e: HeadlessEvent,
    t: Headless,
    out: HeadlessStep,
) -> bool {
    match (s, e) {
        (Headless::Fetching { args }, HeadlessEvent::Fetched(r)) => after_feed(args, r, t, out),
        (Headless::Loading { job, profile }, HeadlessEvent::Loaded(r)) => after_load(
            job,
            profile,
            r,
            t,
            out,
        ),
        (Headless::Connecting { job }, HeadlessEvent::Connected(r)) => after_connect(job, r, t, out),
        (Headless::EnsuringCategory { job, setup }, HeadlessEvent::Replied(reply)) => after_category(
            job,
            setup,
            reply,
            t,
            out,
        ),
        (Headless::Making { place, job, setup }, HeadlessEvent::Made(r)) => after_made(
            place,
            job,
            setup,
            r,
            t,
            out,
        ),
        (Headless::Running { torrents, qbt, list }, HeadlessEvent::Ran(totals)) => after_run(
            torrents,
            qbt,
            list,
            totals,
            t,
            out,
        ),
        (Headless::Listing { totals }, HeadlessEvent::Listed(r)) => ends(
            seq![flow::list_line(r)],
            flow::exit_code(totals, r is Err),
            t,
            out,
        ),
        _ => t == s && prints(out, Seq::empty()) && out.action is Ignored,
    }
}

// ---------------------------------------------------------------------------
// The steps

/// It ends with an exit code.
fn end(lines: Vec<Line>, code: i32) -> (r: (Headless, HeadlessStep))
    ensures
        ends(display::lines(lines@), code, r.0, r.1),
{
    (Headless::Over, HeadlessStep { lines, action: HeadlessAction::Finish(code) })
}

/// It ends with an error.
fn fail(message: String) -> (r: (Headless, HeadlessStep))
    ensures
        fails(message@, r.0, r.1),
{
    (Headless::Over, HeadlessStep { lines: nothing(), action: HeadlessAction::Fail(message) })
}

/// Begins an export without questions: with the feed.
pub fn headless(args: Unattended) -> (r: (Headless, HeadlessStep))
    ensures
        r.0 == (Headless::Fetching { args }),
        prints(r.1, Seq::empty()),
        r.1.action matches HeadlessAction::FetchFeed { url } && url@ == args.url@,
{
    let url = args.url.clone();
    (
        Headless::Fetching { args },
        HeadlessStep { lines: nothing(), action: HeadlessAction::FetchFeed { url } },
    )
}

/// The episodes are done.
fn run(job: Job, setup: Option<QbtSetup>, lines: Vec<Line>) -> (r: (Headless, HeadlessStep))
    ensures
        runs(job, setup, display::lines(lines@), r.0, r.1),
{
    let list = if job.args.url_list.is_some() {
        Some(
            ListFile {
                filename: url_list_filename(&job.title),
                body: url_list_body(&job.selected),
            },
        )
    } else {
        None
    };
    let to_disk: bool = job.args.out.is_some();
    let qbt: bool = job.args.qbt.is_some();
    (
        Headless::Running { torrents: to_disk, qbt, list },
        HeadlessStep {
            lines,
            action: HeadlessAction::Run { episodes: job.selected, to_disk, qbt: setup },
        },
    )
}

/// Next is the directory of the list.
fn make_list_dir(job: Job, setup: Option<QbtSetup>, lines: Vec<Line>) -> (r: (
    Headless,
    HeadlessStep,
))
    ensures
        after_out(job, setup, display::lines(lines@), r.0, r.1),
{
    if job.args.url_list.is_some() {
        (
            Headless::Making { place: Place::UrlList, job, setup },
            HeadlessStep { lines, action: HeadlessAction::MakeDir { place: Place::UrlList } },
        )
    } else {
        run(job, setup, lines)
    }
}

/// Next are the directories.
fn make_dirs(job: Job, setup: Option<QbtSetup>, lines: Vec<Line>) -> (r: (Headless, HeadlessStep))
    ensures
        after_qbt(job, setup, display::lines(lines@), r.0, r.1),
{
    if job.args.out.is_some() {
        (
            Headless::Making { place: Place::Out, job, setup },
            HeadlessStep { lines, action: HeadlessAction::MakeDir { place: Place::Out } },
        )
    } else {
        make_list_dir(job, setup, lines)
    }
}

/// The episodes are selected.
fn begin(job: Job) -> (r: (Headless, HeadlessStep))
    ensures
        begins(job, r.0, r.1),
{
    let n = decimal_text(job.selected.len() as u64);
    let lines = said(concat3("已选择 ", &n, " 集"));
    let wanted = match &job.args.qbt {
        Some(name) => Some(name.clone()),
        None => None,
    };
    match wanted {
        Some(profile) => (
            Headless::Loading { job, profile },
            HeadlessStep { lines, action: HeadlessAction::LoadConfig },
        ),
        None => make_dirs(job, None, lines),
    }
}

/// The feed was fetched.
fn take_feed(args: Unattended, feed: Feed) -> (r: (Headless, HeadlessStep))
    ensures
        after_feed(args, Ok(feed), r.0, r.1),
{
    if feed.episodes.len() == 0 {
        return fail(concat3("订阅「", &feed.channel_title, "」中没有剧集"));
    }
    let ghost given = feed;
    let filter: Option<&str> = match &args.filter {
        Some(f) => Some(f.as_str()),
        None => None,
    };
    let selected = select(feed.episodes, args.latest, filter);
    proof {
        assert(feed::views(selected@) == selection(args, given));
        assert(feed::views(selected@).len() == selected@.len());
    }
    if selected.len() == 0 {
        return end(said("没有匹配的剧集".to_owned()), 0);
    }
    let job = Job { args, title: feed.channel_title, selected };
    let ghost done = job;
    let r = begin(job);
    proof {
        assert(selected_job(args, given, done));
    }
    r
}

/// A connection stands: next is the category.
fn take_client(job: Job, client: QbtClient) -> (r: (Headless, HeadlessStep))
    ensures
        after_connect(job, Ok(client), r.0, r.1),
{
    let name = match &job.args.category {
        Some(c) => c.clone(),
        None => default_category(&job.title),
    };
    let lines = said(concat("已连接 —— qBittorrent ", client.version()));
    let request = client.ask_category(&name);
    (
        Headless::EnsuringCategory {
            job,
            setup: QbtSetup { client, category: name, save_as: None },
        },
        HeadlessStep { lines, action: HeadlessAction::Send(request) },
    )
}

impl Headless {
    /// What follows what has happened.
    pub fn step(self, event: HeadlessEvent) -> (r: (Headless, HeadlessStep))
        ensures
            headless_step(self, event, r.0, r.1),
    {
        match (self, event) {
            (Headless::Fetching { args }, HeadlessEvent::Fetched(Ok(feed))) => take_feed(args, feed),
            (Headless::Fetching { args: _ }, HeadlessEvent::Fetched(Err(cause))) => fail(
                add_proxy_hint(&cause),
            ),
            (Headless::Loading { job, profile }, HeadlessEvent::Loaded(Ok(config))) => {
                match config.qbt.get(&profile) {
                    Some(p) => {
                        let profile = p.duplicate();
                        (
                            Headless::Connecting { job },
                            HeadlessStep {
                                lines: nothing(),
                                action: HeadlessAction::Connect { profile },
                            },
                        )
                    },
                    None => fail(tell_no_profile(&profile, &config.qbt)),
                }
            },
            (Headless::Loading { job: _, profile: _ }, HeadlessEvent::Loaded(Err(m))) => fail(m),
            (Headless::Connecting { job }, HeadlessEvent::Connected(Ok(client))) => take_client(
                job,
                client,
            ),
            (Headless::Connecting { job: _ }, HeadlessEvent::Connected(Err(m))) => fail(m),
            (Headless::EnsuringCategory { job, setup }, HeadlessEvent::Replied(reply)) => {
                match setup.client.ensure_category(&setup.category, &reply) {
                    Ok(_) => make_dirs(job, Some(setup), nothing()),
                    Err(m) => fail(m),
                }
            },
            (Headless::Making { place, job, setup }, HeadlessEvent::Made(Ok(_))) => {
                if place == Place::Out {
                    make_list_dir(job, setup, nothing())
                } else {
                    run(job, setup, nothing())
                }
            },
            (Headless::Making { place, job, setup: _ }, HeadlessEvent::Made(Err(cause))) => {
                let dir = if place == Place::Out {
                    job.args.out
                } else {
                    job.args.url_list
                };
                let dir = match dir {
                    Some(d) => d,
                    None => String::new(),
                };
                let front = concat3("创建 ", &dir, ": ");
                fail(concat(&front, &cause))
            },
            (Headless::Running { torrents, qbt, list }, HeadlessEvent::Ran(totals)) => {
                let lines = tell_totals(torrents, qbt, totals);
                match list {
                    Some(l) => (
                        Headless::Listing { totals },
                        HeadlessStep { lines, action: HeadlessAction::WriteList(l) },
                    ),
                    None => end(lines, code_for(totals, false)),
                }
            },
            (Headless::Listing { totals }, HeadlessEvent::Listed(listed)) => {
                let lines = tell_list(&listed);
                end(lines, code_for(totals, listed.is_err()))
            },
            (same, _) => (same, HeadlessStep { lines: nothing(), action: HeadlessAction::Ignored }),
        }
    }
}

// ---------------------------------------------------------------------------
// Laws

/// No episode that matches is a quiet end, and no error.
pub proof fn law_no_match_is_no_error(args: Unattended, feed: Feed, t: Headless, out: HeadlessStep)
    requires
        headless_step(Headless::Fetching { args }, HeadlessEvent::Fetched(Ok(feed)), t, out),
        feed.episodes@.len() > 0,
        selection(args, feed).len() == 0,
    ensures
        t is Over,
        out.action == HeadlessAction::Finish(0),
{
}

/// Every episode that is worked on is one of the feed, matches the filter, and
/// there are never more than asked for.
pub proof fn law_only_selected_episodes_are_exported(
    args: Unattended,
    feed: Feed,
    job: Job,
    i: int,
)
    requires
        selected_job(args, feed, job),
        0 <= i < job.selected@.len(),
    ensures
        feed::views(feed.episodes@).contains(job.selected@[i]@),
        args.filter matches Some(f) ==> text::contains(
            text::lowercase(job.selected@[i].title@),
            text::lowercase(f@),
        ),
        args.latest matches Some(n) ==> job.selected@.len() <= n,
{
    assert(feed::views(job.selected@)[i] == job.selected@[i]@);
    select::law_chosen_episodes_match(
        feed::views(feed.episodes@),
        args.latest,
        feed::text_of(args.filter),
        i,
    );
}

/// The exit code is `1` where an episode or the list failed, and else `0`.
pub proof fn law_the_exit_code_tells_failures(
    s: Headless,
    e: HeadlessEvent,
    t: Headless,
    out: HeadlessStep,
)
    requires
        headless_step(s, e, t, out),
        out.action is Finish,
    ensures
        out.action matches HeadlessAction::Finish(code) && match (s, e) {
            (Headless::Running { .. }, HeadlessEvent::Ran(totals)) => code == 1 <==> totals.failed
                > 0 || totals.qbt_failed > 0,
            (Headless::Listing { totals }, HeadlessEvent::Listed(r)) => code == 1 <==> totals.failed
                > 0 || totals.qbt_failed > 0 || r is Err,
            _ => code == 0,
        },
{
}

/// A profile that is not there is an error: none is created, and nothing is
/// asked.
pub proof fn law_a_missing_profile_is_an_error(
    job: Job,
    profile: String,
    config: Config,
    t: Headless,
    out: HeadlessStep,
)
    requires
        headless_step(
            Headless::Loading { job, profile },
            HeadlessEvent::Loaded(Ok(config)),
            t,
            out,
        ),
        profiles::lookup(config.qbt@, profile@) is None,
    ensures
        fails(commands::no_profile(profile@, config.qbt@), t, out),
{
}

/// A feed with episodes that match is worked on, with the job that is returned: the
/// arguments as they are, the whole title of the channel, and the episodes
/// selected, of which the number is told. The profile looked for is the one in the
/// arguments.
pub proof fn law_a_fetched_feed_is_worked_on(
    args: Unattended,
    feed: Feed,
    t: Headless,
    out: HeadlessStep,
) -> (job: Job)
    requires
        headless_step(Headless::Fetching { args }, HeadlessEvent::Fetched(Ok(feed)), t, out),
        feed.episodes@.len() > 0,
        select::chosen(
            feed::views(feed.episodes@),
            args.latest,
            feed::text_of(args.filter),
        ).len() > 0,
    ensures
        job.args == args,
        job.title == feed.channel_title,
        feed::views(job.selected@) == select::chosen(
            feed::views(feed.episodes@),
            args.latest,
            feed::text_of(args.filter),
        ),
        display::lines(out.lines@) == seq![
            LineView::Out("已选择 "@ + text::decimal(job.selected@.len()) + " 集"@),
        ],
        args.qbt is Some ==> out.action is LoadConfig && t is Loading && t->Loading_job == job
            && t->profile@ == args.qbt->0@,
        args.qbt is None && args.out is Some ==> t == (Headless::Making {
            place: Place::Out,
            job,
            setup: None,
        }) && out.action == (HeadlessAction::MakeDir { place: Place::Out }),
        args.qbt is None && args.out is None && args.url_list is Some ==> t == (Headless::Making {
            place: Place::UrlList,
            job,
            setup: None,
        }) && out.action == (HeadlessAction::MakeDir { place: Place::UrlList }),
        args.qbt is None && args.out is None && args.url_list is None ==> out.action is Run
            && out.action->episodes == job.selected && !out.action->to_disk && out.action->Run_qbt is None,
{
    choose|job: Job| #[trigger] selected_job(args, feed, job) && begins(job, t, out)
}

/// Without a limit every episode of the feed whose title holds the filter is worked
/// on, and without a filter every episode.
pub proof fn law_every_match_is_exported(args: Unattended, feed: Feed, job: Job, k: int) -> (i: int)
    requires
        feed::views(job.selected@) == select::chosen(
            feed::views(feed.episodes@),
            args.latest,
            feed::text_of(args.filter),
        ),
        args.latest is None,
        0 <= k < feed.episodes@.len(),
        args.filter matches Some(f) ==> text::contains(
            text::lowercase(feed.episodes@[k].title@),
            text::lowercase(f@),
        ),
    ensures
        0 <= i < job.selected@.len(),
        job.selected@[i].title@ == feed.episodes@[k].title@,
        job.selected@[i].torrent_url@ == feed.episodes@[k].torrent_url@,
        job.selected@[i].size == feed.episodes@[k].size,
{
    let all = feed::views(feed.episodes@);
    let filter = feed::text_of(args.filter);
    assert(all[k] == feed.episodes@[k]@);
    select::law_every_match_is_chosen(all, None, filter, k);
    let chosen = select::chosen(all, None, filter);
    let i = choose|i: int| 0 <= i < chosen.len() && chosen[i] == all[k];
    assert(feed::views(job.selected@).len() == job.selected@.len());
    assert(feed::views(job.selected@)[i] == job.selected@[i]@);
    i
}

/// The profile that is connected with is the whole one saved under the name,
/// whichever it is. Where none is, the names of all that are saved are told.
pub proof fn law_the_named_profile_is_used(
    job: Job,
    profile: String,
    config: Config,
    k: int,
    t: Headless,
    out: HeadlessStep,
)
    requires
        headless_step(
            Headless::Loading { job, profile },
            HeadlessEvent::Loaded(Ok(config)),
            t,
            out,
        ),
    ensures
        0 <= k < config.qbt@.len() && config.qbt@[k].0 == profile@ && (forall|i: int|
            0 <= i < k ==> (#[trigger] config.qbt@[i]).0 != profile@) ==> {
            &&& t == Headless::Connecting { job }
            &&& out.action is Connect
            &&& out.action->Connect_profile.endpoint@ == config.qbt@[k].1.endpoint
            &&& out.action->Connect_profile.username@ == config.qbt@[k].1.username
            &&& out.action->Connect_profile.password@ == config.qbt@[k].1.password
        },
        config.qbt@.len() == 0 ==> out.action is Fail && out.action->Fail_0@ == "没有名为「"@
            + profile@ + "」的配置 —— "@ + "使用 mikan qbt set 添加"@,
        config.qbt@.len() > 0 && (forall|i: int|
            0 <= i < config.qbt@.len() ==> (#[trigger] config.qbt@[i]).0 != profile@)
            ==> out.action is Fail && out.action->Fail_0@ == "没有名为「"@ + profile@
            + "」的配置 —— "@ + ("已保存的配置："@ + text::joined(
            Seq::new(config.qbt@.len(), |i: int| config.qbt@[i].0),
            ", "@,
        )),
{
    profiles::law_lookup_finds_the_entry(config.qbt@, profile@, k);
    assert(profiles::names_of(config.qbt@) =~= Seq::new(
        config.qbt@.len(),
        |i: int| config.qbt@[i].0,
    ));
}

/// The category is the whole one in the arguments; without one it is the stem of the
/// channel's title. It is created with the client that connected, whose version is
/// told, and the job stays as it is.
pub proof fn law_the_category_is_the_one_asked_for(
    job: Job,
    client: QbtClient,
    t: Headless,
    out: HeadlessStep,
)
    requires
        headless_step(
            Headless::Connecting { job },
            HeadlessEvent::Connected(Ok(client)),
            t,
            out,
        ),
    ensures
        t is EnsuringCategory,
        t->EnsuringCategory_job == job,
        t->EnsuringCategory_setup.client == client,
        t->EnsuringCategory_setup.save_as is None,
        job.args.category matches Some(c) ==> t->EnsuringCategory_setup.category@ == c@,
        job.args.category is None && sanitize::stem(job.title@).len() > 0
            ==> t->EnsuringCategory_setup.category@ == sanitize::stem(job.title@),
        job.args.category is None && sanitize::stem(job.title@).len() == 0
            ==> t->EnsuringCategory_setup.category@ == "mikan"@,
        out.action is Send,
        out.action->Send_0@.url == client@.endpoint + "/api/v2/torrents/createCategory"@,
        out.action->Send_0@.cookie == client@.sid,
        out.action->Send_0@.payload == qbt::PayloadView::Form(
            seq![
                ("category"@, t->EnsuringCategory_setup.category@),
                ("savePath"@, ""@),
            ],
        ),
        display::lines(out.lines@) == seq![
            LineView::Out("已连接 —— qBittorrent "@ + client@.version),
        ],
{
}

/// Once the category is there, the directories are made that the arguments name, and
/// else the work begins, on all that was selected.
pub proof fn law_a_category_that_is_there_lets_go_on(
    job: Job,
    setup: QbtSetup,
    answer: qbt::Answer,
    t: Headless,
    out: HeadlessStep,
)
    requires
        headless_step(
            Headless::EnsuringCategory { job, setup },
            HeadlessEvent::Replied(Reply::Answered(answer)),
            t,
            out,
        ),
    ensures
        ({
            let there = 200 <= answer.status < 300 || answer.status == 409;
            &&& !there ==> t is Over && out.action is Fail && out.action->Fail_0@
                == "creating qBittorrent category \""@ + setup.category@ + "\" failed: HTTP "@
                + answer.status_text@
            &&& there && job.args.out is Some ==> t == (Headless::Making {
                place: Place::Out,
                job,
                setup: Some(setup),
            }) && out.action == HeadlessAction::MakeDir { place: Place::Out }
            &&& there && job.args.out is None && job.args.url_list is Some ==> t
                == (Headless::Making { place: Place::UrlList, job, setup: Some(setup) })
                && out.action == HeadlessAction::MakeDir { place: Place::UrlList }
            &&& there && job.args.out is None && job.args.url_list is None ==> out.action is Run
                && out.action->episodes == job.selected && !out.action->to_disk
                && out.action->Run_qbt == Some(setup) && t is Running && t->list is None
                && !t->torrents
        }),
{
}

/// Once the last directory is there, the work begins on every episode selected,
/// whole and in order. The list has the name of the channel and a line for each of
/// them.
pub proof fn law_the_work_is_on_the_selected_episodes(
    place: Place,
    job: Job,
    setup: Option<QbtSetup>,
    t: Headless,
    out: HeadlessStep,
)
    requires
        headless_step(
            Headless::Making { place, job, setup },
            HeadlessEvent::Made(Ok(())),
            t,
            out,
        ),
    ensures
        place is Out && job.args.url_list is Some ==> t == (Headless::Making {
            place: Place::UrlList,
            job,
            setup,
        }) && out.action == (HeadlessAction::MakeDir { place: Place::UrlList }),
        place is UrlList || job.args.url_list is None ==> {
            &&& out.action is Run
            &&& out.action->episodes == job.selected
            &&& out.action->to_disk <==> job.args.out is Some
            &&& out.action->Run_qbt == setup
            &&& t is Running
            &&& t->torrents <==> job.args.out is Some
            &&& t->Running_qbt <==> job.args.qbt is Some
            &&& job.args.url_list is None ==> t->list is None
            &&& job.args.url_list is Some ==> {
                &&& t->list is Some
                &&& t->list->0.filename@ == export::list_stem(job.title@) + ".txt"@
                &&& t->list->0.body@ == export::on_lines(
                    Seq::new(job.selected@.len(), |i: int| job.selected@[i].torrent_url@),
                )
            }
        },
{
    assert(export::urls(feed::views(job.selected@)) =~= Seq::new(
        job.selected@.len(),
        |i: int| job.selected@[i].torrent_url@,
    ));
}

/// A directory that cannot be made ends the run: its whole path is told, and the
/// whole cause.
pub proof fn law_a_bad_directory_is_told(
    place: Place,
    job: Job,
    setup: Option<QbtSetup>,
    cause: String,
    t: Headless,
    out: HeadlessStep,
)
    requires
        headless_step(
            Headless::Making { place, job, setup },
            HeadlessEvent::Made(Err(cause)),
            t,
            out,
        ),
    ensures
        t is Over,
        out.action is Fail,
        place is Out && job.args.out is Some ==> out.action->Fail_0@ == "创建 "@
            + job.args.out->0@ + ": "@ + cause@,
        place is UrlList && job.args.url_list is Some ==> out.action->Fail_0@ == "创建 "@
            + job.args.url_list->0@ + ": "@ + cause@,
{
}

/// What was counted is told, number by number, and the list follows as it was made.
/// Where it went, or why it did not, is told too.
pub proof fn law_the_end_is_told(
    torrents: bool,
    qbt: bool,
    list: Option<ListFile>,
    totals: Totals,
    listed: Result<String, String>,
    t: (Headless, Headless),
    out: (HeadlessStep, HeadlessStep),
)
    requires
        headless_step(
            Headless::Running { torrents, qbt, list },
            HeadlessEvent::Ran(totals),
            t.0,
            out.0,
        ),
        headless_step(Headless::Listing { totals }, HeadlessEvent::Listed(listed), t.1, out.1),
    ensures
        ({
            let downloads = LineView::Out(
                "已下载 "@ + text::decimal(totals.downloaded as nat) + "，已跳过 "@ + text::decimal(
                    totals.skipped as nat,
                ) + "，失败 "@ + text::decimal(totals.failed as nat),
            );
            let added = LineView::Out(
                "已添加到 qBittorrent "@ + text::decimal(totals.qbt_added as nat) + "，失败 "@
                    + text::decimal(totals.qbt_failed as nat),
            );
            &&& torrents && qbt ==> display::lines(out.0.lines@) == seq![downloads, added]
            &&& torrents && !qbt ==> display::lines(out.0.lines@) == seq![downloads]
            &&& !torrents && qbt ==> display::lines(out.0.lines@) == seq![added]
            &&& !torrents && !qbt ==> display::lines(out.0.lines@).len() == 0
        }),
        list matches Some(l) ==> t.0 == (Headless::Listing { totals }) && out.0.action
            == HeadlessAction::WriteList(l),
        list is None ==> t.0 is Over && out.0.action is Finish,
        listed matches Ok(path) ==> display::lines(out.1.lines@) == seq![
            LineView::Out("URL 列表已写入 "@ + path@),
        ],
        listed matches Err(cause) ==> display::lines(out.1.lines@) == seq![
            LineView::Warning("失败           URL 列表："@ + cause@),
        ],
        t.1 is Over,
        out.1.action is Finish,
{
    let none = Seq::<LineView>::empty();
    assert(none.push(flow::qbt_line(totals)) == seq![flow::qbt_line(totals)]);
    assert(seq![flow::download_line(totals)].push(flow::qbt_line(totals)) == seq![
        flow::download_line(totals),
        flow::qbt_line(totals),
    ]);
}

/// Whatever fails on the way ends the run, with the whole message. A feed without
/// episodes is told by its title, and one without a match by a line.
pub proof fn law_errors_are_told(s: Headless, cause: String, t: Headless, out: HeadlessStep)
    requires
        ({
            ||| s is Fetching && headless_step(s, HeadlessEvent::Fetched(Err(cause)), t, out)
            ||| s is Loading && headless_step(s, HeadlessEvent::Loaded(Err(cause)), t, out)
            ||| s is Connecting && headless_step(s, HeadlessEvent::Connected(Err(cause)), t, out)
        }),
    ensures
        t is Over,
        out.action is Fail,
        s is Fetching ==> out.action->Fail_0@ == prompts::hinted(cause@, text::lowercase(cause@)),
        s is Loading || s is Connecting ==> out.action->Fail_0@ == cause@,
{
}

/// A feed without episodes is an error that names it; one without a match ends the
/// run with a line.
pub proof fn law_an_empty_feed_is_told(args: Unattended, feed: Feed, t: Headless, out: HeadlessStep)
    requires
        headless_step(Headless::Fetching { args }, HeadlessEvent::Fetched(Ok(feed)), t, out),
    ensures
        feed.episodes@.len() == 0 ==> out.action is Fail && out.action->Fail_0@ == "订阅「"@
            + feed.channel_title@ + "」中没有剧集"@,
        feed.episodes@.len() > 0 && select::chosen(
            feed::views(feed.episodes@),
            args.latest,
            feed::text_of(args.filter),
        ).len() == 0 ==> display::lines(out.lines@) == seq![LineView::Out("没有匹配的剧集"@)],
{
}

/// A qBittorrent that cannot be reached ends the run, with its whole endpoint and the
/// whole cause.
pub proof fn law_an_unreachable_qbittorrent_is_told(
    job: Job,
    setup: QbtSetup,
    cause: String,
    t: Headless,
    out: HeadlessStep,
)
    requires
        headless_step(
            Headless::EnsuringCategory { job, setup },
            HeadlessEvent::Replied(Reply::Unreachable(cause)),
            t,
            out,
        ),
    ensures
        t is Over,
        out.action is Fail,
        out.action->Fail_0@ == "could not reach qBittorrent at "@ + setup.client@.endpoint
            + " — is the WebUI enabled?"@ + ": "@ + cause@,
{
}

/// What answers nothing that was asked changes nothing.
pub proof fn law_what_was_not_asked_is_ignored(
    s: Headless,
    e: HeadlessEvent,
    t: Headless,
    out: HeadlessStep,
)
    requires
        headless_step(s, e, t, out),
        match s {
            Headless::Fetching { .. } => !(e is Fetched),
            Headless::Loading { .. } => !(e is Loaded),
            Headless::Connecting { .. } => !(e is Connected),
            Headless::EnsuringCategory { .. } => !(e is Replied),
            Headless::Making { .. } => !(e is Made),
            Headless::Running { .. } => !(e is Ran),
            Headless::Listing { .. } => !(e is Listed),
            Headless::Over => true,
        },
    ensures
        t == s,
        out.action is Ignored,
        out.lines@.len() == 0,
{
    assert(display::lines(out.lines@).len() == out.lines@.len());
}

}
