//! The dialogue of an export: which episodes, in which formats, and where they
//! go, and then the work itself. Each step says what to ask or to do next.
use crate::batch::Totals;
use crate::config;
use crate::config::{Config, ConfigView};
use crate::display;
use crate::display::{nothing, said, warned, Line, LineView, Row};
use crate::export;
use crate::export::{url_list_body, url_list_filename};
use crate::feed;
use crate::feed::{Episode, Feed};
use crate::profiles;
use crate::profiles::ProfileMap;
use crate::prompts;
use crate::prompts::{
    expand_tilde, format_options, take_or_cancel, ExportFormat, FormatOption, Prompted,
};
use crate::qbt;
use crate::qbt::{QbtSetup, Reply, Request};
use crate::select;
use crate::select::sort_episodes;
use crate::text;
use crate::text::{concat, concat3, copy_texts, decimal_text, trim};
use vstd::prelude::*;

verus! {

/// Which formats an export has.
#[derive(Debug, Clone, Copy, PartialEq, Eq, Structural)]
pub struct Wants {
    pub torrents: bool,
    pub urls: bool,
    pub qbt: bool,
}

/// What has been chosen so far. `home` is the home directory.
pub struct Plan {
    pub title: String,
    pub selected: Vec<Episode>,
    pub wants: Wants,
    pub home: Option<String>,
}

/// What is to be done, once the directory is known.
pub struct Work {
    pub title: String,
    pub selected: Vec<Episode>,
    pub wants: Wants,
    pub config: Config,
    pub dir: Option<String>,
}

/// A list of URLs to be written.
pub struct UrlList {
    pub dir: String,
    pub filename: String,
    pub body: String,
}

/// What is left to be done after the episodes.
pub struct Rest {
    pub wants: Wants,
    pub config: Config,
    pub dir: Option<String>,
}

/// What the dialogue waits for.
pub enum Flow {
    /// The episodes.
    PickingEpisodes { title: String, home: Option<String> },
    /// The formats.
    PickingFormats { title: String, selected: Vec<Episode>, home: Option<String> },
    /// What is remembered.
    LoadingConfig { plan: Plan },
    /// The directory.
    AskingPath { plan: Plan, config: Config },
    /// That it is there.
    MakingDir { plan: Plan, config: Config, typed: String, dir: String },
    /// The qBittorrent.
    Resolving { work: Work },
    /// That the new profile is kept.
    SavingProfile { work: Work, setup: QbtSetup, name: String },
    /// That the category is there.
    EnsuringCategory { work: Work, setup: QbtSetup },
    /// The episodes being done.
    Running { rest: Rest, list: Option<UrlList> },
    /// The list being written.
    Listing { rest: Rest, totals: Totals },
    /// The path being remembered.
    SavingHistory { code: i32 },
    /// Nothing any more.
    Over,
}

/// What has happened.
pub enum FlowEvent {
    Episodes(Prompted<Vec<Episode>>),
    Formats(Prompted<Vec<ExportFormat>>),
    Loaded(Result<Config, String>),
    Path(Prompted<String>),
    Made(Result<(), String>),
    /// The choice of a qBittorrent ended: with one, without, or with an error.
    Resolved(Result<Option<QbtSetup>, String>),
    Saved(Result<(), String>),
    Replied(Reply),
    Ran(Totals),
    /// The list was written to the path, or not.
    Listed(Result<String, String>),
}

/// What to do next.
pub enum FlowAction {
    PickEpisodes { title: String, rows: Vec<Row> },
    PickFormats { options: Vec<FormatOption> },
    LoadConfig,
    AskPath { initial: String, history: Vec<String> },
    MakeDir { dir: String },
    ResolveQbt { saved: ProfileMap, title: String },
    SaveConfig(Config),
    Send(Request),
    /// Do the episodes: download them to the directory where there is one, and
    /// add them to the qBittorrent where there is one.
    Run { episodes: Vec<Episode>, dir: Option<String>, qbt: Option<QbtSetup> },
    WriteList(UrlList),
    Finish(i32),
    Fail(String),
    /// What happened answers nothing that was asked.
    Ignored,
}

/// What to print, and what to do next.
pub struct FlowStep {
    pub lines: Vec<Line>,
    pub action: FlowAction,
}

// ---------------------------------------------------------------------------
// What each step amounts to

/// The given lines are printed.
pub open spec fn prints(out: FlowStep, lines: Seq<LineView>) -> bool {
    display::lines(out.lines@) == lines
}

/// It ends with an exit code.
pub open spec fn ends(lines: Seq<LineView>, code: i32, t: Flow, out: FlowStep) -> bool {
    t is Over && prints(out, lines) && out.action == FlowAction::Finish(code)
}

/// The user gave up.
pub open spec fn cancels(t: Flow, out: FlowStep) -> bool {
    ends(seq![LineView::Out("已取消"@)], 0, t, out)
}

/// It ends with an error.
pub open spec fn fails(message: Seq<char>, t: Flow, out: FlowStep) -> bool {
    &&& t is Over
    &&& prints(out, Seq::empty())
    &&& out.action matches FlowAction::Fail(m)
    &&& m@ == message
}

/// A question was answered, given up or failed: the answer leads to `next`.
pub open spec fn asked<T>(
    p: Prompted<T>,
    what: Seq<char>,
    next: spec_fn(T) -> bool,
    t: Flow,
    out: FlowStep,
) -> bool {
    match p {
        Prompted::Answered(v) => next(v),
        Prompted::Skipped => cancels(t, out),
        Prompted::Interrupted => cancels(t, out),
        Prompted::Broken(cause) => fails(prompts::asking_failed(what, cause@), t, out),
    }
}

/// Which formats were chosen.
pub open spec fn wanted(formats: Seq<ExportFormat>) -> Wants {
    Wants {
        torrents: formats.contains(ExportFormat::TorrentFiles),
        urls: formats.contains(ExportFormat::UrlList),
        qbt: formats.contains(ExportFormat::Qbt),
    }
}

/// The directory is asked for, with `initial` to begin with and the history to
/// choose from.
pub open spec fn asks_path(
    plan: Plan,
    config: Config,
    initial: Seq<char>,
    lines: Seq<LineView>,
    t: Flow,
    out: FlowStep,
) -> bool {
    &&& t == Flow::AskingPath { plan, config }
    &&& prints(out, lines)
    &&& out.action matches FlowAction::AskPath { initial: i, history }
    &&& i@ == initial
    &&& history@ == config.path_history@
}

/// The path to begin with: the one used last, or the current directory.
pub open spec fn first_path(config: Config) -> Seq<char> {
    if config.path_history@.len() > 0 {
        config.path_history@[0]@
    } else {
        "."@
    }
}

/// The list of URLs of an export, where it has one.
pub open spec fn list_for(work: Work, list: Option<UrlList>) -> bool {
    if work.wants.urls && work.dir is Some {
        &&& list matches Some(l)
        &&& l.dir@ == work.dir->0@
        &&& l.filename@ == export::list_stem(work.title@) + ".txt"@
        &&& l.body@ == export::on_lines(export::urls(feed::views(work.selected@)))
    } else {
        list is None
    }
}

/// The directory for torrent files, where there are any.
pub open spec fn torrents_dir(work: Work) -> Option<Seq<char>> {
    if work.wants.torrents {
        feed::text_of(work.dir)
    } else {
        None
    }
}

/// The episodes are done.
pub open spec fn runs(
    work: Work,
    setup: Option<QbtSetup>,
    lines: Seq<LineView>,
    t: Flow,
    out: FlowStep,
) -> bool {
    &&& t matches Flow::Running { rest, list }
    &&& rest == Rest { wants: work.wants, config: work.config, dir: work.dir }
    &&& list_for(work, list)
    &&& prints(out, lines)
    &&& out.action matches FlowAction::Run { episodes, dir, qbt }
    &&& episodes == work.selected
    &&& feed::text_of(dir) == torrents_dir(work)
    &&& qbt == setup
}

/// The directory is known, or none is needed: next is the qBittorrent, where
/// one is wanted.
pub open spec fn after_path(work: Work, t: Flow, out: FlowStep) -> bool {
    if work.wants.qbt {
        &&& t == Flow::Resolving { work }
        &&& prints(out, Seq::empty())
        &&& out.action matches FlowAction::ResolveQbt { saved, title }
        &&& saved@ == work.config.qbt@
        &&& title@ == work.title@
    } else {
        runs(work, None, Seq::empty(), t, out)
    }
}

/// What is remembered was loaded, or not. A directory is asked for only where
/// something is written to it.
pub open spec fn after_load(
    plan: Plan,
    loaded: Result<Config, String>,
    t: Flow,
    out: FlowStep,
) -> bool {
    match loaded {
        Err(m) => fails(m@, t, out),
        Ok(config) => if plan.wants.torrents || plan.wants.urls {
            asks_path(plan, config, first_path(config), Seq::empty(), t, out)
        } else {
            after_path(
                Work {
                    title: plan.title,
                    selected: plan.selected,
                    wants: plan.wants,
                    config,
                    dir: None,
                },
                t,
                out,
            )
        },
    }
}

/// The home directory of a plan.
pub open spec fn home_of(plan: Plan) -> Option<Seq<char>> {
    feed::text_of(plan.home)
}

/// A path was typed: the directory is made.
pub open spec fn makes_dir(plan: Plan, config: Config, path: String, t: Flow, out: FlowStep) -> bool {
    let dir = prompts::expanded(text::trimmed(path@), home_of(plan));
    &&& t matches Flow::MakingDir { plan: p, config: c, typed, dir: d }
    &&& p == plan
    &&& c == config
    &&& typed@ == text::trimmed(path@)
    &&& d@ == dir
    &&& prints(out, Seq::empty())
    &&& out.action matches FlowAction::MakeDir { dir: e }
    &&& e@ == dir
}

/// The directory was made, or not: then the path is asked for again, as it was
/// typed.
pub open spec fn after_made(
    plan: Plan,
    config: Config,
    typed: String,
    dir: String,
    made: Result<(), String>,
    t: Flow,
    out: FlowStep,
) -> bool {
    match made {
        Ok(_) => after_path(
            Work {
                title: plan.title,
                selected: plan.selected,
                wants: plan.wants,
                config,
                dir: Some(dir),
            },
            t,
            out,
        ),
        Err(cause) => asks_path(
            plan,
            config,
            typed@,
            seq![LineView::Warning("无法使用 "@ + dir@ + "："@ + cause@)],
            t,
            out,
        ),
    }
}

/// The category is created.
pub open spec fn creates_category(
    work: Work,
    setup: QbtSetup,
    lines: Seq<LineView>,
    t: Flow,
    out: FlowStep,
) -> bool {
    &&& t == Flow::EnsuringCategory { work, setup }
    &&& prints(out, lines)
    &&& out.action matches FlowAction::Send(r)
    &&& r@ == qbt::category_request(setup.client@, setup.category@)
}

/// The qBittorrent was chosen, or not. A new profile is kept first: it has
/// connected.
pub open spec fn after_resolved(
    work: Work,
    resolved: Result<Option<QbtSetup>, String>,
    t: Flow,
    out: FlowStep,
) -> bool {
    match resolved {
        Err(m) => fails(m@, t, out),
        Ok(None) => cancels(t, out),
        Ok(Some(setup)) => match setup.save_as {
            None => creates_category(work, setup, Seq::empty(), t, out),
            Some((name, profile)) => {
                let kept = profiles::put(work.config.qbt@, name@, profile@);
                &&& t matches Flow::SavingProfile { work: w, setup: s, name: n }
                &&& w.title == work.title
                &&& w.selected == work.selected
                &&& w.wants == work.wants
                &&& w.dir == work.dir
                &&& w.config@ == ConfigView { qbt: kept, ..work.config@ }
                &&& s.client == setup.client
                &&& s.category == setup.category
                &&& s.save_as is None
                &&& n@ == name@
                &&& prints(out, Seq::empty())
                &&& out.action matches FlowAction::SaveConfig(c)
                &&& c@ == ConfigView { qbt: kept, ..work.config@ }
            },
        },
    }
}

/// The new profile was kept, or not, which is no reason to stop.
pub open spec fn after_saved(
    work: Work,
    setup: QbtSetup,
    name: String,
    saved: Result<(), String>,
    t: Flow,
    out: FlowStep,
) -> bool {
    creates_category(
        work,
        setup,
        match saved {
            Ok(_) => seq![LineView::Out("配置「"@ + name@ + "」已保存"@)],
            Err(cause) => seq![
                LineView::Warning("警告：无法保存 qBittorrent 配置："@ + cause@),
            ],
        },
        t,
        out,
    )
}

/// Why a reply does not create the category.
pub open spec fn category_refusal(setup: QbtSetup, reply: Reply) -> Option<Seq<char>> {
    match reply {
        Reply::Unreachable(cause) => Some(qbt::unreachable(setup.client@.endpoint, cause@)),
        Reply::Answered(a) => if qbt::success(a.status) || a.status == 409 {
            None
        } else {
            Some(
                "creating qBittorrent category \""@ + setup.category@ + "\" failed: HTTP "@
                    + a.status_text@,
            )
        },
    }
}

/// The category is there, or not.
pub open spec fn after_category(
    work: Work,
    setup: QbtSetup,
    reply: Reply,
    t: Flow,
    out: FlowStep,
) -> bool {
    match category_refusal(setup, reply) {
        Some(m) => fails(m, t, out),
        None => runs(work, Some(setup), Seq::empty(), t, out),
    }
}

/// What is told about the downloads.
pub open spec fn download_line(totals: Totals) -> LineView {
    LineView::Out(
        "已下载 "@ + text::decimal(totals.downloaded as nat) + "，已跳过 "@ + text::decimal(
            totals.skipped as nat,
        ) + "，失败 "@ + text::decimal(totals.failed as nat),
    )
}

/// What is told about qBittorrent.
pub open spec fn qbt_line(totals: Totals) -> LineView {
    LineView::Out(
        "已添加到 qBittorrent "@ + text::decimal(totals.qbt_added as nat) + "，失败 "@
            + text::decimal(totals.qbt_failed as nat),
    )
}

/// What is told about the episodes, where files or torrents were wanted.
pub open spec fn totals_lines(torrents: bool, qbt: bool, totals: Totals) -> Seq<LineView> {
    let first = if torrents {
        seq![download_line(totals)]
    } else {
        Seq::empty()
    };
    if qbt {
        first.push(qbt_line(totals))
    } else {
        first
    }
}

/// The exit code: `1` where anything failed.
pub open spec fn exit_code(totals: Totals, url_failed: bool) -> i32 {
    if totals.failed > 0 || totals.qbt_failed > 0 || url_failed {
        1
    } else {
        0
    }
}

/// The work is done: a directory that something came to is remembered.
pub open spec fn winds_up(
    rest: Rest,
    totals: Totals,
    listed: bool,
    url_failed: bool,
    lines: Seq<LineView>,
    t: Flow,
    out: FlowStep,
) -> bool {
    let code = exit_code(totals, url_failed);
    if rest.dir is Some && (totals.downloaded > 0 || totals.skipped > 0 || listed) {
        &&& t == Flow::SavingHistory { code }
        &&& prints(out, lines)
        &&& out.action matches FlowAction::SaveConfig(c)
        &&& c@ == ConfigView {
            path_history: config::recorded(rest.config@.path_history, rest.dir->0@),
            ..rest.config@
        }
    } else {
        ends(lines, code, t, out)
    }
}

/// The episodes are done: next is the list, where there is one.
pub open spec fn after_run(
    rest: Rest,
    list: Option<UrlList>,
    totals: Totals,
    t: Flow,
    out: FlowStep,
) -> bool {
    let lines = totals_lines(rest.wants.torrents, rest.wants.qbt, totals);
    match list {
        Some(l) => {
            &&& t == Flow::Listing { rest, totals }
            &&& prints(out, lines)
            &&& out.action == FlowAction::WriteList(l)
        },
        None => winds_up(rest, totals, false, false, lines, t, out),
    }
}

/// What is told about the list.
pub open spec fn list_line(listed: Result<String, String>) -> LineView {
    match listed {
        Ok(path) => LineView::Out("URL 列表已写入 "@ + path@),
        Err(cause) => LineView::Warning("失败           URL 列表："@ + cause@),
    }
}

/// The list was written, or not.
pub open spec fn after_list(
    rest: Rest,
    totals: Totals,
    listed: Result<String, String>,
    t: Flow,
    out: FlowStep,
) -> bool {
    winds_up(rest, totals, listed is Ok, listed is Err, seq![list_line(listed)], t, out)
}

/// The episodes were picked, or none, or the question was given up or failed.
pub open spec fn after_episodes(
    title: String,
    home: Option<String>,
    p: Prompted<Vec<Episode>>,
    t: Flow,
    out: FlowStep,
) -> bool {
    match p {
        Prompted::Answered(selected) => if selected@.len() == 0 {
            ends(seq![LineView::Out("未选择任何内容"@)], 0, t, out)
        } else {
            &&& t == Flow::PickingFormats { title, selected, home }
            &&& prints(out, Seq::empty())
            &&& out.action matches FlowAction::PickFormats { options }
            &&& options@.len() == 3
            &&& options@[0].format == ExportFormat::TorrentFiles
            &&& options@[1].format == ExportFormat::UrlList
            &&& options@[2].format == ExportFormat::Qbt
            &&& forall|i: int|
                0 <= i < 3 ==> (#[trigger] options@[i]).label@ == prompts::format_label(
                    options@[i].format,
                    title@,
                )
        },
        Prompted::Skipped => cancels(t, out),
        Prompted::Interrupted => cancels(t, out),
        Prompted::Broken(cause) => fails("显示剧集选择器: "@ + cause@, t, out),
    }
}

/// The formats were chosen: next is what is remembered.
pub open spec fn after_formats(
    title: String,
    selected: Vec<Episode>,
    home: Option<String>,
    formats: Vec<ExportFormat>,
    t: Flow,
    out: FlowStep,
) -> bool {
    &&& t == Flow::LoadingConfig {
        plan: Plan { title, selected, wants: wanted(formats@), home },
    }
    &&& prints(out, Seq::empty())
    &&& out.action is LoadConfig
}

/// How `e` takes the dialogue from `s` to `t`, with `out` to print and to do.
pub open spec fn flow_step(s: Flow, e: FlowEvent, t: Flow, out: FlowStep) -> bool {
    match (s, e) {
        (Flow::PickingEpisodes { title, home }, FlowEvent::Episodes(p)) => after_episodes(
            title,
            home,
            p,
            t,
            out,
        ),
        (Flow::PickingFormats { title, selected, home }, FlowEvent::Formats(p)) => asked(
            p,
            "导出格式"@,
            |formats: Vec<ExportFormat>| after_formats(title, selected, home, formats, t, out),
            t,
            out,
        ),
        (Flow::LoadingConfig { plan }, FlowEvent::Loaded(r)) => after_load(plan, r, t, out),
        (Flow::AskingPath { plan, config }, FlowEvent::Path(p)) => asked(
            p,
            "导出路径"@,
            |path: String| makes_dir(plan, config, path, t, out),
            t,
            out,
        ),
        (Flow::MakingDir { plan, config, typed, dir }, FlowEvent::Made(r)) => after_made(
            plan,
            config,
            typed,
            dir,
            r,
            t,
            out,
        ),
        (Flow::Resolving { work }, FlowEvent::Resolved(r)) => after_resolved(work, r, t, out),
        (Flow::SavingProfile { work, setup, name }, FlowEvent::Saved(r)) => after_saved(
            work,
            setup,
            name,
            r,
            t,
            out,
        ),
        (Flow::EnsuringCategory { work, setup }, FlowEvent::Replied(reply)) => after_category(
            work,
            setup,
            reply,
            t,
            out,
        ),
        (Flow::Running { rest, list }, FlowEvent::Ran(totals)) => after_run(
            rest,
            list,
            totals,
            t,
            out,
        ),
        (Flow::Listing { rest, totals }, FlowEvent::Listed(r)) => after_list(
            rest,
            totals,
            r,
            t,
            out,
        ),
        (Flow::SavingHistory { code }, FlowEvent::Saved(r)) => match r {
            Ok(_) => ends(Seq::empty(), code, t, out),
            Err(cause) => ends(
                seq![LineView::Warning("警告：无法保存路径历史："@ + cause@)],
                code,
                t,
                out,
            ),
        },
        _ => t == s && prints(out, Seq::empty()) && out.action is Ignored,
    }
}

// ---------------------------------------------------------------------------
// The steps

/// It ends with an exit code.
fn end(lines: Vec<Line>, code: i32) -> (r: (Flow, FlowStep))
    ensures
        ends(display::lines(lines@), code, r.0, r.1),
{
    (Flow::Over, FlowStep { lines, action: FlowAction::Finish(code) })
}

/// The user gave up.
fn cancel() -> (r: (Flow, FlowStep))
    ensures
        cancels(r.0, r.1),
{
    end(said("已取消".to_owned()), 0)
}

/// It ends with an error.
fn fail(message: String) -> (r: (Flow, FlowStep))
    ensures
        fails(message@, r.0, r.1),
{
    (Flow::Over, FlowStep { lines: nothing(), action: FlowAction::Fail(message) })
}

/// Whether a format was chosen.
fn has_format(formats: &Vec<ExportFormat>, format: ExportFormat) -> (r: bool)
    ensures
        r == formats@.contains(format),
{
    let mut i: usize = 0;
    while i < formats.len()
        invariant
            i <= formats@.len(),
            forall|k: int| 0 <= k < i ==> #[trigger] formats@[k] != format,
        decreases formats@.len() - i,
    {
        if formats[i] == format {
            assert(formats@[i as int] == format);
            return true;
        }
        i = i + 1;
    }
    false
}

/// Begins the dialogue over a feed, with its episodes in order. `home` is the
/// home directory.
pub fn run_export_flow(feed: Feed, home: Option<String>) -> (r: (Flow, FlowStep))
    ensures
        r.0 == (Flow::PickingEpisodes { title: feed.channel_title, home }),
        prints(r.1, Seq::empty()),
        r.1.action matches FlowAction::PickEpisodes { title, rows } && {
            &&& title@ == feed.channel_title@
            &&& rows@.len() == feed.episodes@.len()
            &&& rows@.map_values(|row: Row| row.0@) == select::in_order(
                feed::views(feed.episodes@),
            )
        },
{
    let title = feed.channel_title;
    let shown = title.clone();
    let ghost given = feed::views(feed.episodes@);
    let sorted = sort_episodes(feed.episodes);
    let ghost ordered = feed::views(sorted@);
    proof {
        if select::all_dated(given) {
            select::law_sorting_puts_the_newest_first(given);
        }
        assert(sorted@.len() == ordered.len());
    }
    let mut rows: Vec<Row> = Vec::new();
    let mut i: usize = 0;
    while i < sorted.len()
        invariant
            i <= sorted@.len(),
            rows@.len() == i,
            forall|k: int| 0 <= k < i ==> (#[trigger] rows@[k]).0 == sorted@[k],
        decreases sorted@.len() - i,
    {
        rows.push(Row(sorted[i].duplicate()));
        i = i + 1;
    }
    proof {
        assert(rows@.map_values(|row: Row| row.0@) == ordered);
    }
    (
        Flow::PickingEpisodes { title, home },
        FlowStep { lines: nothing(), action: FlowAction::PickEpisodes { title: shown, rows } },
    )
}

/// The directory is asked for.
fn ask_path(plan: Plan, config: Config, initial: String, lines: Vec<Line>) -> (r: (Flow, FlowStep))
    ensures
        asks_path(plan, config, initial@, display::lines(lines@), r.0, r.1),
{
    let history = copy_texts(&config.path_history);
    (
        Flow::AskingPath { plan, config },
        FlowStep { lines, action: FlowAction::AskPath { initial, history } },
    )
}

/// The list of URLs of an export, where it has one.
fn make_list(work: &Work) -> (list: Option<UrlList>)
    ensures
        list_for(*work, list),
{
    match &work.dir {
        Some(dir) => {
            if work.wants.urls {
                Some(
                    UrlList {
                        dir: dir.clone(),
                        filename: url_list_filename(&work.title),
                        body: url_list_body(&work.selected),
                    },
                )
            } else {
                None
            }
        },
        None => None,
    }
}

/// The episodes are done.
fn run(work: Work, setup: Option<QbtSetup>) -> (r: (Flow, FlowStep))
    ensures
        runs(work, setup, Seq::empty(), r.0, r.1),
{
    let list = make_list(&work);
    let dir = match &work.dir {
        Some(d) => {
            if work.wants.torrents {
                Some(d.clone())
            } else {
                None
            }
        },
        None => None,
    };
    (
        Flow::Running {
            rest: Rest { wants: work.wants, config: work.config, dir: work.dir },
            list,
        },
        FlowStep {
            lines: nothing(),
            action: FlowAction::Run { episodes: work.selected, dir, qbt: setup },
        },
    )
}

/// Next is the qBittorrent, where one is wanted.
fn go_on(work: Work) -> (r: (Flow, FlowStep))
    ensures
        after_path(work, r.0, r.1),
{
    if work.wants.qbt {
        let saved = work.config.qbt.duplicate();
        let title = work.title.clone();
        (
            Flow::Resolving { work },
            FlowStep { lines: nothing(), action: FlowAction::ResolveQbt { saved, title } },
        )
    } else {
        run(work, None)
    }
}

/// The category is created.
fn create_category(work: Work, setup: QbtSetup, lines: Vec<Line>) -> (r: (Flow, FlowStep))
    ensures
        creates_category(work, setup, display::lines(lines@), r.0, r.1),
{
    let request = setup.client.ask_category(&setup.category);
    (
        Flow::EnsuringCategory { work, setup },
        FlowStep { lines, action: FlowAction::Send(request) },
    )
}

/// The qBittorrent was chosen.
fn take_setup(work: Work, setup: QbtSetup) -> (r: (Flow, FlowStep))
    ensures
        after_resolved(work, Ok(Some(setup)), r.0, r.1),
{
    match setup.save_as {
        None => create_category(work, setup, nothing()),
        Some((name, profile)) => {
            let kept = name.clone();
            let config = Config {
                version: work.config.version,
                path_history: work.config.path_history,
                qbt: work.config.qbt.insert(name, profile),
            };
            let saved = config.duplicate();
            let work = Work {
                title: work.title,
                selected: work.selected,
                wants: work.wants,
                config,
                dir: work.dir,
            };
            let setup = QbtSetup {
                client: setup.client,
                category: setup.category,
                save_as: None,
            };
            (
                Flow::SavingProfile { work, setup, name: kept },
                FlowStep { lines: nothing(), action: FlowAction::SaveConfig(saved) },
            )
        },
    }
}

/// What is told about the episodes.
pub fn tell_totals(torrents: bool, qbt: bool, totals: Totals) -> (v: Vec<Line>)
    ensures
        display::lines(v@) == totals_lines(torrents, qbt, totals),
{
    let mut v: Vec<Line> = nothing();
    if torrents {
        let a = decimal_text(totals.downloaded as u64);
        let b = decimal_text(totals.skipped as u64);
        let c = decimal_text(totals.failed as u64);
        let front = concat3("已下载 ", &a, "，已跳过 ");
        let middle = concat3(&front, &b, "，失败 ");
        v = said(concat(&middle, &c));
    }
    if qbt {
        let a = decimal_text(totals.qbt_added as u64);
        let b = decimal_text(totals.qbt_failed as u64);
        let front = concat3("已添加到 qBittorrent ", &a, "，失败 ");
        let ghost before = v@;
        v.push(Line::Out(concat(&front, &b)));
        proof {
            assert(display::lines(v@) == display::lines(before).push(qbt_line(totals)));
        }
    }
    v
}

/// The exit code.
pub fn code_for(totals: Totals, url_failed: bool) -> (code: i32)
    ensures
        code == exit_code(totals, url_failed),
{
    if totals.failed > 0 || totals.qbt_failed > 0 || url_failed {
        1
    } else {
        0
    }
}

/// The work is done.
fn wind_up(
    rest: Rest,
    totals: Totals,
    listed: bool,
    url_failed: bool,
    lines: Vec<Line>,
) -> (r: (Flow, FlowStep))
    ensures
        winds_up(rest, totals, listed, url_failed, display::lines(lines@), r.0, r.1),
{
    let code: i32 = code_for(totals, url_failed);
    match rest.dir {
        Some(dir) => {
            if totals.downloaded > 0 || totals.skipped > 0 || listed {
                let mut config = rest.config;
                config.record_path(&dir);
                (
                    Flow::SavingHistory { code },
                    FlowStep { lines, action: FlowAction::SaveConfig(config) },
                )
            } else {
                end(lines, code)
            }
        },
        None => end(lines, code),
    }
}

/// What is told about the list.
pub fn tell_list(listed: &Result<String, String>) -> (v: Vec<Line>)
    ensures
        display::lines(v@) == seq![list_line(*listed)],
{
    match listed {
        Ok(path) => said(concat("URL 列表已写入 ", path)),
        Err(cause) => warned(concat("失败           URL 列表：", cause)),
    }
}

impl Flow {
    /// What follows what has happened.
    pub fn step(self, event: FlowEvent) -> (r: (Flow, FlowStep))
        ensures
            flow_step(self, event, r.0, r.1),
    {
        match (self, event) {
            (Flow::PickingEpisodes { title, home }, FlowEvent::Episodes(p)) => match p {
                Prompted::Answered(selected) => {
                    if selected.len() == 0 {
                        end(said("未选择任何内容".to_owned()), 0)
                    } else {
                        let options = format_options(&title);
                        (
                            Flow::PickingFormats { title, selected, home },
                            FlowStep {
                                lines: nothing(),
                                action: FlowAction::PickFormats { options },
                            },
                        )
                    }
                },
                Prompted::Skipped => cancel(),
                Prompted::Interrupted => cancel(),
                Prompted::Broken(cause) => fail(concat("显示剧集选择器: ", &cause)),
            },
            (Flow::PickingFormats { title, selected, home }, FlowEvent::Formats(p)) => {
                match take_or_cancel(p, "导出格式") {
                    Ok(Some(formats)) => {
                        let wants = Wants {
                            torrents: has_format(&formats, ExportFormat::TorrentFiles),
                            urls: has_format(&formats, ExportFormat::UrlList),
                            qbt: has_format(&formats, ExportFormat::Qbt),
                        };
                        (
                            Flow::LoadingConfig { plan: Plan { title, selected, wants, home } },
                            FlowStep { lines: nothing(), action: FlowAction::LoadConfig },
                        )
                    },
                    Ok(None) => cancel(),
                    Err(m) => fail(m),
                }
            },
            (Flow::LoadingConfig { plan }, FlowEvent::Loaded(Ok(config))) => {
                if plan.wants.torrents || plan.wants.urls {
                    let initial = if config.path_history.len() > 0 {
                        config.path_history[0].clone()
                    } else {
                        ".".to_owned()
                    };
                    ask_path(plan, config, initial, nothing())
                } else {
                    go_on(
                        Work {
                            title: plan.title,
                            selected: plan.selected,
                            wants: plan.wants,
                            config,
                            dir: None,
                        },
                    )
                }
            },
            (Flow::LoadingConfig { plan: _ }, FlowEvent::Loaded(Err(m))) => fail(m),
            (Flow::AskingPath { plan, config }, FlowEvent::Path(p)) => {
                match take_or_cancel(p, "导出路径") {
                    Ok(Some(path)) => {
                        let typed = trim(&path);
                        let home: Option<&str> = match &plan.home {
                            Some(h) => Some(h.as_str()),
                            None => None,
                        };
                        let dir = expand_tilde(&typed, home);
                        let asked = dir.clone();
                        (
                            Flow::MakingDir { plan, config, typed, dir },
                            FlowStep {
                                lines: nothing(),
                                action: FlowAction::MakeDir { dir: asked },
                            },
                        )
                    },
                    Ok(None) => cancel(),
                    Err(m) => fail(m),
                }
            },
            (Flow::MakingDir { plan, config, typed: _, dir }, FlowEvent::Made(Ok(_))) => go_on(
                Work {
                    title: plan.title,
                    selected: plan.selected,
                    wants: plan.wants,
                    config,
                    dir: Some(dir),
                },
            ),
            (Flow::MakingDir { plan, config, typed, dir }, FlowEvent::Made(Err(cause))) => {
                let front = concat3("无法使用 ", &dir, "：");
                ask_path(plan, config, typed, warned(concat(&front, &cause)))
            },
            (Flow::Resolving { work }, FlowEvent::Resolved(Ok(Some(setup)))) => take_setup(
                work,
                setup,
            ),
            (Flow::Resolving { work: _ }, FlowEvent::Resolved(Ok(None))) => cancel(),
            (Flow::Resolving { work: _ }, FlowEvent::Resolved(Err(m))) => fail(m),
            (Flow::SavingProfile { work, setup, name }, FlowEvent::Saved(Ok(_))) => {
                create_category(work, setup, said(concat3("配置「", &name, "」已保存")))
            },
            (Flow::SavingProfile { work, setup, name: _ }, FlowEvent::Saved(Err(cause))) => {
                create_category(
                    work,
                    setup,
                    warned(concat("警告：无法保存 qBittorrent 配置：", &cause)),
                )
            },
            (Flow::EnsuringCategory { work, setup }, FlowEvent::Replied(reply)) => {
                match setup.client.ensure_category(&setup.category, &reply) {
                    Ok(_) => run(work, Some(setup)),
                    Err(m) => fail(m),
                }
            },
            (Flow::Running { rest, list }, FlowEvent::Ran(totals)) => {
                let lines = tell_totals(rest.wants.torrents, rest.wants.qbt, totals);
                match list {
                    Some(l) => (
                        Flow::Listing { rest, totals },
                        FlowStep { lines, action: FlowAction::WriteList(l) },
                    ),
                    None => wind_up(rest, totals, false, false, lines),
                }
            },
            (Flow::Listing { rest, totals }, FlowEvent::Listed(listed)) => {
                let lines = tell_list(&listed);
                wind_up(rest, totals, listed.is_ok(), listed.is_err(), lines)
            },
            (Flow::SavingHistory { code }, FlowEvent::Saved(Ok(_))) => end(nothing(), code),
            (Flow::SavingHistory { code }, FlowEvent::Saved(Err(cause))) => end(
                warned(concat("警告：无法保存路径历史：", &cause)),
                code,
            ),
            (same, _) => (same, FlowStep { lines: nothing(), action: FlowAction::Ignored }),
        }
    }
}

// ---------------------------------------------------------------------------
// Laws

/// Giving up any question ends the run without an error.
pub proof fn law_cancelling_is_no_error(s: Flow, e: FlowEvent, t: Flow, out: FlowStep)
    requires
        flow_step(s, e, t, out),
        match (s, e) {
            (Flow::PickingEpisodes { .. }, FlowEvent::Episodes(p)) => p is Skipped
                || p is Interrupted,
            (Flow::PickingFormats { .. }, FlowEvent::Formats(p)) => p is Skipped || p is Interrupted,
            (Flow::AskingPath { .. }, FlowEvent::Path(p)) => p is Skipped || p is Interrupted,
            (Flow::Resolving { .. }, FlowEvent::Resolved(r)) => r == Ok::<Option<QbtSetup>, String>(
                None,
            ),
            _ => false,
        },
    ensures
        cancels(t, out),
{
}

/// Picking nothing ends the run without an error, and nothing is asked.
pub proof fn law_picking_nothing_is_no_error(
    title: String,
    home: Option<String>,
    none: Vec<Episode>,
    t: Flow,
    out: FlowStep,
)
    requires
        none@.len() == 0,
        flow_step(
            Flow::PickingEpisodes { title, home },
            FlowEvent::Episodes(Prompted::Answered(none)),
            t,
            out,
        ),
    ensures
        t is Over,
        out.action == FlowAction::Finish(0),
{
}

/// A directory is asked for exactly where files are written: for torrent files
/// or for a list.
pub proof fn law_a_path_is_asked_for_files_alone(
    plan: Plan,
    config: Config,
    t: Flow,
    out: FlowStep,
)
    requires
        flow_step(Flow::LoadingConfig { plan }, FlowEvent::Loaded(Ok(config)), t, out),
    ensures
        out.action is AskPath <==> plan.wants.torrents || plan.wants.urls,
{
}

/// A directory that cannot be made is told at once, and asked for again as it
/// was typed: no answer is lost.
pub proof fn law_a_bad_path_can_be_mended(
    plan: Plan,
    config: Config,
    typed: String,
    dir: String,
    cause: String,
    t: Flow,
    out: FlowStep,
)
    requires
        flow_step(
            Flow::MakingDir { plan, config, typed, dir },
            FlowEvent::Made(Err(cause)),
            t,
            out,
        ),
    ensures
        t == (Flow::AskingPath { plan, config }),
        out.action matches FlowAction::AskPath { initial, .. } && initial@ == typed@,
{
}

/// That something could not be remembered never stops the work, nor changes how
/// it ends.
pub proof fn law_a_failed_save_stops_nothing(s: Flow, cause: String, t: Flow, out: FlowStep)
    requires
        flow_step(s, FlowEvent::Saved(Err(cause)), t, out),
        s is SavingProfile || s is SavingHistory,
    ensures
        s is SavingProfile ==> out.action is Send,
        s matches Flow::SavingHistory { code } ==> out.action == FlowAction::Finish(code),
{
}

/// The end of the work tells whether anything failed: the exit code is `1` where
/// an episode or the list failed, and else `0`.
pub proof fn law_the_exit_code_tells_failures(
    rest: Rest,
    list: Option<UrlList>,
    totals: Totals,
    t: Flow,
    out: FlowStep,
)
    requires
        flow_step(Flow::Running { rest, list }, FlowEvent::Ran(totals), t, out),
    ensures
        out.action matches FlowAction::Finish(code) ==> (code == 1 <==> totals.failed > 0
            || totals.qbt_failed > 0) && (code == 0 || code == 1),
        t matches Flow::SavingHistory { code } ==> (code == 1 <==> totals.failed > 0
            || totals.qbt_failed > 0) && (code == 0 || code == 1),
{
}

/// The same at the end of a list: one that could not be written is a failure.
pub proof fn law_a_failed_list_is_a_failure(
    rest: Rest,
    totals: Totals,
    listed: Result<String, String>,
    t: Flow,
    out: FlowStep,
)
    requires
        flow_step(Flow::Listing { rest, totals }, FlowEvent::Listed(listed), t, out),
    ensures
        out.action matches FlowAction::Finish(code) ==> (code == 1 <==> totals.failed > 0
            || totals.qbt_failed > 0 || listed is Err),
        t matches Flow::SavingHistory { code } ==> (code == 1 <==> totals.failed > 0
            || totals.qbt_failed > 0 || listed is Err),
{
}

/// A directory is remembered only where something came to it.
pub proof fn law_only_used_paths_are_remembered(s: Flow, e: FlowEvent, t: Flow, out: FlowStep)
    requires
        flow_step(s, e, t, out),
        t is SavingHistory,
        !(s is SavingHistory),
    ensures
        match (s, e) {
            (Flow::Running { rest, list }, FlowEvent::Ran(totals)) => rest.dir is Some && (
            totals.downloaded > 0 || totals.skipped > 0),
            (Flow::Listing { rest, totals }, FlowEvent::Listed(r)) => rest.dir is Some && (
            totals.downloaded > 0 || totals.skipped > 0 || r is Ok),
            _ => false,
        },
{
}

/// A new profile is kept before anything is done with it, and the category is
/// there before the first torrent is added.
pub proof fn law_the_category_comes_first(s: Flow, e: FlowEvent, t: Flow, out: FlowStep)
    requires
        flow_step(s, e, t, out),
    ensures
        out.action matches FlowAction::Run { qbt, .. } ==> (qbt is Some ==> s is EnsuringCategory),
        out.action is Send ==> s is SavingProfile || (s is Resolving && (e matches
            FlowEvent::Resolved(Ok(Some(setup))) && setup.save_as is None)),
{
}

/// A directory is there exactly where files are written, and a list only with
/// one.
pub open spec fn dir_fits(f: Flow) -> bool {
    match f {
        Flow::Resolving { work } => work.dir is Some <==> work.wants.torrents || work.wants.urls,
        Flow::SavingProfile { work, .. } => work.dir is Some <==> work.wants.torrents
            || work.wants.urls,
        Flow::EnsuringCategory { work, .. } => work.dir is Some <==> work.wants.torrents
            || work.wants.urls,
        Flow::Running { rest, list } => (rest.dir is Some <==> rest.wants.torrents
            || rest.wants.urls) && (list is Some <==> rest.wants.urls),
        Flow::Listing { rest, .. } => rest.dir is Some && rest.wants.urls,
        Flow::MakingDir { plan, .. } => plan.wants.torrents || plan.wants.urls,
        Flow::AskingPath { plan, .. } => plan.wants.torrents || plan.wants.urls,
        _ => true,
    }
}

/// Every step keeps it so: files are never written without a directory that was
/// asked for, and the list is written exactly where one was wanted.
pub proof fn law_files_have_their_directory(s: Flow, e: FlowEvent, t: Flow, out: FlowStep)
    requires
        dir_fits(s),
        flow_step(s, e, t, out),
    ensures
        dir_fits(t),
        out.action matches FlowAction::Run { dir, .. } ==> (t matches Flow::Running { rest, .. } && (
        dir is Some <==> rest.wants.torrents)),
{
}

/// The episodes picked are kept whole, and every format is offered by its name.
pub proof fn law_picked_episodes_are_kept(
    title: String,
    home: Option<String>,
    selected: Vec<Episode>,
    t: Flow,
    out: FlowStep,
)
    requires
        selected@.len() > 0,
        flow_step(
            Flow::PickingEpisodes { title, home },
            FlowEvent::Episodes(Prompted::Answered(selected)),
            t,
            out,
        ),
    ensures
        t == (Flow::PickingFormats { title, selected, home }),
        out.action is PickFormats,
        out.action->PickFormats_options@.len() == 3,
        out.action->PickFormats_options@[0].format == ExportFormat::TorrentFiles,
        out.action->PickFormats_options@[0].label@ == "下载 .torrent 文件"@,
        out.action->PickFormats_options@[1].format == ExportFormat::UrlList,
        out.action->PickFormats_options@[1].label@ == "将种子 URL 列表写入「"@ + (export::list_stem(
            title@,
        ) + ".txt"@) + "」"@,
        out.action->PickFormats_options@[2].format == ExportFormat::Qbt,
        out.action->PickFormats_options@[2].label@ == "添加到 qBittorrent"@,
{
}

/// Each format chosen is wanted, wherever it stands among them, and none else.
pub proof fn law_chosen_formats_are_wanted(
    title: String,
    selected: Vec<Episode>,
    home: Option<String>,
    formats: Vec<ExportFormat>,
    t: Flow,
    out: FlowStep,
)
    requires
        flow_step(
            Flow::PickingFormats { title, selected, home },
            FlowEvent::Formats(Prompted::Answered(formats)),
            t,
            out,
        ),
    ensures
        out.action is LoadConfig,
        t is LoadingConfig,
        t->LoadingConfig_plan.title == title,
        t->LoadingConfig_plan.selected == selected,
        t->LoadingConfig_plan.home == home,
        t->LoadingConfig_plan.wants.torrents <==> exists|i: int|
            0 <= i < formats@.len() && #[trigger] formats@[i] == ExportFormat::TorrentFiles,
        t->LoadingConfig_plan.wants.urls <==> exists|i: int|
            0 <= i < formats@.len() && #[trigger] formats@[i] == ExportFormat::UrlList,
        t->LoadingConfig_plan.wants.qbt <==> exists|i: int|
            0 <= i < formats@.len() && #[trigger] formats@[i] == ExportFormat::Qbt,
{
}

/// The directory is asked for with the path used last to begin with, or the current
/// directory where none was, and with all the paths remembered to choose from.
pub proof fn law_the_last_path_comes_first(plan: Plan, config: Config, t: Flow, out: FlowStep)
    requires
        flow_step(Flow::LoadingConfig { plan }, FlowEvent::Loaded(Ok(config)), t, out),
        plan.wants.torrents || plan.wants.urls,
    ensures
        t == (Flow::AskingPath { plan, config }),
        out.action is AskPath,
        config.path_history@.len() > 0 ==> out.action->initial@ == config.path_history@[0]@,
        config.path_history@.len() == 0 ==> out.action->initial@ == "."@,
        out.action->history@ == config.path_history@,
        out.lines@.len() == 0,
{
    assert(display::lines(out.lines@).len() == out.lines@.len());
}

/// The directory made is the path typed, without the white space around it and with
/// the home directory for `~`.
pub proof fn law_the_typed_directory_is_made(
    plan: Plan,
    config: Config,
    path: String,
    t: Flow,
    out: FlowStep,
)
    requires
        flow_step(
            Flow::AskingPath { plan, config },
            FlowEvent::Path(Prompted::Answered(path)),
            t,
            out,
        ),
    ensures
        out.action is MakeDir,
        plan.home is None ==> out.action->MakeDir_dir@ == text::trimmed(path@),
        plan.home matches Some(h) ==> out.action->MakeDir_dir@ == prompts::expanded(
            text::trimmed(path@),
            Some(h@),
        ),
        t is MakingDir,
        t->MakingDir_plan == plan,
        t->MakingDir_config == config,
        t->typed@ == text::trimmed(path@),
        t->MakingDir_dir@ == out.action->MakeDir_dir@,
{
}

/// The work begins with every episode that was picked, whole and in order; files go
/// to the directory that was made where they are wanted. The list has the name of
/// the channel and a line for each of the episodes.
pub proof fn law_the_work_is_on_the_picked_episodes(
    work: Work,
    setup: QbtSetup,
    answer: qbt::Answer,
    t: Flow,
    out: FlowStep,
)
    requires
        flow_step(
            Flow::EnsuringCategory { work, setup },
            FlowEvent::Replied(Reply::Answered(answer)),
            t,
            out,
        ),
        200 <= answer.status < 300 || answer.status == 409,
    ensures
        out.action is Run,
        out.action->episodes == work.selected,
        out.action->qbt == Some(setup),
        work.wants.torrents ==> feed::text_of(out.action->Run_dir) == feed::text_of(work.dir),
        !work.wants.torrents ==> out.action->Run_dir is None,
        t is Running,
        t->Running_rest == (Rest { wants: work.wants, config: work.config, dir: work.dir }),
        work.wants.urls && work.dir is Some ==> {
            &&& t->list is Some
            &&& t->list->0.dir@ == work.dir->0@
            &&& t->list->0.filename@ == export::list_stem(work.title@) + ".txt"@
            &&& t->list->0.body@ == export::on_lines(
                Seq::new(work.selected@.len(), |i: int| work.selected@[i].torrent_url@),
            )
        },
        !work.wants.urls ==> t->list is None,
{
    lemma_list_urls(work);
}

proof fn lemma_list_urls(work: Work)
    ensures
        export::urls(feed::views(work.selected@)) == Seq::new(
            work.selected@.len(),
            |i: int| work.selected@[i].torrent_url@,
        ),
{
    assert(export::urls(feed::views(work.selected@)) =~= Seq::new(
        work.selected@.len(),
        |i: int| work.selected@[i].torrent_url@,
    ));
}

/// Without a qBittorrent the work begins as soon as the directory is made: with
/// every episode that was picked, whole and in order.
pub proof fn law_the_work_without_qbittorrent(
    plan: Plan,
    config: Config,
    typed: String,
    dir: String,
    t: Flow,
    out: FlowStep,
)
    requires
        flow_step(Flow::MakingDir { plan, config, typed, dir }, FlowEvent::Made(Ok(())), t, out),
        !plan.wants.qbt,
    ensures
        out.action is Run,
        out.action->episodes == plan.selected,
        out.action->qbt is None,
        plan.wants.torrents ==> out.action->Run_dir is Some && out.action->Run_dir->0@ == dir@,
        !plan.wants.torrents ==> out.action->Run_dir is None,
        t is Running,
        t->Running_rest.wants == plan.wants,
        t->Running_rest.config == config,
        t->Running_rest.dir == Some(dir),
        plan.wants.urls ==> {
            &&& t->list is Some
            &&& t->list->0.dir@ == dir@
            &&& t->list->0.filename@ == export::list_stem(plan.title@) + ".txt"@
            &&& t->list->0.body@ == export::on_lines(
                Seq::new(plan.selected@.len(), |i: int| plan.selected@[i].torrent_url@),
            )
        },
        !plan.wants.urls ==> t->list is None,
{
    lemma_list_urls(
        Work {
            title: plan.title,
            selected: plan.selected,
            wants: plan.wants,
            config,
            dir: Some(dir),
        },
    );
}

/// With a qBittorrent, the choice among all the saved profiles follows: once the
/// directory is made, or at once where none is needed. All that was chosen is kept.
pub proof fn law_the_choice_of_a_qbittorrent_follows(
    s: Flow,
    e: FlowEvent,
    plan: Plan,
    config: Config,
    typed: String,
    dir: String,
    t: Flow,
    out: FlowStep,
)
    requires
        flow_step(s, e, t, out),
        plan.wants.qbt,
        ({
            ||| s == Flow::MakingDir { plan, config, typed, dir } && e == FlowEvent::Made(Ok(()))
            ||| s == Flow::LoadingConfig { plan } && e == FlowEvent::Loaded(Ok(config))
                && !plan.wants.torrents && !plan.wants.urls
        }),
    ensures
        out.action is ResolveQbt,
        out.action->saved@ == config.qbt@,
        out.action->ResolveQbt_title@ == plan.title@,
        t is Resolving,
        t->Resolving_work.title == plan.title,
        t->Resolving_work.selected == plan.selected,
        t->Resolving_work.wants == plan.wants,
        t->Resolving_work.config == config,
        s is MakingDir ==> t->Resolving_work.dir == Some(dir),
        s is LoadingConfig ==> t->Resolving_work.dir is None,
{
}

/// A new profile is saved whole under its name, with everything else that is
/// remembered as it was; then the work goes on with all that was chosen.
pub proof fn law_a_new_profile_is_saved_whole(
    work: Work,
    setup: QbtSetup,
    name: String,
    profile: profiles::QbtProfile,
    other: Seq<char>,
    t: Flow,
    out: FlowStep,
)
    requires
        setup.save_as == Some((name, profile)),
        flow_step(Flow::Resolving { work }, FlowEvent::Resolved(Ok(Some(setup))), t, out),
    ensures
        out.action is SaveConfig,
        profiles::lookup(out.action->SaveConfig_0@.qbt, name@) == Some(
            profiles::ProfileView {
                endpoint: profile.endpoint@,
                username: profile.username@,
                password: profile.password@,
            },
        ),
        other != name@ ==> profiles::lookup(out.action->SaveConfig_0@.qbt, other)
            == profiles::lookup(work.config@.qbt, other),
        out.action->SaveConfig_0@.path_history == work.config@.path_history,
        out.action->SaveConfig_0@.version == work.config@.version,
        t is SavingProfile,
        t->SavingProfile_work.title == work.title,
        t->SavingProfile_work.selected == work.selected,
        t->SavingProfile_work.wants == work.wants,
        t->SavingProfile_work.dir == work.dir,
        t->SavingProfile_work.config@ == out.action->SaveConfig_0@,
        t->SavingProfile_setup.client == setup.client,
        t->SavingProfile_setup.category == setup.category,
        t->name@ == name@,
{
    profiles::law_put_then_lookup(work.config@.qbt, name@, profile@, other);
}

/// The category that is created is the whole one that was chosen, with the client
/// that connected, and what was chosen is kept. Whether a new profile was saved is
/// told.
pub proof fn law_the_chosen_category_is_created(
    s: Flow,
    e: FlowEvent,
    work: Work,
    setup: QbtSetup,
    name: String,
    saved: Result<(), String>,
    t: Flow,
    out: FlowStep,
)
    requires
        flow_step(s, e, t, out),
        ({
            ||| s == Flow::SavingProfile { work, setup, name } && e == FlowEvent::Saved(saved)
            ||| s == Flow::Resolving { work } && e == FlowEvent::Resolved(Ok(Some(setup)))
                && setup.save_as is None
        }),
    ensures
        t == (Flow::EnsuringCategory { work, setup }),
        out.action is Send,
        out.action->Send_0@.url == setup.client@.endpoint + "/api/v2/torrents/createCategory"@,
        out.action->Send_0@.payload == qbt::PayloadView::Form(
            seq![("category"@, setup.category@), ("savePath"@, ""@)],
        ),
        out.action->Send_0@.cookie == setup.client@.sid,
        s is Resolving ==> out.lines@.len() == 0,
        s is SavingProfile ==> out.lines@.len() == 1,
        s is SavingProfile && saved is Ok ==> out.lines@[0]@ == LineView::Out(
            "配置「"@ + name@ + "」已保存"@,
        ),
        s is SavingProfile && saved is Err ==> out.lines@[0]@ == LineView::Warning(
            "警告：无法保存 qBittorrent 配置："@ + saved->Err_0@,
        ),
{
    assert(display::lines(out.lines@).len() == out.lines@.len());
    if s is SavingProfile {
        assert(display::lines(out.lines@)[0] == out.lines@[0]@);
    }
}

/// A category that cannot be created ends the run, and the whole cause is told.
pub proof fn law_a_refused_category_ends_the_run(
    work: Work,
    setup: QbtSetup,
    reply: Reply,
    t: Flow,
    out: FlowStep,
)
    requires
        flow_step(
            Flow::EnsuringCategory { work, setup },
            FlowEvent::Replied(reply),
            t,
            out,
        ),
    ensures
        reply matches Reply::Unreachable(cause) ==> t is Over && out.action is Fail
            && out.action->Fail_0@ == "could not reach qBittorrent at "@ + setup.client@.endpoint
            + " — is the WebUI enabled?"@ + ": "@ + cause@,
        reply matches Reply::Answered(a) ==> (!(200 <= a.status < 300) && a.status != 409 ==> t is Over
            && out.action is Fail && out.action->Fail_0@ == "creating qBittorrent category \""@
            + setup.category@ + "\" failed: HTTP "@ + a.status_text@),
{
}

/// What was counted is told, number by number: the downloads where files were
/// wanted, and the torrents where they were added. The list follows as it was made.
pub proof fn law_the_counts_are_told(
    rest: Rest,
    list: Option<UrlList>,
    totals: Totals,
    t: Flow,
    out: FlowStep,
)
    requires
        flow_step(Flow::Running { rest, list }, FlowEvent::Ran(totals), t, out),
    ensures
        ({
            let downloads = LineView::Out(
                "已下载 "@ + text::decimal(totals.downloaded as nat) + "，已跳过 "@ + text::decimal(
                    totals.skipped as nat,
                ) + "，失败 "@ + text::decimal(totals.failed as nat),
            );
            let torrents = LineView::Out(
                "已添加到 qBittorrent "@ + text::decimal(totals.qbt_added as nat) + "，失败 "@
                    + text::decimal(totals.qbt_failed as nat),
            );
            &&& rest.wants.torrents && rest.wants.qbt ==> display::lines(out.lines@) == seq![
                downloads,
                torrents,
            ]
            &&& rest.wants.torrents && !rest.wants.qbt ==> display::lines(out.lines@) == seq![
                downloads,
            ]
            &&& !rest.wants.torrents && rest.wants.qbt ==> display::lines(out.lines@) == seq![
                torrents,
            ]
            &&& !rest.wants.torrents && !rest.wants.qbt ==> display::lines(out.lines@).len() == 0
        }),
        list matches Some(l) ==> t == (Flow::Listing { rest, totals }) && out.action
            == FlowAction::WriteList(l),
{
    let none = Seq::<LineView>::empty();
    assert(none.push(qbt_line(totals)) == seq![qbt_line(totals)]);
    assert(seq![download_line(totals)].push(qbt_line(totals)) == seq![
        download_line(totals),
        qbt_line(totals),
    ]);
}

/// Where the list went, or the whole cause why it did not, is told.
pub proof fn law_the_list_is_told(
    rest: Rest,
    totals: Totals,
    listed: Result<String, String>,
    t: Flow,
    out: FlowStep,
)
    requires
        flow_step(Flow::Listing { rest, totals }, FlowEvent::Listed(listed), t, out),
    ensures
        out.lines@.len() == 1,
        listed matches Ok(path) ==> out.lines@[0]@ == LineView::Out("URL 列表已写入 "@ + path@),
        listed matches Err(cause) ==> out.lines@[0]@ == LineView::Warning(
            "失败           URL 列表："@ + cause@,
        ),
{
    assert(display::lines(out.lines@).len() == out.lines@.len());
    assert(display::lines(out.lines@)[0] == out.lines@[0]@);
}

/// A directory that something came to is remembered, whole and as the latest, and
/// nothing else that is remembered changes. Where nothing came to one the run ends.
pub proof fn law_a_used_directory_is_remembered(
    s: Flow,
    e: FlowEvent,
    rest: Rest,
    totals: Totals,
    listed: Result<String, String>,
    t: Flow,
    out: FlowStep,
)
    requires
        flow_step(s, e, t, out),
        ({
            ||| s == Flow::Running { rest, list: None } && e == FlowEvent::Ran(totals)
            ||| s == Flow::Listing { rest, totals } && e == FlowEvent::Listed(listed)
        }),
    ensures
        ({
            let used = totals.downloaded > 0 || totals.skipped > 0 || (s is Listing
                && listed is Ok);
            &&& used && rest.dir is Some ==> {
                &&& t is SavingHistory
                &&& out.action is SaveConfig
                &&& out.action->SaveConfig_0@.path_history.len() > 0
                &&& out.action->SaveConfig_0@.path_history[0] == rest.dir->0@
                &&& out.action->SaveConfig_0@.path_history == config::recorded(
                    rest.config@.path_history,
                    rest.dir->0@,
                )
                &&& out.action->SaveConfig_0@.qbt == rest.config@.qbt
                &&& out.action->SaveConfig_0@.version == rest.config@.version
            }
            &&& !used || rest.dir is None ==> t is Over && out.action is Finish
        }),
{
    if rest.dir is Some {
        config::law_recorded_path_comes_first(rest.config@.path_history, rest.dir->0@);
    }
}

/// Whatever fails before the work ends the run, with the whole message.
pub proof fn law_early_errors_are_told(s: Flow, cause: String, t: Flow, out: FlowStep)
    requires
        ({
            ||| s is PickingEpisodes && flow_step(
                s,
                FlowEvent::Episodes(Prompted::Broken(cause)),
                t,
                out,
            )
            ||| s is PickingFormats && flow_step(
                s,
                FlowEvent::Formats(Prompted::Broken(cause)),
                t,
                out,
            )
            ||| s is LoadingConfig && flow_step(s, FlowEvent::Loaded(Err(cause)), t, out)
            ||| s is AskingPath && flow_step(s, FlowEvent::Path(Prompted::Broken(cause)), t, out)
            ||| s is Resolving && flow_step(s, FlowEvent::Resolved(Err(cause)), t, out)
        }),
    ensures
        t is Over,
        out.action is Fail,
        s is PickingEpisodes ==> out.action->Fail_0@ == "显示剧集选择器: "@ + cause@,
        s is PickingFormats ==> out.action->Fail_0@ == "获取"@ + "导出格式"@ + ": "@ + cause@,
        s is AskingPath ==> out.action->Fail_0@ == "获取"@ + "导出路径"@ + ": "@ + cause@,
        s is LoadingConfig || s is Resolving ==> out.action->Fail_0@ == cause@,
{
}

/// A directory that cannot be made is told, whole, with the whole cause; and a path
/// history that cannot be saved too.
pub proof fn law_late_warnings_are_told(
    plan: Plan,
    config: Config,
    typed: String,
    dir: String,
    code: i32,
    cause: String,
    t: (Flow, Flow),
    out: (FlowStep, FlowStep),
)
    requires
        flow_step(
            Flow::MakingDir { plan, config, typed, dir },
            FlowEvent::Made(Err(cause)),
            t.0,
            out.0,
        ),
        flow_step(Flow::SavingHistory { code }, FlowEvent::Saved(Err(cause)), t.1, out.1),
    ensures
        out.0.lines@.len() == 1,
        out.0.lines@[0]@ == LineView::Warning("无法使用 "@ + dir@ + "："@ + cause@),
        out.0.action is AskPath,
        out.0.action->history@ == config.path_history@,
        out.1.lines@.len() == 1,
        out.1.lines@[0]@ == LineView::Warning("警告：无法保存路径历史："@ + cause@),
        out.1.action == FlowAction::Finish(code),
{
    assert(display::lines(out.0.lines@).len() == out.0.lines@.len());
    assert(display::lines(out.0.lines@)[0] == out.0.lines@[0]@);
    assert(display::lines(out.1.lines@).len() == out.1.lines@.len());
    assert(display::lines(out.1.lines@)[0] == out.1.lines@[0]@);
}

/// Giving up any question ends the run with the code `0`, and one line tells that it
/// was given up. So does picking nothing, with a line that says so.
pub proof fn law_giving_up_is_told(s: Flow, e: FlowEvent, t: Flow, out: FlowStep)
    requires
        flow_step(s, e, t, out),
        match (s, e) {
            (Flow::PickingEpisodes { .. }, FlowEvent::Episodes(p)) => p is Skipped
                || p is Interrupted || (p matches Prompted::Answered(v) && v@.len() == 0),
            (Flow::PickingFormats { .. }, FlowEvent::Formats(p)) => p is Skipped || p is Interrupted,
            (Flow::AskingPath { .. }, FlowEvent::Path(p)) => p is Skipped || p is Interrupted,
            (Flow::Resolving { .. }, FlowEvent::Resolved(r)) => r matches Ok(v) && v is None,
            _ => false,
        },
    ensures
        t is Over,
        out.action == FlowAction::Finish(0),
        e matches FlowEvent::Episodes(Prompted::Answered(_)) ==> display::lines(out.lines@) == seq![
            LineView::Out("未选择任何内容"@),
        ],
        !(e matches FlowEvent::Episodes(Prompted::Answered(_))) ==> display::lines(out.lines@)
            == seq![LineView::Out("已取消"@)],
{
}

/// A path that was saved ends the run with the code that the work had, and tells
/// nothing more.
pub proof fn law_a_saved_path_ends_the_run(code: i32, t: Flow, out: FlowStep)
    requires
        flow_step(Flow::SavingHistory { code }, FlowEvent::Saved(Ok(())), t, out),
    ensures
        t is Over,
        out.action == FlowAction::Finish(code),
        out.lines@.len() == 0,
{
    assert(display::lines(out.lines@).len() == out.lines@.len());
}

/// Where neither files nor a qBittorrent are wanted, the work begins at once on the
/// episodes that were picked, with nowhere to go.
pub proof fn law_the_work_without_formats(plan: Plan, config: Config, t: Flow, out: FlowStep)
    requires
        flow_step(Flow::LoadingConfig { plan }, FlowEvent::Loaded(Ok(config)), t, out),
        !plan.wants.torrents && !plan.wants.urls && !plan.wants.qbt,
    ensures
        out.action is Run,
        out.action->episodes == plan.selected,
        out.action->qbt is None,
        out.action->Run_dir is None,
        t is Running,
        t->list is None,
{
}

/// What answers nothing that was asked changes nothing.
pub proof fn law_what_was_not_asked_is_ignored(s: Flow, e: FlowEvent, t: Flow, out: FlowStep)
    requires
        flow_step(s, e, t, out),
        match s {
            Flow::PickingEpisodes { .. } => !(e is Episodes),
            Flow::PickingFormats { .. } => !(e is Formats),
            Flow::LoadingConfig { .. } => !(e is Loaded),
            Flow::AskingPath { .. } => !(e is Path),
            Flow::MakingDir { .. } => !(e is Made),
            Flow::Resolving { .. } => !(e is Resolved),
            Flow::SavingProfile { .. } => !(e is Saved),
            Flow::EnsuringCategory { .. } => !(e is Replied),
            Flow::Running { .. } => !(e is Ran),
            Flow::Listing { .. } => !(e is Listed),
            Flow::SavingHistory { .. } => !(e is Saved),
            Flow::Over => true,
        },
    ensures
        t == s,
        out.action is Ignored,
        out.lines@.len() == 0,
{
    assert(display::lines(out.lines@).len() == out.lines@.len());
}

}
