//! The commands that manage connection profiles. Each step says what to do
//! next.
use crate::cli::QbtAction;
use crate::config::{Config, ConfigView};
use crate::display;
use crate::display::{nothing, said, Line, LineView};
use crate::profiles;
use crate::profiles::{NamedProfile, ProfileMap, QbtProfile};
use crate::prompts::profile_name_or_default;
use crate::qbt::QbtClient;
use crate::text;
use crate::text::{concat, concat3, join, trim};
use vstd::prelude::*;

verus! {

// ---------------------------------------------------------------------------
// Profiles that are not there

/// That no profile has the name, and what to do about it.
pub open spec fn no_profile(name: Seq<char>, saved: Seq<NamedProfile>) -> Seq<char> {
    "没有名为「"@ + name + "」的配置 —— "@ + if saved.len() == 0 {
        "使用 mikan qbt set 添加"@
    } else {
        "已保存的配置："@ + text::joined(profiles::names_of(saved), ", "@)
    }
}

/// That no profile has the name that is to be removed.
pub open spec fn nothing_to_remove(name: Seq<char>, saved: Seq<NamedProfile>) -> Seq<char> {
    "没有名为「"@ + name + "」的配置 —— "@ + if saved.len() == 0 {
        "暂无已保存的配置"@
    } else {
        "已保存的配置："@ + text::joined(profiles::names_of(saved), ", "@)
    }
}

/// What the profiles that are there are called.
fn tell_names(saved: &ProfileMap) -> (s: String)
    ensures
        s@ == "已保存的配置："@ + text::joined(profiles::names_of(saved@), ", "@),
{
    let names = saved.names();
    let list = join(&names, ", ");
    concat("已保存的配置：", &list)
}

/// That no profile has the name.
pub fn tell_no_profile(name: &str, saved: &ProfileMap) -> (s: String)
    ensures
        s@ == no_profile(name@, saved@),
{
    let advice = if saved.is_empty() {
        "使用 mikan qbt set 添加".to_owned()
    } else {
        tell_names(saved)
    };
    let front = concat3("没有名为「", name, "」的配置 —— ");
    concat(&front, &advice)
}

/// That no profile has the name that is to be removed.
fn tell_nothing_to_remove(name: &str, saved: &ProfileMap) -> (s: String)
    ensures
        s@ == nothing_to_remove(name@, saved@),
{
    let advice = if saved.is_empty() {
        "暂无已保存的配置".to_owned()
    } else {
        tell_names(saved)
    };
    let front = concat3("没有名为「", name, "」的配置 —— ");
    concat(&front, &advice)
}

// ---------------------------------------------------------------------------
// The list of profiles

/// The line of a profile.
pub open spec fn profile_line(e: NamedProfile) -> LineView {
    LineView::Out(
        e.0 + ": "@ + e.1.endpoint + " "@ + if e.1.username.len() == 0 {
            "（免认证）"@
        } else {
            e.1.username
        },
    )
}

/// The lines of all profiles, in the order of their names.
pub open spec fn profile_lines(saved: Seq<NamedProfile>) -> Seq<LineView> {
    if saved.len() == 0 {
        seq![LineView::Out("暂无配置 —— 使用 mikan qbt set 添加"@)]
    } else {
        saved.map_values(|e: NamedProfile| profile_line(e))
    }
}

/// The lines of all profiles.
fn list_profiles(saved: &ProfileMap) -> (v: Vec<Line>)
    ensures
        display::lines(v@) == profile_lines(saved@),
{
    if saved.is_empty() {
        return said("暂无配置 —— 使用 mikan qbt set 添加".to_owned());
    }
    let mut v: Vec<Line> = Vec::new();
    let mut i: usize = 0;
    while i < saved.len()
        invariant
            i <= saved@.len(),
            v@.len() == i,
            forall|k: int| 0 <= k < i ==> (#[trigger] v@[k])@ == profile_line(saved@[k]),
        decreases saved@.len() - i,
    {
        let (name, profile) = saved.at(i);
        let user = if profile.username.as_str().is_empty() {
            "（免认证）".to_owned()
        } else {
            profile.username.clone()
        };
        let front = concat3(name, ": ", &profile.endpoint);
        v.push(Line::Out(concat3(&front, " ", &user)));
        i = i + 1;
    }
    assert(display::lines(v@) == profile_lines(saved@));
    v
}

// ---------------------------------------------------------------------------
// The commands

/// What a command waits for.
pub enum QbtCommand {
    /// What is remembered.
    Loading { action: QbtAction },
    /// A connection with the new profile.
    Creating { name: String, config: Config },
    /// That it is kept.
    Keeping { name: String },
    /// That the removed one is gone.
    Removing { name: String },
    /// A connection with the profile of that endpoint.
    Testing { endpoint: String },
    /// Nothing any more.
    Over,
}

/// What has happened.
pub enum QbtEvent {
    Loaded(Result<Config, String>),
    /// The way to a new connection ended: with one, without, or with an error.
    Created(Result<Option<(QbtClient, QbtProfile)>, String>),
    Saved(Result<(), String>),
    Connected(Result<QbtClient, String>),
}

/// What to do next.
pub enum QbtNext {
    LoadConfig,
    /// Ask for a profile and connect with it, with what is known of it to begin
    /// with.
    PromptAndConnect { initial: Option<QbtProfile> },
    SaveConfig(Config),
    Connect { profile: QbtProfile },
    Finish(i32),
    Fail(String),
    /// What happened answers nothing that was asked.
    Ignored,
}

/// What to print, and what to do next.
pub struct QbtStep {
    pub lines: Vec<Line>,
    pub next: QbtNext,
}

/// It ends well.
pub open spec fn ends_well(lines: Seq<LineView>, t: QbtCommand, out: QbtStep) -> bool {
    &&& t is Over
    &&& display::lines(out.lines@) == lines
    &&& out.next == QbtNext::Finish(0)
}

/// It ends with an error.
pub open spec fn ends_badly(message: Seq<char>, t: QbtCommand, out: QbtStep) -> bool {
    &&& t is Over
    &&& display::lines(out.lines@) == Seq::<LineView>::empty()
    &&& out.next matches QbtNext::Fail(m)
    &&& m@ == message
}

/// The name that an optional argument names, or nothing where it is blank.
pub open spec fn named_profile(name: Option<String>) -> Option<Seq<char>> {
    match name {
        None => Some("default"@),
        Some(n) => if text::trimmed(n@).len() == 0 {
            None
        } else {
            Some(text::trimmed(n@))
        },
    }
}

/// Creating or updating a profile: it is asked for, with what is known of it.
pub open spec fn begins_to_save(
    name: Option<String>,
    config: Config,
    t: QbtCommand,
    out: QbtStep,
) -> bool {
    match named_profile(name) {
        None => ends_badly("配置名称不能为空"@, t, out),
        Some(n) => {
            &&& t matches QbtCommand::Creating { name: m, config: c }
            &&& m@ == n
            &&& c == config
            &&& display::lines(out.lines@) == Seq::<LineView>::empty()
            &&& out.next matches QbtNext::PromptAndConnect { initial }
            &&& match profiles::lookup(config.qbt@, n) {
                Some(p) => initial is Some && initial->0@ == p,
                None => initial is None,
            }
        },
    }
}

/// Removing a profile: what is left is saved.
pub open spec fn begins_to_remove(
    name: String,
    config: Config,
    t: QbtCommand,
    out: QbtStep,
) -> bool {
    let n = text::trimmed(name@);
    if n.len() == 0 {
        ends_badly("配置名称不能为空"@, t, out)
    } else if profiles::lookup(config.qbt@, n) is None {
        ends_badly(nothing_to_remove(n, config.qbt@), t, out)
    } else {
        &&& t matches QbtCommand::Removing { name: m }
        &&& m@ == n
        &&& display::lines(out.lines@) == Seq::<LineView>::empty()
        &&& out.next matches QbtNext::SaveConfig(c)
        &&& c@ == ConfigView { qbt: profiles::without(config.qbt@, n), ..config@ }
    }
}

/// Testing a profile: it is connected with.
pub open spec fn begins_to_test(
    name: Option<String>,
    config: Config,
    t: QbtCommand,
    out: QbtStep,
) -> bool {
    match named_profile(name) {
        None => ends_badly("配置名称不能为空"@, t, out),
        Some(n) => match profiles::lookup(config.qbt@, n) {
            None => ends_badly(no_profile(n, config.qbt@), t, out),
            Some(p) => {
                &&& t matches QbtCommand::Testing { endpoint }
                &&& endpoint@ == p.endpoint
                &&& display::lines(out.lines@) == Seq::<LineView>::empty()
                &&& out.next matches QbtNext::Connect { profile }
                &&& profile@ == p
            },
        },
    }
}

/// What is remembered is there: the command begins.
pub open spec fn begins(action: QbtAction, config: Config, t: QbtCommand, out: QbtStep) -> bool {
    match action {
        QbtAction::Save { name } => begins_to_save(name, config, t, out),
        QbtAction::List => ends_well(profile_lines(config.qbt@), t, out),
        QbtAction::Remove { name } => begins_to_remove(name, config, t, out),
        QbtAction::Test { name } => begins_to_test(name, config, t, out),
    }
}

/// A new profile has connected: it is kept.
pub open spec fn keeps(
    name: String,
    config: Config,
    profile: QbtProfile,
    t: QbtCommand,
    out: QbtStep,
) -> bool {
    &&& t matches QbtCommand::Keeping { name: m }
    &&& m@ == name@
    &&& display::lines(out.lines@) == Seq::<LineView>::empty()
    &&& out.next matches QbtNext::SaveConfig(c)
    &&& c@ == ConfigView { qbt: profiles::put(config.qbt@, name@, profile@), ..config@ }
}

/// How `e` takes the command from `s` to `t`, with `out` to print and to do.
pub open spec fn qbt_step(s: QbtCommand, e: QbtEvent, t: QbtCommand, out: QbtStep) -> bool {
    match (s, e) {
        (QbtCommand::Loading { action }, QbtEvent::Loaded(Ok(config))) => begins(
            action,
            config,
            t,
            out,
        ),
        (QbtCommand::Loading { .. }, QbtEvent::Loaded(Err(m))) => ends_badly(m@, t, out),
        (QbtCommand::Creating { name, config }, QbtEvent::Created(Ok(Some((_, profile))))) => keeps(
            name,
            config,
            profile,
            t,
            out,
        ),
        (QbtCommand::Creating { .. }, QbtEvent::Created(Ok(None))) => ends_well(
            seq![LineView::Out("已取消"@)],
            t,
            out,
        ),
        (QbtCommand::Creating { .. }, QbtEvent::Created(Err(m))) => ends_badly(m@, t, out),
        (QbtCommand::Keeping { name }, QbtEvent::Saved(Ok(_))) => ends_well(
            seq![LineView::Out("配置「"@ + name@ + "」已保存"@)],
            t,
            out,
        ),
        (QbtCommand::Removing { name }, QbtEvent::Saved(Ok(_))) => ends_well(
            seq![LineView::Out("配置「"@ + name@ + "」已删除"@)],
            t,
            out,
        ),
        (QbtCommand::Keeping { .. }, QbtEvent::Saved(Err(cause))) => ends_badly(
            "保存配置: "@ + cause@,
            t,
            out,
        ),
        (QbtCommand::Removing { .. }, QbtEvent::Saved(Err(cause))) => ends_badly(
            "保存配置: "@ + cause@,
            t,
            out,
        ),
        (QbtCommand::Testing { endpoint }, QbtEvent::Connected(Ok(client))) => ends_well(
            seq![
                LineView::Out("已连接 —— qBittorrent "@ + client@.version + " @ "@ + endpoint@),
            ],
            t,
            out,
        ),
        (QbtCommand::Testing { .. }, QbtEvent::Connected(Err(m))) => ends_badly(m@, t, out),
        _ => {
            &&& t == s
            &&& display::lines(out.lines@) == Seq::<LineView>::empty()
            &&& out.next is Ignored
        },
    }
}

/// It ends well.
fn finish(lines: Vec<Line>) -> (r: (QbtCommand, QbtStep))
    ensures
        ends_well(display::lines(lines@), r.0, r.1),
{
    (QbtCommand::Over, QbtStep { lines, next: QbtNext::Finish(0) })
}

/// It ends with an error.
fn fail(message: String) -> (r: (QbtCommand, QbtStep))
    ensures
        ends_badly(message@, r.0, r.1),
{
    (QbtCommand::Over, QbtStep { lines: nothing(), next: QbtNext::Fail(message) })
}

/// Begins a command: with what is remembered.
pub fn qbt_command(action: QbtAction) -> (r: (QbtCommand, QbtStep))
    ensures
        r.0 == (QbtCommand::Loading { action }),
        display::lines(r.1.lines@) == Seq::<LineView>::empty(),
        r.1.next is LoadConfig,
{
    (QbtCommand::Loading { action }, QbtStep { lines: nothing(), next: QbtNext::LoadConfig })
}

/// What is remembered is there: the command begins.
fn begin(action: QbtAction, config: Config) -> (r: (QbtCommand, QbtStep))
    ensures
        begins(action, config, r.0, r.1),
{
    match action {
        QbtAction::Save { name } => match profile_name_or_default(name) {
            Err(m) => fail(m),
            Ok(name) => {
                let initial = match config.qbt.get(&name) {
                    Some(p) => Some(p.duplicate()),
                    None => None,
                };
                (
                    QbtCommand::Creating { name, config },
                    QbtStep { lines: nothing(), next: QbtNext::PromptAndConnect { initial } },
                )
            },
        },
        QbtAction::List => finish(list_profiles(&config.qbt)),
        QbtAction::Remove { name } => {
            let name = trim(&name);
            if name.as_str().is_empty() {
                return fail("配置名称不能为空".to_owned());
            }
            if config.qbt.get(&name).is_none() {
                return fail(tell_nothing_to_remove(&name, &config.qbt));
            }
            let left = Config {
                version: config.version,
                path_history: config.path_history,
                qbt: config.qbt.remove(&name),
            };
            (
                QbtCommand::Removing { name },
                QbtStep { lines: nothing(), next: QbtNext::SaveConfig(left) },
            )
        },
        QbtAction::Test { name } => match profile_name_or_default(name) {
            Err(m) => fail(m),
            Ok(name) => match config.qbt.get(&name) {
                None => fail(tell_no_profile(&name, &config.qbt)),
                Some(p) => {
                    let profile = p.duplicate();
                    (
                        QbtCommand::Testing { endpoint: p.endpoint.clone() },
                        QbtStep { lines: nothing(), next: QbtNext::Connect { profile } },
                    )
                },
            },
        },
    }
}

impl QbtCommand {
    /// What follows what has happened.
    pub fn step(self, event: QbtEvent) -> (r: (QbtCommand, QbtStep))
        ensures
            qbt_step(self, event, r.0, r.1),
    {
        match (self, event) {
            (QbtCommand::Loading { action }, QbtEvent::Loaded(Ok(config))) => begin(action, config),
            (QbtCommand::Loading { action: _ }, QbtEvent::Loaded(Err(m))) => fail(m),
            (
                QbtCommand::Creating { name, config },
                QbtEvent::Created(Ok(Some((_client, profile)))),
            ) => {
                let kept = name.clone();
                let config = Config {
                    version: config.version,
                    path_history: config.path_history,
                    qbt: config.qbt.insert(kept, profile),
                };
                (
                    QbtCommand::Keeping { name },
                    QbtStep { lines: nothing(), next: QbtNext::SaveConfig(config) },
                )
            },
            (QbtCommand::Creating { name: _, config: _ }, QbtEvent::Created(Ok(None))) => finish(
                said("已取消".to_owned()),
            ),
            (QbtCommand::Creating { name: _, config: _ }, QbtEvent::Created(Err(m))) => fail(m),
            (QbtCommand::Keeping { name }, QbtEvent::Saved(Ok(_))) => finish(
                said(concat3("配置「", &name, "」已保存")),
            ),
            (QbtCommand::Removing { name }, QbtEvent::Saved(Ok(_))) => finish(
                said(concat3("配置「", &name, "」已删除")),
            ),
            (QbtCommand::Keeping { name: _ }, QbtEvent::Saved(Err(cause))) => fail(
                concat("保存配置: ", &cause),
            ),
            (QbtCommand::Removing { name: _ }, QbtEvent::Saved(Err(cause))) => fail(
                concat("保存配置: ", &cause),
            ),
            (QbtCommand::Testing { endpoint }, QbtEvent::Connected(Ok(client))) => {
                let front = concat3("已连接 —— qBittorrent ", client.version(), " @ ");
                finish(said(concat(&front, &endpoint)))
            },
            (QbtCommand::Testing { endpoint: _ }, QbtEvent::Connected(Err(m))) => fail(m),
            (same, _) => (same, QbtStep { lines: nothing(), next: QbtNext::Ignored }),
        }
    }
}

// ---------------------------------------------------------------------------
// Laws

/// A profile is kept only after it has connected, and what is saved then holds
/// it under its name and all the others as they were.
pub proof fn law_profiles_are_kept_once_they_connect(
    name: String,
    config: Config,
    e: QbtEvent,
    t: QbtCommand,
    out: QbtStep,
    other: Seq<char>,
)
    requires
        qbt_step(QbtCommand::Creating { name, config }, e, t, out),
        out.next is SaveConfig,
    ensures
        e matches QbtEvent::Created(Ok(Some((_, profile)))) && out.next matches QbtNext::SaveConfig(
            c,
        ) && {
            &&& profiles::lookup(c@.qbt, name@) == Some(profile@)
            &&& other != name@ ==> profiles::lookup(c@.qbt, other) == profiles::lookup(
                config@.qbt,
                other,
            )
            &&& c@.path_history == config@.path_history
        },
{
    if let QbtEvent::Created(Ok(Some((_, profile)))) = e {
        profiles::law_put_then_lookup(config.qbt@, name@, profile@, other);
    }
}

/// Listing and testing change nothing that is remembered.
pub proof fn law_looking_changes_nothing(
    action: QbtAction,
    e: QbtEvent,
    t: QbtCommand,
    out: QbtStep,
)
    requires
        action is List || action is Test,
        qbt_step(QbtCommand::Loading { action }, e, t, out),
    ensures
        !(out.next is SaveConfig),
        t is Over || t is Testing || t == (QbtCommand::Loading { action }),
{
}

/// Giving up the questions about a profile saves nothing and is no error.
pub proof fn law_giving_up_saves_nothing(
    name: String,
    config: Config,
    t: QbtCommand,
    out: QbtStep,
)
    requires
        qbt_step(QbtCommand::Creating { name, config }, QbtEvent::Created(Ok(None)), t, out),
    ensures
        t is Over,
        out.next == QbtNext::Finish(0),
{
}

/// Every profile has its line, with its whole name and endpoint and who logs in, in
/// the order of the names.
pub proof fn law_every_profile_is_listed(config: Config, t: QbtCommand, out: QbtStep, i: int)
    requires
        qbt_step(
            QbtCommand::Loading { action: QbtAction::List },
            QbtEvent::Loaded(Ok(config)),
            t,
            out,
        ),
    ensures
        t is Over,
        out.next == QbtNext::Finish(0),
        config.qbt@.len() > 0 ==> out.lines@.len() == config.qbt@.len(),
        config.qbt@.len() == 0 ==> out.lines@.len() == 1 && out.lines@[0]@ == LineView::Out(
            "暂无配置 —— 使用 mikan qbt set 添加"@,
        ),
        0 <= i < config.qbt@.len() && config.qbt@[i].1.username.len() > 0 ==> out.lines@[i]@
            == LineView::Out(
            config.qbt@[i].0 + ": "@ + config.qbt@[i].1.endpoint + " "@
                + config.qbt@[i].1.username,
        ),
        0 <= i < config.qbt@.len() && config.qbt@[i].1.username.len() == 0 ==> out.lines@[i]@
            == LineView::Out(
            config.qbt@[i].0 + ": "@ + config.qbt@[i].1.endpoint + " "@ + "（免认证）"@,
        ),
{
    assert(display::lines(out.lines@).len() == out.lines@.len());
    if config.qbt@.len() == 0 {
        assert(display::lines(out.lines@)[0] == out.lines@[0]@);
    } else if 0 <= i < config.qbt@.len() {
        assert(display::lines(out.lines@)[i] == out.lines@[i]@);
    }
}

/// The name that a command works on is the one given, without the white space around
/// it, and `default` where none is.
pub proof fn law_a_command_works_on_its_name(name: String)
    ensures
        named_profile(None) == Some("default"@),
        text::trimmed(name@).len() > 0 ==> named_profile(Some(name)) == Some(text::trimmed(name@)),
        text::trimmed(name@).len() == 0 ==> named_profile(Some(name)) is None,
{
}

/// What is removed is gone from what is saved, and nothing else is: every other
/// profile and every path stay as they were.
pub proof fn law_removing_takes_one_profile(
    name: String,
    config: Config,
    other: Seq<char>,
    t: QbtCommand,
    out: QbtStep,
)
    requires
        qbt_step(
            QbtCommand::Loading { action: QbtAction::Remove { name } },
            QbtEvent::Loaded(Ok(config)),
            t,
            out,
        ),
        profiles::ascending(config.qbt@),
        text::trimmed(name@).len() > 0,
        exists|k: int| 0 <= k < config.qbt@.len() && (#[trigger] config.qbt@[k]).0 == text::trimmed(
            name@,
        ),
    ensures
        t is Removing,
        t->Removing_name@ == text::trimmed(name@),
        out.next is SaveConfig,
        out.next->SaveConfig_0@.version == config@.version,
        out.next->SaveConfig_0@.path_history == config@.path_history,
        out.next->SaveConfig_0@.qbt.len() + 1 == config.qbt@.len(),
        profiles::lookup(out.next->SaveConfig_0@.qbt, text::trimmed(name@)) is None,
        other != text::trimmed(name@) ==> profiles::lookup(out.next->SaveConfig_0@.qbt, other)
            == profiles::lookup(config.qbt@, other),
{
    let n = text::trimmed(name@);
    let saved = config.qbt@;
    let k = lemma_first(saved, n);
    profiles::law_lookup_finds_the_entry(saved, n, k);
    profiles::law_removed_is_gone(saved, n, other);
    profiles::law_names_keep_ascending(saved, n, saved[k].1, 0, 0);
}

proof fn lemma_first(entries: Seq<NamedProfile>, name: Seq<char>) -> (k: int)
    requires
        exists|k: int| 0 <= k < entries.len() && (#[trigger] entries[k]).0 == name,
    ensures
        0 <= k < entries.len(),
        entries[k].0 == name,
        forall|i: int| 0 <= i < k ==> (#[trigger] entries[i]).0 != name,
    decreases entries.len(),
{
    if entries[0].0 == name {
        0
    } else {
        let j = choose|j: int| 0 <= j < entries.len() && (#[trigger] entries[j]).0 == name;
        let t = entries.skip(1);
        assert(t[j - 1].0 == name);
        let k = lemma_first(t, name);
        assert forall|i: int| 0 <= i < k + 1 implies (#[trigger] entries[i]).0 != name by {
            if i > 0 {
                assert(t[i - 1] == entries[i]);
            }
        }
        k + 1
    }
}

/// The profile that is tested is the whole one saved under the name, whichever it
/// is, and the version and the endpoint of what answers are told.
pub proof fn law_testing_tries_the_saved_profile(
    name: String,
    config: Config,
    k: int,
    client: QbtClient,
    t: (QbtCommand, QbtCommand),
    out: (QbtStep, QbtStep),
)
    requires
        qbt_step(
            QbtCommand::Loading { action: QbtAction::Test { name: Some(name) } },
            QbtEvent::Loaded(Ok(config)),
            t.0,
            out.0,
        ),
        text::trimmed(name@).len() > 0,
        0 <= k < config.qbt@.len(),
        config.qbt@[k].0 == text::trimmed(name@),
        forall|i: int| 0 <= i < k ==> (#[trigger] config.qbt@[i]).0 != text::trimmed(name@),
        qbt_step(t.0, QbtEvent::Connected(Ok(client)), t.1, out.1),
    ensures
        out.0.next is Connect,
        out.0.next->profile.endpoint@ == config.qbt@[k].1.endpoint,
        out.0.next->profile.username@ == config.qbt@[k].1.username,
        out.0.next->profile.password@ == config.qbt@[k].1.password,
        out.1.next == QbtNext::Finish(0),
        display::lines(out.1.lines@) == seq![
            LineView::Out(
                "已连接 —— qBittorrent "@ + client@.version + " @ "@ + config.qbt@[k].1.endpoint,
            ),
        ],
{
    profiles::law_lookup_finds_the_entry(config.qbt@, text::trimmed(name@), k);
}

/// A profile is asked for with all that is saved under its name to begin with, and
/// with nothing where none is.
pub proof fn law_a_known_profile_is_filled_in(
    name: String,
    config: Config,
    k: int,
    t: QbtCommand,
    out: QbtStep,
)
    requires
        qbt_step(
            QbtCommand::Loading { action: QbtAction::Save { name: Some(name) } },
            QbtEvent::Loaded(Ok(config)),
            t,
            out,
        ),
        text::trimmed(name@).len() > 0,
    ensures
        t is Creating,
        t->Creating_name@ == text::trimmed(name@),
        t->Creating_config == config,
        out.next is PromptAndConnect,
        0 <= k < config.qbt@.len() && config.qbt@[k].0 == text::trimmed(name@) && (forall|i: int|
            0 <= i < k ==> (#[trigger] config.qbt@[i]).0 != text::trimmed(name@)) ==> {
            &&& out.next->initial is Some
            &&& out.next->initial->0.endpoint@ == config.qbt@[k].1.endpoint
            &&& out.next->initial->0.username@ == config.qbt@[k].1.username
            &&& out.next->initial->0.password@ == config.qbt@[k].1.password
        },
        (forall|i: int|
            0 <= i < config.qbt@.len() ==> (#[trigger] config.qbt@[i]).0 != text::trimmed(name@))
            ==> out.next->initial is None,
{
    profiles::law_lookup_finds_the_entry(config.qbt@, text::trimmed(name@), k);
}

/// A new profile is saved whole, and its name is told once it is.
pub proof fn law_a_new_profile_is_saved_whole(
    name: String,
    config: Config,
    client: QbtClient,
    profile: QbtProfile,
    t: (QbtCommand, QbtCommand),
    out: (QbtStep, QbtStep),
)
    requires
        qbt_step(
            QbtCommand::Creating { name, config },
            QbtEvent::Created(Ok(Some((client, profile)))),
            t.0,
            out.0,
        ),
        qbt_step(t.0, QbtEvent::Saved(Ok(())), t.1, out.1),
    ensures
        out.0.next is SaveConfig,
        profiles::lookup(out.0.next->SaveConfig_0@.qbt, name@) == Some(
            profiles::ProfileView {
                endpoint: profile.endpoint@,
                username: profile.username@,
                password: profile.password@,
            },
        ),
        out.0.next->SaveConfig_0@.path_history == config@.path_history,
        out.0.next->SaveConfig_0@.version == config@.version,
        out.1.next == QbtNext::Finish(0),
        display::lines(out.1.lines@) == seq![LineView::Out("配置「"@ + name@ + "」已保存"@)],
{
    profiles::law_put_then_lookup(config.qbt@, name@, profile@, name@);
}

/// A profile that is not there is told by its whole name, with the names of all that
/// are, in order, or with what to do where there is none.
pub proof fn law_a_missing_profile_is_told(name: Seq<char>, saved: Seq<NamedProfile>)
    ensures
        saved.len() == 0 ==> no_profile(name, saved) == "没有名为「"@ + name + "」的配置 —— "@
            + "使用 mikan qbt set 添加"@,
        saved.len() == 0 ==> nothing_to_remove(name, saved) == "没有名为「"@ + name
            + "」的配置 —— "@ + "暂无已保存的配置"@,
        saved.len() > 0 ==> no_profile(name, saved) == "没有名为「"@ + name + "」的配置 —— "@ + (
        "已保存的配置："@ + text::joined(Seq::new(saved.len(), |i: int| saved[i].0), ", "@)),
        saved.len() > 0 ==> nothing_to_remove(name, saved) == no_profile(name, saved),
{
    assert(profiles::names_of(saved) =~= Seq::new(saved.len(), |i: int| saved[i].0));
}

/// Removing or testing a profile that is not there fails, with that told; so does a
/// blank name. Nothing is saved.
pub proof fn law_a_wrong_name_fails(
    name: String,
    config: Config,
    t: (QbtCommand, QbtCommand, QbtCommand),
    out: (QbtStep, QbtStep, QbtStep),
)
    requires
        qbt_step(
            QbtCommand::Loading { action: QbtAction::Remove { name } },
            QbtEvent::Loaded(Ok(config)),
            t.0,
            out.0,
        ),
        qbt_step(
            QbtCommand::Loading { action: QbtAction::Test { name: Some(name) } },
            QbtEvent::Loaded(Ok(config)),
            t.1,
            out.1,
        ),
        qbt_step(
            QbtCommand::Loading { action: QbtAction::Save { name: Some(name) } },
            QbtEvent::Loaded(Ok(config)),
            t.2,
            out.2,
        ),
        forall|i: int|
            0 <= i < config.qbt@.len() ==> (#[trigger] config.qbt@[i]).0 != text::trimmed(name@),
    ensures
        t.0 is Over && out.0.next is Fail,
        t.1 is Over && out.1.next is Fail,
        text::trimmed(name@).len() == 0 ==> out.0.next->Fail_0@ == "配置名称不能为空"@
            && out.1.next->Fail_0@ == "配置名称不能为空"@ && out.2.next is Fail
            && out.2.next->Fail_0@ == "配置名称不能为空"@,
        text::trimmed(name@).len() > 0 ==> out.0.next->Fail_0@ == nothing_to_remove(
            text::trimmed(name@),
            config.qbt@,
        ) && out.1.next->Fail_0@ == no_profile(text::trimmed(name@), config.qbt@),
{
    profiles::law_lookup_finds_the_entry(config.qbt@, text::trimmed(name@), 0);
}

/// Whatever fails ends the command, with the whole cause.
pub proof fn law_errors_are_told(s: QbtCommand, cause: String, t: QbtCommand, out: QbtStep)
    requires
        ({
            ||| s is Loading && qbt_step(s, QbtEvent::Loaded(Err(cause)), t, out)
            ||| s is Creating && qbt_step(s, QbtEvent::Created(Err(cause)), t, out)
            ||| (s is Keeping || s is Removing) && qbt_step(s, QbtEvent::Saved(Err(cause)), t, out)
            ||| s is Testing && qbt_step(s, QbtEvent::Connected(Err(cause)), t, out)
        }),
    ensures
        t is Over,
        out.next is Fail,
        s is Keeping || s is Removing ==> out.next->Fail_0@ == "保存配置: "@ + cause@,
        s is Loading || s is Creating || s is Testing ==> out.next->Fail_0@ == cause@,
{
}

/// Once the rest is saved, what was removed is told.
pub proof fn law_a_removal_is_told(name: String, t: QbtCommand, out: QbtStep)
    requires
        qbt_step(QbtCommand::Removing { name }, QbtEvent::Saved(Ok(())), t, out),
    ensures
        t is Over,
        out.next == QbtNext::Finish(0),
        display::lines(out.lines@) == seq![LineView::Out("配置「"@ + name@ + "」已删除"@)],
{
}

/// Giving up the questions about a profile is told by one line.
pub proof fn law_giving_up_is_told(name: String, config: Config, t: QbtCommand, out: QbtStep)
    requires
        qbt_step(QbtCommand::Creating { name, config }, QbtEvent::Created(Ok(None)), t, out),
    ensures
        t is Over,
        out.next == QbtNext::Finish(0),
        display::lines(out.lines@) == seq![LineView::Out("已取消"@)],
{
}

/// Without a name a command works on the profile `default`.
pub proof fn law_without_a_name_it_is_the_default(
    config: Config,
    k: int,
    t: (QbtCommand, QbtCommand),
    out: (QbtStep, QbtStep),
)
    requires
        qbt_step(
            QbtCommand::Loading { action: QbtAction::Test { name: None } },
            QbtEvent::Loaded(Ok(config)),
            t.0,
            out.0,
        ),
        qbt_step(
            QbtCommand::Loading { action: QbtAction::Save { name: None } },
            QbtEvent::Loaded(Ok(config)),
            t.1,
            out.1,
        ),
        0 <= k < config.qbt@.len(),
        config.qbt@[k].0 == "default"@,
        forall|i: int| 0 <= i < k ==> (#[trigger] config.qbt@[i]).0 != "default"@,
    ensures
        out.0.next is Connect,
        out.0.next->profile.endpoint@ == config.qbt@[k].1.endpoint,
        out.0.next->profile.username@ == config.qbt@[k].1.username,
        out.0.next->profile.password@ == config.qbt@[k].1.password,
        t.1 is Creating,
        t.1->Creating_name@ == "default"@,
        out.1.next is PromptAndConnect,
        out.1.next->initial is Some,
        out.1.next->initial->0.endpoint@ == config.qbt@[k].1.endpoint,
{
    profiles::law_lookup_finds_the_entry(config.qbt@, "default"@, k);
}

/// What answers nothing that was asked changes nothing.
pub proof fn law_what_was_not_asked_is_ignored(
    s: QbtCommand,
    e: QbtEvent,
    t: QbtCommand,
    out: QbtStep,
)
    requires
        qbt_step(s, e, t, out),
        match s {
            QbtCommand::Loading { .. } => !(e is Loaded),
            QbtCommand::Creating { .. } => !(e is Created),
            QbtCommand::Keeping { .. } => !(e is Saved),
            QbtCommand::Removing { .. } => !(e is Saved),
            QbtCommand::Testing { .. } => !(e is Connected),
            QbtCommand::Over => true,
        },
    ensures
        t == s,
        out.next is Ignored,
        out.lines@.len() == 0,
{
    assert(display::lines(out.lines@).len() == out.lines@.len());
}

}
