//! Reaching a qBittorrent: asking for a profile, connecting with it, and
//! choosing a category. Each step says what to ask or to do next.
use crate::display;
use crate::display::{nothing, said, warned, Line, LineView};
use crate::feed;
use crate::profiles;
use crate::profiles::{ProfileMap, ProfileView, QbtProfile};
use crate::prompts;
use crate::prompts::{default_category, take_or_cancel, Prompted};
use crate::qbt;
use crate::qbt::{QbtClient, QbtSetup};
use crate::sanitize;
use crate::text;
use crate::text::{concat, concat3, is_blank, trim, trim_end_slashes};
use vstd::prelude::*;

verus! {

// ---------------------------------------------------------------------------
// Asking for a profile

/// What the questions about a profile wait for.
pub enum ProfilePrompt {
    /// The endpoint. The user name that was saved is kept for the next question.
    Endpoint { username: String },
    /// The user name.
    Username { endpoint: String },
    /// The password.
    Password { endpoint: String, username: String },
    /// Nothing any more.
    Over,
}

/// What to ask next. The texts are there to begin with.
pub enum ProfileAction {
    AskEndpoint { initial: String },
    AskUsername { initial: String },
    AskPassword,
    Done(QbtProfile),
    Cancelled,
    Fail(String),
    /// Nothing was asked.
    Ignored,
}

/// The endpoint as it is kept.
pub open spec fn kept_endpoint(typed: Seq<char>) -> Seq<char> {
    text::trim_end_where(text::trimmed(typed), text::is_char('/'))
}

/// What a question leads to, given up or failed.
pub open spec fn unanswered(
    p: Prompted<String>,
    what: Seq<char>,
    t: ProfilePrompt,
    a: ProfileAction,
) -> bool {
    &&& t is Over
    &&& match p {
        Prompted::Broken(cause) => {
            &&& a matches ProfileAction::Fail(m)
            &&& m@ == prompts::asking_failed(what, cause@)
        },
        _ => a is Cancelled,
    }
}

/// How an answer takes the questions from `s` to `t`, with `a` to do next. A
/// blank user name has no password.
pub open spec fn profile_step(
    s: ProfilePrompt,
    p: Prompted<String>,
    t: ProfilePrompt,
    a: ProfileAction,
) -> bool {
    match (s, p) {
        (ProfilePrompt::Endpoint { username }, Prompted::Answered(typed)) => {
            &&& t == ProfilePrompt::Username { endpoint: typed }
            &&& a == ProfileAction::AskUsername { initial: username }
        },
        (ProfilePrompt::Endpoint { .. }, _) => unanswered(p, "qBittorrent 地址"@, t, a),
        (ProfilePrompt::Username { endpoint }, Prompted::Answered(typed)) => if text::trimmed(
            typed@,
        ).len() == 0 {
            &&& t is Over
            &&& a matches ProfileAction::Done(profile)
            &&& profile@ == ProfileView {
                endpoint: kept_endpoint(endpoint@),
                username: Seq::empty(),
                password: Seq::empty(),
            }
        } else {
            &&& t == ProfilePrompt::Password { endpoint, username: typed }
            &&& a is AskPassword
        },
        (ProfilePrompt::Username { .. }, _) => unanswered(p, "用户名"@, t, a),
        (ProfilePrompt::Password { endpoint, username }, Prompted::Answered(typed)) => {
            &&& t is Over
            &&& a matches ProfileAction::Done(profile)
            &&& profile@ == ProfileView {
                endpoint: kept_endpoint(endpoint@),
                username: text::trimmed(username@),
                password: typed@,
            }
        },
        (ProfilePrompt::Password { .. }, _) => unanswered(p, "密码"@, t, a),
        (ProfilePrompt::Over, _) => t is Over && a is Ignored,
    }
}

/// Begins to ask for a profile, with what is known of it to begin with.
pub fn prompt_profile(existing: Option<&QbtProfile>) -> (r: (ProfilePrompt, ProfileAction))
    ensures
        r.0 matches ProfilePrompt::Endpoint { username } && username@ == match existing {
            Some(p) => p.username@,
            None => Seq::empty(),
        },
        r.1 matches ProfileAction::AskEndpoint { initial } && initial@ == match existing {
            Some(p) => p.endpoint@,
            None => "http://127.0.0.1:8080"@,
        },
{
    match existing {
        Some(p) => (
            ProfilePrompt::Endpoint { username: p.username.clone() },
            ProfileAction::AskEndpoint { initial: p.endpoint.clone() },
        ),
        None => (
            ProfilePrompt::Endpoint { username: String::new() },
            ProfileAction::AskEndpoint { initial: "http://127.0.0.1:8080".to_owned() },
        ),
    }
}

impl ProfilePrompt {
    /// What follows an answer.
    pub fn step(self, p: Prompted<String>) -> (r: (ProfilePrompt, ProfileAction))
        ensures
            profile_step(self, p, r.0, r.1),
    {
        match self {
            ProfilePrompt::Endpoint { username } => match take_or_cancel(p, "qBittorrent 地址") {
                Ok(Some(typed)) => (
                    ProfilePrompt::Username { endpoint: typed },
                    ProfileAction::AskUsername { initial: username },
                ),
                Ok(None) => (ProfilePrompt::Over, ProfileAction::Cancelled),
                Err(m) => (ProfilePrompt::Over, ProfileAction::Fail(m)),
            },
            ProfilePrompt::Username { endpoint } => match take_or_cancel(p, "用户名") {
                Ok(Some(typed)) => {
                    if is_blank(&typed) {
                        let shorter = trim(&endpoint);
                        let profile = QbtProfile {
                            endpoint: trim_end_slashes(&shorter),
                            username: String::new(),
                            password: String::new(),
                        };
                        (ProfilePrompt::Over, ProfileAction::Done(profile))
                    } else {
                        (
                            ProfilePrompt::Password { endpoint, username: typed },
                            ProfileAction::AskPassword,
                        )
                    }
                },
                Ok(None) => (ProfilePrompt::Over, ProfileAction::Cancelled),
                Err(m) => (ProfilePrompt::Over, ProfileAction::Fail(m)),
            },
            ProfilePrompt::Password { endpoint, username } => match take_or_cancel(p, "密码") {
                Ok(Some(password)) => {
                    let shorter = trim(&endpoint);
                    let profile = QbtProfile {
                        endpoint: trim_end_slashes(&shorter),
                        username: trim(&username),
                        password,
                    };
                    (ProfilePrompt::Over, ProfileAction::Done(profile))
                },
                Ok(None) => (ProfilePrompt::Over, ProfileAction::Cancelled),
                Err(m) => (ProfilePrompt::Over, ProfileAction::Fail(m)),
            },
            ProfilePrompt::Over => (ProfilePrompt::Over, ProfileAction::Ignored),
        }
    }
}

// ---------------------------------------------------------------------------
// Asking until it connects

/// What the way to a new connection waits for.
pub enum NewConnection {
    /// A profile.
    Prompting,
    /// A connection with it.
    Connecting { profile: QbtProfile },
    /// Nothing any more.
    Over,
}

/// What has happened.
pub enum NewEvent {
    /// The questions about a profile ended: with one, without, or with an error.
    Profile(Result<Option<QbtProfile>, String>),
    Connected(Result<QbtClient, String>),
}

/// What to do next.
pub enum NewAction {
    /// Ask for a profile, with what is known of it to begin with.
    PromptProfile { prefill: Option<QbtProfile> },
    Connect { profile: QbtProfile },
    Done { client: QbtClient, profile: QbtProfile },
    Cancelled,
    Fail(String),
    /// What happened answers nothing that was asked.
    Ignored,
}

/// What to print, and what to do next.
pub struct NewStep {
    pub lines: Vec<Line>,
    pub action: NewAction,
}

/// That a connection stands.
pub open spec fn connected_line(c: QbtClient) -> LineView {
    LineView::Out("已连接 —— qBittorrent "@ + c@.version)
}

/// That something went wrong.
pub open spec fn error_line(cause: Seq<char>) -> LineView {
    LineView::Warning("错误："@ + cause)
}

/// How `e` takes the way from `s` to `t`, with `out` to print and to do. Where
/// it does not connect, the profile is asked for again, as it was typed.
pub open spec fn new_step(s: NewConnection, e: NewEvent, t: NewConnection, out: NewStep) -> bool {
    match (s, e) {
        (NewConnection::Prompting, NewEvent::Profile(Ok(Some(profile)))) => {
            &&& t == NewConnection::Connecting { profile }
            &&& display::lines(out.lines@) == Seq::<LineView>::empty()
            &&& out.action == NewAction::Connect { profile }
        },
        (NewConnection::Prompting, NewEvent::Profile(Ok(None))) => {
            &&& t is Over
            &&& display::lines(out.lines@) == Seq::<LineView>::empty()
            &&& out.action is Cancelled
        },
        (NewConnection::Prompting, NewEvent::Profile(Err(m))) => {
            &&& t is Over
            &&& display::lines(out.lines@) == Seq::<LineView>::empty()
            &&& out.action == NewAction::Fail(m)
        },
        (NewConnection::Connecting { profile }, NewEvent::Connected(Ok(client))) => {
            &&& t is Over
            &&& display::lines(out.lines@) == seq![connected_line(client)]
            &&& out.action == NewAction::Done { client, profile }
        },
        (NewConnection::Connecting { profile }, NewEvent::Connected(Err(cause))) => {
            &&& t is Prompting
            &&& display::lines(out.lines@) == seq![error_line(cause@)]
            &&& out.action == NewAction::PromptProfile { prefill: Some(profile) }
        },
        _ => {
            &&& t == s
            &&& display::lines(out.lines@) == Seq::<LineView>::empty()
            &&& out.action is Ignored
        },
    }
}

/// Begins the way to a new connection.
pub fn prompt_and_connect(initial: Option<QbtProfile>) -> (r: (NewConnection, NewAction))
    ensures
        r.0 is Prompting,
        r.1 == (NewAction::PromptProfile { prefill: initial }),
{
    (NewConnection::Prompting, NewAction::PromptProfile { prefill: initial })
}

/// The line that a connection stands.
fn tell_connected(client: &QbtClient) -> (v: Vec<Line>)
    ensures
        display::lines(v@) == seq![connected_line(*client)],
{
    said(concat("已连接 —— qBittorrent ", client.version()))
}

/// The line that something went wrong.
fn tell_error(cause: &str) -> (v: Vec<Line>)
    ensures
        display::lines(v@) == seq![error_line(cause@)],
{
    warned(concat("错误：", cause))
}

impl NewConnection {
    /// What follows what has happened.
    pub fn step(self, event: NewEvent) -> (r: (NewConnection, NewStep))
        ensures
            new_step(self, event, r.0, r.1),
    {
        match (self, event) {
            (NewConnection::Prompting, NewEvent::Profile(Ok(Some(profile)))) => {
                let again = profile.duplicate();
                (
                    NewConnection::Connecting { profile },
                    NewStep { lines: nothing(), action: NewAction::Connect { profile: again } },
                )
            },
            (NewConnection::Prompting, NewEvent::Profile(Ok(None))) => (
                NewConnection::Over,
                NewStep { lines: nothing(), action: NewAction::Cancelled },
            ),
            (NewConnection::Prompting, NewEvent::Profile(Err(m))) => (
                NewConnection::Over,
                NewStep { lines: nothing(), action: NewAction::Fail(m) },
            ),
            (NewConnection::Connecting { profile }, NewEvent::Connected(Ok(client))) => {
                let lines = tell_connected(&client);
                (
                    NewConnection::Over,
                    NewStep { lines, action: NewAction::Done { client, profile } },
                )
            },
            (NewConnection::Connecting { profile }, NewEvent::Connected(Err(cause))) => (
                NewConnection::Prompting,
                NewStep {
                    lines: tell_error(&cause),
                    action: NewAction::PromptProfile { prefill: Some(profile) },
                },
            ),
            (same, _) => (same, NewStep { lines: nothing(), action: NewAction::Ignored }),
        }
    }
}

// ---------------------------------------------------------------------------
// Choosing where torrents go

/// What the choice of a qBittorrent waits for.
pub enum Resolve {
    /// A new connection: no profile is saved.
    Creating { title: String },
    /// Whether the new profile is to be kept.
    AskingSave { title: String, client: QbtClient, profile: QbtProfile },
    /// Under which name.
    Naming { title: String, client: QbtClient, profile: QbtProfile },
    /// Which of the saved profiles it is.
    Choosing { title: String, saved: ProfileMap },
    /// A connection with a saved one.
    Connecting { title: String, saved: ProfileMap },
    /// Whether to try again.
    AskingRetry { title: String, saved: ProfileMap },
    /// The category.
    AskingCategory { client: QbtClient, save_as: Option<(String, QbtProfile)> },
    /// Nothing any more.
    Over,
}

/// What has happened.
pub enum ResolveEvent {
    /// The way to a new connection ended: with one, without, or with an error.
    Created(Result<Option<(QbtClient, QbtProfile)>, String>),
    Save(Prompted<bool>),
    Name(Prompted<String>),
    Chosen(Prompted<String>),
    Connected(Result<QbtClient, String>),
    Retry(Prompted<bool>),
    Category(Prompted<String>),
}

/// What to do next.
pub enum ResolveAction {
    PromptAndConnect,
    AskSave,
    AskName { initial: String },
    Choose { names: Vec<String> },
    Connect { profile: QbtProfile },
    AskRetry,
    AskCategory { initial: String },
    Done(QbtSetup),
    Cancelled,
    Fail(String),
    /// What happened answers nothing that was asked.
    Ignored,
}

/// What to print, and what to do next.
pub struct ResolveStep {
    pub lines: Vec<Line>,
    pub action: ResolveAction,
}

/// Nothing is printed.
pub open spec fn quiet(out: ResolveStep) -> bool {
    display::lines(out.lines@) == Seq::<LineView>::empty()
}

/// The user gave up.
pub open spec fn gave_up(t: Resolve, out: ResolveStep) -> bool {
    t is Over && quiet(out) && out.action is Cancelled
}

/// It ends with an error.
pub open spec fn broke(message: Seq<char>, t: Resolve, out: ResolveStep) -> bool {
    &&& t is Over
    &&& quiet(out)
    &&& out.action matches ResolveAction::Fail(m)
    &&& m@ == message
}

/// A question was answered, given up or failed: the answer leads to `next`.
pub open spec fn resolved<T>(
    p: Prompted<T>,
    what: Seq<char>,
    next: spec_fn(T) -> bool,
    t: Resolve,
    out: ResolveStep,
) -> bool {
    match p {
        Prompted::Answered(v) => next(v),
        Prompted::Skipped => gave_up(t, out),
        Prompted::Interrupted => gave_up(t, out),
        Prompted::Broken(cause) => broke(prompts::asking_failed(what, cause@), t, out),
    }
}

/// A saved profile is tried: the only one, or the one that is chosen.
pub open spec fn tries(title: String, saved: ProfileMap, t: Resolve, out: ResolveStep) -> bool {
    if saved@.len() == 1 {
        &&& t matches Resolve::Connecting { title: u, saved: m }
        &&& u == title
        &&& m@ == saved@
        &&& display::lines(out.lines@) == seq![
            LineView::Out("使用 qBittorrent 配置「"@ + saved@[0].0 + "」"@),
        ]
        &&& out.action matches ResolveAction::Connect { profile }
        &&& profile@ == saved@[0].1
    } else {
        &&& t matches Resolve::Choosing { title: u, saved: m }
        &&& u == title
        &&& m@ == saved@
        &&& quiet(out)
        &&& out.action matches ResolveAction::Choose { names }
        &&& text::texts(names@) == profiles::names_of(saved@)
    }
}

/// The category is asked for, with one for the channel to begin with.
pub open spec fn asks_category(
    title: String,
    client: QbtClient,
    save_as: Option<(String, QbtProfile)>,
    lines: Seq<LineView>,
    t: Resolve,
    out: ResolveStep,
) -> bool {
    &&& t == Resolve::AskingCategory { client, save_as }
    &&& display::lines(out.lines@) == lines
    &&& out.action matches ResolveAction::AskCategory { initial }
    &&& initial@ == prompts::category_for(title@)
}

/// The name under which a new profile is kept was given.
pub open spec fn after_name(
    title: String,
    client: QbtClient,
    profile: QbtProfile,
    typed: String,
    t: Resolve,
    out: ResolveStep,
) -> bool {
    &&& t matches Resolve::AskingCategory { client: c, save_as: Some((name, p)) }
    &&& c == client
    &&& p == profile
    &&& name@ == text::trimmed(typed@)
    &&& quiet(out)
    &&& out.action matches ResolveAction::AskCategory { initial }
    &&& initial@ == prompts::category_for(title@)
}

/// It was said whether the new profile is to be kept.
pub open spec fn after_save(
    title: String,
    client: QbtClient,
    profile: QbtProfile,
    save: bool,
    t: Resolve,
    out: ResolveStep,
) -> bool {
    if save {
        &&& t == Resolve::Naming { title, client, profile }
        &&& quiet(out)
        &&& out.action matches ResolveAction::AskName { initial }
        &&& initial@ == "default"@
    } else {
        asks_category(title, client, None, Seq::empty(), t, out)
    }
}

/// A saved profile was chosen by its name.
pub open spec fn after_chosen(
    title: String,
    saved: ProfileMap,
    name: String,
    t: Resolve,
    out: ResolveStep,
) -> bool {
    match profiles::lookup(saved@, name@) {
        Some(profile) => {
            &&& t == Resolve::Connecting { title, saved }
            &&& quiet(out)
            &&& out.action matches ResolveAction::Connect { profile: p }
            &&& p@ == profile
        },
        None => {
            &&& t == Resolve::Choosing { title, saved }
            &&& quiet(out)
            &&& out.action is Ignored
        },
    }
}

/// The category was given: all is known.
pub open spec fn after_category(
    client: QbtClient,
    save_as: Option<(String, QbtProfile)>,
    typed: String,
    t: Resolve,
    out: ResolveStep,
) -> bool {
    &&& t is Over
    &&& quiet(out)
    &&& out.action matches ResolveAction::Done(setup)
    &&& setup.client == client
    &&& setup.save_as == save_as
    &&& setup.category@ == text::trimmed(typed@)
}

/// How `e` takes the choice from `s` to `t`, with `out` to print and to do.
/// Where a saved profile does not connect, the user can try again: that never
/// ends the run by itself.
pub open spec fn resolve_step(s: Resolve, e: ResolveEvent, t: Resolve, out: ResolveStep) -> bool {
    match (s, e) {
        (Resolve::Creating { title }, ResolveEvent::Created(Ok(Some((client, profile))))) => {
            &&& t == Resolve::AskingSave { title, client, profile }
            &&& quiet(out)
            &&& out.action is AskSave
        },
        (Resolve::Creating { .. }, ResolveEvent::Created(Ok(None))) => gave_up(t, out),
        (Resolve::Creating { .. }, ResolveEvent::Created(Err(m))) => broke(m@, t, out),
        (Resolve::AskingSave { title, client, profile }, ResolveEvent::Save(p)) => resolved(
            p,
            "是否保存配置"@,
            |save: bool| after_save(title, client, profile, save, t, out),
            t,
            out,
        ),
        (Resolve::Naming { title, client, profile }, ResolveEvent::Name(p)) => resolved(
            p,
            "配置名称"@,
            |name: String| after_name(title, client, profile, name, t, out),
            t,
            out,
        ),
        (Resolve::Choosing { title, saved }, ResolveEvent::Chosen(p)) => resolved(
            p,
            "qBittorrent 配置"@,
            |name: String| after_chosen(title, saved, name, t, out),
            t,
            out,
        ),
        (Resolve::Connecting { title, .. }, ResolveEvent::Connected(Ok(client))) => asks_category(
            title,
            client,
            None,
            seq![connected_line(client)],
            t,
            out,
        ),
        (Resolve::Connecting { title, saved }, ResolveEvent::Connected(Err(cause))) => {
            &&& t == Resolve::AskingRetry { title, saved }
            &&& display::lines(out.lines@) == seq![error_line(cause@)]
            &&& out.action is AskRetry
        },
        (Resolve::AskingRetry { title, saved }, ResolveEvent::Retry(p)) => resolved(
            p,
            "是否重试"@,
            |again: bool|
                if again {
                    tries(title, saved, t, out)
                } else {
                    gave_up(t, out)
                },
            t,
            out,
        ),
        (Resolve::AskingCategory { client, save_as }, ResolveEvent::Category(p)) => resolved(
            p,
            "分类"@,
            |typed: String| after_category(client, save_as, typed, t, out),
            t,
            out,
        ),
        _ => t == s && quiet(out) && out.action is Ignored,
    }
}

/// The user gave up.
fn stop() -> (r: (Resolve, ResolveStep))
    ensures
        gave_up(r.0, r.1),
{
    (Resolve::Over, ResolveStep { lines: nothing(), action: ResolveAction::Cancelled })
}

/// It ends with an error.
fn fail(message: String) -> (r: (Resolve, ResolveStep))
    ensures
        broke(message@, r.0, r.1),
{
    (Resolve::Over, ResolveStep { lines: nothing(), action: ResolveAction::Fail(message) })
}

/// A saved profile is tried.
fn attempt(title: String, saved: ProfileMap) -> (r: (Resolve, ResolveStep))
    ensures
        tries(title, saved, r.0, r.1),
{
    if saved.len() == 1 {
        let (name, profile) = saved.at(0);
        let line = concat3("使用 qBittorrent 配置「", name, "」");
        let profile = profile.duplicate();
        (
            Resolve::Connecting { title, saved },
            ResolveStep { lines: said(line), action: ResolveAction::Connect { profile } },
        )
    } else {
        let names = saved.names();
        (
            Resolve::Choosing { title, saved },
            ResolveStep { lines: nothing(), action: ResolveAction::Choose { names } },
        )
    }
}

/// The category is asked for.
fn ask_category(
    title: &str,
    client: QbtClient,
    save_as: Option<(String, QbtProfile)>,
    lines: Vec<Line>,
) -> (r: (Resolve, ResolveStep))
    ensures
        r.0 == (Resolve::AskingCategory { client, save_as }),
        r.1.lines == lines,
        r.1.action matches ResolveAction::AskCategory { initial } && initial@
            == prompts::category_for(title@),
{
    let initial = default_category(title);
    (
        Resolve::AskingCategory { client, save_as },
        ResolveStep { lines, action: ResolveAction::AskCategory { initial } },
    )
}

/// Begins the choice for a channel: with a new profile where none is saved,
/// else with a saved one.
pub fn resolve_qbt(saved: &ProfileMap, channel_title: &str) -> (r: (Resolve, ResolveStep))
    ensures
        saved@.len() == 0 ==> {
            &&& r.0 matches Resolve::Creating { title }
            &&& title@ == channel_title@
            &&& display::lines(r.1.lines@) == seq![
                LineView::Out("尚未配置 qBittorrent，现在来设置一个"@),
            ]
            &&& r.1.action is PromptAndConnect
        },
        saved@.len() > 0 ==> exists|title: String, own: ProfileMap|
            title@ == channel_title@ && own@ == saved@ && #[trigger] tries(title, own, r.0, r.1),
{
    let title = channel_title.to_owned();
    if saved.is_empty() {
        (
            Resolve::Creating { title },
            ResolveStep {
                lines: said("尚未配置 qBittorrent，现在来设置一个".to_owned()),
                action: ResolveAction::PromptAndConnect,
            },
        )
    } else {
        let own = saved.duplicate();
        let r = attempt(title, own);
        assert(tries(title, own, r.0, r.1));
        r
    }
}

impl Resolve {
    /// What follows what has happened.
    pub fn step(self, event: ResolveEvent) -> (r: (Resolve, ResolveStep))
        ensures
            resolve_step(self, event, r.0, r.1),
    {
        match (self, event) {
            (Resolve::Creating { title }, ResolveEvent::Created(Ok(Some((client, profile))))) => (
                Resolve::AskingSave { title, client, profile },
                ResolveStep { lines: nothing(), action: ResolveAction::AskSave },
            ),
            (Resolve::Creating { title: _ }, ResolveEvent::Created(Ok(None))) => stop(),
            (Resolve::Creating { title: _ }, ResolveEvent::Created(Err(m))) => fail(m),
            (Resolve::AskingSave { title, client, profile }, ResolveEvent::Save(p)) => {
                match take_or_cancel(p, "是否保存配置") {
                    Ok(Some(true)) => (
                        Resolve::Naming { title, client, profile },
                        ResolveStep {
                            lines: nothing(),
                            action: ResolveAction::AskName { initial: "default".to_owned() },
                        },
                    ),
                    Ok(Some(false)) => ask_category(&title, client, None, nothing()),
                    Ok(None) => stop(),
                    Err(m) => fail(m),
                }
            },
            (Resolve::Naming { title, client, profile }, ResolveEvent::Name(p)) => {
                match take_or_cancel(p, "配置名称") {
                    Ok(Some(typed)) => {
                        let name = trim(&typed);
                        ask_category(&title, client, Some((name, profile)), nothing())
                    },
                    Ok(None) => stop(),
                    Err(m) => fail(m),
                }
            },
            (Resolve::Choosing { title, saved }, ResolveEvent::Chosen(p)) => {
                match take_or_cancel(p, "qBittorrent 配置") {
                    Ok(Some(name)) => {
                        let found = match saved.get(&name) {
                            Some(q) => Some(q.duplicate()),
                            None => None,
                        };
                        match found {
                            Some(profile) => (
                                Resolve::Connecting { title, saved },
                                ResolveStep {
                                    lines: nothing(),
                                    action: ResolveAction::Connect { profile },
                                },
                            ),
                            None => (
                                Resolve::Choosing { title, saved },
                                ResolveStep { lines: nothing(), action: ResolveAction::Ignored },
                            ),
                        }
                    },
                    Ok(None) => stop(),
                    Err(m) => fail(m),
                }
            },
            (Resolve::Connecting { title, saved: _ }, ResolveEvent::Connected(Ok(client))) => {
                let lines = tell_connected(&client);
                ask_category(&title, client, None, lines)
            },
            (Resolve::Connecting { title, saved }, ResolveEvent::Connected(Err(cause))) => (
                Resolve::AskingRetry { title, saved },
                ResolveStep { lines: tell_error(&cause), action: ResolveAction::AskRetry },
            ),
            (Resolve::AskingRetry { title, saved }, ResolveEvent::Retry(p)) => {
                match take_or_cancel(p, "是否重试") {
                    Ok(Some(true)) => attempt(title, saved),
                    Ok(Some(false)) => stop(),
                    Ok(None) => stop(),
                    Err(m) => fail(m),
                }
            },
            (Resolve::AskingCategory { client, save_as }, ResolveEvent::Category(p)) => {
                match take_or_cancel(p, "分类") {
                    Ok(Some(typed)) => {
                        let category = trim(&typed);
                        (
                            Resolve::Over,
                            ResolveStep {
                                lines: nothing(),
                                action: ResolveAction::Done(
                                    QbtSetup { client, category, save_as },
                                ),
                            },
                        )
                    },
                    Ok(None) => stop(),
                    Err(m) => fail(m),
                }
            },
            (same, _) => (
                same,
                ResolveStep { lines: nothing(), action: ResolveAction::Ignored },
            ),
        }
    }
}

// ---------------------------------------------------------------------------
// Laws

/// A profile that was asked for has an endpoint without a `/` at its end, a
/// trimmed user name, and no password without a user name.
pub proof fn law_asked_profiles_are_tidy(
    s: ProfilePrompt,
    p: Prompted<String>,
    t: ProfilePrompt,
    a: ProfileAction,
)
    requires
        profile_step(s, p, t, a),
        a is Done,
        s matches ProfilePrompt::Password { username, .. } ==> text::trimmed(username@).len() > 0,
    ensures
        a matches ProfileAction::Done(profile) && {
            &&& profile@.endpoint.len() > 0 ==> profile@.endpoint.last() != '/'
            &&& feed::tight(profile@.username)
            &&& profile@.username.len() == 0 ==> profile@.password.len() == 0
        },
{
    let endpoint = match s {
        ProfilePrompt::Username { endpoint } => endpoint@,
        ProfilePrompt::Password { endpoint, .. } => endpoint@,
        _ => Seq::empty(),
    };
    text::lemma_trim_ends(text::trimmed(endpoint), text::is_char('/'));
    if let ProfilePrompt::Password { username, .. } = s {
        text::lemma_trimmed(username@);
    }
    let kept = kept_endpoint(endpoint);
    if kept.len() > 0 {
        assert(!text::is_char('/')(kept.last()));
    }
}

/// The password is asked for only where a user name was given that is not
/// blank.
pub proof fn law_a_password_needs_a_user(
    s: ProfilePrompt,
    p: Prompted<String>,
    t: ProfilePrompt,
    a: ProfileAction,
)
    requires
        profile_step(s, p, t, a),
        a is AskPassword,
    ensures
        t matches ProfilePrompt::Password { username, .. } && text::trimmed(username@).len() > 0,
{
}

/// A profile that does not connect is asked for again with all that was typed:
/// nothing is lost, and the run does not end.
pub proof fn law_a_typo_can_be_mended(
    profile: QbtProfile,
    cause: String,
    t: NewConnection,
    out: NewStep,
)
    requires
        new_step(
            NewConnection::Connecting { profile },
            NewEvent::Connected(Err(cause)),
            t,
            out,
        ),
    ensures
        t is Prompting,
        out.action == (NewAction::PromptProfile { prefill: Some(profile) }),
{
}

/// Only a profile that has connected is handed on.
pub proof fn law_profiles_connect_before_they_are_used(
    s: NewConnection,
    e: NewEvent,
    t: NewConnection,
    out: NewStep,
)
    requires
        new_step(s, e, t, out),
        out.action is Done,
    ensures
        e matches NewEvent::Connected(Ok(client)) && s matches NewConnection::Connecting { profile }
            && out.action == (NewAction::Done { client, profile }),
{
}

/// A saved profile that does not connect does not end the choice: the user is
/// asked, and trying again offers the same profiles.
pub proof fn law_a_failed_connection_can_be_retried(
    title: String,
    saved: ProfileMap,
    cause: String,
    t: Resolve,
    out: ResolveStep,
    u: Resolve,
    again: ResolveStep,
)
    requires
        resolve_step(
            Resolve::Connecting { title, saved },
            ResolveEvent::Connected(Err(cause)),
            t,
            out,
        ),
        resolve_step(t, ResolveEvent::Retry(Prompted::Answered(true)), u, again),
    ensures
        out.action is AskRetry,
        tries(title, saved, u, again),
{
}

/// Only a new profile that the user named is kept: a saved one never is.
pub proof fn law_only_named_profiles_are_kept(
    s: Resolve,
    e: ResolveEvent,
    t: Resolve,
    out: ResolveStep,
)
    requires
        resolve_step(s, e, t, out),
        t matches Resolve::AskingCategory { save_as, .. } && save_as is Some,
        !(s is AskingCategory),
    ensures
        s is Naming,
{
}

/// Giving up any question ends the choice without an error.
pub proof fn law_giving_up_cancels(s: Resolve, e: ResolveEvent, t: Resolve, out: ResolveStep)
    requires
        resolve_step(s, e, t, out),
        match (s, e) {
            (Resolve::AskingSave { .. }, ResolveEvent::Save(p)) => p is Skipped || p is Interrupted,
            (Resolve::Naming { .. }, ResolveEvent::Name(p)) => p is Skipped || p is Interrupted,
            (Resolve::Choosing { .. }, ResolveEvent::Chosen(p)) => p is Skipped || p is Interrupted,
            (Resolve::AskingRetry { .. }, ResolveEvent::Retry(p)) => p is Skipped
                || p is Interrupted,
            (Resolve::AskingCategory { .. }, ResolveEvent::Category(p)) => p is Skipped
                || p is Interrupted,
            _ => false,
        },
    ensures
        t is Over,
        out.action is Cancelled,
{
}

/// An endpoint as it is kept is used as it is: connecting changes nothing more
/// of it.
pub proof fn law_a_kept_endpoint_is_used_as_it_is(typed: Seq<char>, p: ProfileView)
    requires
        p.endpoint == kept_endpoint(typed),
    ensures
        qbt::fresh_client(p).endpoint == p.endpoint,
{
    let kept = kept_endpoint(typed);
    text::lemma_trim_ends(text::trimmed(typed), text::is_char('/'));
    if kept.len() > 0 {
        assert(!text::is_char('/')(kept.last()));
    }
}

/// A profile has all that was typed for it: the endpoint without the white space
/// around it and the slashes behind, of which the number is returned, the user name
/// without the white space around it, and the password as it is.
pub proof fn law_a_profile_is_what_was_typed(
    known: String,
    typed: (String, String, String),
    t: (ProfilePrompt, ProfilePrompt, ProfilePrompt),
    a: (ProfileAction, ProfileAction, ProfileAction),
) -> (k: nat)
    requires
        profile_step(
            ProfilePrompt::Endpoint { username: known },
            Prompted::Answered(typed.0),
            t.0,
            a.0,
        ),
        profile_step(t.0, Prompted::Answered(typed.1), t.1, a.1),
        text::trimmed(typed.1@).len() > 0,
        profile_step(t.1, Prompted::Answered(typed.2), t.2, a.2),
    ensures
        a.0 is AskUsername,
        a.0->AskUsername_initial@ == known@,
        a.1 is AskPassword,
        a.2 is Done,
        text::trimmed(typed.0@) == a.2->Done_0.endpoint@ + Seq::new(k, |i: int| '/'),
        a.2->Done_0.endpoint@.len() > 0 ==> a.2->Done_0.endpoint@.last() != '/',
        a.2->Done_0.username@ == text::trimmed(typed.1@),
        a.2->Done_0.password@ == typed.2@,
        t.2 is Over,
{
    lemma_kept_endpoint(typed.0@)
}

proof fn lemma_kept_endpoint(typed: Seq<char>) -> (k: nat)
    ensures
        text::trimmed(typed) == kept_endpoint(typed) + Seq::new(k, |i: int| '/'),
        kept_endpoint(typed).len() > 0 ==> kept_endpoint(typed).last() != '/',
{
    let whole = text::trimmed(typed);
    text::law_trimming_an_end_cuts_only_that(whole, text::is_char('/'));
    let kept = kept_endpoint(typed);
    let k = (whole.len() - kept.len()) as nat;
    assert(whole =~= kept + Seq::new(k, |i: int| '/'));
    k
}

/// A blank user name gives a profile without user name and password, with the
/// endpoint that was typed, but for white space around it and slashes behind.
pub proof fn law_a_profile_without_a_user(
    known: String,
    typed: (String, String),
    t: (ProfilePrompt, ProfilePrompt),
    a: (ProfileAction, ProfileAction),
) -> (k: nat)
    requires
        profile_step(
            ProfilePrompt::Endpoint { username: known },
            Prompted::Answered(typed.0),
            t.0,
            a.0,
        ),
        profile_step(t.0, Prompted::Answered(typed.1), t.1, a.1),
        text::trimmed(typed.1@).len() == 0,
    ensures
        a.1 is Done,
        text::trimmed(typed.0@) == a.1->Done_0.endpoint@ + Seq::new(k, |i: int| '/'),
        a.1->Done_0.endpoint@.len() > 0 ==> a.1->Done_0.endpoint@.last() != '/',
        a.1->Done_0.username@.len() == 0,
        a.1->Done_0.password@.len() == 0,
        t.1 is Over,
{
    lemma_kept_endpoint(typed.0@)
}

/// A question about a profile that is given up ends them all, and one that fails is
/// told by what was asked and the whole cause.
pub proof fn law_an_unanswered_profile_is_none(
    s: ProfilePrompt,
    p: Prompted<String>,
    t: ProfilePrompt,
    a: ProfileAction,
)
    requires
        profile_step(s, p, t, a),
        !(s is Over),
        !(p is Answered),
    ensures
        t is Over,
        p is Skipped || p is Interrupted ==> a is Cancelled,
        p matches Prompted::Broken(cause) ==> a is Fail && (s is Endpoint ==> a->Fail_0@ == "获取"@
            + "qBittorrent 地址"@ + ": "@ + cause@) && (s is Username ==> a->Fail_0@ == "获取"@
            + "用户名"@ + ": "@ + cause@) && (s is Password ==> a->Fail_0@ == "获取"@ + "密码"@ + ": "@
            + cause@),
{
}

/// The profile that is tried is the one that was given, and the client that is
/// handed on with it is the one that connected. The version it answered is told, and
/// so is the whole cause where it did not connect.
pub proof fn law_the_given_profile_is_tried(
    profile: QbtProfile,
    client: QbtClient,
    cause: String,
    t: (NewConnection, NewConnection, NewConnection),
    out: (NewStep, NewStep, NewStep),
)
    requires
        new_step(NewConnection::Prompting, NewEvent::Profile(Ok(Some(profile))), t.0, out.0),
        new_step(t.0, NewEvent::Connected(Ok(client)), t.1, out.1),
        new_step(t.0, NewEvent::Connected(Err(cause)), t.2, out.2),
    ensures
        out.0.action == (NewAction::Connect { profile }),
        out.0.lines@.len() == 0,
        out.1.action == (NewAction::Done { client, profile }),
        t.1 is Over,
        out.1.lines@.len() == 1,
        out.1.lines@[0]@ == LineView::Out("已连接 —— qBittorrent "@ + client@.version),
        out.2.action == (NewAction::PromptProfile { prefill: Some(profile) }),
        t.2 is Prompting,
        out.2.lines@.len() == 1,
        out.2.lines@[0]@ == LineView::Warning("错误："@ + cause@),
{
    assert(display::lines(out.0.lines@).len() == out.0.lines@.len());
    assert(display::lines(out.1.lines@).len() == out.1.lines@.len());
    assert(display::lines(out.2.lines@).len() == out.2.lines@.len());
    assert(display::lines(out.1.lines@)[0] == out.1.lines@[0]@);
    assert(display::lines(out.2.lines@)[0] == out.2.lines@[0]@);
}

/// Of several saved profiles the name of every one is offered, whole and in order;
/// a single one is tried without asking, with all that was saved.
pub proof fn law_every_saved_profile_is_offered(
    title: String,
    saved: ProfileMap,
    t: Resolve,
    out: ResolveStep,
    i: int,
)
    requires
        tries(title, saved, t, out),
    ensures
        saved@.len() == 1 ==> {
            &&& t is Connecting
            &&& out.action is Connect
            &&& out.action->profile.endpoint@ == saved@[0].1.endpoint
            &&& out.action->profile.username@ == saved@[0].1.username
            &&& out.action->profile.password@ == saved@[0].1.password
            &&& out.lines@.len() == 1
            &&& out.lines@[0]@ == LineView::Out("使用 qBittorrent 配置「"@ + saved@[0].0 + "」"@)
        },
        saved@.len() != 1 ==> {
            &&& t is Choosing
            &&& out.action is Choose
            &&& out.action->names@.len() == saved@.len()
            &&& 0 <= i < saved@.len() ==> out.action->names@[i]@ == saved@[i].0
            &&& out.lines@.len() == 0
        },
{
    assert(display::lines(out.lines@).len() == out.lines@.len());
    if saved@.len() == 1 {
        assert(display::lines(out.lines@)[0] == out.lines@[0]@);
    } else {
        let names = out.action->names@;
        assert(text::texts(names).len() == names.len());
        if 0 <= i < saved@.len() {
            assert(text::texts(names)[i] == names[i]@);
        }
    }
}

/// The profile that is tried is the whole one saved under the name that was chosen,
/// whichever it is.
pub proof fn law_the_chosen_profile_is_tried(
    title: String,
    saved: ProfileMap,
    name: String,
    k: int,
    t: Resolve,
    out: ResolveStep,
)
    requires
        resolve_step(
            Resolve::Choosing { title, saved },
            ResolveEvent::Chosen(Prompted::Answered(name)),
            t,
            out,
        ),
        0 <= k < saved@.len(),
        saved@[k].0 == name@,
        forall|i: int| 0 <= i < k ==> (#[trigger] saved@[i]).0 != name@,
    ensures
        out.action is Connect,
        out.action->profile.endpoint@ == saved@[k].1.endpoint,
        out.action->profile.username@ == saved@[k].1.username,
        out.action->profile.password@ == saved@[k].1.password,
        t == (Resolve::Connecting { title, saved }),
{
    profiles::law_lookup_finds_the_entry(saved@, name@, k);
}

/// A new profile is kept whole under the name that was typed, without the white
/// space around it, and for the category the whole stem of the channel's title is
/// there to begin with.
pub proof fn law_a_new_profile_is_kept_whole(
    title: String,
    client: QbtClient,
    profile: QbtProfile,
    typed: String,
    t: (Resolve, Resolve),
    out: (ResolveStep, ResolveStep),
)
    requires
        resolve_step(
            Resolve::AskingSave { title, client, profile },
            ResolveEvent::Save(Prompted::Answered(true)),
            t.0,
            out.0,
        ),
        resolve_step(t.0, ResolveEvent::Name(Prompted::Answered(typed)), t.1, out.1),
    ensures
        out.0.action is AskName,
        out.0.action->AskName_initial@ == "default"@,
        t.1 is AskingCategory,
        t.1->AskingCategory_client == client,
        t.1->save_as is Some,
        t.1->save_as matches Some((name, p)) && name@ == text::trimmed(typed@) && p == profile,
        out.1.action is AskCategory,
        sanitize::stem(title@).len() > 0 ==> out.1.action->AskCategory_initial@ == sanitize::stem(
            title@,
        ),
        sanitize::stem(title@).len() == 0 ==> out.1.action->AskCategory_initial@ == "mikan"@,
{
}

/// A profile that is not kept, and one that was saved before, lead to the category
/// with nothing to save; the whole stem of the channel's title is there to begin
/// with.
pub proof fn law_the_category_begins_with_the_title(
    title: String,
    client: QbtClient,
    profile: QbtProfile,
    saved: ProfileMap,
    t: Resolve,
    out: ResolveStep,
)
    requires
        ({
            ||| resolve_step(
                Resolve::AskingSave { title, client, profile },
                ResolveEvent::Save(Prompted::Answered(false)),
                t,
                out,
            )
            ||| resolve_step(
                Resolve::Connecting { title, saved },
                ResolveEvent::Connected(Ok(client)),
                t,
                out,
            )
        }),
    ensures
        t == (Resolve::AskingCategory { client, save_as: None }),
        out.action is AskCategory,
        sanitize::stem(title@).len() > 0 ==> out.action->AskCategory_initial@ == sanitize::stem(
            title@,
        ),
        sanitize::stem(title@).len() == 0 ==> out.action->AskCategory_initial@ == "mikan"@,
{
}

/// The choice ends with the client that connected, the whole category that was
/// typed, without the white space around it, and the profile to save as it was.
pub proof fn law_the_choice_is_what_was_chosen(
    client: QbtClient,
    save_as: Option<(String, QbtProfile)>,
    typed: String,
    t: Resolve,
    out: ResolveStep,
)
    requires
        resolve_step(
            Resolve::AskingCategory { client, save_as },
            ResolveEvent::Category(Prompted::Answered(typed)),
            t,
            out,
        ),
    ensures
        t is Over,
        out.action is Done,
        out.action->Done_0.client == client,
        out.action->Done_0.save_as == save_as,
        out.action->Done_0.category@ == text::trimmed(typed@),
{
}

/// Where a saved profile does not connect the whole cause is told, and where it does
/// the version that was answered.
pub proof fn law_a_connection_is_told(
    title: String,
    saved: ProfileMap,
    client: QbtClient,
    cause: String,
    t: (Resolve, Resolve),
    out: (ResolveStep, ResolveStep),
)
    requires
        resolve_step(
            Resolve::Connecting { title, saved },
            ResolveEvent::Connected(Ok(client)),
            t.0,
            out.0,
        ),
        resolve_step(
            Resolve::Connecting { title, saved },
            ResolveEvent::Connected(Err(cause)),
            t.1,
            out.1,
        ),
    ensures
        out.0.lines@.len() == 1,
        out.0.lines@[0]@ == LineView::Out("已连接 —— qBittorrent "@ + client@.version),
        out.1.lines@.len() == 1,
        out.1.lines@[0]@ == LineView::Warning("错误："@ + cause@),
        out.1.action is AskRetry,
        t.1 == (Resolve::AskingRetry { title, saved }),
{
    assert(display::lines(out.0.lines@).len() == out.0.lines@.len());
    assert(display::lines(out.1.lines@).len() == out.1.lines@.len());
    assert(display::lines(out.0.lines@)[0] == out.0.lines@[0]@);
    assert(display::lines(out.1.lines@)[0] == out.1.lines@[0]@);
}

/// A question that fails ends the choice, and is told by what was asked and the
/// whole cause.
pub proof fn law_a_broken_question_is_told(s: Resolve, cause: String, t: Resolve, out: ResolveStep)
    requires
        ({
            ||| s is AskingSave && resolve_step(
                s,
                ResolveEvent::Save(Prompted::Broken(cause)),
                t,
                out,
            )
            ||| s is Naming && resolve_step(s, ResolveEvent::Name(Prompted::Broken(cause)), t, out)
            ||| s is Choosing && resolve_step(
                s,
                ResolveEvent::Chosen(Prompted::Broken(cause)),
                t,
                out,
            )
            ||| s is AskingRetry && resolve_step(
                s,
                ResolveEvent::Retry(Prompted::Broken(cause)),
                t,
                out,
            )
            ||| s is AskingCategory && resolve_step(
                s,
                ResolveEvent::Category(Prompted::Broken(cause)),
                t,
                out,
            )
        }),
    ensures
        t is Over,
        out.action is Fail,
        s is AskingSave ==> out.action->Fail_0@ == "获取"@ + "是否保存配置"@ + ": "@ + cause@,
        s is Naming ==> out.action->Fail_0@ == "获取"@ + "配置名称"@ + ": "@ + cause@,
        s is Choosing ==> out.action->Fail_0@ == "获取"@ + "qBittorrent 配置"@ + ": "@ + cause@,
        s is AskingRetry ==> out.action->Fail_0@ == "获取"@ + "是否重试"@ + ": "@ + cause@,
        s is AskingCategory ==> out.action->Fail_0@ == "获取"@ + "分类"@ + ": "@ + cause@,
{
}

/// A new connection is kept as it is for the question whether to save it. Where there
/// is none the choice ends, and where it failed with the whole message.
pub proof fn law_a_new_connection_is_kept(
    title: String,
    client: QbtClient,
    profile: QbtProfile,
    message: String,
    t: (Resolve, Resolve, Resolve),
    out: (ResolveStep, ResolveStep, ResolveStep),
)
    requires
        resolve_step(
            Resolve::Creating { title },
            ResolveEvent::Created(Ok(Some((client, profile)))),
            t.0,
            out.0,
        ),
        resolve_step(Resolve::Creating { title }, ResolveEvent::Created(Ok(None)), t.1, out.1),
        resolve_step(
            Resolve::Creating { title },
            ResolveEvent::Created(Err(message)),
            t.2,
            out.2,
        ),
    ensures
        t.0 == (Resolve::AskingSave { title, client, profile }),
        out.0.action is AskSave,
        out.0.lines@.len() == 0,
        t.1 is Over,
        out.1.action is Cancelled,
        t.2 is Over,
        out.2.action is Fail,
        out.2.action->Fail_0@ == message@,
{
    assert(display::lines(out.0.lines@).len() == out.0.lines@.len());
}

/// The questions about a profile, given up, end the way to a connection without an
/// error; failed, with the whole message.
pub proof fn law_a_connection_needs_a_profile(
    message: String,
    t: (NewConnection, NewConnection),
    out: (NewStep, NewStep),
)
    requires
        new_step(NewConnection::Prompting, NewEvent::Profile(Ok(None)), t.0, out.0),
        new_step(NewConnection::Prompting, NewEvent::Profile(Err(message)), t.1, out.1),
    ensures
        t.0 is Over,
        out.0.action is Cancelled,
        t.1 is Over,
        out.1.action is Fail,
        out.1.action->Fail_0@ == message@,
{
}

/// A connection that is not tried again ends the choice without an error.
pub proof fn law_not_trying_again_cancels(
    title: String,
    saved: ProfileMap,
    t: Resolve,
    out: ResolveStep,
)
    requires
        resolve_step(
            Resolve::AskingRetry { title, saved },
            ResolveEvent::Retry(Prompted::Answered(false)),
            t,
            out,
        ),
    ensures
        t is Over,
        out.action is Cancelled,
        out.lines@.len() == 0,
{
    assert(display::lines(out.lines@).len() == out.lines@.len());
}

/// What answers nothing that was asked changes nothing.
pub proof fn law_what_was_not_asked_is_ignored(
    s: Resolve,
    e: ResolveEvent,
    t: Resolve,
    out: ResolveStep,
    new: NewConnection,
    event: NewEvent,
    after: NewConnection,
    step: NewStep,
)
    requires
        resolve_step(s, e, t, out),
        match s {
            Resolve::Creating { .. } => !(e is Created),
            Resolve::AskingSave { .. } => !(e is Save),
            Resolve::Naming { .. } => !(e is Name),
            Resolve::Choosing { .. } => !(e is Chosen),
            Resolve::Connecting { .. } => !(e is Connected),
            Resolve::AskingRetry { .. } => !(e is Retry),
            Resolve::AskingCategory { .. } => !(e is Category),
            Resolve::Over => true,
        },
        new_step(new, event, after, step),
        match new {
            NewConnection::Prompting => !(event is Profile),
            NewConnection::Connecting { .. } => !(event is Connected),
            NewConnection::Over => true,
        },
    ensures
        t == s,
        out.action is Ignored,
        out.lines@.len() == 0,
        after == new,
        step.action is Ignored,
        step.lines@.len() == 0,
{
    assert(display::lines(out.lines@).len() == out.lines@.len());
    assert(display::lines(step.lines@).len() == step.lines@.len());
}

}
