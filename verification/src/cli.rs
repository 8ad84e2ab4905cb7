//! The command line: what its arguments ask for.
use crate::text::concat;
use vstd::prelude::*;

verus! {

/// What `mikan qbt` is to do.
pub enum QbtAction {
    /// Create or update a profile.
    Save { name: Option<String> },
    /// List the profiles.
    List,
    /// Forget a profile.
    Remove { name: String },
    /// Connect with a profile.
    Test { name: Option<String> },
}

/// A subcommand.
pub enum Command {
    Qbt { action: QbtAction },
    Search { query: Option<String>, proxy: Option<String> },
}

/// The arguments. The paths are texts as they are shown.
pub struct Args {
    pub command: Option<Command>,
    pub url: Option<String>,
    pub proxy: Option<String>,
    pub yes: bool,
    pub all: bool,
    pub latest: Option<usize>,
    pub filter: Option<String>,
    pub out: Option<String>,
    pub url_list: Option<String>,
    pub qbt: Option<String>,
    pub category: Option<String>,
}

/// What a run without questions does: what it selects, and where that goes.
pub struct Unattended {
    pub url: String,
    pub proxy: Option<String>,
    pub latest: Option<usize>,
    pub filter: Option<String>,
    pub out: Option<String>,
    pub url_list: Option<String>,
    pub qbt: Option<String>,
    pub category: Option<String>,
}

/// What the arguments ask for.
pub enum Route {
    Qbt(QbtAction),
    Search { query: Option<String>, proxy: Option<String> },
    Wizard { url: String, proxy: Option<String> },
    Headless(Unattended),
    /// Nothing that can be done: the message of a usage error.
    Usage(String),
}

/// The first flag that only a run without questions takes.
pub open spec fn headless_flag(args: Args) -> Option<Seq<char>> {
    if args.all {
        Some("--all"@)
    } else if args.latest is Some {
        Some("--latest"@)
    } else if args.filter is Some {
        Some("--filter"@)
    } else if args.out is Some {
        Some("--out"@)
    } else if args.url_list is Some {
        Some("--url-list"@)
    } else if args.qbt is Some {
        Some("--qbt"@)
    } else if args.category is Some {
        Some("--category"@)
    } else {
        None
    }
}

/// The arguments say what to select.
pub open spec fn selects(args: Args) -> bool {
    args.all || args.latest is Some || args.filter is Some
}

/// The arguments say where it goes.
pub open spec fn sends_somewhere(args: Args) -> bool {
    args.out is Some || args.url_list is Some || args.qbt is Some
}

/// What is missing from the arguments of a run without questions.
pub open spec fn missing(args: Args) -> Option<Seq<char>> {
    if !selects(args) {
        Some("请指定 --all、--latest 或 --filter"@)
    } else if !sends_somewhere(args) {
        Some("请至少指定 --out、--url-list、--qbt 之一"@)
    } else {
        None
    }
}

/// The complaint about a flag that only a run without questions takes.
pub open spec fn needs_yes(flag: Seq<char>) -> Seq<char> {
    flag + " 需要配合 --yes 使用（非交互模式）"@
}

/// The first flag that only a run without questions takes.
pub fn headless_flag_present(args: &Args) -> (r: Option<&'static str>)
    ensures
        r is Some <==> headless_flag(*args) is Some,
        r matches Some(f) ==> headless_flag(*args) == Some(f@),
{
    if args.all {
        Some("--all")
    } else if args.latest.is_some() {
        Some("--latest")
    } else if args.filter.is_some() {
        Some("--filter")
    } else if args.out.is_some() {
        Some("--out")
    } else if args.url_list.is_some() {
        Some("--url-list")
    } else if args.qbt.is_some() {
        Some("--qbt")
    } else if args.category.is_some() {
        Some("--category")
    } else {
        None
    }
}

/// Checks that a run without questions is told both what to select and where
/// that goes. The error is the message of a usage error.
pub fn headless_precondition(args: &Args) -> (r: Result<(), String>)
    ensures
        r is Err <==> missing(*args) is Some,
        r matches Err(m) ==> missing(*args) == Some(m@),
{
    if !(args.all || args.latest.is_some() || args.filter.is_some()) {
        return Err("请指定 --all、--latest 或 --filter".to_owned());
    }
    if args.out.is_none() && args.url_list.is_none() && args.qbt.is_none() {
        return Err("请至少指定 --out、--url-list、--qbt 之一".to_owned());
    }
    Ok(())
}

/// A usage error with the given message.
pub open spec fn refuses(r: Route, message: Seq<char>) -> bool {
    r matches Route::Usage(m) && m@ == message
}

/// What the arguments ask for without a subcommand.
pub open spec fn plain_route(args: Args, r: Route) -> bool {
    match (args.url, headless_flag(args)) {
        (None, flag) => if args.yes {
            refuses(r, "缺少必需的参数：\n  <URL>"@)
        } else if flag is Some {
            refuses(r, needs_yes(flag->0))
        } else {
            r == Route::Search { query: None, proxy: args.proxy }
        },
        (Some(url), flag) => if args.yes {
            if missing(args) is Some {
                refuses(r, missing(args)->0)
            } else {
                r == Route::Headless(
                    Unattended {
                        url,
                        proxy: args.proxy,
                        latest: args.latest,
                        filter: args.filter,
                        out: args.out,
                        url_list: args.url_list,
                        qbt: args.qbt,
                        category: args.category,
                    },
                )
            }
        } else if flag is Some {
            refuses(r, needs_yes(flag->0))
        } else {
            r == Route::Wizard { url, proxy: args.proxy }
        },
    }
}

/// What the arguments ask for.
pub open spec fn routed(args: Args, r: Route) -> bool {
    match args.command {
        Some(Command::Qbt { action }) => r == Route::Qbt(action),
        Some(Command::Search { query, proxy }) => r == Route::Search { query, proxy },
        None => plain_route(args, r),
    }
}

/// What the arguments ask for. Without any, that is a search. A flag that only a
/// run without questions takes is refused without `--yes`, not passed over.
pub fn run(args: Args) -> (r: Route)
    ensures
        routed(args, r),
{
    let flag = headless_flag_present(&args);
    let checked = headless_precondition(&args);
    match args.command {
        Some(Command::Qbt { action }) => return Route::Qbt(action),
        Some(Command::Search { query, proxy }) => return Route::Search { query, proxy },
        None => {},
    }
    match args.url {
        None => {
            if args.yes {
                return Route::Usage("缺少必需的参数：\n  <URL>".to_owned());
            }
            match flag {
                Some(f) => Route::Usage(concat(f, " 需要配合 --yes 使用（非交互模式）")),
                None => Route::Search { query: None, proxy: args.proxy },
            }
        },
        Some(url) => {
            if args.yes {
                return match checked {
                    Err(message) => Route::Usage(message),
                    Ok(_) => Route::Headless(
                        Unattended {
                            url,
                            proxy: args.proxy,
                            latest: args.latest,
                            filter: args.filter,
                            out: args.out,
                            url_list: args.url_list,
                            qbt: args.qbt,
                            category: args.category,
                        },
                    ),
                };
            }
            match flag {
                Some(f) => Route::Usage(concat(f, " 需要配合 --yes 使用（非交互模式）")),
                None => Route::Wizard { url, proxy: args.proxy },
            }
        },
    }
}

// ---------------------------------------------------------------------------
// Laws

/// A run without questions always knows what to select and where that goes.
pub proof fn law_headless_runs_are_complete(args: Args, r: Route)
    requires
        routed(args, r),
        r is Headless,
    ensures
        args.yes,
        selects(args),
        sends_somewhere(args),
        args.command is None,
{
}

/// A flag of a run without questions never opens a dialogue: without `--yes`
/// it is a usage error.
pub proof fn law_headless_flags_never_open_a_dialogue(args: Args, r: Route)
    requires
        routed(args, r),
        args.command is None,
        args.yes || headless_flag(args) is Some,
    ensures
        r is Headless || r is Usage,
{
}

/// Without any argument a search begins.
pub proof fn law_a_bare_run_searches(args: Args, r: Route)
    requires
        routed(args, r),
        args.command is None,
        args.url is None,
        !args.yes,
        headless_flag(args) is None,
    ensures
        r == (Route::Search { query: None, proxy: args.proxy }),
{
}

/// A run without questions has every argument as it was given.
pub proof fn law_headless_runs_keep_their_arguments(args: Args, r: Route)
    requires
        routed(args, r),
        args.command is None,
        args.url is Some,
        args.yes,
        args.all || args.latest is Some || args.filter is Some,
        args.out is Some || args.url_list is Some || args.qbt is Some,
    ensures
        r is Headless,
        r->Headless_0.url == args.url->0,
        r->Headless_0.proxy == args.proxy,
        r->Headless_0.latest == args.latest,
        r->Headless_0.filter == args.filter,
        r->Headless_0.out == args.out,
        r->Headless_0.url_list == args.url_list,
        r->Headless_0.qbt == args.qbt,
        r->Headless_0.category == args.category,
{
}

/// A run without questions that does not say what to select, or where that goes, is
/// a usage error that says what is missing; so is one without an address.
pub proof fn law_missing_arguments_are_told(args: Args, r: Route)
    requires
        routed(args, r),
        args.command is None,
        args.yes,
    ensures
        args.url is None ==> r is Usage && r->Usage_0@ == "缺少必需的参数：\n  <URL>"@,
        args.url is Some && !args.all && args.latest is None && args.filter is None ==> r is Usage
            && r->Usage_0@ == "请指定 --all、--latest 或 --filter"@,
        args.url is Some && (args.all || args.latest is Some || args.filter is Some)
            && args.out is None && args.url_list is None && args.qbt is None ==> r is Usage
            && r->Usage_0@ == "请至少指定 --out、--url-list、--qbt 之一"@,
{
}

/// Without `--yes` each flag of a run without questions is refused by its own name,
/// the first one where there are several.
pub proof fn law_flags_are_refused_by_name(args: Args, r: Route)
    requires
        routed(args, r),
        args.command is None,
        !args.yes,
    ensures
        args.all ==> r is Usage && r->Usage_0@ == "--all"@
            + " 需要配合 --yes 使用（非交互模式）"@,
        !args.all && args.latest is Some ==> r is Usage && r->Usage_0@ == "--latest"@
            + " 需要配合 --yes 使用（非交互模式）"@,
        !args.all && args.latest is None && args.filter is Some ==> r is Usage && r->Usage_0@
            == "--filter"@ + " 需要配合 --yes 使用（非交互模式）"@,
        !args.all && args.latest is None && args.filter is None && args.out is Some ==> r is Usage
            && r->Usage_0@ == "--out"@ + " 需要配合 --yes 使用（非交互模式）"@,
        !args.all && args.latest is None && args.filter is None && args.out is None
            && args.url_list is Some ==> r is Usage && r->Usage_0@ == "--url-list"@
            + " 需要配合 --yes 使用（非交互模式）"@,
        !args.all && args.latest is None && args.filter is None && args.out is None
            && args.url_list is None && args.qbt is Some ==> r is Usage && r->Usage_0@ == "--qbt"@
            + " 需要配合 --yes 使用（非交互模式）"@,
        !args.all && args.latest is None && args.filter is None && args.out is None
            && args.url_list is None && args.qbt is None && args.category is Some ==> r is Usage
            && r->Usage_0@ == "--category"@ + " 需要配合 --yes 使用（非交互模式）"@,
{
}

/// A subcommand is carried out as it was given. Without one, and without a flag, an
/// address leads to its dialogue and no address to a search, with the proxy as it
/// was given.
pub proof fn law_the_rest_goes_where_it_belongs(args: Args, r: Route)
    requires
        routed(args, r),
    ensures
        args.command matches Some(Command::Qbt { action }) ==> r == Route::Qbt(action),
        args.command matches Some(Command::Search { query, proxy }) ==> r == (Route::Search {
            query,
            proxy,
        }),
        args.command is None && !args.yes && !args.all && args.latest is None && args.filter is None
            && args.out is None && args.url_list is None && args.qbt is None
            && args.category is None ==> (args.url matches Some(url) ==> r == (Route::Wizard {
            url,
            proxy: args.proxy,
        })) && (args.url is None ==> r == (Route::Search { query: None, proxy: args.proxy })),
{
}

}
