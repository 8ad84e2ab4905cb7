use mikan::batch::Totals;
use mikan::cli::{QbtAction, Unattended};
use mikan::commands::{qbt_command, tell_no_profile, QbtCommand, QbtEvent, QbtNext};
use mikan::config::Config;
use mikan::display::Line;
use mikan::feed::{Episode, Feed};
use mikan::flow::{code_for, run_export_flow, tell_list, tell_totals, Flow, FlowAction, FlowEvent};
use mikan::headless::{headless, Headless, HeadlessAction, HeadlessEvent, Place};
use mikan::mikan::{Show, Subgroup};
use mikan::profiles::{ProfileMap, QbtProfile};
use mikan::prompts::{ExportFormat, GroupNav, Prompted, ShowChoice};
use mikan::qbt::{Answer, ConnectStep, QbtClient, QbtSetup, Reply};
use mikan::search::{search_flow, wizard, Search, SearchAction, SearchEvent};
use mikan::setup::{
    prompt_and_connect, prompt_profile, resolve_qbt, NewAction, NewConnection, NewEvent,
    ProfileAction, ProfilePrompt, Resolve, ResolveAction, ResolveEvent,
};

fn text(s: &str) -> String {
    s.to_string()
}

fn answer(s: &str) -> Prompted<String> {
    Prompted::Answered(text(s))
}

fn printed(lines: Vec<Line>) -> Vec<String> {
    lines
        .into_iter()
        .map(|l| match l {
            Line::Out(t) => format!("out {t}"),
            Line::Warning(t) => format!("err {t}"),
        })
        .collect()
}

fn episode(title: &str, date: &str) -> Episode {
    Episode {
        title: text(title),
        torrent_url: format!("http://x/{title}"),
        size: None,
        pub_date: Some(text(date)),
    }
}

fn feed(title: &str, episodes: Vec<Episode>) -> Feed {
    Feed { channel_title: text(title), episodes }
}

fn profile(endpoint: &str) -> QbtProfile {
    QbtProfile { endpoint: text(endpoint), username: text("u"), password: text("p") }
}

fn reply(status: u16, body: &str) -> Reply {
    Reply::Answered(Answer {
        status,
        status_text: format!("{status} Reason"),
        complaint: String::new(),
        cookies: vec![],
        body: Ok(text(body)),
    })
}

fn client(version: &str) -> QbtClient {
    let bypass =
        QbtProfile { endpoint: text("http://q"), username: text(""), password: text("") };
    let (state, _) = QbtClient::connect(&bypass);
    match state.step(reply(200, version)) {
        ConnectStep::Connected(client) => client,
        _ => panic!("expected a connection"),
    }
}

fn config(history: &[&str], names: &[&str]) -> Config {
    let mut map = ProfileMap::new();
    for name in names {
        map = map.insert(text(name), profile(&format!("http://{name}")));
    }
    Config { version: 1, path_history: history.iter().map(|p| text(p)).collect(), qbt: map }
}

// Search

fn shows() -> Vec<Show> {
    vec![Show { title: text("A"), id: 1 }, Show { title: text("B"), id: 2 }]
}

fn groups() -> Vec<Subgroup> {
    vec![Subgroup { name: text("X"), id: 597 }, Subgroup { name: text("Y"), id: 611 }]
}

#[test]
fn a_search_leads_to_the_feed_of_a_group() {
    let (s, step) = search_flow(Some(text("  dr.stone ")));
    assert!(matches!(step.action, SearchAction::Search { query } if query == "dr.stone"));
    let (s, step) = s.step(SearchEvent::Shows(Ok(shows())));
    match step.action {
        SearchAction::PickShow { options } => {
            let labels: Vec<String> = options.iter().map(|o| o.label()).collect();
            assert_eq!(labels, ["A", "B", "↻ 重新搜索"]);
        }
        _ => panic!("expected a choice"),
    }
    let pick = |i: usize| Prompted::Answered(ShowChoice::Pick(shows()[i].duplicate()));
    let (s, step) = s.step(SearchEvent::Picked(pick(0)));
    assert!(matches!(step.action, SearchAction::LoadGroups { id: 1 }));
    let (s, step) = s.step(SearchEvent::Groups(Ok(groups())));
    match step.action {
        SearchAction::PickGroup { options } => {
            let labels: Vec<String> = options.iter().map(|o| o.label()).collect();
            assert_eq!(labels, ["全部字幕组", "X", "Y", "← 返回上一步"]);
        }
        _ => panic!("expected a choice"),
    }
    // The way back offers the same shows without another search.
    let (s, step) = s.step(SearchEvent::Grouped(Prompted::Answered(GroupNav::Back)));
    assert!(matches!(&step.action, SearchAction::PickShow { options } if options.len() == 3));
    let (s, _) = s.step(SearchEvent::Picked(pick(1)));
    let (s, _) = s.step(SearchEvent::Groups(Ok(groups())));
    let group = Prompted::Answered(GroupNav::Group(groups()[0].duplicate()));
    let (s, step) = s.step(SearchEvent::Grouped(group));
    assert!(matches!(
        step.action,
        SearchAction::FetchFeed { url }
            if url == "https://mikanani.me/RSS/Bangumi?bangumiId=2&subgroupid=597"
    ));
    let (s, step) = s.step(SearchEvent::Fetched(Ok(feed("t", vec![episode("a", "1")]))));
    assert!(matches!(s, Search::Over));
    assert!(matches!(step.action, SearchAction::Export(f) if f.episodes.len() == 1));
}

#[test]
fn a_search_can_be_tried_again() {
    let (s, step) = search_flow(Some(text(" ")));
    assert!(matches!(step.action, SearchAction::AskQuery { initial: None }));
    let (s, step) = s.step(SearchEvent::Query(answer(" none ")));
    assert!(matches!(step.action, SearchAction::Search { query } if query == "none"));
    let (s, step) = s.step(SearchEvent::Shows(Ok(vec![])));
    assert_eq!(printed(step.lines), ["out 未找到与「none」匹配的番剧"]);
    assert!(matches!(step.action, SearchAction::AskQuery { initial: Some(q) } if q == "none"));
    let (s, _) = s.step(SearchEvent::Query(answer("more")));
    let (s, _) = s.step(SearchEvent::Shows(Ok(shows())));
    let (s, step) = s.step(SearchEvent::Picked(Prompted::Answered(ShowChoice::SearchAgain)));
    assert!(step.lines.is_empty());
    assert!(matches!(step.action, SearchAction::AskQuery { initial: Some(q) } if q == "more"));
    let (s, step) = s.step(SearchEvent::Query(Prompted::Interrupted));
    assert!(matches!(s, Search::Over));
    assert_eq!(printed(step.lines), ["out 已取消"]);
    assert!(matches!(step.action, SearchAction::Finish(0)));
}

#[test]
fn a_single_group_is_not_asked_for() {
    let at_groups = || {
        let (s, _) = search_flow(Some(text("q")));
        let (s, _) = s.step(SearchEvent::Shows(Ok(shows())));
        let pick = Prompted::Answered(ShowChoice::Pick(shows()[0].duplicate()));
        s.step(SearchEvent::Picked(pick)).0
    };
    let url = |found: Vec<Subgroup>| match at_groups().step(SearchEvent::Groups(Ok(found))).1.action {
        SearchAction::FetchFeed { url } => url,
        _ => panic!("expected a feed"),
    };
    assert_eq!(url(vec![]), "https://mikanani.me/RSS/Bangumi?bangumiId=1");
    assert_eq!(
        url(vec![groups()[1].duplicate()]),
        "https://mikanani.me/RSS/Bangumi?bangumiId=1&subgroupid=611"
    );
}

#[test]
fn a_search_that_fails_tells_why() {
    let failure = |s: Search, e: SearchEvent| match s.step(e).1.action {
        SearchAction::Fail(m) => m,
        _ => panic!("expected an error"),
    };
    let start = || search_flow(Some(text("q"))).0;
    assert_eq!(failure(start(), SearchEvent::Shows(Err(text("404")))), "404");
    assert!(failure(start(), SearchEvent::Shows(Err(text("dns")))).contains("检查代理"));
    assert!(failure(wizard("http://x").0, SearchEvent::Fetched(Err(text("tls")))).ends_with(": tls"));
    assert_eq!(
        failure(wizard("http://x").0, SearchEvent::Fetched(Ok(feed("空", vec![])))),
        "订阅「空」中没有剧集"
    );
    assert_eq!(
        failure(search_flow(None).0, SearchEvent::Query(Prompted::Broken(text("no tty")))),
        "获取搜索关键词: no tty"
    );
    let (s, step) = wizard("http://x").0.step(SearchEvent::Query(answer("q")));
    assert!(matches!(step.action, SearchAction::Ignored));
    assert!(matches!(s, Search::Fetching));
}

// Profiles

#[test]
fn a_profile_is_asked_for() {
    let (s, a) = prompt_profile(None);
    assert!(matches!(a, ProfileAction::AskEndpoint { initial } if initial == "http://127.0.0.1:8080"));
    let (s, a) = s.step(answer(" http://q:1// "));
    assert!(matches!(a, ProfileAction::AskUsername { initial } if initial.is_empty()));
    let (s, a) = s.step(answer(" admin "));
    assert!(matches!(a, ProfileAction::AskPassword));
    let (s, a) = s.step(answer(" p w "));
    match a {
        ProfileAction::Done(p) => {
            assert_eq!((p.endpoint, p.username, p.password), (text("http://q:1"), text("admin"), text(" p w ")));
        }
        _ => panic!("expected a profile"),
    }
    assert!(matches!(s.step(answer("x")).1, ProfileAction::Ignored));
}

#[test]
fn a_profile_without_a_user_has_no_password() {
    let known = profile("http://known");
    let (s, a) = prompt_profile(Some(&known));
    assert!(matches!(a, ProfileAction::AskEndpoint { initial } if initial == "http://known"));
    let (s, a) = s.step(answer("http://q"));
    assert!(matches!(a, ProfileAction::AskUsername { initial } if initial == "u"));
    match s.step(answer("  ")).1 {
        ProfileAction::Done(p) => {
            assert_eq!((p.endpoint, p.username, p.password), (text("http://q"), text(""), text("")));
        }
        _ => panic!("expected a profile"),
    }
    let (s, _) = prompt_profile(None);
    assert!(matches!(s.step(Prompted::Skipped), (ProfilePrompt::Over, ProfileAction::Cancelled)));
    let (s, _) = prompt_profile(None);
    let failed = s.step(Prompted::Broken(text("x"))).1;
    assert!(matches!(failed, ProfileAction::Fail(m) if m == "获取qBittorrent 地址: x"));
}

#[test]
fn a_profile_that_does_not_connect_is_asked_for_again() {
    let (s, a) = prompt_and_connect(None);
    assert!(matches!(a, NewAction::PromptProfile { prefill: None }));
    let (s, step) = s.step(NewEvent::Profile(Ok(Some(profile("http://typo")))));
    assert!(matches!(step.action, NewAction::Connect { profile } if profile.endpoint == "http://typo"));
    let (s, step) = s.step(NewEvent::Connected(Err(text("refused"))));
    assert_eq!(printed(step.lines), ["err 错误：refused"]);
    assert!(matches!(
        step.action,
        NewAction::PromptProfile { prefill: Some(p) } if p.endpoint == "http://typo" && p.password == "p"
    ));
    let (s, _) = s.step(NewEvent::Profile(Ok(Some(profile("http://right")))));
    let (s, step) = s.step(NewEvent::Connected(Ok(client("v5"))));
    assert_eq!(printed(step.lines), ["out 已连接 —— qBittorrent v5"]);
    assert!(matches!(
        step.action,
        NewAction::Done { client, profile } if client.version() == "v5" && profile.endpoint == "http://right"
    ));
    assert!(matches!(s, NewConnection::Over));
    let (s, _) = prompt_and_connect(Some(profile("x")));
    assert!(matches!(s.step(NewEvent::Profile(Ok(None))).1.action, NewAction::Cancelled));
    let (s, _) = prompt_and_connect(None);
    assert!(matches!(
        s.step(NewEvent::Profile(Err(text("m")))).1.action,
        NewAction::Fail(m) if m == "m"
    ));
}

#[test]
fn a_new_profile_is_named_and_kept() {
    let (s, step) = resolve_qbt(&ProfileMap::new(), "A / B");
    assert_eq!(printed(step.lines), ["out 尚未配置 qBittorrent，现在来设置一个"]);
    assert!(matches!(step.action, ResolveAction::PromptAndConnect));
    let (s, step) = s.step(ResolveEvent::Created(Ok(Some((client("v5"), profile("http://n"))))));
    assert!(matches!(step.action, ResolveAction::AskSave));
    let (s, step) = s.step(ResolveEvent::Save(Prompted::Answered(true)));
    assert!(matches!(step.action, ResolveAction::AskName { initial } if initial == "default"));
    let (s, step) = s.step(ResolveEvent::Name(answer(" home ")));
    assert!(matches!(step.action, ResolveAction::AskCategory { initial } if initial == "A ⁄ B"));
    match s.step(ResolveEvent::Category(answer(" c "))).1.action {
        ResolveAction::Done(setup) => {
            assert_eq!(setup.category, "c");
            let (name, kept) = setup.save_as.unwrap();
            assert_eq!((name.as_str(), kept.endpoint.as_str()), ("home", "http://n"));
        }
        _ => panic!("expected a setup"),
    }
    let (s, _) = resolve_qbt(&ProfileMap::new(), "...");
    let (s, _) = s.step(ResolveEvent::Created(Ok(Some((client("v5"), profile("http://n"))))));
    let (s, step) = s.step(ResolveEvent::Save(Prompted::Answered(false)));
    assert!(matches!(step.action, ResolveAction::AskCategory { initial } if initial == "mikan"));
    match s.step(ResolveEvent::Category(answer("c"))).1.action {
        ResolveAction::Done(setup) => assert!(setup.save_as.is_none()),
        _ => panic!("expected a setup"),
    }
}

#[test]
fn a_saved_profile_can_be_retried() {
    let one = config(&[], &["only"]).qbt;
    let (s, step) = resolve_qbt(&one, "t");
    assert_eq!(printed(step.lines), ["out 使用 qBittorrent 配置「only」"]);
    assert!(matches!(step.action, ResolveAction::Connect { profile } if profile.endpoint == "http://only"));
    let (s, step) = s.step(ResolveEvent::Connected(Err(text("refused"))));
    assert_eq!(printed(step.lines), ["err 错误：refused"]);
    assert!(matches!(step.action, ResolveAction::AskRetry));
    let (s, step) = s.step(ResolveEvent::Retry(Prompted::Answered(true)));
    assert!(matches!(step.action, ResolveAction::Connect { profile } if profile.endpoint == "http://only"));
    let (s, _) = s.step(ResolveEvent::Connected(Err(text("refused"))));
    let (s, step) = s.step(ResolveEvent::Retry(Prompted::Answered(false)));
    assert!(matches!((s, step.action), (Resolve::Over, ResolveAction::Cancelled)));

    let two = config(&[], &["b", "a"]).qbt;
    let (s, step) = resolve_qbt(&two, "t");
    assert!(matches!(step.action, ResolveAction::Choose { names } if names == ["a", "b"]));
    let (s, step) = s.step(ResolveEvent::Chosen(answer("no such")));
    assert!(matches!(step.action, ResolveAction::Ignored));
    let (s, step) = s.step(ResolveEvent::Chosen(answer("b")));
    assert!(matches!(step.action, ResolveAction::Connect { profile } if profile.endpoint == "http://b"));
    let (s, step) = s.step(ResolveEvent::Connected(Ok(client("v5"))));
    assert_eq!(printed(step.lines), ["out 已连接 —— qBittorrent v5"]);
    let (_, step) = s.step(ResolveEvent::Category(Prompted::Skipped));
    assert!(matches!(step.action, ResolveAction::Cancelled));
}

// Export

fn at_formats(home: Option<&str>) -> Flow {
    let feed = feed("石纪元", vec![episode("old", "1"), episode("new", "2")]);
    let (s, step) = run_export_flow(feed, home.map(text));
    match step.action {
        FlowAction::PickEpisodes { title, rows } => {
            assert_eq!(title, "石纪元");
            assert_eq!(rows.iter().map(|r| r.0.title.as_str()).collect::<Vec<_>>(), ["new", "old"]);
        }
        _ => panic!("expected a choice"),
    }
    let picked = vec![episode("new", "2"), episode("old", "1")];
    let (s, step) = s.step(FlowEvent::Episodes(Prompted::Answered(picked)));
    assert!(matches!(step.action, FlowAction::PickFormats { options } if options.len() == 3));
    s
}

fn with_formats(formats: &[ExportFormat], config: Config) -> (Flow, FlowAction) {
    let s = at_formats(Some("/home/u"));
    let (s, step) = s.step(FlowEvent::Formats(Prompted::Answered(formats.to_vec())));
    assert!(matches!(step.action, FlowAction::LoadConfig));
    let (s, step) = s.step(FlowEvent::Loaded(Ok(config)));
    assert!(step.lines.is_empty());
    (s, step.action)
}

fn totals(downloaded: u32, skipped: u32, failed: u32, qbt_added: u32, qbt_failed: u32) -> Totals {
    Totals { downloaded, skipped, failed, qbt_added, qbt_failed }
}

#[test]
fn files_and_a_list_are_exported() {
    let formats = [ExportFormat::TorrentFiles, ExportFormat::UrlList];
    let (s, action) = with_formats(&formats, config(&["/last"], &[]));
    assert!(matches!(
        action,
        FlowAction::AskPath { initial, history } if initial == "/last" && history == ["/last"]
    ));
    let (s, step) = s.step(FlowEvent::Path(answer(" ~/bad ")));
    assert!(matches!(step.action, FlowAction::MakeDir { dir } if dir == "/home/u/bad"));
    let (s, step) = s.step(FlowEvent::Made(Err(text("denied"))));
    assert_eq!(printed(step.lines), ["err 无法使用 /home/u/bad：denied"]);
    assert!(matches!(step.action, FlowAction::AskPath { initial, .. } if initial == "~/bad"));
    let (s, _) = s.step(FlowEvent::Path(answer("/good")));
    let (s, step) = s.step(FlowEvent::Made(Ok(())));
    match step.action {
        FlowAction::Run { episodes, dir, qbt } => {
            assert_eq!(episodes.len(), 2);
            assert_eq!(dir.as_deref(), Some("/good"));
            assert!(qbt.is_none());
        }
        _ => panic!("expected the work"),
    }
    let (s, step) = s.step(FlowEvent::Ran(totals(1, 1, 0, 0, 0)));
    assert_eq!(printed(step.lines), ["out 已下载 1，已跳过 1，失败 0"]);
    match step.action {
        FlowAction::WriteList(list) => {
            assert_eq!(
                (list.dir.as_str(), list.filename.as_str(), list.body.as_str()),
                ("/good", "石纪元.txt", "http://x/new\nhttp://x/old\n")
            );
        }
        _ => panic!("expected a list"),
    }
    let (s, step) = s.step(FlowEvent::Listed(Ok(text("/good/石纪元.txt"))));
    assert_eq!(printed(step.lines), ["out URL 列表已写入 /good/石纪元.txt"]);
    match step.action {
        FlowAction::SaveConfig(c) => assert_eq!(c.path_history, ["/good", "/last"]),
        _ => panic!("expected to remember the path"),
    }
    let (s, step) = s.step(FlowEvent::Saved(Err(text("full"))));
    assert_eq!(printed(step.lines), ["err 警告：无法保存路径历史：full"]);
    assert!(matches!((s, step.action), (Flow::Over, FlowAction::Finish(0))));
}

#[test]
fn torrents_are_exported_to_qbittorrent() {
    let (s, action) = with_formats(&[ExportFormat::Qbt], config(&[], &["saved"]));
    match action {
        FlowAction::ResolveQbt { saved, title } => {
            assert_eq!(saved.names(), ["saved"]);
            assert_eq!(title, "石纪元");
        }
        _ => panic!("expected a choice of qBittorrent"),
    }
    let setup = QbtSetup {
        client: client("v5"),
        category: text("c"),
        save_as: Some((text("new"), profile("http://new"))),
    };
    let (s, step) = s.step(FlowEvent::Resolved(Ok(Some(setup))));
    match step.action {
        FlowAction::SaveConfig(c) => {
            assert_eq!(c.qbt.names(), ["new", "saved"]);
            assert_eq!(c.qbt.get("new").unwrap().endpoint, "http://new");
        }
        _ => panic!("expected to keep the profile"),
    }
    let (s, step) = s.step(FlowEvent::Saved(Ok(())));
    assert_eq!(printed(step.lines), ["out 配置「new」已保存"]);
    assert!(matches!(
        step.action,
        FlowAction::Send(r) if r.url == "http://q/api/v2/torrents/createCategory"
    ));
    let (s, step) = s.step(FlowEvent::Replied(reply(409, "")));
    assert!(matches!(
        step.action,
        FlowAction::Run { dir: None, qbt: Some(q), .. } if q.category == "c"
    ));
    let (s, step) = s.step(FlowEvent::Ran(totals(0, 0, 0, 1, 1)));
    assert_eq!(printed(step.lines), ["out 已添加到 qBittorrent 1，失败 1"]);
    assert!(matches!((s, step.action), (Flow::Over, FlowAction::Finish(1))));
}

#[test]
fn an_export_that_is_given_up_or_fails() {
    let action = |s: Flow, e: FlowEvent| s.step(e).1;
    let start = || run_export_flow(feed("t", vec![episode("a", "1")]), None).0;
    let step = action(start(), FlowEvent::Episodes(Prompted::Answered(vec![])));
    assert_eq!(printed(step.lines), ["out 未选择任何内容"]);
    assert!(matches!(step.action, FlowAction::Finish(0)));
    let step = action(start(), FlowEvent::Episodes(Prompted::Skipped));
    assert_eq!(printed(step.lines), ["out 已取消"]);
    assert!(matches!(step.action, FlowAction::Finish(0)));
    let step = action(start(), FlowEvent::Episodes(Prompted::Broken(text("x"))));
    assert!(matches!(step.action, FlowAction::Fail(m) if m == "显示剧集选择器: x"));
    let step = action(at_formats(None), FlowEvent::Formats(Prompted::Interrupted));
    assert!(matches!(step.action, FlowAction::Finish(0)));
    let (s, _) = at_formats(None).step(FlowEvent::Formats(Prompted::Answered(vec![])));
    let step = action(s, FlowEvent::Loaded(Err(text("too new"))));
    assert!(matches!(step.action, FlowAction::Fail(m) if m == "too new"));
    let (s, action_) = with_formats(&[ExportFormat::UrlList], config(&[], &[]));
    assert!(matches!(action_, FlowAction::AskPath { initial, .. } if initial == "."));
    assert!(matches!(action(s, FlowEvent::Path(Prompted::Skipped)).action, FlowAction::Finish(0)));
    let resolving = || with_formats(&[ExportFormat::Qbt], config(&[], &[])).0;
    let step = action(resolving(), FlowEvent::Resolved(Ok(None)));
    assert_eq!(printed(step.lines), ["out 已取消"]);
    let step = action(resolving(), FlowEvent::Resolved(Err(text("m"))));
    assert!(matches!(step.action, FlowAction::Fail(m) if m == "m"));
    let setup = || QbtSetup { client: client("v5"), category: text("c"), save_as: None };
    let (s, step) = resolving().step(FlowEvent::Resolved(Ok(Some(setup()))));
    assert!(matches!(step.action, FlowAction::Send(_)));
    let step = action(s, FlowEvent::Replied(reply(400, "")));
    assert!(matches!(
        step.action,
        FlowAction::Fail(m) if m == "creating qBittorrent category \"c\" failed: HTTP 400 Reason"
    ));
    let mut keep = setup();
    keep.save_as = Some((text("n"), profile("http://n")));
    let (s, _) = resolving().step(FlowEvent::Resolved(Ok(Some(keep))));
    let step = action(s, FlowEvent::Saved(Err(text("full"))));
    assert_eq!(printed(step.lines), ["err 警告：无法保存 qBittorrent 配置：full"]);
    assert!(matches!(step.action, FlowAction::Send(_)));
    assert!(matches!(action(start(), FlowEvent::Made(Ok(()))).action, FlowAction::Ignored));
}

#[test]
fn a_list_that_fails_is_a_failure() {
    let (s, _) = with_formats(&[ExportFormat::UrlList], config(&[], &[]));
    let (s, _) = s.step(FlowEvent::Path(answer("/d")));
    let (s, step) = s.step(FlowEvent::Made(Ok(())));
    assert!(matches!(step.action, FlowAction::Run { dir: None, qbt: None, .. }));
    let (s, step) = s.step(FlowEvent::Ran(totals(0, 0, 0, 0, 0)));
    assert!(step.lines.is_empty());
    let (_, step) = s.step(FlowEvent::Listed(Err(text("full"))));
    assert_eq!(printed(step.lines), ["err 失败           URL 列表：full"]);
    // Nothing came to the directory, so it is not remembered.
    assert!(matches!(step.action, FlowAction::Finish(1)));
}

#[test]
fn totals_are_told() {
    assert!(tell_totals(false, false, totals(1, 2, 3, 4, 5)).is_empty());
    assert_eq!(
        printed(tell_totals(true, true, totals(1, 2, 3, 4, 5))),
        ["out 已下载 1，已跳过 2，失败 3", "out 已添加到 qBittorrent 4，失败 5"]
    );
    assert_eq!(printed(tell_list(&Ok(text("/x")))), ["out URL 列表已写入 /x"]);
    assert_eq!(code_for(totals(9, 9, 0, 9, 0), false), 0);
    assert_eq!(code_for(totals(0, 0, 1, 0, 0), false), 1);
    assert_eq!(code_for(totals(0, 0, 0, 0, 1), false), 1);
    assert_eq!(code_for(totals(0, 0, 0, 0, 0), true), 1);
}

// Without questions

fn unattended() -> Unattended {
    Unattended {
        url: text("http://x/rss"),
        proxy: None,
        latest: None,
        filter: None,
        out: None,
        url_list: None,
        qbt: None,
        category: None,
    }
}

fn two() -> Feed {
    feed("石纪元", vec![episode("old 1080p", "1"), episode("new 720p", "2")])
}

#[test]
fn a_run_without_questions_does_everything() {
    let args = Unattended {
        filter: Some(text("1080P")),
        out: Some(text("/o")),
        url_list: Some(text("/l")),
        qbt: Some(text("seedbox")),
        ..unattended()
    };
    let (s, step) = headless(args);
    assert!(matches!(step.action, HeadlessAction::FetchFeed { url } if url == "http://x/rss"));
    let (s, step) = s.step(HeadlessEvent::Fetched(Ok(two())));
    assert_eq!(printed(step.lines), ["out 已选择 1 集"]);
    assert!(matches!(step.action, HeadlessAction::LoadConfig));
    let (s, step) = s.step(HeadlessEvent::Loaded(Ok(config(&[], &["seedbox"]))));
    assert!(matches!(
        step.action,
        HeadlessAction::Connect { profile } if profile.endpoint == "http://seedbox"
    ));
    let (s, step) = s.step(HeadlessEvent::Connected(Ok(client("v5"))));
    assert_eq!(printed(step.lines), ["out 已连接 —— qBittorrent v5"]);
    assert!(matches!(step.action, HeadlessAction::Send(_)));
    let (s, step) = s.step(HeadlessEvent::Replied(reply(200, "")));
    assert!(matches!(step.action, HeadlessAction::MakeDir { place: Place::Out }));
    let (s, step) = s.step(HeadlessEvent::Made(Ok(())));
    assert!(matches!(step.action, HeadlessAction::MakeDir { place: Place::UrlList }));
    let (s, step) = s.step(HeadlessEvent::Made(Ok(())));
    match step.action {
        HeadlessAction::Run { episodes, to_disk, qbt } => {
            assert_eq!(episodes.len(), 1);
            assert_eq!(episodes[0].title, "old 1080p");
            assert!(to_disk);
            assert_eq!(qbt.unwrap().category, "石纪元");
        }
        _ => panic!("expected the work"),
    }
    let (s, step) = s.step(HeadlessEvent::Ran(totals(1, 0, 0, 1, 0)));
    assert_eq!(
        printed(step.lines),
        ["out 已下载 1，已跳过 0，失败 0", "out 已添加到 qBittorrent 1，失败 0"]
    );
    assert!(matches!(
        step.action,
        HeadlessAction::WriteList(l) if l.filename == "石纪元.txt" && l.body == "http://x/old 1080p\n"
    ));
    let (s, step) = s.step(HeadlessEvent::Listed(Err(text("full"))));
    assert_eq!(printed(step.lines), ["err 失败           URL 列表：full"]);
    assert!(matches!((s, step.action), (Headless::Over, HeadlessAction::Finish(1))));
}

#[test]
fn a_run_without_questions_can_be_small() {
    let args = Unattended { latest: Some(1), out: Some(text("/o")), ..unattended() };
    let (s, step) = headless(args).0.step(HeadlessEvent::Fetched(Ok(two())));
    assert!(matches!(step.action, HeadlessAction::MakeDir { place: Place::Out }));
    assert_eq!(printed(step.lines), ["out 已选择 1 集"]);
    let (s, step) = s.step(HeadlessEvent::Made(Ok(())));
    assert!(matches!(
        step.action,
        HeadlessAction::Run { episodes, to_disk: true, qbt: None } if episodes[0].title == "new 720p"
    ));
    let (_, step) = s.step(HeadlessEvent::Ran(totals(0, 0, 1, 0, 0)));
    assert!(matches!(step.action, HeadlessAction::Finish(1)));

    let args = Unattended { qbt: Some(text("q")), category: Some(text("K")), ..unattended() };
    let (s, _) = headless(args).0.step(HeadlessEvent::Fetched(Ok(two())));
    let (s, _) = s.step(HeadlessEvent::Loaded(Ok(config(&[], &["q"]))));
    let (s, _) = s.step(HeadlessEvent::Connected(Ok(client("v5"))));
    let (_, step) = s.step(HeadlessEvent::Replied(reply(200, "")));
    assert!(matches!(
        step.action,
        HeadlessAction::Run { to_disk: false, qbt: Some(q), .. } if q.category == "K"
    ));
}

#[test]
fn a_run_without_questions_that_ends_early() {
    let fetched = |args: Unattended, r: Result<Feed, String>| {
        headless(args).0.step(HeadlessEvent::Fetched(r)).1
    };
    let step = fetched(unattended(), Ok(feed("空", vec![])));
    assert!(matches!(step.action, HeadlessAction::Fail(m) if m == "订阅「空」中没有剧集"));
    let step = fetched(unattended(), Err(text("timed out")));
    assert!(matches!(step.action, HeadlessAction::Fail(m) if m.contains("检查代理")));
    let step = fetched(Unattended { filter: Some(text("2160p")), ..unattended() }, Ok(two()));
    assert_eq!(printed(step.lines), ["out 没有匹配的剧集"]);
    assert!(matches!(step.action, HeadlessAction::Finish(0)));

    let args = || Unattended { qbt: Some(text("none")), ..unattended() };
    let loaded = |r: Result<Config, String>| {
        let (s, _) = headless(args()).0.step(HeadlessEvent::Fetched(Ok(two())));
        match s.step(HeadlessEvent::Loaded(r)).1.action {
            HeadlessAction::Fail(m) => m,
            _ => panic!("expected an error"),
        }
    };
    assert_eq!(loaded(Err(text("too new"))), "too new");
    assert_eq!(
        loaded(Ok(config(&[], &[]))),
        "没有名为「none」的配置 —— 使用 mikan qbt set 添加"
    );
    assert_eq!(
        loaded(Ok(config(&[], &["b", "a"]))),
        "没有名为「none」的配置 —— 已保存的配置：a, b"
    );
    let (s, _) = headless(args()).0.step(HeadlessEvent::Fetched(Ok(two())));
    let (s, _) = s.step(HeadlessEvent::Loaded(Ok(config(&[], &["none"]))));
    let step = s.step(HeadlessEvent::Connected(Err(text("refused")))).1;
    assert!(matches!(step.action, HeadlessAction::Fail(m) if m == "refused"));

    let args = Unattended { url_list: Some(text("/l")), ..unattended() };
    let (s, step) = headless(args).0.step(HeadlessEvent::Fetched(Ok(two())));
    assert!(matches!(step.action, HeadlessAction::MakeDir { place: Place::UrlList }));
    let (s, step) = s.step(HeadlessEvent::Ran(totals(0, 0, 0, 0, 0)));
    assert!(matches!(step.action, HeadlessAction::Ignored));
    let step = s.step(HeadlessEvent::Made(Err(text("denied")))).1;
    assert!(matches!(step.action, HeadlessAction::Fail(m) if m == "创建 /l: denied"));
}

// Commands

fn begun(action: QbtAction, config: Config) -> (QbtCommand, Vec<String>, QbtNext) {
    let (s, step) = qbt_command(action);
    assert!(matches!(step.next, QbtNext::LoadConfig));
    let (s, step) = s.step(QbtEvent::Loaded(Ok(config)));
    (s, printed(step.lines), step.next)
}

fn error(next: QbtNext) -> String {
    match next {
        QbtNext::Fail(m) => m,
        _ => panic!("expected an error"),
    }
}

#[test]
fn a_profile_is_created_and_updated() {
    let (s, _, next) = begun(QbtAction::Save { name: None }, config(&["/a"], &["default"]));
    assert!(matches!(
        next,
        QbtNext::PromptAndConnect { initial: Some(p) } if p.endpoint == "http://default"
    ));
    let made = Ok(Some((client("v5"), profile("http://new"))));
    let (s, step) = s.step(QbtEvent::Created(made));
    match step.next {
        QbtNext::SaveConfig(c) => {
            assert_eq!(c.qbt.names(), ["default"]);
            assert_eq!(c.qbt.get("default").unwrap().endpoint, "http://new");
            assert_eq!(c.path_history, ["/a"]);
        }
        _ => panic!("expected to save"),
    }
    let (s, step) = s.step(QbtEvent::Saved(Ok(())));
    assert_eq!(printed(step.lines), ["out 配置「default」已保存"]);
    assert!(matches!((s, step.next), (QbtCommand::Over, QbtNext::Finish(0))));

    let save = |name: &str| begun(QbtAction::Save { name: Some(text(name)) }, config(&[], &[]));
    assert_eq!(error(save(" ").2), "配置名称不能为空");
    let (s, _, next) = save(" home ");
    assert!(matches!(next, QbtNext::PromptAndConnect { initial: None }));
    let (_, step) = s.step(QbtEvent::Created(Ok(None)));
    assert_eq!(printed(step.lines), ["out 已取消"]);
    assert!(matches!(step.next, QbtNext::Finish(0)));
    let (s, _, _) = save("home");
    assert_eq!(error(s.step(QbtEvent::Created(Err(text("m")))).1.next), "m");
    let (s, _, _) = save("home");
    let (s, _) = s.step(QbtEvent::Created(Ok(Some((client("v5"), profile("http://n"))))));
    assert_eq!(error(s.step(QbtEvent::Saved(Err(text("full")))).1.next), "保存配置: full");
}

#[test]
fn profiles_are_listed_in_order() {
    let mut c = config(&[], &["b", "a"]);
    c.qbt = c.qbt.insert(
        text("c"),
        QbtProfile { endpoint: text("http://c"), username: text(""), password: text("") },
    );
    let (_, lines, next) = begun(QbtAction::List, c);
    assert_eq!(lines, ["out a: http://a u", "out b: http://b u", "out c: http://c （免认证）"]);
    assert!(matches!(next, QbtNext::Finish(0)));
    let (_, lines, _) = begun(QbtAction::List, config(&[], &[]));
    assert_eq!(lines, ["out 暂无配置 —— 使用 mikan qbt set 添加"]);
}

#[test]
fn a_profile_is_removed() {
    let remove = |name: &str, c: Config| begun(QbtAction::Remove { name: text(name) }, c);
    let (s, _, next) = remove(" a ", config(&[], &["a", "b"]));
    assert!(matches!(next, QbtNext::SaveConfig(c) if c.qbt.names() == ["b"]));
    let (_, step) = s.step(QbtEvent::Saved(Ok(())));
    assert_eq!(printed(step.lines), ["out 配置「a」已删除"]);
    assert_eq!(error(remove(" ", config(&[], &["a"])).2), "配置名称不能为空");
    assert_eq!(
        error(remove("x", config(&[], &[])).2),
        "没有名为「x」的配置 —— 暂无已保存的配置"
    );
    assert_eq!(
        error(remove("x", config(&[], &["a", "b"])).2),
        "没有名为「x」的配置 —— 已保存的配置：a, b"
    );
    let (s, _, _) = remove("a", config(&[], &["a"]));
    assert_eq!(error(s.step(QbtEvent::Saved(Err(text("full")))).1.next), "保存配置: full");
}

#[test]
fn a_profile_is_tested() {
    let test = |name: Option<&str>, c: Config| begun(QbtAction::Test { name: name.map(text) }, c);
    let (s, _, next) = test(None, config(&[], &["default"]));
    assert!(matches!(next, QbtNext::Connect { profile } if profile.endpoint == "http://default"));
    let (_, step) = s.step(QbtEvent::Connected(Ok(client("v5"))));
    assert_eq!(printed(step.lines), ["out 已连接 —— qBittorrent v5 @ http://default"]);
    assert!(matches!(step.next, QbtNext::Finish(0)));
    let (s, _, _) = test(None, config(&[], &["default"]));
    assert_eq!(error(s.step(QbtEvent::Connected(Err(text("refused")))).1.next), "refused");
    assert_eq!(error(test(Some(""), config(&[], &[])).2), "配置名称不能为空");
    assert_eq!(
        error(test(Some("x"), config(&[], &[])).2),
        "没有名为「x」的配置 —— 使用 mikan qbt set 添加"
    );
    assert_eq!(
        tell_no_profile("x", &config(&[], &["a"]).qbt),
        "没有名为「x」的配置 —— 已保存的配置：a"
    );
    let (s, _) = qbt_command(QbtAction::List);
    let (s, step) = s.step(QbtEvent::Saved(Ok(())));
    assert!(matches!(step.next, QbtNext::Ignored));
    assert_eq!(error(s.step(QbtEvent::Loaded(Err(text("too new")))).1.next), "too new");
}
