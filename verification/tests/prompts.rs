use mikan::cli::{
    headless_flag_present, headless_precondition, run, Args, Command, QbtAction, Route,
};
use mikan::mikan::{Show, Subgroup};
use mikan::prompts::{
    add_proxy_hint, check_endpoint, check_filled, check_formats, default_category, expand_tilde,
    format_options, formats_summary, hint_for, keep_matching, profile_name_or_default, rss_url, subgroup_choice,
    take_or_cancel, ExportFormat, GroupNav, PathAutocomplete, Prompted, ShowChoice,
    SubgroupChoice,
};
use mikan::proxy::{check_proxy, refuse_proxy};

fn args() -> Args {
    Args {
        command: None,
        url: None,
        proxy: None,
        yes: false,
        all: false,
        latest: None,
        filter: None,
        out: None,
        url_list: None,
        qbt: None,
        category: None,
    }
}

fn some(s: &str) -> Option<String> {
    Some(s.to_string())
}

#[test]
fn build_client_rejects_bad_proxy() {
    let e = check_proxy(Some("not a url")).unwrap_err();
    assert!(e.starts_with("无效的 --proxy 地址: "), "{e}");
}

#[test]
fn build_client_accepts_http_proxy() {
    assert!(check_proxy(Some("http://127.0.0.1:7890")).is_ok());
    assert!(check_proxy(None).is_ok());
    assert!(refuse_proxy(None).is_ok());
    assert_eq!(refuse_proxy(some("x")).unwrap_err(), "无效的 --proxy 地址: x");
}

#[test]
fn proxy_hint_added_for_gateway_errors() {
    let hinted = add_proxy_hint("HTTP status server error (502 Bad Gateway) for url (http://x/)");
    assert!(hinted.contains("检查代理"), "was: {hinted}");
}

#[test]
fn proxy_hint_added_for_connect_errors() {
    let hinted = add_proxy_hint("error sending request: connection refused");
    assert!(hinted.contains("检查代理"), "was: {hinted}");
}

#[test]
fn no_proxy_hint_for_plain_http_404() {
    let hinted = add_proxy_hint(
        "HTTP status client error (404 Not Found) for url (https://mikanani.me/RSS/x)",
    );
    assert!(!hinted.contains("检查代理"), "was: {hinted}");
    assert_eq!(
        hinted,
        "HTTP status client error (404 Not Found) for url (https://mikanani.me/RSS/x)"
    );
}

#[test]
fn the_hint_comes_for_each_sign() {
    let hint = "无法访问订阅 —— mikanani.me 常被 DNS 污染；请检查代理（--proxy http://host:port、HTTPS_PROXY 或系统代理）";
    for sign in [
        "CERTIFICATE", "Tls", "sSl", "Connect", "Timed Out", "DNS", "Bad Gateway",
        "Gateway Timeout", "Proxy",
    ] {
        let error = format!("a {sign} b");
        assert_eq!(add_proxy_hint(&error), format!("{hint}: {error}"));
        assert_eq!(hint_for("X", &error.to_lowercase()), format!("{hint}: X"));
    }
    assert_eq!(hint_for("X", "a Proxy b"), "X");
}

#[test]
fn autocomplete_filters_history_case_insensitively() {
    let ac = PathAutocomplete {
        history: vec!["/Users/alisa/Downloads".to_string(), "/tmp/other".to_string()],
    };
    assert_eq!(ac.get_suggestions("down"), vec!["/Users/alisa/Downloads".to_string()]);
    assert_eq!(ac.get_suggestions("").len(), 2);
    let lower = vec!["x".to_string(), "yx".to_string()];
    assert_eq!(keep_matching(&ac.history, &lower, "y"), ["/tmp/other"]);
}

#[test]
fn autocomplete_completion_fills_highlighted_suggestion() {
    let ac = PathAutocomplete { history: vec![] };
    assert_eq!(ac.get_completion("x", some("/a/b")), some("/a/b"));
    assert_eq!(ac.get_completion("x", None), None);
}

#[test]
fn expand_tilde_expands_home_prefix() {
    let home = "/home/u";
    assert_eq!(expand_tilde("~/x", Some(home)), format!("{home}/x"));
    assert_eq!(expand_tilde("~", Some(home)), home);
    assert_eq!(expand_tilde("/abs/x", Some(home)), "/abs/x");
    assert_eq!(expand_tilde("rel/x", Some(home)), "rel/x");
    assert_eq!(expand_tilde("~u/x", Some(home)), "~u/x");
    assert_eq!(expand_tilde("~", None), "~");
    assert_eq!(expand_tilde("~/x", None), "~/x");
}

#[test]
fn default_category_sanitizes_and_falls_back() {
    assert_eq!(default_category("Mikan Project - 石纪元"), "Mikan Project - 石纪元");
    assert_eq!(default_category("A / B"), "A ⁄ B");
    assert_eq!(default_category("..."), "mikan");
}

#[test]
fn show_choice_display() {
    let pick = ShowChoice::Pick(Show { title: "石纪元".to_string(), id: 3689 });
    assert_eq!(pick.label(), "石纪元");
    assert_eq!(ShowChoice::SearchAgain.label(), "↻ 重新搜索");
}

#[test]
fn group_nav_display() {
    let group = GroupNav::Group(Subgroup { name: "猎户发布组".to_string(), id: 597 });
    assert_eq!(group.label(), "猎户发布组");
    assert_eq!(GroupNav::Back.label(), "← 返回上一步");
}

#[test]
fn headless_precondition_requires_selection_and_output() {
    let a = Args { url: some("http://x/rss"), yes: true, all: true, ..args() };
    assert_eq!(
        headless_precondition(&a).unwrap_err(),
        "请至少指定 --out、--url-list、--qbt 之一"
    );

    let a = Args { url: some("http://x/rss"), yes: true, qbt: some("default"), ..args() };
    assert_eq!(headless_precondition(&a).unwrap_err(), "请指定 --all、--latest 或 --filter");

    let a =
        Args { url: some("http://x/rss"), yes: true, all: true, qbt: some("default"), ..args() };
    assert!(headless_precondition(&a).is_ok());
}

#[test]
fn headless_flag_without_yes_is_detected() {
    let a = Args { url: some("http://x/rss"), all: true, ..args() };
    assert_eq!(headless_flag_present(&a), Some("--all"));

    let a = Args { url: some("http://x/rss"), ..args() };
    assert_eq!(headless_flag_present(&a), None);

    for (a, flag) in [
        (Args { latest: Some(1), ..args() }, "--latest"),
        (Args { filter: some("x"), ..args() }, "--filter"),
        (Args { out: some("x"), ..args() }, "--out"),
        (Args { url_list: some("x"), ..args() }, "--url-list"),
        (Args { qbt: some("x"), ..args() }, "--qbt"),
        (Args { category: some("x"), ..args() }, "--category"),
    ] {
        assert_eq!(headless_flag_present(&a), Some(flag));
    }
}

#[test]
fn arguments_lead_where_they_should() {
    let url = || some("http://x/rss");
    let usage = |a: Args| match run(a) {
        Route::Usage(m) => m,
        _ => panic!("expected a usage error"),
    };
    assert!(matches!(run(args()), Route::Search { query: None, proxy: None }));
    assert!(matches!(
        run(Args { proxy: some("p"), ..args() }),
        Route::Search { query: None, proxy: Some(p) } if p == "p"
    ));
    assert_eq!(usage(Args { yes: true, ..args() }), "缺少必需的参数：\n  <URL>");
    assert_eq!(
        usage(Args { all: true, ..args() }),
        "--all 需要配合 --yes 使用（非交互模式）"
    );
    assert_eq!(
        usage(Args { url: url(), category: some("c"), ..args() }),
        "--category 需要配合 --yes 使用（非交互模式）"
    );
    assert_eq!(
        usage(Args { url: url(), yes: true, ..args() }),
        "请指定 --all、--latest 或 --filter"
    );
    assert!(matches!(
        run(Args { url: url(), proxy: some("p"), ..args() }),
        Route::Wizard { url, proxy: Some(p) } if url == "http://x/rss" && p == "p"
    ));
    match run(Args {
        url: url(),
        yes: true,
        latest: Some(3),
        filter: some("f"),
        out: some("o"),
        url_list: some("l"),
        qbt: some("q"),
        category: some("c"),
        proxy: some("p"),
        ..args()
    }) {
        Route::Headless(u) => {
            assert_eq!(u.url, "http://x/rss");
            assert_eq!(u.latest, Some(3));
            assert_eq!(
                [u.filter, u.out, u.url_list, u.qbt, u.category, u.proxy],
                [some("f"), some("o"), some("l"), some("q"), some("c"), some("p")]
            );
        }
        _ => panic!("expected a run without questions"),
    }
    let search = Command::Search { query: some("dr.stone"), proxy: None };
    assert!(matches!(
        run(Args { command: Some(search), yes: true, ..args() }),
        Route::Search { query: Some(q), proxy: None } if q == "dr.stone"
    ));
    let list = Command::Qbt { action: QbtAction::List };
    assert!(matches!(
        run(Args { command: Some(list), ..args() }),
        Route::Qbt(QbtAction::List)
    ));
}

#[test]
fn rss_url_omits_subgroup_when_zero() {
    assert_eq!(rss_url(3950, 0), "https://mikanani.me/RSS/Bangumi?bangumiId=3950");
    assert_eq!(
        rss_url(3950, 597),
        "https://mikanani.me/RSS/Bangumi?bangumiId=3950&subgroupid=597"
    );
    assert_eq!(mikan::mikan::subgroupid_from(&rss_url(3950, 597)), Some(597));
    assert_eq!(mikan::mikan::subgroupid_from(&rss_url(3950, 0)), None);
}

#[test]
fn subgroup_choice_auto_and_menu() {
    // No scraped groups → all-groups, no prompt.
    assert!(matches!(subgroup_choice(vec![]), SubgroupChoice::Auto(0)));

    // Exactly one → use it, no prompt.
    let one = vec![Subgroup { name: "A".into(), id: 597 }];
    assert!(matches!(subgroup_choice(one), SubgroupChoice::Auto(597)));

    // Two or more → menu with "all groups" (id 0) prepended.
    let two = vec![
        Subgroup { name: "A".into(), id: 597 },
        Subgroup { name: "B".into(), id: 611 },
    ];
    match subgroup_choice(two) {
        SubgroupChoice::Menu(opts) => {
            assert_eq!(opts.len(), 3);
            assert_eq!(opts[0].id, 0);
            assert!(opts[0].name.contains("全部字幕组"));
            assert_eq!(opts[1].id, 597);
            assert_eq!(opts[2].id, 611);
        }
        SubgroupChoice::Auto(_) => panic!("expected a menu for two groups"),
    }
}

#[test]
fn esc_and_interrupt_are_the_same() {
    assert_eq!(take_or_cancel(Prompted::Answered(7), "番剧"), Ok(Some(7)));
    assert_eq!(take_or_cancel(Prompted::<u8>::Skipped, "番剧"), Ok(None));
    assert_eq!(take_or_cancel(Prompted::<u8>::Interrupted, "番剧"), Ok(None));
    assert_eq!(
        take_or_cancel(Prompted::<u8>::Broken("not a tty".to_string()), "番剧"),
        Err("获取番剧: not a tty".to_string())
    );
}

#[test]
fn answers_are_checked() {
    assert!(check_filled(" x ", "no").is_ok());
    assert_eq!(check_filled("\u{3000}\t", "no"), Err("no".to_string()));
    assert!(check_formats(1).is_ok());
    assert_eq!(check_formats(0), Err("至少选择一种格式".to_string()));
    assert!(check_endpoint(" http://x").is_ok());
    assert!(check_endpoint("https://").is_ok());
    for bad in ["", "ftp://x", "127.0.0.1:8080", "HTTP://x"] {
        assert_eq!(check_endpoint(bad), Err("必须以 http:// 或 https:// 开头".to_string()));
    }
}

#[test]
fn profile_names_are_not_blank() {
    assert_eq!(profile_name_or_default(None).unwrap(), "default");
    assert_eq!(profile_name_or_default(some(" a b ")).unwrap(), "a b");
    assert_eq!(profile_name_or_default(some(" ")).unwrap_err(), "配置名称不能为空");
}

#[test]
fn formats_name_the_file_that_is_written() {
    let options = format_options("A / B");
    let labels: Vec<&str> = options.iter().map(|o| o.label.as_str()).collect();
    assert_eq!(
        labels,
        ["下载 .torrent 文件", "将种子 URL 列表写入「A ⁄ B.txt」", "添加到 qBittorrent"]
    );
    let formats: Vec<ExportFormat> = options.iter().map(|o| o.format).collect();
    assert_eq!(formats, [ExportFormat::TorrentFiles, ExportFormat::UrlList, ExportFormat::Qbt]);
    assert_eq!(
        formats_summary(&vec![&options[0], &options[2]]),
        "\n  • 下载 .torrent 文件\n  • 添加到 qBittorrent"
    );
}
