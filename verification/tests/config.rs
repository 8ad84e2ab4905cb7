use mikan::config::{
    default_version, resolve_config_dir, unparseable_warning, Config, ConfigFile, SaveStep,
    StoredConfig,
    BACKUP_FILE, CONFIG_FILE, CONFIG_VERSION, MAX_HISTORY, TEMPORARY_FILE,
};
use mikan::profiles::{profile_text, ProfileMap, QbtProfile};
use std::path::PathBuf;

fn profile(endpoint: &str, username: &str, password: &str) -> QbtProfile {
    QbtProfile {
        endpoint: endpoint.to_string(),
        username: username.to_string(),
        password: password.to_string(),
    }
}

fn dir(windows: bool, appdata: Option<&str>, xdg: Option<&str>, home: Option<&str>) -> PathBuf {
    resolve_config_dir(windows, appdata, xdg, home).iter().collect()
}

#[test]
fn load_missing_file_gives_default() {
    let loaded = Config::load(ConfigFile::Unreadable, "/c/config.toml").unwrap();
    assert!(loaded.config.path_history.is_empty());
    assert!(loaded.config.qbt.is_empty());
    assert_eq!(loaded.config.version, 1);
    assert!(!loaded.set_aside);
}

#[test]
fn load_corrupt_file_gives_default_and_backs_up_the_bad_file() {
    let file = ConfigFile::Unparseable("expected a table".to_string());
    let loaded = Config::load(file, "/c/config.toml").unwrap();
    assert!(loaded.config.path_history.is_empty());
    // The unparseable file must be preserved (not silently dropped, which
    // the next save() would clobber), and moved out of the load path.
    assert!(loaded.set_aside);
    assert_eq!((CONFIG_FILE, BACKUP_FILE), ("config.toml", "config.toml.bak"));
    assert_eq!(
        unparseable_warning("/c/config.toml", "bad", Some("/c/config.toml.bak")),
        "警告：/c/config.toml 无法解析，已被忽略（bad） —— 原文件已移动到 /c/config.toml.bak"
    );
    assert_eq!(
        unparseable_warning("/c/config.toml", "bad", None),
        "警告：/c/config.toml 无法解析，已被忽略（bad）"
    );
}

#[test]
fn record_path_dedups_and_moves_to_front() {
    let mut cfg = Config::default();
    cfg.record_path("/a");
    cfg.record_path("/b");
    cfg.record_path("/a");
    assert_eq!(cfg.path_history, vec!["/a".to_string(), "/b".to_string()]);
}

#[test]
fn record_path_caps_at_ten() {
    let mut cfg = Config::default();
    for i in 0..12 {
        cfg.record_path(&format!("/p{i}"));
    }
    assert_eq!(cfg.path_history.len(), 10);
    assert_eq!(cfg.path_history[0], "/p11");
    assert_eq!(cfg.path_history[9], "/p2");
    assert_eq!(MAX_HISTORY, 10);
}

#[test]
fn recording_again_changes_nothing() {
    let mut cfg = Config::default();
    cfg.path_history = vec!["/x".to_string(), "/y".to_string(), "/x".to_string()];
    cfg.record_path("/x");
    assert_eq!(cfg.path_history, ["/x", "/y"]);
    cfg.record_path("/x");
    assert_eq!(cfg.path_history, ["/x", "/y"]);
    assert_eq!(cfg.duplicate().path_history, cfg.path_history);
}

#[test]
fn config_dir_unix_prefers_nonempty_xdg() {
    // Linux/macOS: XDG wins when set, else ~/.config; APPDATA is ignored.
    let cfg = PathBuf::from(".").join(".config").join("mikanani-cli");
    assert_eq!(dir(false, None, Some("/xdg"), Some("/home/u")), PathBuf::from("/xdg/mikanani-cli"));
    assert_eq!(
        dir(false, None, None, Some("/home/u")),
        PathBuf::from("/home/u/.config/mikanani-cli")
    );
    assert_eq!(
        dir(false, None, Some(""), Some("/home/u")),
        PathBuf::from("/home/u/.config/mikanani-cli")
    );
    assert_eq!(
        dir(false, Some(r"C:\AppData"), None, Some("/home/u")),
        PathBuf::from("/home/u/.config/mikanani-cli")
    );
    // No HOME either → current directory.
    assert_eq!(dir(false, None, None, None), cfg);
}

#[test]
fn config_dir_windows_uses_appdata() {
    // Windows: %APPDATA%\mikanani-cli, ignoring XDG/HOME entirely.
    let appdata = r"C:\Users\u\AppData\Roaming";
    assert_eq!(dir(true, Some(appdata), None, None), PathBuf::from(appdata).join("mikanani-cli"));
    assert_eq!(
        dir(true, Some(appdata), Some("/xdg"), Some("/home/u")),
        PathBuf::from(appdata).join("mikanani-cli")
    );
    // Fallback to the current dir when APPDATA is missing or empty.
    assert_eq!(dir(true, None, None, None), PathBuf::from(".").join("mikanani-cli"));
    assert_eq!(dir(true, Some(""), None, None), PathBuf::from(".").join("mikanani-cli"));
}

#[test]
fn load_treats_missing_version_as_v1() {
    // Files written before the version field existed must load as v1,
    // regardless of what CONFIG_VERSION later becomes.
    let stored = StoredConfig {
        version: default_version(),
        path_history: vec!["/a".to_string()],
        qbt: vec![],
    };
    let loaded = Config::load(ConfigFile::Parsed(stored), "/c/config.toml").unwrap();
    assert_eq!(loaded.config.version, 1);
    assert_eq!(loaded.config.path_history, ["/a"]);
}

#[test]
fn old_config_without_qbt_still_loads() {
    let stored = StoredConfig { version: 1, path_history: vec!["/a".to_string()], qbt: vec![] };
    let cfg = Config::load(ConfigFile::Parsed(stored), "/c/config.toml").unwrap().config;
    assert_eq!(cfg.path_history, vec!["/a".to_string()]);
    assert!(cfg.qbt.is_empty());
}

/// What a save writes, loaded again.
fn reload(cfg: &Config) -> Config {
    let (_, stored) = cfg.save();
    let loaded = Config::load(ConfigFile::Parsed(stored), "/c/config.toml").unwrap();
    assert!(!loaded.set_aside);
    loaded.config
}

#[test]
fn save_stamps_the_current_version() {
    let (_, stored) = Config::default().save();
    assert_eq!(stored.version, 1);
    assert_eq!(reload(&Config::default()).version, CONFIG_VERSION);
}

#[test]
fn save_then_load_round_trips() {
    let mut cfg = Config::default();
    cfg.record_path("/a/b");
    cfg.record_path("/c/d");
    let loaded = reload(&cfg);
    assert_eq!(loaded.path_history, vec!["/c/d".to_string(), "/a/b".to_string()]);
}

#[test]
fn qbt_profile_round_trips() {
    let mut cfg = Config::default();
    cfg.qbt = cfg.qbt.insert(
        "seedbox".to_string(),
        QbtProfile {
            endpoint: "http://10.0.0.2:8080".to_string(),
            username: "admin".to_string(),
            password: "secret".to_string(),
        },
    );
    cfg.qbt = cfg.qbt.insert("a".to_string(), profile("http://a", "", ""));
    let loaded = reload(&cfg);
    assert!(loaded.qbt.get("seedbox") == cfg.qbt.get("seedbox"));
    assert!(loaded.qbt.pairs() == cfg.qbt.pairs());
}

#[test]
fn the_last_pair_of_a_name_counts() {
    let pair = |name: &str, endpoint: &str| (name.to_string(), profile(endpoint, "u", "p"));
    let map = ProfileMap::from_pairs(vec![pair("b", "1"), pair("a", "2"), pair("b", "3")]);
    assert!(map.pairs() == vec![pair("a", "2"), pair("b", "3")]);
    assert!(ProfileMap::from_pairs(map.pairs()).pairs() == map.pairs());
    assert!(ProfileMap::from_pairs(vec![]).is_empty());
}

#[test]
fn load_rejects_config_newer_than_supported() {
    // A file from a future build must abort the run rather than load and
    // let the next save() clobber fields this build doesn't understand.
    let (_, mut newer) = Config::default().save();
    newer.version = CONFIG_VERSION + 1;
    match Config::load(ConfigFile::Parsed(newer), "/c/config.toml") {
        Err(m) => assert_eq!(
            m,
            "配置文件 /c/config.toml 的版本 2 高于本程序支持的版本 1，请升级 mikan 后再试"
        ),
        Ok(_) => panic!("expected a refusal"),
    }
    let mut known = Config::default();
    known.record_path("/a");
    assert_eq!(reload(&known).path_history, ["/a"]);
}

#[test]
fn save_creates_missing_directory() {
    let (first, _) = Config::default().save();
    assert_eq!(first, SaveStep::CreateDir);
    for owners in [true, false] {
        let mut step = first;
        for _ in 0..6 {
            assert_ne!(step, SaveStep::Failed);
            step = step.next(true, owners);
        }
        assert_eq!(step, SaveStep::Saved);
        assert_eq!(first.next(false, owners), SaveStep::Failed);
    }
}

#[test]
fn saving_replaces_the_file_last() {
    let run = |owners: bool, fails: Option<SaveStep>| {
        let (mut step, _) = Config::default().save();
        let mut seen = Vec::new();
        while step != SaveStep::Saved && step != SaveStep::Failed {
            seen.push(step);
            step = step.next(Some(step) != fails, owners);
        }
        assert_eq!(step.next(true, owners), step);
        (seen, step)
    };
    let (seen, end) = run(true, None);
    assert_eq!(
        seen,
        [
            SaveStep::CreateDir,
            SaveStep::Render,
            SaveStep::RemoveTemporary,
            SaveStep::CreateTemporary,
            SaveStep::WriteTemporary,
            SaveStep::Replace,
        ]
    );
    assert_eq!(end, SaveStep::Saved);
    let (seen, end) = run(false, None);
    assert_eq!(
        seen,
        [SaveStep::CreateDir, SaveStep::Render, SaveStep::WriteTemporary, SaveStep::Replace]
    );
    assert_eq!(end, SaveStep::Saved);
    assert_eq!(run(true, Some(SaveStep::RemoveTemporary)).1, SaveStep::Saved);
    for step in [
        SaveStep::CreateDir,
        SaveStep::Render,
        SaveStep::CreateTemporary,
        SaveStep::WriteTemporary,
        SaveStep::Replace,
    ] {
        let (seen, end) = run(true, Some(step));
        assert_eq!(end, SaveStep::Failed);
        assert_eq!(seen.last(), Some(&step));
    }
    assert_eq!(TEMPORARY_FILE, "config.toml.tmp");
}

#[test]
fn profiles_are_kept_in_order() {
    let mut map = ProfileMap::new();
    for (name, endpoint) in [("seedbox", "1"), ("default", "2"), ("家", "3"), ("default", "4")] {
        map = map.insert(name.to_string(), profile(endpoint, "u", "p"));
    }
    assert_eq!(map.names(), ["default", "seedbox", "家"]);
    assert_eq!(map.len(), 3);
    assert!(!map.is_empty());
    assert_eq!(map.get("default").unwrap().endpoint, "4");
    assert!(map.get("other").is_none());
    assert_eq!(map.at(1).0, "seedbox");
    assert_eq!(map.at(1).1.endpoint, "1");
    let copy = map.duplicate();
    let map = map.remove("seedbox").remove("other");
    assert_eq!(map.names(), ["default", "家"]);
    assert!(map.get("seedbox").is_none());
    assert_eq!(copy.names(), ["default", "seedbox", "家"]);
    let same = map.duplicate().insert("z".to_string(), profile("", "", "")).remove("z");
    assert_eq!(same.names(), map.names());
}

#[test]
fn a_shown_profile_holds_no_password() {
    let p = profile("http://10.0.0.2:8080", "ad\"min\n", "hidden");
    assert_eq!(
        p.debug_text(),
        r#"QbtProfile { endpoint: "http://10.0.0.2:8080", username: "ad\"min\n", password: "<redacted>" }"#
    );
    assert_eq!(
        profile_text("E", "U"),
        r#"QbtProfile { endpoint: E, username: U, password: "<redacted>" }"#
    );
    assert!(p.duplicate() == p);
}
