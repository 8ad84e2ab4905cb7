use mikan::batch::{process_episodes, Batch, BatchAction, BatchEvent, Totals};
use mikan::display::Line;
use mikan::download::{download, Download, DownloadAction, DownloadEvent, Outcome};
use mikan::feed::Episode;
use mikan::profiles::QbtProfile;
use mikan::qbt::{Answer, ConnectStep, Payload, QbtClient, QbtSetup, Reply};

fn episode(title: &str, url: &str) -> Episode {
    Episode {
        title: title.to_string(),
        torrent_url: url.to_string(),
        size: None,
        pub_date: None,
    }
}

/// A directory and a network in memory.
struct World {
    files: Vec<(String, Vec<u8>)>,
    fetched: Vec<String>,
    fails: &'static [&'static str],
}

impl World {
    fn new(fails: &'static [&'static str]) -> World {
        World { files: vec![], fetched: vec![], fails }
    }

    fn outcome(&self, what: &str) -> Result<(), String> {
        if self.fails.contains(&what) { Err(format!("{what} failed")) } else { Ok(()) }
    }

    fn fetch(&mut self, url: &str) -> Result<Vec<u8>, String> {
        self.fetched.push(url.to_string());
        self.outcome("fetch").map(|()| format!("bytes of {url}").into_bytes())
    }

    fn perform(&mut self, action: DownloadAction) -> Option<DownloadEvent> {
        Some(match action {
            DownloadAction::Check { filename } => DownloadEvent::Checked {
                path: format!("/d/{filename}"),
                exists: self.files.iter().any(|f| f.0 == filename),
            },
            DownloadAction::Fetch { url } => DownloadEvent::Fetched(self.fetch(&url)),
            DownloadAction::Write { part, bytes } => {
                self.files.push((part, bytes));
                DownloadEvent::Written(self.outcome("write"))
            }
            DownloadAction::Rename { part, filename } => {
                let renamed = self.outcome("rename");
                if renamed.is_ok() {
                    self.files.iter_mut().find(|f| f.0 == part).unwrap().0 = filename;
                }
                DownloadEvent::Renamed(renamed)
            }
            DownloadAction::Remove { part } => {
                self.files.retain(|f| f.0 != part);
                DownloadEvent::Removed
            }
            DownloadAction::Done(_) | DownloadAction::Ignored => return None,
        })
    }

    fn download(&mut self, ep: &Episode) -> Outcome {
        let (mut state, mut action) = download(ep);
        loop {
            if let DownloadAction::Done(outcome) = action {
                assert!(matches!(state, Download::Over));
                return outcome;
            }
            let event = self.perform(action).unwrap();
            (state, action) = state.step(event);
        }
    }
}

#[test]
fn downloads_to_sanitized_filename() {
    let mut world = World::new(&[]);
    match world.download(&episode("Test / Episode [01]", "http://x/a.torrent")) {
        Outcome::Downloaded(p) => assert_eq!(p, "/d/Test ⁄ Episode [01].torrent"),
        other => panic!("expected Downloaded, got {other:?}"),
    }
    assert_eq!(
        world.files,
        [("Test ⁄ Episode [01].torrent".to_string(), b"bytes of http://x/a.torrent".to_vec())]
    );
}

#[test]
fn skips_existing_file_without_network() {
    let mut world = World::new(&["fetch"]);
    world.files.push(("Already Here.torrent".to_string(), b"original".to_vec()));
    match world.download(&episode("Already Here", "http://127.0.0.1:9/x.torrent")) {
        Outcome::Skipped(p) => assert_eq!(p, "/d/Already Here.torrent"),
        other => panic!("expected Skipped, got {other:?}"),
    }
    assert!(world.fetched.is_empty());
    assert_eq!(world.files, [("Already Here.torrent".to_string(), b"original".to_vec())]);
}

#[test]
fn http_error_reports_failed_and_leaves_no_files() {
    let mut world = World::new(&["fetch"]);
    match world.download(&episode("Missing", "http://x/404")) {
        Outcome::Failed(m) => assert_eq!(m, "Missing.torrent: fetch failed"),
        other => panic!("expected Failed, got {other:?}"),
    }
    assert!(world.files.is_empty());
}

#[test]
fn connection_error_reports_failed() {
    let mut world = World::new(&["fetch"]);
    let ep = episode("Unreachable", "http://127.0.0.1:9/x.torrent");
    assert!(matches!(world.download(&ep), Outcome::Failed(_)));
}

#[test]
fn a_file_that_cannot_be_written_is_removed() {
    for fails in [&["write"] as &'static [&'static str], &["rename"]] {
        let mut world = World::new(fails);
        match world.download(&episode("Full", "http://x/a")) {
            Outcome::Failed(m) => assert_eq!(m, format!("Full.torrent: {} failed", fails[0])),
            other => panic!("expected Failed, got {other:?}"),
        }
        assert!(world.files.is_empty());
    }
}

#[test]
fn a_download_ignores_what_it_did_not_ask_for() {
    let (state, _) = download(&episode("a", "http://x/a"));
    let (state, action) = state.step(DownloadEvent::Fetched(Ok(vec![1])));
    assert!(matches!(action, DownloadAction::Ignored));
    assert!(matches!(state, Download::Checking { .. }));
    let (_, action) = Download::Over.step(DownloadEvent::Removed);
    assert!(matches!(action, DownloadAction::Ignored));
}

fn setup(category: &str) -> QbtSetup {
    let profile = QbtProfile {
        endpoint: "http://q".to_string(),
        username: String::new(),
        password: String::new(),
    };
    let (state, _) = QbtClient::connect(&profile);
    match state.step(reply(200, "v5")) {
        ConnectStep::Connected(client) => {
            QbtSetup { client, category: category.to_string(), save_as: None }
        }
        _ => panic!("expected a connection"),
    }
}

fn reply(status: u16, body: &str) -> Reply {
    Reply::Answered(Answer {
        status,
        status_text: format!("{status} Reason"),
        complaint: String::new(),
        cookies: vec![],
        body: Ok(body.to_string()),
    })
}

/// Does a whole batch. `replies` are what qBittorrent answers, in turn.
fn run(
    world: &mut World,
    titles: &[&str],
    to_disk: bool,
    qbt: Option<QbtSetup>,
    mut replies: Vec<Reply>,
) -> (Totals, Vec<String>, Vec<(String, Vec<u8>)>) {
    let episodes = titles.iter().map(|t| episode(t, &format!("http://x/{t}"))).collect();
    let (mut batch, mut action) = process_episodes(episodes, to_disk, qbt);
    let mut printed = Vec::new();
    let mut sent = Vec::new();
    loop {
        let event = match action {
            BatchAction::Download(a) => BatchEvent::Download(world.perform(a).unwrap()),
            BatchAction::ReadBack { filename } => BatchEvent::ReadBack(
                world.outcome("read").map(|()| {
                    world.files.iter().find(|f| f.0 == filename).unwrap().1.clone()
                }),
            ),
            BatchAction::Fetch { url } => BatchEvent::Fetched(world.fetch(&url)),
            BatchAction::Send(request) => {
                match request.payload {
                    Payload::Multipart(upload) => {
                        assert_eq!(upload.fields[0].1, "category");
                        sent.push((upload.filename, upload.bytes));
                    }
                    _ => panic!("expected an upload"),
                }
                BatchEvent::Replied(replies.remove(0))
            }
            BatchAction::Finished(totals) => return (totals, printed, sent),
            BatchAction::Ignored => panic!("an answer was not taken"),
        };
        let (next, step) = batch.step(event);
        batch = next;
        action = step.action;
        for line in step.lines {
            printed.push(match line {
                Line::Out(t) => format!("out {t}"),
                Line::Warning(t) => format!("err {t}"),
            });
        }
    }
}

fn totals(downloaded: u32, skipped: u32, failed: u32, qbt_added: u32, qbt_failed: u32) -> Totals {
    Totals { downloaded, skipped, failed, qbt_added, qbt_failed }
}

#[test]
fn files_and_torrents_share_their_bytes() {
    let mut world = World::new(&[]);
    world.files.push(("b.torrent".to_string(), b"old".to_vec()));
    let (t, printed, sent) = run(
        &mut world,
        &["a", "b"],
        true,
        Some(setup("category")),
        vec![reply(200, "Ok."), reply(200, "Fails.")],
    );
    assert_eq!(t, totals(1, 1, 0, 1, 1));
    assert_eq!(
        printed,
        [
            format!("out [1/2] {:<16} /d/a.torrent", "已下载"),
            "out [1/2] 已添加到 qBittorrent a.torrent".to_string(),
            format!("out [2/2] {:<16} /d/b.torrent", "已跳过（已存在）"),
            format!(
                "err [2/2] {:<16} b.torrent: qBittorrent rejected the torrent: Fails.",
                "失败"
            ),
        ]
    );
    // Each is fetched once, and what is sent is what lies on disk.
    assert_eq!(world.fetched, ["http://x/a"]);
    assert_eq!(
        sent,
        [
            ("a.torrent".to_string(), b"bytes of http://x/a".to_vec()),
            ("b.torrent".to_string(), b"old".to_vec()),
        ]
    );
}

#[test]
fn failures_never_stop_a_batch() {
    let mut world = World::new(&["fetch"]);
    let (t, printed, _) = run(&mut world, &["a", "b", "c"], true, Some(setup("category")), vec![]);
    assert_eq!(t, totals(0, 0, 3, 0, 0));
    assert_eq!(printed[2], format!("err [3/3] {:<16} c.torrent: fetch failed", "失败"));

    let (t, printed, _) = run(&mut world, &["a", "b"], false, Some(setup("category")), vec![]);
    assert_eq!(t, totals(0, 0, 0, 0, 2));
    assert_eq!(printed[0], format!("err [1/2] {:<16} a.torrent: fetch failed", "失败"));

    let mut world = World::new(&["read"]);
    let (t, printed, _) = run(&mut world, &["a"], true, Some(setup("category")), vec![]);
    assert_eq!(t, totals(1, 0, 0, 0, 1));
    assert_eq!(printed[1], format!("err [1/1] {:<16} 回读 /d/a.torrent：read failed", "失败"));

    let mut world = World::new(&[]);
    let away = || Reply::Unreachable("gone".to_string());
    let (t, _, _) =
        run(&mut world, &["a", "b"], false, Some(setup("category")), vec![away(), reply(500, "")]);
    assert_eq!(t, totals(0, 0, 0, 0, 2));
}

#[test]
fn torrents_alone_leave_no_files() {
    let mut world = World::new(&[]);
    let (t, printed, sent) =
        run(&mut world, &["a"], false, Some(setup("category")), vec![reply(200, "Ok.")]);
    assert_eq!(t, totals(0, 0, 0, 1, 0));
    assert_eq!(printed, ["out [1/1] 已添加到 qBittorrent a.torrent"]);
    assert_eq!(sent[0].1, b"bytes of http://x/a");
    assert!(world.files.is_empty());
}

#[test]
fn nothing_to_do_is_done_at_once() {
    let mut world = World::new(&[]);
    assert_eq!(run(&mut world, &["a", "b"], false, None, vec![]).0, totals(0, 0, 0, 0, 0));
    assert_eq!(run(&mut world, &[], true, None, vec![]).0, totals(0, 0, 0, 0, 0));
    assert!(world.fetched.is_empty());
    let (t, _, _) = run(&mut world, &["a", "b"], true, None, vec![]);
    assert_eq!(t, totals(2, 0, 0, 0, 0));
}

#[test]
fn a_batch_ignores_what_it_did_not_ask_for() {
    let (batch, _) = process_episodes(vec![episode("a", "http://x/a")], true, None);
    let (batch, step) = batch.step(BatchEvent::Fetched(Ok(vec![])));
    assert!(matches!(step.action, BatchAction::Ignored));
    assert!(step.lines.is_empty());
    assert_eq!(batch.index, 0);
    let Batch { episodes, .. } = batch;
    assert_eq!(episodes.len(), 1);
}
