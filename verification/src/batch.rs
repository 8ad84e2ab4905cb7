//! The episodes of an export, one after the other: each is downloaded, added to
//! qBittorrent, or both. Each step says what to do next.
use crate::display;
use crate::display::{counter_tag, nothing, progress, said, warned, Line, LineView};
use crate::download;
use crate::download::{download, Download, DownloadAction, DownloadEvent, Outcome, OutcomeView};
use crate::feed::{Episode, EpisodeView};
use crate::qbt;
use crate::qbt::{QbtSetup, Reply, Request};
use crate::sanitize;
use crate::sanitize::torrent_filename;
use crate::text::{concat, concat3};
use vstd::prelude::*;

verus! {

/// How many episodes went which way.
#[derive(Debug, Clone, Copy, PartialEq, Eq, Structural)]
pub struct Totals {
    pub downloaded: u32,
    pub skipped: u32,
    pub failed: u32,
    pub qbt_added: u32,
    pub qbt_failed: u32,
}

/// What the episode at hand waits for.
pub enum Stage {
    /// Its download.
    Downloading(Download),
    /// The bytes of the file at `path`, read back.
    ReadingBack { path: String },
    /// Its bytes, where no file is kept.
    Fetching,
    /// qBittorrent's reply.
    Adding,
    /// Nothing: all episodes are done.
    Finished,
}

/// The episodes, and how far they have come.
pub struct Batch {
    pub episodes: Vec<Episode>,
    /// Whether files are kept.
    pub to_disk: bool,
    /// Where torrents are added.
    pub qbt: Option<QbtSetup>,
    /// The episode at hand.
    pub index: usize,
    pub totals: Totals,
    pub stage: Stage,
}

/// What has happened.
pub enum BatchEvent {
    Download(DownloadEvent),
    ReadBack(Result<Vec<u8>, String>),
    Fetched(Result<Vec<u8>, String>),
    Replied(Reply),
}

/// What to do next.
pub enum BatchAction {
    Download(DownloadAction),
    /// Read the file of that name back.
    ReadBack { filename: String },
    Fetch { url: String },
    Send(Request),
    Finished(Totals),
    /// What happened answers nothing that was asked.
    Ignored,
}

/// What to print, and what to do next.
pub struct BatchStep {
    pub lines: Vec<Line>,
    pub action: BatchAction,
}

/// Nothing counted.
pub open spec fn no_totals() -> Totals {
    Totals { downloaded: 0, skipped: 0, failed: 0, qbt_added: 0, qbt_failed: 0 }
}

impl Batch {
    /// The episode at hand.
    pub open spec fn episode(self) -> EpisodeView {
        self.episodes@[self.index as int]@
    }

    /// The name of its file.
    pub open spec fn filename(self) -> Seq<char> {
        sanitize::torrent_stem(self.episode().title, self.episode().torrent_url) + ".torrent"@
    }

    /// Its counter.
    pub open spec fn tag(self) -> Seq<char> {
        display::counter(self.index as nat, self.episodes@.len())
    }

    /// Its file is there, and it is on its way to qBittorrent.
    pub open spec fn forwarding(self) -> nat {
        if self.to_disk && (self.stage is ReadingBack || self.stage is Adding) {
            1
        } else {
            0
        }
    }

    /// What the counts add up to: every episode so far was downloaded, skipped
    /// or failed where files are kept, and each that has bytes was added or
    /// failed where torrents are added.
    pub open spec fn adds_up(self) -> bool {
        let t = self.totals;
        &&& self.to_disk ==> t.downloaded + t.skipped + t.failed == self.index + self.forwarding()
        &&& !self.to_disk ==> t.downloaded == 0 && t.skipped == 0 && t.failed == 0
        &&& self.qbt is None ==> t.qbt_added == 0 && t.qbt_failed == 0
        &&& self.qbt is Some && self.to_disk ==> t.qbt_added + t.qbt_failed + self.forwarding()
            == t.downloaded + t.skipped
        &&& self.qbt is Some && !self.to_disk ==> t.qbt_added + t.qbt_failed == self.index
    }

    /// The stage fits what was asked for.
    pub open spec fn stage_fits(self) -> bool {
        match self.stage {
            Stage::Downloading(_) => self.to_disk && self.index < self.episodes@.len(),
            Stage::ReadingBack { .. } => self.to_disk && self.qbt is Some && self.index
                < self.episodes@.len(),
            Stage::Fetching => !self.to_disk && self.qbt is Some && self.index
                < self.episodes@.len(),
            Stage::Adding => self.qbt is Some && self.index < self.episodes@.len(),
            Stage::Finished => self.index == self.episodes@.len(),
        }
    }

    /// A batch as it can come about.
    pub open spec fn wf(self) -> bool {
        &&& self.index <= self.episodes@.len() <= u32::MAX
        &&& self.adds_up()
        &&& self.stage_fits()
    }
}

/// `t` is `s` with other counts, at the episode `index`.
pub open spec fn moved(s: Batch, t: Batch, index: int, totals: Totals) -> bool {
    &&& t.episodes == s.episodes
    &&& t.to_disk == s.to_disk
    &&& t.qbt == s.qbt
    &&& t.index == index
    &&& t.totals == totals
}

/// `b` begins with the episode at hand, and `a` is the first thing to do.
pub open spec fn begun(b: Batch, a: BatchAction) -> bool {
    if b.index >= b.episodes@.len() {
        b.stage is Finished && a == BatchAction::Finished(b.totals)
    } else if b.to_disk {
        &&& b.stage matches Stage::Downloading(d)
        &&& d matches Download::Checking { filename, url }
        &&& filename@ == b.filename()
        &&& url@ == b.episode().torrent_url
        &&& a matches BatchAction::Download(da)
        &&& da matches DownloadAction::Check { filename: f }
        &&& f@ == b.filename()
    } else {
        &&& b.stage is Fetching
        &&& a matches BatchAction::Fetch { url }
        &&& url@ == b.episode().torrent_url
    }
}

/// The batch goes on with the next episode.
pub open spec fn goes_on(s: Batch, totals: Totals, t: Batch, a: BatchAction) -> bool {
    moved(s, t, s.index + 1, totals) && begun(t, a)
}

/// The counts after an outcome.
pub open spec fn counted(t: Totals, o: OutcomeView) -> Totals {
    match o {
        OutcomeView::Downloaded(_) => Totals { downloaded: (t.downloaded + 1) as u32, ..t },
        OutcomeView::Skipped(_) => Totals { skipped: (t.skipped + 1) as u32, ..t },
        OutcomeView::Failed(_) => Totals { failed: (t.failed + 1) as u32, ..t },
    }
}

/// The line for an outcome.
pub open spec fn outcome_line(tag: Seq<char>, o: OutcomeView) -> LineView {
    match o {
        OutcomeView::Downloaded(p) => LineView::Out(
            display::progress_text(tag, "已下载"@, p),
        ),
        OutcomeView::Skipped(p) => LineView::Out(
            display::progress_text(tag, "已跳过（已存在）"@, p),
        ),
        OutcomeView::Failed(m) => LineView::Warning(display::progress_text(tag, "失败"@, m)),
    }
}

/// The path of a file that an outcome leaves.
pub open spec fn file_left(o: OutcomeView) -> Option<Seq<char>> {
    match o {
        OutcomeView::Downloaded(p) => Some(p),
        OutcomeView::Skipped(p) => Some(p),
        OutcomeView::Failed(_) => None,
    }
}

/// The end of a download: it is counted and told, and its file is read back
/// where it goes to qBittorrent too.
pub open spec fn after_outcome(s: Batch, o: OutcomeView, t: Batch, out: BatchStep) -> bool {
    &&& display::lines(out.lines@) == seq![outcome_line(s.tag(), o)]
    &&& match file_left(o) {
        Some(p) => if s.qbt is Some {
            &&& moved(s, t, s.index as int, counted(s.totals, o))
            &&& t.stage matches Stage::ReadingBack { path }
            &&& path@ == p
            &&& out.action matches BatchAction::ReadBack { filename }
            &&& filename@ == s.filename()
        } else {
            goes_on(s, counted(s.totals, o), t, out.action)
        },
        None => goes_on(s, counted(s.totals, o), t, out.action),
    }
}

/// The bytes are there: they are sent.
pub open spec fn sends(s: Batch, bytes: Seq<u8>, t: Batch, out: BatchStep) -> bool {
    &&& moved(s, t, s.index as int, s.totals)
    &&& t.stage is Adding
    &&& display::lines(out.lines@) == Seq::<LineView>::empty()
    &&& out.action matches BatchAction::Send(r)
    &&& r@ == qbt::torrent_request(
        s.qbt->0.client@,
        s.filename(),
        bytes,
        s.qbt->0.category@,
    )
}

/// A torrent could not be added: that is counted and told, and the batch goes
/// on.
pub open spec fn gives_up(s: Batch, detail: Seq<char>, t: Batch, out: BatchStep) -> bool {
    &&& display::lines(out.lines@) == seq![
        LineView::Warning(display::progress_text(s.tag(), "失败"@, detail)),
    ]
    &&& goes_on(
        s,
        Totals { qbt_failed: (s.totals.qbt_failed + 1) as u32, ..s.totals },
        t,
        out.action,
    )
}

/// Why a reply does not add the torrent.
pub open spec fn refusal(s: Batch, reply: Reply) -> Option<Seq<char>> {
    match reply {
        Reply::Unreachable(cause) => Some(
            qbt::unreachable(s.qbt->0.client@.endpoint, cause@),
        ),
        Reply::Answered(a) => if qbt::granted(a) {
            None
        } else if qbt::body_text(a).len() == 0 {
            Some("qBittorrent rejected the torrent: "@ + ("HTTP "@ + a.status_text@))
        } else {
            Some("qBittorrent rejected the torrent: "@ + qbt::body_text(a))
        },
    }
}

/// qBittorrent has replied.
pub open spec fn after_reply(s: Batch, reply: Reply, t: Batch, out: BatchStep) -> bool {
    match refusal(s, reply) {
        Some(cause) => gives_up(s, download::failure(s.filename(), cause), t, out),
        None => {
            &&& display::lines(out.lines@) == seq![
                LineView::Out(
                    display::progress_text(s.tag(), "已添加到 qBittorrent"@, s.filename()),
                ),
            ]
            &&& goes_on(
                s,
                Totals { qbt_added: (s.totals.qbt_added + 1) as u32, ..s.totals },
                t,
                out.action,
            )
        },
    }
}

/// The download goes on.
pub open spec fn still_downloading(
    s: Batch,
    d: Download,
    e: DownloadEvent,
    t: Batch,
    out: BatchStep,
) -> bool {
    &&& moved(s, t, s.index as int, s.totals)
    &&& display::lines(out.lines@) == Seq::<LineView>::empty()
    &&& t.stage matches Stage::Downloading(next)
    &&& out.action matches BatchAction::Download(a)
    &&& download::download_step(d, e, next, a)
}

/// What happened answers nothing: nothing changes.
pub open spec fn ignores(s: Batch, t: Batch, out: BatchStep) -> bool {
    &&& t == s
    &&& out.action is Ignored
    &&& display::lines(out.lines@) == Seq::<LineView>::empty()
}

/// How `e` takes the batch from `s` to `t`, with `out` to print and to do.
pub open spec fn batch_step(s: Batch, e: BatchEvent, t: Batch, out: BatchStep) -> bool {
    match (s.stage, e) {
        (Stage::Downloading(d), BatchEvent::Download(de)) => match download::ending(d, de) {
            Some(o) => after_outcome(s, o, t, out),
            None => still_downloading(s, d, de, t, out),
        },
        (Stage::ReadingBack { .. }, BatchEvent::ReadBack(Ok(bytes))) => sends(s, bytes@, t, out),
        (Stage::ReadingBack { path }, BatchEvent::ReadBack(Err(cause))) => gives_up(
            s,
            "回读 "@ + path@ + "："@ + cause@,
            t,
            out,
        ),
        (Stage::Fetching, BatchEvent::Fetched(Ok(bytes))) => sends(s, bytes@, t, out),
        (Stage::Fetching, BatchEvent::Fetched(Err(cause))) => gives_up(
            s,
            download::failure(s.filename(), cause@),
            t,
            out,
        ),
        (Stage::Adding, BatchEvent::Replied(reply)) => after_reply(s, reply, t, out),
        _ => ignores(s, t, out),
    }
}

/// Begins with the first episode. Files are kept where `to_disk` says so, and
/// torrents are added where `qbt` says where to.
pub fn process_episodes(
    episodes: Vec<Episode>,
    to_disk: bool,
    qbt: Option<QbtSetup>,
) -> (r: (Batch, BatchAction))
    requires
        episodes@.len() <= u32::MAX,
    ensures
        r.0.episodes == episodes,
        r.0.to_disk == to_disk,
        r.0.qbt == qbt,
        r.0.totals == no_totals(),
        r.0.wf(),
        to_disk || qbt is Some ==> r.0.index == 0 && begun(r.0, r.1),
        !to_disk && qbt is None ==> r.0.stage is Finished && r.1 == BatchAction::Finished(
            no_totals(),
        ),
{
    let n: usize = episodes.len();
    let idle: bool = !to_disk && qbt.is_none();
    let batch = Batch {
        episodes,
        to_disk,
        qbt,
        index: if idle {
            n
        } else {
            0
        },
        totals: Totals { downloaded: 0, skipped: 0, failed: 0, qbt_added: 0, qbt_failed: 0 },
        stage: Stage::Finished,
    };
    batch.begin()
}

impl Batch {
    /// Begins with the episode at hand.
    fn begin(self) -> (r: (Batch, BatchAction))
        requires
            self.index <= self.episodes@.len() <= u32::MAX,
            self.stage is Finished,
            self.adds_up(),
            self.index < self.episodes@.len() ==> self.to_disk || self.qbt is Some,
        ensures
            moved(self, r.0, self.index as int, self.totals),
            begun(r.0, r.1),
            r.0.wf(),
    {
        if self.index >= self.episodes.len() {
            let totals = self.totals;
            (self, BatchAction::Finished(totals))
        } else if self.to_disk {
            let (d, a) = download(&self.episodes[self.index]);
            (
                Batch { stage: Stage::Downloading(d), ..self },
                BatchAction::Download(a),
            )
        } else {
            let url = self.episodes[self.index].torrent_url.clone();
            (Batch { stage: Stage::Fetching, ..self }, BatchAction::Fetch { url })
        }
    }

    /// Goes on with the next episode.
    fn advance(self, totals: Totals) -> (r: (Batch, BatchAction))
        requires
            self.wf(),
            !(self.stage is Finished),
            (Batch {
                index: (self.index + 1) as usize,
                totals,
                stage: Stage::Finished,
                ..self
            }).adds_up(),
        ensures
            goes_on(self, totals, r.0, r.1),
            r.0.wf(),
    {
        let next = Batch {
            index: self.index + 1,
            totals,
            stage: Stage::Finished,
            ..self
        };
        next.begin()
    }

    /// The name of the file of the episode at hand.
    fn name(&self) -> (s: String)
        requires
            self.index < self.episodes@.len(),
        ensures
            s@ == self.filename(),
    {
        let ep = &self.episodes[self.index];
        torrent_filename(&ep.title, &ep.torrent_url)
    }

    /// The end of a download.
    fn take_outcome(self, outcome: Outcome) -> (r: (Batch, BatchStep))
        requires
            self.wf(),
            self.stage is Downloading,
        ensures
            after_outcome(self, outcome@, r.0, r.1),
            r.0.wf(),
    {
        let tag = counter_tag(self.index, self.episodes.len());
        let t = self.totals;
        match outcome {
            Outcome::Failed(message) => {
                let lines = warned(progress(&tag, "失败", &message));
                let totals = Totals { failed: t.failed + 1, ..t };
                let (next, action) = self.advance(totals);
                (next, BatchStep { lines, action })
            },
            Outcome::Downloaded(path) => {
                let lines = said(progress(&tag, "已下载", &path));
                let totals = Totals { downloaded: t.downloaded + 1, ..t };
                self.keep_file(path, totals, lines)
            },
            Outcome::Skipped(path) => {
                let lines = said(progress(&tag, "已跳过（已存在）", &path));
                let totals = Totals { skipped: t.skipped + 1, ..t };
                self.keep_file(path, totals, lines)
            },
        }
    }

    /// A file is there: it is read back where it goes to qBittorrent too.
    fn keep_file(self, path: String, totals: Totals, lines: Vec<Line>) -> (r: (Batch, BatchStep))
        requires
            self.wf(),
            self.stage is Downloading,
            totals.failed == self.totals.failed,
            totals.qbt_added == self.totals.qbt_added,
            totals.qbt_failed == self.totals.qbt_failed,
            totals.downloaded + totals.skipped == self.totals.downloaded + self.totals.skipped + 1,
        ensures
            r.1.lines == lines,
            r.0.wf(),
            if self.qbt is Some {
                &&& moved(self, r.0, self.index as int, totals)
                &&& r.0.stage matches Stage::ReadingBack { path: p }
                &&& p@ == path@
                &&& r.1.action matches BatchAction::ReadBack { filename }
                &&& filename@ == self.filename()
            } else {
                goes_on(self, totals, r.0, r.1.action)
            },
    {
        if self.qbt.is_some() {
            let filename = self.name();
            let next = Batch { totals, stage: Stage::ReadingBack { path }, ..self };
            (next, BatchStep { lines, action: BatchAction::ReadBack { filename } })
        } else {
            let (next, action) = self.advance(totals);
            (next, BatchStep { lines, action })
        }
    }

    /// The bytes are there: they are sent.
    fn send(self, bytes: Vec<u8>) -> (r: (Batch, BatchStep))
        requires
            self.wf(),
            self.stage is ReadingBack || self.stage is Fetching,
        ensures
            sends(self, bytes@, r.0, r.1),
            r.0.wf(),
    {
        let filename = self.name();
        match &self.qbt {
            Some(setup) => {
                let request = setup.client.ask_torrent(&filename, bytes, &setup.category);
                let lines = nothing();
                let next = Batch { stage: Stage::Adding, ..self };
                (next, BatchStep { lines, action: BatchAction::Send(request) })
            },
            None => {
                assert(false);
                (self, BatchStep { lines: nothing(), action: BatchAction::Ignored })
            },
        }
    }

    /// A torrent could not be added.
    fn give_up(self, detail: String) -> (r: (Batch, BatchStep))
        requires
            self.wf(),
            self.stage is ReadingBack || self.stage is Fetching || self.stage is Adding,
        ensures
            gives_up(self, detail@, r.0, r.1),
            r.0.wf(),
    {
        let tag = counter_tag(self.index, self.episodes.len());
        let lines = warned(progress(&tag, "失败", &detail));
        let totals = Totals { qbt_failed: self.totals.qbt_failed + 1, ..self.totals };
        let (next, action) = self.advance(totals);
        (next, BatchStep { lines, action })
    }

    /// qBittorrent has replied.
    fn take_reply(self, reply: Reply) -> (r: (Batch, BatchStep))
        requires
            self.wf(),
            self.stage is Adding,
        ensures
            after_reply(self, reply, r.0, r.1),
            r.0.wf(),
    {
        let filename = self.name();
        let verdict: Result<(), String> = match &self.qbt {
            Some(setup) => setup.client.add_torrent(&reply),
            None => {
                assert(false);
                Ok(())
            },
        };
        match verdict {
            Ok(_) => {
                let tag = counter_tag(self.index, self.episodes.len());
                let lines = said(progress(&tag, "已添加到 qBittorrent", &filename));
                let totals = Totals { qbt_added: self.totals.qbt_added + 1, ..self.totals };
                let (next, action) = self.advance(totals);
                (next, BatchStep { lines, action })
            },
            Err(cause) => {
                let detail = concat3(&filename, ": ", &cause);
                self.give_up(detail)
            },
        }
    }

    /// What follows what has happened.
    pub fn step(self, event: BatchEvent) -> (r: (Batch, BatchStep))
        requires
            self.wf(),
        ensures
            batch_step(self, event, r.0, r.1),
            r.0.wf(),
    {
        match (self.stage, event) {
            (Stage::Downloading(d), BatchEvent::Download(de)) => {
                let (next, action) = d.step(de);
                match action {
                    DownloadAction::Done(outcome) => {
                        let here = Batch { stage: Stage::Downloading(next), ..self };
                        here.take_outcome(outcome)
                    },
                    other => (
                        Batch { stage: Stage::Downloading(next), ..self },
                        BatchStep { lines: nothing(), action: BatchAction::Download(other) },
                    ),
                }
            },
            (Stage::ReadingBack { path }, BatchEvent::ReadBack(Ok(bytes))) => {
                let here = Batch { stage: Stage::ReadingBack { path }, ..self };
                here.send(bytes)
            },
            (Stage::ReadingBack { path }, BatchEvent::ReadBack(Err(cause))) => {
                let front = concat3("回读 ", &path, "：");
                let detail = concat(&front, &cause);
                let here = Batch { stage: Stage::ReadingBack { path }, ..self };
                here.give_up(detail)
            },
            (Stage::Fetching, BatchEvent::Fetched(Ok(bytes))) => {
                let here = Batch { stage: Stage::Fetching, ..self };
                here.send(bytes)
            },
            (Stage::Fetching, BatchEvent::Fetched(Err(cause))) => {
                let here = Batch { stage: Stage::Fetching, ..self };
                let filename = here.name();
                let detail = concat3(&filename, ": ", &cause);
                here.give_up(detail)
            },
            (Stage::Adding, BatchEvent::Replied(reply)) => {
                let here = Batch { stage: Stage::Adding, ..self };
                here.take_reply(reply)
            },
            (stage, _) => (
                Batch { stage, ..self },
                BatchStep { lines: nothing(), action: BatchAction::Ignored },
            ),
        }
    }
}

// ---------------------------------------------------------------------------
// Laws

/// Whether `e` answers what the stage waits for.
pub open spec fn answers(stage: Stage, e: BatchEvent) -> bool {
    match (stage, e) {
        (Stage::Downloading(d), BatchEvent::Download(de)) => match (d, de) {
            (Download::Checking { .. }, DownloadEvent::Checked { .. }) => true,
            (Download::Fetching { .. }, DownloadEvent::Fetched(_)) => true,
            (Download::Writing { .. }, DownloadEvent::Written(_)) => true,
            (Download::Renaming { .. }, DownloadEvent::Renamed(_)) => true,
            (Download::Removing { .. }, DownloadEvent::Removed) => true,
            _ => false,
        },
        (Stage::ReadingBack { .. }, BatchEvent::ReadBack(_)) => true,
        (Stage::Fetching, BatchEvent::Fetched(_)) => true,
        (Stage::Adding, BatchEvent::Replied(_)) => true,
        _ => false,
    }
}

/// How many answers the episode at hand can still wait for.
pub open spec fn stage_waits(stage: Stage) -> nat {
    match stage {
        Stage::Downloading(d) => 2 + download::waits(d),
        Stage::ReadingBack { .. } => 2,
        Stage::Fetching => 2,
        Stage::Adding => 1,
        Stage::Finished => 0,
    }
}

/// How many answers a batch can still wait for.
pub open spec fn batch_waits(b: Batch) -> nat {
    ((b.episodes@.len() - b.index) * 8 + stage_waits(b.stage)) as nat
}

/// Every answer, a failure as well as a success, brings the batch closer to its
/// end: no failure stops it, and it goes through all of its episodes.
pub proof fn law_every_answer_moves_the_batch_on(
    s: Batch,
    e: BatchEvent,
    t: Batch,
    out: BatchStep,
)
    requires
        s.wf(),
        t.wf(),
        batch_step(s, e, t, out),
        answers(s.stage, e),
    ensures
        !(out.action is Ignored),
        batch_waits(t) < batch_waits(s),
        t.index == s.index || t.index == s.index + 1,
        t.stage is Finished ==> out.action == BatchAction::Finished(t.totals),
{
    if let (Stage::Downloading(d), BatchEvent::Download(de)) = (s.stage, e) {
        if download::ending(d, de) is None {
            let next = t.stage->Downloading_0;
            let a = out.action->Download_0;
            download::law_a_download_moves_on(d, de, next, a);
        }
    }
}

/// What answers nothing changes nothing.
pub proof fn law_other_events_change_nothing(s: Batch, e: BatchEvent, t: Batch, out: BatchStep)
    requires
        batch_step(s, e, t, out),
        !answers(s.stage, e),
    ensures
        t.episodes == s.episodes,
        t.index == s.index,
        t.totals == s.totals,
        out.lines@.len() == 0,
{
    assert(display::lines(out.lines@).len() == out.lines@.len());
}

/// The bytes of an episode are fetched at most once: once they are there, no
/// step on the same episode asks for them again.
pub proof fn law_bytes_are_fetched_once(s: Batch, e: BatchEvent, t: Batch, out: BatchStep)
    requires
        s.wf(),
        batch_step(s, e, t, out),
        t.index == s.index,
    ensures
        !(out.action is Fetch),
        out.action matches BatchAction::Download(a) ==> (a is Fetch ==> (s.stage matches
            Stage::Downloading(d) && d is Checking)),
{
}

/// When a batch is finished, its counts account for every episode: where files
/// are kept each was downloaded, skipped or failed, and where torrents are added
/// each that has bytes was added or failed.
pub proof fn law_totals_account_for_every_episode(b: Batch)
    requires
        b.wf(),
        b.stage is Finished,
    ensures
        b.to_disk ==> b.totals.downloaded + b.totals.skipped + b.totals.failed
            == b.episodes@.len(),
        b.to_disk && b.qbt is Some ==> b.totals.qbt_added + b.totals.qbt_failed
            == b.totals.downloaded + b.totals.skipped,
        !b.to_disk && b.qbt is Some ==> b.totals.qbt_added + b.totals.qbt_failed
            == b.episodes@.len(),
{
}

/// What is sent to qBittorrent for an episode is exactly what was read back or
/// fetched, under the name of its file and in the category that was chosen.
pub proof fn law_what_is_sent_is_what_was_read(
    s: Batch,
    bytes: Vec<u8>,
    t: Batch,
    out: BatchStep,
)
    requires
        s.wf(),
        s.stage is ReadingBack && batch_step(s, BatchEvent::ReadBack(Ok(bytes)), t, out)
            || s.stage is Fetching && batch_step(s, BatchEvent::Fetched(Ok(bytes)), t, out),
    ensures
        out.action matches BatchAction::Send(r) && r@ == qbt::torrent_request(
            s.qbt->0.client@,
            s.filename(),
            bytes@,
            s.qbt->0.category@,
        ),
{
}

/// The bytes in the request that is sent are exactly those that were read back or
/// fetched, all of them. The file in it has the name of the episode at hand, and
/// the category is the one that was chosen.
pub proof fn law_the_bytes_sent_are_the_bytes_read(
    s: Batch,
    bytes: Vec<u8>,
    t: Batch,
    out: BatchStep,
)
    requires
        s.wf(),
        s.stage is ReadingBack && batch_step(s, BatchEvent::ReadBack(Ok(bytes)), t, out)
            || s.stage is Fetching && batch_step(s, BatchEvent::Fetched(Ok(bytes)), t, out),
    ensures
        out.action is Send,
        out.action->Send_0.payload is Multipart,
        out.action->Send_0.payload->Multipart_0.bytes@ == bytes@,
        out.action->Send_0.payload->Multipart_0.filename@ == sanitize::torrent_stem(
            s.episodes@[s.index as int].title@,
            s.episodes@[s.index as int].torrent_url@,
        ) + ".torrent"@,
        out.action->Send_0.payload->Multipart_0.fields@[0].1@ == s.qbt->0.category@,
        out.action->Send_0.url@ == s.qbt->0.client@.endpoint + "/api/v2/torrents/add"@,
        out.lines@.len() == 0,
        t.stage is Adding,
        t.index == s.index,
        t.totals == s.totals,
        t.episodes == s.episodes,
        t.qbt == s.qbt,
        t.to_disk == s.to_disk,
{
    let r = out.action->Send_0;
    qbt::law_a_torrent_is_sent_whole(
        s.qbt->0.client@,
        s.filename(),
        bytes@,
        s.qbt->0.category@,
        r,
    );
    assert(display::lines(out.lines@).len() == out.lines@.len());
}

/// Whenever a batch comes to another episode, it is the next one, and what is done
/// first is about that episode: its own file is checked where files are kept, and
/// else its own address is fetched. Behind the last episode the batch is finished,
/// with what was counted.
pub proof fn law_episodes_are_taken_in_turn(s: Batch, e: BatchEvent, t: Batch, out: BatchStep)
    requires
        s.wf(),
        batch_step(s, e, t, out),
    ensures
        t.episodes == s.episodes,
        t.to_disk == s.to_disk,
        t.qbt == s.qbt,
        t.index == s.index || t.index == s.index + 1,
        t.index == s.index + 1 && t.index < t.episodes@.len() && t.to_disk ==> out.action is Download
            && out.action->Download_0 is Check && out.action->Download_0->Check_filename@
            == sanitize::torrent_stem(
            t.episodes@[t.index as int].title@,
            t.episodes@[t.index as int].torrent_url@,
        ) + ".torrent"@ && t.stage is Downloading && t.stage->Downloading_0 is Checking
            && t.stage->Downloading_0->Checking_filename@ == out.action->Download_0->Check_filename@
            && t.stage->Downloading_0->Checking_url@ == t.episodes@[t.index as int].torrent_url@,
        t.index == s.index + 1 && t.index < t.episodes@.len() && !t.to_disk ==> out.action is Fetch
            && out.action->url@ == t.episodes@[t.index as int].torrent_url@ && t.stage is Fetching,
        t.index == s.index + 1 && t.index == t.episodes@.len() ==> out.action
            == BatchAction::Finished(t.totals) && t.stage is Finished,
{
}

/// The first episode comes first.
pub proof fn law_the_first_episode_comes_first(b: Batch, a: BatchAction)
    requires
        begun(b, a),
        b.index == 0,
    ensures
        b.episodes@.len() == 0 ==> a == BatchAction::Finished(b.totals) && b.stage is Finished,
        b.episodes@.len() > 0 && b.to_disk ==> a is Download && a->Download_0 is Check
            && a->Download_0->Check_filename@ == sanitize::torrent_stem(
            b.episodes@[0].title@,
            b.episodes@[0].torrent_url@,
        ) + ".torrent"@ && b.stage is Downloading && b.stage->Downloading_0 is Checking
            && b.stage->Downloading_0->Checking_filename@ == a->Download_0->Check_filename@
            && b.stage->Downloading_0->Checking_url@ == b.episodes@[0].torrent_url@,
        b.episodes@.len() > 0 && !b.to_disk ==> a is Fetch && a->url@
            == b.episodes@[0].torrent_url@ && b.stage is Fetching,
{
}

/// While a download goes on, the batch does what the download asks for, tells and
/// counts nothing, and stays with the episode.
pub proof fn law_a_download_goes_on_in_its_batch(
    s: Batch,
    de: DownloadEvent,
    t: Batch,
    out: BatchStep,
)
    requires
        s.wf(),
        s.stage is Downloading,
        batch_step(s, BatchEvent::Download(de), t, out),
        download::ending(s.stage->Downloading_0, de) is None,
    ensures
        t.stage is Downloading,
        out.action is Download,
        download::download_step(
            s.stage->Downloading_0,
            de,
            t.stage->Downloading_0,
            out.action->Download_0,
        ),
        out.lines@.len() == 0,
        t.totals == s.totals,
        t.index == s.index,
{
    assert(display::lines(out.lines@).len() == out.lines@.len());
}

/// The end of a download counts as one, under what it was: downloaded, skipped
/// or failed, and the other counts stay. A file that is there goes on to
/// qBittorrent where torrents are added, read back under the name it was kept by;
/// else the next episode comes.
pub proof fn law_each_outcome_counts_once(s: Batch, de: DownloadEvent, t: Batch, out: BatchStep)
    requires
        s.wf(),
        s.stage is Downloading,
        batch_step(s, BatchEvent::Download(de), t, out),
        download::ending(s.stage->Downloading_0, de) is Some,
    ensures
        ({
            let o = download::ending(s.stage->Downloading_0, de)->0;
            &&& o is Downloaded ==> t.totals.downloaded == s.totals.downloaded + 1
                && t.totals.skipped == s.totals.skipped && t.totals.failed == s.totals.failed
            &&& o is Skipped ==> t.totals.downloaded == s.totals.downloaded && t.totals.skipped
                == s.totals.skipped + 1 && t.totals.failed == s.totals.failed
            &&& o is Failed ==> t.totals.downloaded == s.totals.downloaded && t.totals.skipped
                == s.totals.skipped && t.totals.failed == s.totals.failed + 1 && t.index == s.index
                + 1
            &&& t.totals.qbt_added == s.totals.qbt_added && t.totals.qbt_failed
                == s.totals.qbt_failed
            &&& !(o is Failed) && s.qbt is None ==> t.index == s.index + 1
            &&& !(o is Failed) && s.qbt is Some ==> t.index == s.index && t.stage is ReadingBack
                && out.action is ReadBack && out.action->filename@ == sanitize::torrent_stem(
                s.episodes@[s.index as int].title@,
                s.episodes@[s.index as int].torrent_url@,
            ) + ".torrent"@
            &&& (o matches OutcomeView::Downloaded(p) ==> (s.qbt is Some ==> t.stage->path@ == p))
            &&& (o matches OutcomeView::Skipped(p) ==> (s.qbt is Some ==> t.stage->path@ == p))
        }),
{
}

/// The end of a download is told in one line, which names the whole path or the
/// whole message behind the counter.
pub proof fn law_each_outcome_is_told(s: Batch, de: DownloadEvent, t: Batch, out: BatchStep)
    requires
        s.wf(),
        s.stage is Downloading,
        batch_step(s, BatchEvent::Download(de), t, out),
        download::ending(s.stage->Downloading_0, de) is Some,
    ensures
        out.lines@.len() == 1,
        match download::ending(s.stage->Downloading_0, de)->0 {
            OutcomeView::Downloaded(p) => out.lines@[0]@ == LineView::Out(
                display::progress_text(
                    display::counter(s.index as nat, s.episodes@.len()),
                    "已下载"@,
                    p,
                ),
            ),
            OutcomeView::Skipped(p) => out.lines@[0]@ == LineView::Out(
                display::progress_text(
                    display::counter(s.index as nat, s.episodes@.len()),
                    "已跳过（已存在）"@,
                    p,
                ),
            ),
            OutcomeView::Failed(m) => out.lines@[0]@ == LineView::Warning(
                display::progress_text(
                    display::counter(s.index as nat, s.episodes@.len()),
                    "失败"@,
                    m,
                ),
            ),
        },
{
    assert(display::lines(out.lines@).len() == out.lines@.len());
    assert(display::lines(out.lines@)[0] == out.lines@[0]@);
}

/// A reply counts as one torrent added or one that failed, and nothing else
/// counts; then the next episode comes. One line tells of it: that the file was
/// added, or the file and the whole cause.
pub proof fn law_each_reply_counts_once(s: Batch, reply: Reply, t: Batch, out: BatchStep)
    requires
        s.wf(),
        s.stage is Adding,
        batch_step(s, BatchEvent::Replied(reply), t, out),
    ensures
        ({
            let added = reply matches Reply::Answered(a) && qbt::granted(a);
            let name = sanitize::torrent_stem(
                s.episodes@[s.index as int].title@,
                s.episodes@[s.index as int].torrent_url@,
            ) + ".torrent"@;
            let tag = display::counter(s.index as nat, s.episodes@.len());
            &&& t.index == s.index + 1
            &&& t.totals.downloaded == s.totals.downloaded
            &&& t.totals.skipped == s.totals.skipped
            &&& t.totals.failed == s.totals.failed
            &&& added ==> t.totals.qbt_added == s.totals.qbt_added + 1 && t.totals.qbt_failed
                == s.totals.qbt_failed
            &&& !added ==> t.totals.qbt_added == s.totals.qbt_added && t.totals.qbt_failed
                == s.totals.qbt_failed + 1
            &&& out.lines@.len() == 1
            &&& added ==> out.lines@[0]@ == LineView::Out(
                display::progress_text(tag, "已添加到 qBittorrent"@, name),
            )
            &&& (reply matches Reply::Unreachable(cause) ==> out.lines@[0]@ == LineView::Warning(
                display::progress_text(
                    tag,
                    "失败"@,
                    name + ": "@ + ("could not reach qBittorrent at "@ + s.qbt->0.client@.endpoint
                        + " — is the WebUI enabled?"@ + ": "@ + cause@),
                ),
            ))
            &&& (reply matches Reply::Answered(a) ==> (!added && qbt::body_text(a).len() > 0
                ==> out.lines@[0]@ == LineView::Warning(
                display::progress_text(
                    tag,
                    "失败"@,
                    name + ": "@ + ("qBittorrent rejected the torrent: "@ + qbt::body_text(a)),
                ),
            )))
            &&& (reply matches Reply::Answered(a) ==> (!added && qbt::body_text(a).len() == 0
                ==> out.lines@[0]@ == LineView::Warning(
                display::progress_text(
                    tag,
                    "失败"@,
                    name + ": "@ + ("qBittorrent rejected the torrent: "@ + ("HTTP "@
                        + a.status_text@)),
                ),
            )))
        }),
{
    assert(display::lines(out.lines@).len() == out.lines@.len());
    assert(display::lines(out.lines@)[0] == out.lines@[0]@);
}

/// Bytes that could not be had count as one torrent that failed, and nothing else
/// counts; then the next episode comes. One line tells the whole cause.
pub proof fn law_missing_bytes_count_once(s: Batch, cause: String, t: Batch, out: BatchStep)
    requires
        s.wf(),
        s.stage is ReadingBack && batch_step(s, BatchEvent::ReadBack(Err(cause)), t, out)
            || s.stage is Fetching && batch_step(s, BatchEvent::Fetched(Err(cause)), t, out),
    ensures
        ({
            let name = sanitize::torrent_stem(
                s.episodes@[s.index as int].title@,
                s.episodes@[s.index as int].torrent_url@,
            ) + ".torrent"@;
            let tag = display::counter(s.index as nat, s.episodes@.len());
            &&& t.index == s.index + 1
            &&& t.totals == (Totals { qbt_failed: t.totals.qbt_failed, ..s.totals })
            &&& t.totals.qbt_failed == s.totals.qbt_failed + 1
            &&& out.lines@.len() == 1
            &&& s.stage is Fetching ==> out.lines@[0]@ == LineView::Warning(
                display::progress_text(tag, "失败"@, name + ": "@ + cause@),
            )
            &&& (s.stage matches Stage::ReadingBack { path } ==> out.lines@[0]@
                == LineView::Warning(
                display::progress_text(tag, "失败"@, "回读 "@ + path@ + "："@ + cause@),
            ))
        }),
{
    assert(display::lines(out.lines@).len() == out.lines@.len());
    assert(display::lines(out.lines@)[0] == out.lines@[0]@);
}

/// A batch begins with every count at zero.
pub proof fn law_counts_begin_at_zero()
    ensures
        no_totals().downloaded == 0,
        no_totals().skipped == 0,
        no_totals().failed == 0,
        no_totals().qbt_added == 0,
        no_totals().qbt_failed == 0,
{
}

/// What answers nothing that was asked leaves the whole batch as it is, and does
/// nothing.
pub proof fn law_what_was_not_asked_is_ignored(s: Batch, e: BatchEvent, t: Batch, out: BatchStep)
    requires
        batch_step(s, e, t, out),
        match s.stage {
            Stage::Downloading(_) => !(e is Download),
            Stage::ReadingBack { .. } => !(e is ReadBack),
            Stage::Fetching => !(e is Fetched),
            Stage::Adding => !(e is Replied),
            Stage::Finished => true,
        },
    ensures
        t == s,
        out.action is Ignored,
        out.lines@.len() == 0,
{
    assert(display::lines(out.lines@).len() == out.lines@.len());
}

}
