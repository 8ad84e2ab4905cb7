//! Downloading one torrent file into a directory, step by step. Each step says
//! what to do next with the files and with the network.
use crate::feed::Episode;
use crate::sanitize;
use crate::sanitize::torrent_filename;
use crate::text::{concat, concat3};
use vstd::prelude::*;

verus! {

/// How a download went: the file's path, or why it failed.
#[derive(Debug)]
pub enum Outcome {
    Downloaded(String),
    Skipped(String),
    Failed(String),
}

/// An outcome over sequences of characters.
pub enum OutcomeView {
    Downloaded(Seq<char>),
    Skipped(Seq<char>),
    Failed(Seq<char>),
}

impl View for Outcome {
    type V = OutcomeView;

    open spec fn view(&self) -> OutcomeView {
        match self {
            Outcome::Downloaded(p) => OutcomeView::Downloaded(p@),
            Outcome::Skipped(p) => OutcomeView::Skipped(p@),
            Outcome::Failed(m) => OutcomeView::Failed(m@),
        }
    }
}

/// What a download waits for. `filename` is the name of the file in the
/// directory, `path` the way to it.
pub enum Download {
    /// Whether the file is there already.
    Checking { filename: String, url: String },
    /// The bytes.
    Fetching { filename: String, path: String },
    /// That they are written, under another name.
    Writing { filename: String, path: String },
    /// That the file has its own name.
    Renaming { filename: String, path: String },
    /// That what was left of it is gone.
    Removing { message: String },
    /// Nothing any more.
    Over,
}

/// What has happened.
pub enum DownloadEvent {
    Checked { path: String, exists: bool },
    Fetched(Result<Vec<u8>, String>),
    Written(Result<(), String>),
    Renamed(Result<(), String>),
    Removed,
}

/// What to do next. Names are names in the directory.
pub enum DownloadAction {
    Check { filename: String },
    Fetch { url: String },
    Write { part: String, bytes: Vec<u8> },
    Rename { part: String, filename: String },
    Remove { part: String },
    Done(Outcome),
    /// What happened answers nothing that was asked.
    Ignored,
}

/// The name under which a file is written before it is complete.
pub open spec fn part_name(filename: Seq<char>) -> Seq<char> {
    filename + ".part"@
}

/// The message of a file that failed.
pub open spec fn failure(filename: Seq<char>, cause: Seq<char>) -> Seq<char> {
    filename + ": "@ + cause
}

/// How the download ends where `e` ends it.
pub open spec fn ending(d: Download, e: DownloadEvent) -> Option<OutcomeView> {
    match (d, e) {
        (Download::Checking { .. }, DownloadEvent::Checked { path, exists }) => if exists {
            Some(OutcomeView::Skipped(path@))
        } else {
            None
        },
        (Download::Fetching { filename, .. }, DownloadEvent::Fetched(Err(cause))) => Some(
            OutcomeView::Failed(failure(filename@, cause@)),
        ),
        (Download::Renaming { path, .. }, DownloadEvent::Renamed(Ok(_))) => Some(
            OutcomeView::Downloaded(path@),
        ),
        (Download::Removing { message }, DownloadEvent::Removed) => Some(
            OutcomeView::Failed(message@),
        ),
        _ => None,
    }
}

/// What is left to do of a file that could not be written.
pub open spec fn clears(filename: Seq<char>, cause: Seq<char>, t: Download, a: DownloadAction) -> bool {
    &&& t matches Download::Removing { message } && message@ == failure(filename, cause)
    &&& a matches DownloadAction::Remove { part } && part@ == part_name(filename)
}

/// The download is over with the outcome `o`.
pub open spec fn over_with(o: OutcomeView, t: Download, a: DownloadAction) -> bool {
    &&& t is Over
    &&& a matches DownloadAction::Done(outcome)
    &&& outcome@ == o
}

/// How `e` takes the download from `d` to `t`, with `a` to do next.
pub open spec fn download_step(
    d: Download,
    e: DownloadEvent,
    t: Download,
    a: DownloadAction,
) -> bool {
    match ending(d, e) {
        Some(o) => over_with(o, t, a),
        None => match (d, e) {
            (Download::Checking { filename, url }, DownloadEvent::Checked { path, .. }) => {
                &&& t == Download::Fetching { filename, path }
                &&& a == DownloadAction::Fetch { url }
            },
            (Download::Fetching { filename, path }, DownloadEvent::Fetched(Ok(bytes))) => {
                &&& t == Download::Writing { filename, path }
                &&& a matches DownloadAction::Write { part, bytes: b }
                &&& part@ == part_name(filename@)
                &&& b == bytes
            },
            (Download::Writing { filename, path }, DownloadEvent::Written(Ok(_))) => {
                &&& t == Download::Renaming { filename, path }
                &&& a matches DownloadAction::Rename { part, filename: f }
                &&& part@ == part_name(filename@)
                &&& f@ == filename@
            },
            (Download::Writing { filename, .. }, DownloadEvent::Written(Err(cause))) => clears(
                filename@,
                cause@,
                t,
                a,
            ),
            (Download::Renaming { filename, .. }, DownloadEvent::Renamed(Err(cause))) => clears(
                filename@,
                cause@,
                t,
                a,
            ),
            _ => t == d && a is Ignored,
        },
    }
}

/// Begins the download of an episode's torrent file: asks first whether it is
/// there already.
pub fn download(ep: &Episode) -> (r: (Download, DownloadAction))
    ensures
        r.0 matches Download::Checking { filename, url } && filename@ == sanitize::torrent_stem(
            ep.title@,
            ep.torrent_url@,
        ) + ".torrent"@ && url@ == ep.torrent_url@,
        r.1 matches DownloadAction::Check { filename } && filename@ == sanitize::torrent_stem(
            ep.title@,
            ep.torrent_url@,
        ) + ".torrent"@,
{
    let filename = torrent_filename(&ep.title, &ep.torrent_url);
    let asked = filename.clone();
    (
        Download::Checking { filename, url: ep.torrent_url.clone() },
        DownloadAction::Check { filename: asked },
    )
}

impl Download {
    /// What follows what has happened.
    pub fn step(self, event: DownloadEvent) -> (r: (Download, DownloadAction))
        ensures
            download_step(self, event, r.0, r.1),
    {
        match (self, event) {
            (Download::Checking { filename, url }, DownloadEvent::Checked { path, exists }) => {
                if exists {
                    (Download::Over, DownloadAction::Done(Outcome::Skipped(path)))
                } else {
                    (Download::Fetching { filename, path }, DownloadAction::Fetch { url })
                }
            },
            (Download::Fetching { filename, path }, DownloadEvent::Fetched(Ok(bytes))) => {
                let part = concat(&filename, ".part");
                (Download::Writing { filename, path }, DownloadAction::Write { part, bytes })
            },
            (Download::Fetching { filename, path: _ }, DownloadEvent::Fetched(Err(cause))) => {
                let message = concat3(&filename, ": ", &cause);
                (Download::Over, DownloadAction::Done(Outcome::Failed(message)))
            },
            (Download::Writing { filename, path }, DownloadEvent::Written(Ok(_))) => {
                let part = concat(&filename, ".part");
                let again = filename.clone();
                (
                    Download::Renaming { filename, path },
                    DownloadAction::Rename { part, filename: again },
                )
            },
            (Download::Writing { filename, path: _ }, DownloadEvent::Written(Err(cause))) => {
                let part = concat(&filename, ".part");
                let message = concat3(&filename, ": ", &cause);
                (Download::Removing { message }, DownloadAction::Remove { part })
            },
            (Download::Renaming { filename: _, path }, DownloadEvent::Renamed(Ok(_))) => {
                (Download::Over, DownloadAction::Done(Outcome::Downloaded(path)))
            },
            (Download::Renaming { filename, path: _ }, DownloadEvent::Renamed(Err(cause))) => {
                let part = concat(&filename, ".part");
                let message = concat3(&filename, ": ", &cause);
                (Download::Removing { message }, DownloadAction::Remove { part })
            },
            (Download::Removing { message }, DownloadEvent::Removed) => {
                (Download::Over, DownloadAction::Done(Outcome::Failed(message)))
            },
            (same, _) => (same, DownloadAction::Ignored),
        }
    }
}

// ---------------------------------------------------------------------------
// Laws

/// How many answers a download can still wait for.
pub open spec fn waits(d: Download) -> nat {
    match d {
        Download::Checking { .. } => 5,
        Download::Fetching { .. } => 4,
        Download::Writing { .. } => 3,
        Download::Renaming { .. } => 2,
        Download::Removing { .. } => 1,
        Download::Over => 0,
    }
}

/// Every answer brings a download closer to its end, so that nothing is asked
/// twice: the bytes are fetched at most once.
pub proof fn law_a_download_moves_on(
    d: Download,
    e: DownloadEvent,
    t: Download,
    a: DownloadAction,
)
    requires
        download_step(d, e, t, a),
        !(a is Ignored),
    ensures
        waits(t) < waits(d),
        a is Fetch ==> d is Checking,
{
}

/// A file that is there is never fetched again, and nothing is written.
pub proof fn law_an_existing_file_is_left_alone(
    d: Download,
    path: String,
    t: Download,
    a: DownloadAction,
)
    requires
        d is Checking,
        download_step(d, DownloadEvent::Checked { path, exists: true }, t, a),
    ensures
        t is Over,
        a matches DownloadAction::Done(o) && o@ == OutcomeView::Skipped(path@),
{
}

/// The file was written.
pub open spec fn written(e: DownloadEvent) -> bool {
    e matches DownloadEvent::Written(r) && r is Ok
}

/// The file was renamed.
pub open spec fn renamed(e: DownloadEvent) -> bool {
    e matches DownloadEvent::Renamed(r) && r is Ok
}

/// A file comes under its own name only once it is complete: it is written
/// under another name, and renamed where that succeeded. Where it did not, what
/// was left of it is removed before the failure is told.
pub proof fn law_a_file_is_complete_or_absent(
    d: Download,
    e: DownloadEvent,
    t: Download,
    a: DownloadAction,
)
    requires
        download_step(d, e, t, a),
    ensures
        a is Rename ==> d is Writing && written(e),
        a matches DownloadAction::Done(o) && o is Downloaded ==> d is Renaming && renamed(e),
        d is Writing || d is Renaming ==> (a matches DownloadAction::Done(o) ==> o is Downloaded),
{
}

/// Whatever an episode is called, neither its file nor the one it is written to
/// first has a name that leads out of the directory.
pub proof fn law_names_stay_in_the_directory(title: Seq<char>, torrent_url: Seq<char>)
    ensures
        sanitize::safe_for_file(sanitize::torrent_stem(title, torrent_url) + ".torrent"@),
        sanitize::safe_for_file(
            part_name(sanitize::torrent_stem(title, torrent_url) + ".torrent"@),
        ),
{
    sanitize::law_torrent_filename_is_safe(title, torrent_url);
    reveal_strlit(".part");
    let name = sanitize::torrent_stem(title, torrent_url) + ".torrent"@;
    let part = part_name(name);
    assert(sanitize::safe_for_file(".part"@));
    assert forall|i: int| 0 <= i < part.len() implies sanitize::file_safe(#[trigger] part[i]) by {
        if i < name.len() {
            assert(part[i] == name[i]);
        } else {
            assert(part[i] == ".part"@[i - name.len()]);
        }
    }
}

/// A name of characters that may stand in a file name holds no separator.
pub proof fn law_safe_names_have_no_separator(name: Seq<char>, i: int)
    requires
        sanitize::safe_for_file(name),
        0 <= i < name.len(),
    ensures
        name[i] != '/',
        name[i] != '\\',
        name[i] != '\0',
{
    assert(sanitize::file_safe(name[i]));
}

/// A download that nothing stops: the address asked for is that of the episode,
/// the bytes written are exactly those fetched, and the file that is renamed to
/// the name first checked is the one they were written to.
pub proof fn law_what_is_written_is_what_was_fetched(
    start: Download,
    path: String,
    bytes: Vec<u8>,
    d: (Download, Download, Download, Download),
    a: (DownloadAction, DownloadAction, DownloadAction, DownloadAction),
)
    requires
        start is Checking,
        download_step(start, DownloadEvent::Checked { path, exists: false }, d.0, a.0),
        download_step(d.0, DownloadEvent::Fetched(Ok(bytes)), d.1, a.1),
        download_step(d.1, DownloadEvent::Written(Ok(())), d.2, a.2),
        download_step(d.2, DownloadEvent::Renamed(Ok(())), d.3, a.3),
    ensures
        a.0 matches DownloadAction::Fetch { url } && url@ == start->Checking_url@,
        a.1 matches DownloadAction::Write { part, bytes: b } && b@ == bytes@ && part@
            == start->Checking_filename@ + ".part"@,
        a.2 matches DownloadAction::Rename { part, filename } && part@
            == start->Checking_filename@ + ".part"@ && filename@ == start->Checking_filename@,
        a.3 matches DownloadAction::Done(o) && (o matches Outcome::Downloaded(p) && p@ == path@),
        d.3 is Over,
{
}

/// Whatever fails, the whole cause is told behind the whole name of the file, and
/// what was written so far is removed.
pub proof fn law_a_failed_download_is_told(
    start: Download,
    path: String,
    bytes: Vec<u8>,
    cause: String,
    d: (Download, Download, Download, Download),
    a: (DownloadAction, DownloadAction, DownloadAction, DownloadAction),
)
    requires
        start is Checking,
        download_step(start, DownloadEvent::Checked { path, exists: false }, d.0, a.0),
        ({
            ||| download_step(d.0, DownloadEvent::Fetched(Err(cause)), d.3, a.3)
            ||| {
                &&& download_step(d.0, DownloadEvent::Fetched(Ok(bytes)), d.1, a.1)
                &&& download_step(d.1, DownloadEvent::Written(Err(cause)), d.2, a.2)
                &&& download_step(d.2, DownloadEvent::Removed, d.3, a.3)
            }
        }),
    ensures
        a.3 matches DownloadAction::Done(o) && (o matches Outcome::Failed(m) && m@
            == start->Checking_filename@ + ": "@ + cause@),
        d.3 is Over,
{
}

/// A file that cannot be renamed is removed under the name that it was written to,
/// and the whole cause is told.
pub proof fn law_a_failed_rename_is_told(
    s: Download,
    cause: String,
    d: (Download, Download),
    a: (DownloadAction, DownloadAction),
)
    requires
        s is Renaming || s is Writing,
        s is Renaming ==> download_step(s, DownloadEvent::Renamed(Err(cause)), d.0, a.0),
        s is Writing ==> download_step(s, DownloadEvent::Written(Err(cause)), d.0, a.0),
        download_step(d.0, DownloadEvent::Removed, d.1, a.1),
    ensures
        a.0 matches DownloadAction::Remove { part } && (s is Renaming ==> part@
            == s->Renaming_filename@ + ".part"@) && (s is Writing ==> part@ == s->Writing_filename@
            + ".part"@),
        a.1 matches DownloadAction::Done(o) && (o matches Outcome::Failed(m) && (s is Renaming
            ==> m@ == s->Renaming_filename@ + ": "@ + cause@) && (s is Writing ==> m@
            == s->Writing_filename@ + ": "@ + cause@)),
{
}

/// What an outcome shows is the whole path or message.
pub proof fn law_outcomes_are_seen_whole(o: Outcome)
    ensures
        o matches Outcome::Downloaded(p) ==> o@ == OutcomeView::Downloaded(p@),
        o matches Outcome::Skipped(p) ==> o@ == OutcomeView::Skipped(p@),
        o matches Outcome::Failed(m) ==> o@ == OutcomeView::Failed(m@),
{
}

/// What answers nothing that was asked changes nothing.
pub proof fn law_other_events_change_nothing(
    d: Download,
    e: DownloadEvent,
    t: Download,
    a: DownloadAction,
)
    requires
        download_step(d, e, t, a),
        match d {
            Download::Checking { .. } => !(e is Checked),
            Download::Fetching { .. } => !(e is Fetched),
            Download::Writing { .. } => !(e is Written),
            Download::Renaming { .. } => !(e is Renamed),
            Download::Removing { .. } => !(e is Removed),
            Download::Over => true,
        },
    ensures
        t == d,
        a is Ignored,
{
}

}
