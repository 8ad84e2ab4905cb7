//! What is remembered between runs, and how it is loaded and saved.
use crate::profiles;
use crate::profiles::{NamedProfile, ProfileMap, QbtProfile};
use crate::text;
use crate::text::{concat3, copy_texts, decimal_text, same};
use vstd::prelude::*;

verus! {

/// How many export paths are remembered.
pub const MAX_HISTORY: usize = 10;

/// The revision of the file's schema. A file of a later one is refused, not
/// misread.
pub const CONFIG_VERSION: u32 = 1;

/// The name of the file.
pub const CONFIG_FILE: &'static str = "config.toml";

/// The name that a file that cannot be parsed is moved to.
pub const BACKUP_FILE: &'static str = "config.toml.bak";

/// The name under which a file is written before it takes the old one's place.
pub const TEMPORARY_FILE: &'static str = "config.toml.tmp";

/// The revision of a file that states none: such files are of the first.
pub fn default_version() -> (v: u32)
    ensures
        v == 1,
{
    1
}

/// What is remembered between runs.
pub struct Config {
    pub version: u32,
    pub path_history: Vec<String>,
    pub qbt: ProfileMap,
}

/// What is remembered, over sequences.
pub struct ConfigView {
    pub version: u32,
    pub path_history: Seq<Seq<char>>,
    pub qbt: Seq<NamedProfile>,
}

impl View for Config {
    type V = ConfigView;

    open spec fn view(&self) -> ConfigView {
        ConfigView {
            version: self.version,
            path_history: text::texts(self.path_history@),
            qbt: self.qbt@,
        }
    }
}

impl ConfigView {
    /// Nothing remembered yet.
    pub open spec fn blank() -> ConfigView {
        ConfigView { version: CONFIG_VERSION, path_history: Seq::empty(), qbt: Seq::empty() }
    }
}

impl Default for Config {
    fn default() -> (c: Config)
        ensures
            c@ == ConfigView::blank(),
    {
        let c = Config {
            version: CONFIG_VERSION,
            path_history: Vec::new(),
            qbt: ProfileMap::new(),
        };
        assert(text::texts(c.path_history@) == Seq::<Seq<char>>::empty());
        c
    }
}

impl Config {
    /// The same again.
    pub fn duplicate(&self) -> (c: Config)
        ensures
            c@ == self@,
    {
        Config {
            version: self.version,
            path_history: copy_texts(&self.path_history),
            qbt: self.qbt.duplicate(),
        }
    }
}

// ---------------------------------------------------------------------------
// Path history

/// Anything but `path`, as a predicate.
pub open spec fn other_than(path: Seq<char>) -> spec_fn(Seq<char>) -> bool {
    |p: Seq<char>| p != path
}

/// At most the first `n`.
pub open spec fn at_most(s: Seq<Seq<char>>, n: nat) -> Seq<Seq<char>> {
    if n < s.len() {
        s.take(n as int)
    } else {
        s
    }
}

/// The history with `path` as the latest entry, and only there.
pub open spec fn recorded(history: Seq<Seq<char>>, path: Seq<char>) -> Seq<Seq<char>> {
    at_most(seq![path] + history.filter(other_than(path)), MAX_HISTORY as nat)
}

impl Config {
    /// Remembers `path` as the one used last.
    pub fn record_path(&mut self, path: &str)
        ensures
            final(self)@ == (ConfigView {
                path_history: recorded(old(self)@.path_history, path@),
                ..old(self)@
            }),
    {
        let mut history: Vec<String> = Vec::new();
        history.push(path.to_owned());
        let ghost all = text::texts(self.path_history@);
        let mut i: usize = 0;
        proof {
            reveal(Seq::filter);
            assert(all.take(0) == Seq::<Seq<char>>::empty());
            assert(text::texts(history@) == seq![path@] + all.take(0).filter(other_than(path@)));
        }
        while i < self.path_history.len()
            invariant
                i <= self.path_history@.len(),
                self.path_history == old(self).path_history,
                self.version == old(self).version,
                self.qbt == old(self).qbt,
                all == text::texts(self.path_history@),
                text::texts(history@) == seq![path@] + all.take(i as int).filter(other_than(path@)),
            decreases self.path_history@.len() - i,
        {
            let ghost before = history@;
            let ghost kept = all.take(i as int).filter(other_than(path@));
            let ghost p = self.path_history@[i as int]@;
            proof {
                reveal(Seq::filter);
                assert(all.take(i + 1).drop_last() == all.take(i as int));
                assert(all.take(i + 1).last() == p);
                assert(other_than(path@)(p) == (p != path@));
            }
            if !same(&self.path_history[i], path) {
                history.push(self.path_history[i].clone());
                proof {
                    assert(text::texts(history@) == text::texts(before).push(p));
                    assert((seq![path@] + kept).push(p) == seq![path@] + kept.push(p));
                }
            }
            i = i + 1;
        }
        let ghost full = history@;
        history.truncate(MAX_HISTORY);
        proof {
            assert(all.take(i as int) == all);
            assert(text::texts(full).len() == full.len());
            if MAX_HISTORY < full.len() {
                assert(text::texts(history@) == text::texts(full).take(MAX_HISTORY as int));
            } else {
                assert(history@ == full);
            }
            assert(text::texts(history@) == recorded(all, path@));
        }
        self.path_history = history;
    }
}

/// The latest entry is `path`, which stands nowhere else, and there are never
/// more than ten.
pub proof fn law_recorded_path_comes_first(history: Seq<Seq<char>>, path: Seq<char>)
    ensures
        recorded(history, path).len() > 0,
        recorded(history, path)[0] == path,
        forall|i: int|
            0 < i < recorded(history, path).len() ==> #[trigger] recorded(history, path)[i] != path,
        recorded(history, path).len() <= MAX_HISTORY,
{
    let kept = history.filter(other_than(path));
    let full = seq![path] + kept;
    let r = recorded(history, path);
    broadcast use vstd::seq_lib::group_filter_ensures;
    assert forall|i: int| 0 < i < r.len() implies #[trigger] r[i] != path by {
        assert(r[i] == full[i]);
        assert(full[i] == kept[i - 1]);
        assert(other_than(path)(kept[i - 1]));
    }
}

proof fn lemma_filter_keeps(s: Seq<Seq<char>>, path: Seq<char>)
    requires
        forall|i: int| 0 <= i < s.len() ==> #[trigger] s[i] != path,
    ensures
        s.filter(other_than(path)) == s,
    decreases s.len(),
{
    reveal(Seq::filter);
    if s.len() > 0 {
        let t = s.drop_last();
        assert forall|i: int| 0 <= i < t.len() implies #[trigger] t[i] != path by {
            assert(t[i] == s[i]);
        }
        lemma_filter_keeps(t, path);
        assert(s[s.len() - 1] != path);
        assert(other_than(path)(s.last()));
        assert(t.push(s.last()) == s);
    }
}

/// Recording the same path again changes nothing.
pub proof fn law_recording_again_changes_nothing(history: Seq<Seq<char>>, path: Seq<char>)
    ensures
        recorded(recorded(history, path), path) == recorded(history, path),
{
    let r = recorded(history, path);
    let rest = r.skip(1);
    law_recorded_path_comes_first(history, path);
    assert(r == seq![path] + rest);
    assert forall|i: int| 0 <= i < rest.len() implies #[trigger] rest[i] != path by {
        assert(rest[i] == r[i + 1]);
    }
    lemma_filter_keeps(rest, path);
    Seq::filter_distributes_over_add(seq![path], rest, other_than(path));
    reveal_with_fuel(Seq::filter, 2);
    assert(seq![path].drop_last() == Seq::<Seq<char>>::empty());
    assert(!other_than(path)(path));
    assert(seq![path].filter(other_than(path)) == Seq::<Seq<char>>::empty());
    assert(r.filter(other_than(path)) == rest);
}

// ---------------------------------------------------------------------------
// Loading

/// What is remembered as the file holds it: the profiles are pairs of a name and
/// a profile.
pub struct StoredConfig {
    pub version: u32,
    pub path_history: Vec<String>,
    pub qbt: Vec<(String, QbtProfile)>,
}

impl View for StoredConfig {
    type V = ConfigView;

    open spec fn view(&self) -> ConfigView {
        ConfigView {
            version: self.version,
            path_history: text::texts(self.path_history@),
            qbt: profiles::named(self.qbt@),
        }
    }
}

/// What was found where the file should be. A file that could not be parsed
/// comes with the parser's complaint.
pub enum ConfigFile {
    Unreadable,
    Unparseable(String),
    Parsed(StoredConfig),
}

/// What loading gives: what to go on with, and whether the file must first be
/// moved aside.
pub struct Loaded {
    pub config: Config,
    pub set_aside: bool,
}

/// The complaint about a file of a later revision.
pub open spec fn too_new(path: Seq<char>, version: u32) -> Seq<char> {
    "配置文件 "@ + path + " 的版本 "@ + text::decimal(version as nat) + " 高于本程序支持的版本 "@
        + text::decimal(CONFIG_VERSION as nat) + "，请升级 mikan 后再试"@
}

/// The warning about a file that cannot be parsed, at `path`, which went to
/// `backup` where it could be moved.
pub open spec fn unparseable(
    path: Seq<char>,
    complaint: Seq<char>,
    backup: Option<Seq<char>>,
) -> Seq<char> {
    let front = "警告："@ + path + " 无法解析，已被忽略（"@ + complaint + "）"@;
    match backup {
        Some(b) => front + " —— 原文件已移动到 "@ + b,
        None => front,
    }
}

/// What a file holds, with the profiles by name.
pub open spec fn restored(stored: ConfigView) -> ConfigView {
    ConfigView { qbt: profiles::put_all(stored.qbt), ..stored }
}

/// What loading gives: what to go on with and whether the file is moved aside, or
/// why it is refused. A missing or unreadable file gives the defaults. So does one
/// that cannot be parsed, which is moved aside first, because the next save would
/// overwrite it. Only a file of a later revision is refused, and left alone.
pub open spec fn loading(file: ConfigFile, path: Seq<char>) -> Result<(ConfigView, bool), Seq<char>> {
    match file {
        ConfigFile::Unreadable => Ok((ConfigView::blank(), false)),
        ConfigFile::Unparseable(_) => Ok((ConfigView::blank(), true)),
        ConfigFile::Parsed(stored) => if stored.version > CONFIG_VERSION {
            Err(too_new(path, stored.version))
        } else {
            Ok((restored(stored@), false))
        },
    }
}

impl Config {
    /// What to go on with, from what was found at `path`.
    pub fn load(file: ConfigFile, path: &str) -> (r: Result<Loaded, String>)
        ensures
            match r {
                Ok(l) => loading(file, path@) == Ok::<(ConfigView, bool), Seq<char>>(
                    (l.config@, l.set_aside),
                ),
                Err(m) => loading(file, path@) == Err::<(ConfigView, bool), Seq<char>>(m@),
            },
    {
        match file {
            ConfigFile::Unreadable => Ok(Loaded { config: Config::default(), set_aside: false }),
            ConfigFile::Unparseable(_) => Ok(Loaded { config: Config::default(), set_aside: true }),
            ConfigFile::Parsed(stored) => {
                if stored.version > CONFIG_VERSION {
                    let theirs = decimal_text(stored.version as u64);
                    let ours = decimal_text(CONFIG_VERSION as u64);
                    let a = concat3("配置文件 ", path, " 的版本 ");
                    let b = concat3(&a, &theirs, " 高于本程序支持的版本 ");
                    Err(concat3(&b, &ours, "，请升级 mikan 后再试"))
                } else {
                    let config = Config {
                        version: stored.version,
                        path_history: stored.path_history,
                        qbt: ProfileMap::from_pairs(stored.qbt),
                    };
                    Ok(Loaded { config, set_aside: false })
                }
            },
        }
    }
}

/// The warning about a file that cannot be parsed.
pub fn unparseable_warning(path: &str, complaint: &str, backup: Option<&str>) -> (s: String)
    ensures
        s@ == unparseable(
            path@,
            complaint@,
            match backup {
                Some(b) => Some(b@),
                None => None,
            },
        ),
{
    let a = concat3("警告：", path, " 无法解析，已被忽略（");
    let front = concat3(&a, complaint, "）");
    match backup {
        Some(b) => concat3(&front, " —— 原文件已移动到 ", b),
        None => front,
    }
}

// ---------------------------------------------------------------------------
// Saving

/// The steps of saving. The file can hold passwords: where files have owners,
/// the replacement is created for its owner alone before anything is written
/// to it, and the old file is replaced in one move.
#[derive(Debug, Clone, Copy, PartialEq, Eq, Structural)]
pub enum SaveStep {
    /// Create the directory.
    CreateDir,
    /// Turn the state into text.
    Render,
    /// Remove a temporary file that was left behind; that there is none is fine.
    RemoveTemporary,
    /// Create the temporary file anew, for its owner alone.
    CreateTemporary,
    /// Write the text to the temporary file.
    WriteTemporary,
    /// Move the temporary file over the old one.
    Replace,
    /// It is saved.
    Saved,
    /// It is not saved, and the old file is as it was.
    Failed,
}

/// What comes after a step, by whether it succeeded. `owners` says whether files
/// have owners here.
pub open spec fn following(step: SaveStep, ok: bool, owners: bool) -> SaveStep {
    match step {
        SaveStep::RemoveTemporary => SaveStep::CreateTemporary,
        SaveStep::Saved => SaveStep::Saved,
        SaveStep::Failed => SaveStep::Failed,
        _ => if !ok {
            SaveStep::Failed
        } else {
            match step {
                SaveStep::CreateDir => SaveStep::Render,
                SaveStep::Render => if owners {
                    SaveStep::RemoveTemporary
                } else {
                    SaveStep::WriteTemporary
                },
                SaveStep::CreateTemporary => SaveStep::WriteTemporary,
                SaveStep::WriteTemporary => SaveStep::Replace,
                _ => SaveStep::Saved,
            }
        },
    }
}

impl Config {
    /// The first step of saving, and what the file is to hold: all that is
    /// remembered, with the profiles in the order of their names.
    pub fn save(&self) -> (r: (SaveStep, StoredConfig))
        ensures
            r.0 == SaveStep::CreateDir,
            r.1@ == self@,
            profiles::ascending(r.1@.qbt),
    {
        let stored = StoredConfig {
            version: self.version,
            path_history: copy_texts(&self.path_history),
            qbt: self.qbt.pairs(),
        };
        (SaveStep::CreateDir, stored)
    }
}

impl SaveStep {
    /// What comes after this step.
    pub fn next(self, ok: bool, owners: bool) -> (s: SaveStep)
        ensures
            s == following(self, ok, owners),
    {
        match self {
            SaveStep::RemoveTemporary => SaveStep::CreateTemporary,
            SaveStep::Saved => SaveStep::Saved,
            SaveStep::Failed => SaveStep::Failed,
            SaveStep::CreateDir => if ok {
                SaveStep::Render
            } else {
                SaveStep::Failed
            },
            SaveStep::Render => if !ok {
                SaveStep::Failed
            } else if owners {
                SaveStep::RemoveTemporary
            } else {
                SaveStep::WriteTemporary
            },
            SaveStep::CreateTemporary => if ok {
                SaveStep::WriteTemporary
            } else {
                SaveStep::Failed
            },
            SaveStep::WriteTemporary => if ok {
                SaveStep::Replace
            } else {
                SaveStep::Failed
            },
            SaveStep::Replace => if ok {
                SaveStep::Saved
            } else {
                SaveStep::Failed
            },
        }
    }
}

/// Loading gives back what was saved: the revision, the paths in their order, and
/// every profile with its name, endpoint, user name and password. `saved` is what
/// the file was to hold when `config` was saved.
pub proof fn law_loading_gives_back_what_was_saved(
    config: ConfigView,
    saved: StoredConfig,
    path: Seq<char>,
)
    requires
        saved@ == config,
        profiles::ascending(saved@.qbt),
        config.version <= CONFIG_VERSION,
    ensures
        loading(ConfigFile::Parsed(saved), path) == Ok::<(ConfigView, bool), Seq<char>>(
            (config, false),
        ),
{
    profiles::law_pairs_give_back_the_map(saved@.qbt);
}

/// The step that saving has come to after the given outcomes.
pub open spec fn reached(outcomes: Seq<bool>, owners: bool) -> SaveStep
    decreases outcomes.len(),
{
    if outcomes.len() == 0 {
        SaveStep::CreateDir
    } else {
        following(reached(outcomes.drop_last(), owners), outcomes.last(), owners)
    }
}

/// Saving comes to an end after at most six outcomes, and then stays there.
pub proof fn law_saving_ends(outcomes: Seq<bool>, owners: bool)
    requires
        outcomes.len() >= 6,
    ensures
        reached(outcomes, owners) is Saved || reached(outcomes, owners) is Failed,
    decreases outcomes.len(),
{
    if outcomes.len() > 6 {
        law_saving_ends(outcomes.drop_last(), owners);
    } else {
        reveal_with_fuel(reached, 7);
    }
}

/// The old file is replaced only after the whole text was written to the
/// temporary one: whatever fails before, it is left as it was.
pub proof fn law_replacing_comes_after_writing(outcomes: Seq<bool>, owners: bool)
    requires
        reached(outcomes, owners) is Replace,
    ensures
        outcomes.len() > 0,
        outcomes.last(),
        reached(outcomes.drop_last(), owners) is WriteTemporary,
{
}

/// Where files have owners, nothing is written to a temporary file but one that
/// was just created for its owner alone.
pub proof fn law_secrets_go_to_the_owner_alone(outcomes: Seq<bool>)
    requires
        reached(outcomes, true) is WriteTemporary,
    ensures
        outcomes.len() > 0,
        outcomes.last(),
        reached(outcomes.drop_last(), true) is CreateTemporary,
{
}

/// Saving succeeds exactly where no step failed but for the removal of a
/// temporary file.
pub proof fn law_saving_succeeds(outcomes: Seq<bool>, owners: bool)
    requires
        outcomes.len() == 6,
    ensures
        owners ==> (reached(outcomes, owners) is Saved <==> outcomes[0] && outcomes[1]
            && outcomes[3] && outcomes[4] && outcomes[5]),
        !owners ==> (reached(outcomes, owners) is Saved <==> outcomes[0] && outcomes[1]
            && outcomes[2] && outcomes[3]),
{
    reveal_with_fuel(reached, 7);
}

// ---------------------------------------------------------------------------
// The directory

/// The name of the program's own directory.
pub const DIRECTORY: &'static str = "mikanani-cli";

/// A text that is there and not empty.
pub open spec fn given(s: Option<&str>) -> bool {
    s is Some && s->0@.len() > 0
}

/// The parts of the path of the directory: on Windows below `%APPDATA%`,
/// elsewhere below `$XDG_CONFIG_HOME` or `$HOME/.config`, and below the current
/// directory where the variable is not set.
pub open spec fn directory_parts(
    windows: bool,
    appdata: Option<&str>,
    xdg: Option<&str>,
    home: Option<&str>,
) -> Seq<Seq<char>> {
    if windows {
        seq![if given(appdata) { appdata->0@ } else { "."@ }, DIRECTORY@]
    } else if given(xdg) {
        seq![xdg->0@, DIRECTORY@]
    } else {
        seq![if home is Some { home->0@ } else { "."@ }, ".config"@, DIRECTORY@]
    }
}

/// The parts of the path of the directory.
pub fn resolve_config_dir(
    windows: bool,
    appdata: Option<&str>,
    xdg: Option<&str>,
    home: Option<&str>,
) -> (parts: Vec<String>)
    ensures
        text::texts(parts@) == directory_parts(windows, appdata, xdg, home),
{
    let mut parts: Vec<String> = Vec::new();
    if windows {
        match appdata {
            Some(a) if !a.is_empty() => parts.push(a.to_owned()),
            _ => parts.push(".".to_owned()),
        }
    } else {
        match xdg {
            Some(x) if !x.is_empty() => parts.push(x.to_owned()),
            _ => {
                match home {
                    Some(h) => parts.push(h.to_owned()),
                    None => parts.push(".".to_owned()),
                }
                parts.push(".config".to_owned());
            },
        }
    }
    parts.push(DIRECTORY.to_owned());
    assert(text::texts(parts@) == directory_parts(windows, appdata, xdg, home));
    parts
}

// ---------------------------------------------------------------------------
// Laws of what is kept

proof fn lemma_same_filter(s: Seq<Seq<char>>, path: Seq<char>)
    ensures
        s.filter(other_than(path)) == s.filter(|p: Seq<char>| p != path),
    decreases s.len(),
{
    reveal(Seq::filter);
    if s.len() > 0 {
        lemma_same_filter(s.drop_last(), path);
    }
}

/// The history begins with the path used last; behind it stand the other paths in
/// the order that they had, all of them as far as ten paths go.
pub proof fn law_the_history_keeps_ten(history: Seq<Seq<char>>, path: Seq<char>)
    ensures
        ({
            let full = seq![path] + history.filter(|p: Seq<char>| p != path);
            &&& recorded(history, path).is_prefix_of(full)
            &&& recorded(history, path).len() == if full.len() < 10 {
                full.len()
            } else {
                10
            }
        }),
        history.len() < 10 && (forall|i: int|
            0 <= i < history.len() ==> #[trigger] history[i] != path) ==> recorded(history, path)
            == seq![path] + history,
        history.len() >= 10 && (forall|i: int|
            0 <= i < history.len() ==> #[trigger] history[i] != path) ==> recorded(history, path)
            == seq![path] + history.take(9),
{
    lemma_same_filter(history, path);
    let full = seq![path] + history.filter(|p: Seq<char>| p != path);
    let r = recorded(history, path);
    if full.len() > 10 {
        assert(r == full.take(10));
    }
    if forall|i: int| 0 <= i < history.len() ==> #[trigger] history[i] != path {
        lemma_filter_keeps(history, path);
        if history.len() >= 10 {
            assert(full.take(10) == seq![path] + history.take(9));
            if full.len() == 10 {
                assert(history.take(9) == history);
            }
        }
    }
}

/// A file of the revision that is known is taken as it is: the revision, every path
/// in its place, and under every name the last profile. It is left where it is.
pub proof fn law_a_known_file_is_taken_whole(stored: StoredConfig, path: Seq<char>, i: int, k: int)
    requires
        stored.version <= 1,
    ensures
        loading(ConfigFile::Parsed(stored), path) is Ok,
        ({
            let (config, set_aside) = loading(ConfigFile::Parsed(stored), path)->Ok_0;
            &&& !set_aside
            &&& config.version == stored.version
            &&& config.path_history.len() == stored.path_history@.len()
            &&& 0 <= i < stored.path_history@.len() ==> config.path_history[i]
                == stored.path_history@[i]@
            &&& 0 <= k < stored.qbt@.len() && (forall|m: int|
                k < m < stored.qbt@.len() ==> (#[trigger] stored.qbt@[m]).0@ != stored.qbt@[k].0@)
                ==> profiles::lookup(config.qbt, stored.qbt@[k].0@) == Some(
                profiles::ProfileView {
                    endpoint: stored.qbt@[k].1.endpoint@,
                    username: stored.qbt@[k].1.username@,
                    password: stored.qbt@[k].1.password@,
                },
            )
        }),
{
    let pairs = profiles::named(stored.qbt@);
    if 0 <= k < stored.qbt@.len() {
        let name = stored.qbt@[k].0@;
        profiles::law_every_pair_is_kept(pairs, name, k, 0, 0);
        if forall|m: int|
            k < m < stored.qbt@.len() ==> (#[trigger] stored.qbt@[m]).0@ != name {
            assert forall|m: int| k < m < pairs.len() implies (#[trigger] pairs[m]).0 != name by {
                assert(pairs[m].0 == stored.qbt@[m].0@);
            }
        }
    }
}

/// A file of a later revision is refused, with its path and revision told. A file
/// that is missing or cannot be parsed gives an empty start, and only the latter is
/// set aside.
pub proof fn law_other_files_are_not_taken(
    stored: StoredConfig,
    complaint: String,
    path: Seq<char>,
)
    ensures
        stored.version > 1 ==> loading(ConfigFile::Parsed(stored), path) == Err::<
            (ConfigView, bool),
            Seq<char>,
        >(
            "配置文件 "@ + path + " 的版本 "@ + text::decimal(stored.version as nat)
                + " 高于本程序支持的版本 "@ + text::decimal(1) + "，请升级 mikan 后再试"@,
        ),
        loading(ConfigFile::Unreadable, path) == Ok::<(ConfigView, bool), Seq<char>>(
            (
                ConfigView { version: 1, path_history: Seq::empty(), qbt: Seq::empty() },
                false,
            ),
        ),
        loading(ConfigFile::Unparseable(complaint), path) == Ok::<(ConfigView, bool), Seq<char>>(
            (
                ConfigView { version: 1, path_history: Seq::empty(), qbt: Seq::empty() },
                true,
            ),
        ),
{
}

/// The warning names the whole path, the whole complaint, and where the file went.
pub proof fn law_the_warning_tells_all(
    path: Seq<char>,
    complaint: Seq<char>,
    backup: Seq<char>,
)
    ensures
        unparseable(path, complaint, None) == "警告："@ + path + " 无法解析，已被忽略（"@ + complaint
            + "）"@,
        unparseable(path, complaint, Some(backup)) == unparseable(path, complaint, None)
            + " —— 原文件已移动到 "@ + backup,
{
}

/// What is saved is all that is remembered.
pub proof fn law_what_is_remembered_is_seen_whole(config: Config, stored: StoredConfig)
    ensures
        config@.version == config.version,
        config@.path_history == text::texts(config.path_history@),
        config@.qbt == config.qbt@,
        stored@.version == stored.version,
        stored@.path_history == text::texts(stored.path_history@),
        stored@.qbt == profiles::named(stored.qbt@),
{
}

/// Where nothing fails, saving goes through its steps in order: the directory, the
/// text, the temporary file, and the replacement.
pub proof fn law_saving_goes_step_by_step(owners: bool)
    ensures
        reached(Seq::empty(), owners) is CreateDir,
        reached(seq![true], owners) is Render,
        owners ==> {
            &&& reached(seq![true, true], owners) is RemoveTemporary
            &&& reached(seq![true, true, true], owners) is CreateTemporary
            &&& reached(seq![true, true, true, true], owners) is WriteTemporary
            &&& reached(seq![true, true, true, true, true], owners) is Replace
            &&& reached(seq![true, true, true, true, true, true], owners) is Saved
        },
        !owners ==> {
            &&& reached(seq![true, true], owners) is WriteTemporary
            &&& reached(seq![true, true, true], owners) is Replace
            &&& reached(seq![true, true, true, true], owners) is Saved
        },
{
    reveal_with_fuel(reached, 7);
    assert(seq![true].drop_last() == Seq::<bool>::empty());
    assert(seq![true, true].drop_last() == seq![true]);
    assert(seq![true, true, true].drop_last() == seq![true, true]);
    assert(seq![true, true, true, true].drop_last() == seq![true, true, true]);
    assert(seq![true, true, true, true, true].drop_last() == seq![true, true, true, true]);
    assert(seq![true, true, true, true, true, true].drop_last() == seq![
        true,
        true,
        true,
        true,
        true,
    ]);
}

/// A step that fails ends the saving for good, but for the removal of a temporary
/// file.
pub proof fn law_a_failed_step_ends_the_saving(outcomes: Seq<bool>, more: Seq<bool>, owners: bool)
    requires
        outcomes.len() > 0,
        !outcomes.last(),
        !(reached(outcomes.drop_last(), owners) is RemoveTemporary),
        !(reached(outcomes.drop_last(), owners) is Saved),
    ensures
        reached(outcomes + more, owners) is Failed,
    decreases more.len(),
{
    if more.len() == 0 {
        assert(outcomes + more == outcomes);
    } else {
        law_a_failed_step_ends_the_saving(outcomes, more.drop_last(), owners);
        assert((outcomes + more).drop_last() == outcomes + more.drop_last());
    }
}

/// The directory lies below the place that the system gives, whole, and below the
/// current one where it gives none. An empty variable counts as not set, but for
/// the home directory.
pub proof fn law_the_directory_lies_where_it_belongs(
    appdata: Option<&str>,
    xdg: Option<&str>,
    home: Option<&str>,
)
    ensures
        appdata matches Some(a) ==> (a@.len() > 0 ==> directory_parts(true, appdata, xdg, home)
            == seq![a@, "mikanani-cli"@]),
        appdata is None || appdata->0@.len() == 0 ==> directory_parts(true, appdata, xdg, home)
            == seq!["."@, "mikanani-cli"@],
        xdg matches Some(x) ==> (x@.len() > 0 ==> directory_parts(false, appdata, xdg, home)
            == seq![x@, "mikanani-cli"@]),
        xdg is None || xdg->0@.len() == 0 ==> (home matches Some(h) ==> directory_parts(
            false,
            appdata,
            xdg,
            home,
        ) == seq![h@, ".config"@, "mikanani-cli"@]),
        (xdg is None || xdg->0@.len() == 0) && home is None ==> directory_parts(
            false,
            appdata,
            xdg,
            home,
        ) == seq!["."@, ".config"@, "mikanani-cli"@],
{
}

}
