//! Questions: what they offer, which answers they accept, and how an answer, a
//! refusal or a failure is told apart.
use crate::export::url_list_filename;
use crate::export;
use crate::mikan;
use crate::mikan::{Show, Subgroup};
use crate::sanitize;
use crate::sanitize::sanitize_stem;
use crate::text;
use crate::text::{
    concat, concat3, contains_text, decimal_text, is_blank, same, starts_with, strip_prefix,
    to_lowercase, trim,
};
use vstd::prelude::*;

verus! {

// ---------------------------------------------------------------------------
// Answers

/// How a question ended.
pub enum Prompted<T> {
    /// With an answer.
    Answered(T),
    /// With Esc.
    Skipped,
    /// With Ctrl-C.
    Interrupted,
    /// Not at all, for the reason given.
    Broken(String),
}

/// The message of a question that failed.
pub open spec fn asking_failed(what: Seq<char>, cause: Seq<char>) -> Seq<char> {
    "获取"@ + what + ": "@ + cause
}

/// The answer; none where the question was cancelled, in either way. A failure
/// tells what was asked.
pub fn take_or_cancel<T>(result: Prompted<T>, what: &str) -> (r: Result<Option<T>, String>)
    ensures
        match result {
            Prompted::Answered(v) => r == Ok::<Option<T>, String>(Some(v)),
            Prompted::Skipped => r == Ok::<Option<T>, String>(None),
            Prompted::Interrupted => r == Ok::<Option<T>, String>(None),
            Prompted::Broken(cause) => r is Err && r->Err_0@ == asking_failed(what@, cause@),
        },
{
    match result {
        Prompted::Answered(v) => Ok(Some(v)),
        Prompted::Skipped => Ok(None),
        Prompted::Interrupted => Ok(None),
        Prompted::Broken(cause) => {
            let front = concat3("获取", what, ": ");
            Err(concat(&front, &cause))
        },
    }
}

/// Accepts what is not blank, and else answers with the complaint.
pub fn check_filled(input: &str, complaint: &str) -> (r: Result<(), String>)
    ensures
        r is Ok <==> text::trimmed(input@).len() > 0,
        r matches Err(m) ==> m@ == complaint@,
{
    if is_blank(input) {
        Err(complaint.to_owned())
    } else {
        Ok(())
    }
}

/// Accepts a choice of at least one format.
pub fn check_formats(chosen: usize) -> (r: Result<(), String>)
    ensures
        r is Ok <==> chosen > 0,
        r matches Err(m) ==> m@ == "至少选择一种格式"@,
{
    if chosen == 0 {
        Err("至少选择一种格式".to_owned())
    } else {
        Ok(())
    }
}

/// An address of the web.
pub open spec fn web_address(s: Seq<char>) -> bool {
    text::stands_at(s, "http://"@, 0) || text::stands_at(s, "https://"@, 0)
}

/// Accepts an address of the web.
pub fn check_endpoint(input: &str) -> (r: Result<(), String>)
    ensures
        r is Ok <==> web_address(text::trimmed(input@)),
        r matches Err(m) ==> m@ == "必须以 http:// 或 https:// 开头"@,
{
    let t = trim(input);
    if starts_with(&t, "http://") || starts_with(&t, "https://") {
        Ok(())
    } else {
        Err("必须以 http:// 或 https:// 开头".to_owned())
    }
}

// ---------------------------------------------------------------------------
// Choices

/// A choice among shows: one of them, or another search.
pub enum ShowChoice {
    Pick(Show),
    SearchAgain,
}

impl ShowChoice {
    /// What a list shows of it.
    pub fn label(&self) -> (s: String)
        ensures
            match *self {
                ShowChoice::Pick(show) => s@ == show.title@,
                ShowChoice::SearchAgain => s@ == "↻ 重新搜索"@,
            },
    {
        match self {
            ShowChoice::Pick(show) => show.label(),
            ShowChoice::SearchAgain => "↻ 重新搜索".to_owned(),
        }
    }
}

/// A choice among groups: one of them, or back to the shows.
pub enum GroupNav {
    Group(Subgroup),
    Back,
}

impl GroupNav {
    /// What a list shows of it.
    pub fn label(&self) -> (s: String)
        ensures
            match *self {
                GroupNav::Group(group) => s@ == group.name@,
                GroupNav::Back => s@ == "← 返回上一步"@,
            },
    {
        match self {
            GroupNav::Group(group) => group.label(),
            GroupNav::Back => "← 返回上一步".to_owned(),
        }
    }
}

/// What to ask about the groups of a show: nothing where there is no choice.
/// The id `0` stands for all groups.
pub enum SubgroupChoice {
    Auto(u32),
    Menu(Vec<Subgroup>),
}

/// Without groups all are taken, a single one is taken, and of several one can
/// be chosen, with all of them as the first choice.
pub fn subgroup_choice(groups: Vec<Subgroup>) -> (r: SubgroupChoice)
    ensures
        groups@.len() == 0 ==> r == SubgroupChoice::Auto(0),
        groups@.len() == 1 ==> r == SubgroupChoice::Auto(groups@[0].id),
        groups@.len() > 1 ==> {
            &&& r matches SubgroupChoice::Menu(menu)
            &&& menu@.len() == groups@.len() + 1
            &&& menu@[0].id == 0
            &&& menu@[0].name@ == "全部字幕组"@
            &&& menu@.skip(1) == groups@
        },
{
    if groups.len() == 0 {
        SubgroupChoice::Auto(0)
    } else if groups.len() == 1 {
        SubgroupChoice::Auto(groups[0].id)
    } else {
        let mut menu = groups;
        menu.insert(0, Subgroup { name: "全部字幕组".to_owned(), id: 0 });
        assert(menu@.skip(1) == groups@);
        SubgroupChoice::Menu(menu)
    }
}

/// What an export makes.
#[derive(Debug, Clone, Copy, PartialEq, Eq, Structural)]
pub enum ExportFormat {
    TorrentFiles,
    UrlList,
    Qbt,
}

/// A choice among formats.
pub struct FormatOption {
    pub format: ExportFormat,
    pub label: String,
}

/// What a list shows of a format.
pub open spec fn format_label(format: ExportFormat, channel_title: Seq<char>) -> Seq<char> {
    match format {
        ExportFormat::TorrentFiles => "下载 .torrent 文件"@,
        ExportFormat::UrlList => "将种子 URL 列表写入「"@ + (export::list_stem(channel_title)
            + ".txt"@) + "」"@,
        ExportFormat::Qbt => "添加到 qBittorrent"@,
    }
}

/// The formats to choose from.
pub fn format_options(channel_title: &str) -> (v: Vec<FormatOption>)
    ensures
        v@.len() == 3,
        v@[0].format == ExportFormat::TorrentFiles,
        v@[1].format == ExportFormat::UrlList,
        v@[2].format == ExportFormat::Qbt,
        forall|i: int|
            0 <= i < 3 ==> (#[trigger] v@[i]).label@ == format_label(
                v@[i].format,
                channel_title@,
            ),
{
    let name = url_list_filename(channel_title);
    let mut v: Vec<FormatOption> = Vec::new();
    v.push(
        FormatOption {
            format: ExportFormat::TorrentFiles,
            label: "下载 .torrent 文件".to_owned(),
        },
    );
    v.push(
        FormatOption {
            format: ExportFormat::UrlList,
            label: concat3("将种子 URL 列表写入「", &name, "」"),
        },
    );
    v.push(FormatOption { format: ExportFormat::Qbt, label: "添加到 qBittorrent".to_owned() });
    v
}

/// Texts, one to a line.
pub open spec fn listed(labels: Seq<Seq<char>>) -> Seq<char>
    decreases labels.len(),
{
    if labels.len() == 0 {
        Seq::empty()
    } else {
        listed(labels.drop_last()) + "\n  • "@ + labels.last()
    }
}

/// The labels of formats.
pub open spec fn labels_of(formats: Seq<&FormatOption>) -> Seq<Seq<char>> {
    formats.map_values(|f: &FormatOption| f.label@)
}

/// What is shown of the formats that were chosen.
pub fn formats_summary(formats: &Vec<&FormatOption>) -> (s: String)
    ensures
        s@ == listed(labels_of(formats@)),
{
    let mut out = String::new();
    let mut i: usize = 0;
    let ghost all = labels_of(formats@);
    while i < formats.len()
        invariant
            i <= formats@.len(),
            all == labels_of(formats@),
            out@ == listed(all.take(i as int)),
        decreases formats@.len() - i,
    {
        let option: &FormatOption = formats[i];
        proof {
            assert(all.take(i + 1).drop_last() == all.take(i as int));
            assert(all.take(i + 1).last() == option.label@);
        }
        out.append("\n  • ");
        out.append(&option.label);
        i = i + 1;
    }
    proof {
        assert(all.take(all.len() as int) == all);
    }
    out
}

// ---------------------------------------------------------------------------
// Paths

/// Offers the paths used before.
pub struct PathAutocomplete {
    pub history: Vec<String>,
}

/// The lower case of texts.
pub open spec fn lowered(texts: Seq<Seq<char>>) -> Seq<Seq<char>> {
    texts.map_values(|t: Seq<char>| text::lowercase(t))
}

/// Those of `items` whose lower case, among `lower`, holds `needle`.
pub fn keep_matching(items: &Vec<String>, lower: &Vec<String>, needle: &str) -> (v: Vec<String>)
    requires
        lower@.len() == items@.len(),
    ensures
        text::texts(v@) == text::holding(text::texts(items@), text::texts(lower@), needle@),
{
    let mut out: Vec<String> = Vec::new();
    let mut i: usize = 0;
    let ghost all = text::texts(items@);
    let ghost keys = text::texts(lower@);
    proof {
        assert(text::texts(out@) == all.take(0));
    }
    while i < items.len()
        invariant
            i <= items@.len(),
            lower@.len() == items@.len(),
            all == text::texts(items@),
            keys == text::texts(lower@),
            text::texts(out@) == text::holding(all.take(i as int), keys.take(i as int), needle@),
        decreases items@.len() - i,
    {
        proof {
            assert(all.take(i + 1).drop_last() == all.take(i as int));
            assert(keys.take(i + 1).drop_last() == keys.take(i as int));
            assert(all.take(i + 1).last() == items@[i as int]@);
            assert(keys.take(i + 1).last() == lower@[i as int]@);
        }
        if contains_text(&lower[i], needle) {
            let ghost before = out@;
            out.push(items[i].clone());
            proof {
                assert(text::texts(out@) == text::texts(before).push(items@[i as int]@));
            }
        }
        i = i + 1;
    }
    proof {
        assert(all.take(all.len() as int) == all);
        assert(keys.take(keys.len() as int) == keys);
    }
    out
}

impl PathAutocomplete {
    /// The paths that hold what was typed, whatever the case of either.
    pub fn get_suggestions(&self, input: &str) -> (v: Vec<String>)
        ensures
            text::texts(v@) == text::holding(
                text::texts(self.history@),
                lowered(text::texts(self.history@)),
                text::lowercase(input@),
            ),
    {
        let needle = to_lowercase(input);
        let mut lower: Vec<String> = Vec::new();
        let mut i: usize = 0;
        while i < self.history.len()
            invariant
                i <= self.history@.len(),
                lower@.len() == i,
                forall|k: int|
                    0 <= k < i ==> (#[trigger] lower@[k])@ == text::lowercase(self.history@[k]@),
            decreases self.history@.len() - i,
        {
            lower.push(to_lowercase(&self.history[i]));
            i = i + 1;
        }
        assert(text::texts(lower@) == lowered(text::texts(self.history@)));
        keep_matching(&self.history, &lower, &needle)
    }

    /// What Tab fills in: the suggestion that is highlighted.
    pub fn get_completion(&self, _input: &str, highlighted: Option<String>) -> (r: Option<String>)
        ensures
            r == highlighted,
    {
        highlighted
    }
}

/// The path that a text with `~` in front stands for.
pub open spec fn expanded(path: Seq<char>, home: Option<Seq<char>>) -> Seq<char> {
    match home {
        Some(h) => if path == "~"@ {
            h
        } else if text::stands_at(path, "~/"@, 0) {
            h + "/"@ + path.skip("~/"@.len() as int)
        } else {
            path
        },
        None => path,
    }
}

/// The path that a text with `~` in front stands for. Without a home directory
/// it stands for itself.
pub fn expand_tilde(path: &str, home: Option<&str>) -> (s: String)
    ensures
        s@ == expanded(
            path@,
            match home {
                Some(h) => Some(h@),
                None => None,
            },
        ),
{
    match home {
        Some(h) => {
            if same(path, "~") {
                return h.to_owned();
            }
            match strip_prefix(path, "~/") {
                Some(rest) => concat3(h, "/", &rest),
                None => path.to_owned(),
            }
        },
        None => path.to_owned(),
    }
}

// ---------------------------------------------------------------------------
// Names

/// The category for a channel: its title fit for a file name, else `mikan`.
pub open spec fn category_for(channel_title: Seq<char>) -> Seq<char> {
    if sanitize::stem(channel_title).len() > 0 {
        sanitize::stem(channel_title)
    } else {
        "mikan"@
    }
}

/// The category for a channel.
pub fn default_category(channel_title: &str) -> (s: String)
    ensures
        s@ == category_for(channel_title@),
{
    let stem = sanitize_stem(channel_title);
    if stem.as_str().is_empty() {
        "mikan".to_owned()
    } else {
        stem
    }
}

/// The name of the profile that an optional argument names: `default` without
/// one, and never a blank one.
pub fn profile_name_or_default(name: Option<String>) -> (r: Result<String, String>)
    ensures
        match name {
            None => r is Ok && r->Ok_0@ == "default"@,
            Some(n) => if text::trimmed(n@).len() == 0 {
                r is Err && r->Err_0@ == "配置名称不能为空"@
            } else {
                r is Ok && r->Ok_0@ == text::trimmed(n@)
            },
        },
{
    match name {
        None => Ok("default".to_owned()),
        Some(n) => {
            let t = trim(&n);
            if t.as_str().is_empty() {
                Err("配置名称不能为空".to_owned())
            } else {
                Ok(t)
            }
        },
    }
}

// ---------------------------------------------------------------------------
// Addresses

/// The address of a feed: of a show, or of one group for a show. The group `0`
/// stands for all.
pub open spec fn feed_address(bangumi_id: u32, subgroup_id: u32) -> Seq<char> {
    let base = "https://mikanani.me/RSS/Bangumi?bangumiId="@ + text::decimal(bangumi_id as nat);
    if subgroup_id == 0 {
        base
    } else {
        base + "&subgroupid="@ + text::decimal(subgroup_id as nat)
    }
}

/// The address of a feed.
pub fn rss_url(bangumi_id: u32, subgroup_id: u32) -> (s: String)
    ensures
        s@ == feed_address(bangumi_id, subgroup_id),
{
    let show = decimal_text(bangumi_id as u64);
    let base = concat("https://mikanani.me/RSS/Bangumi?bangumiId=", &show);
    if subgroup_id == 0 {
        base
    } else {
        let group = decimal_text(subgroup_id as u64);
        concat3(&base, "&subgroupid=", &group)
    }
}

// ---------------------------------------------------------------------------
// Hints

/// An error text, in lower case, that speaks of a site that cannot be reached.
pub open spec fn looks_blocked(lower: Seq<char>) -> bool {
    ||| text::contains(lower, "certificate"@)
    ||| text::contains(lower, "tls"@)
    ||| text::contains(lower, "ssl"@)
    ||| text::contains(lower, "connect"@)
    ||| text::contains(lower, "timed out"@)
    ||| text::contains(lower, "dns"@)
    ||| text::contains(lower, "bad gateway"@)
    ||| text::contains(lower, "gateway timeout"@)
    ||| text::contains(lower, "proxy"@)
}

/// The advice to check the proxy.
pub const PROXY_HINT: &'static str =
    "无法访问订阅 —— mikanani.me 常被 DNS 污染；请检查代理（--proxy http://host:port、HTTPS_PROXY 或系统代理）";

/// An error text, with the advice in front where its lower case speaks of a
/// site that cannot be reached.
pub open spec fn hinted(error: Seq<char>, lower: Seq<char>) -> Seq<char> {
    if looks_blocked(lower) {
        PROXY_HINT@ + ": "@ + error
    } else {
        error
    }
}

/// An error text, with the advice in front where its lower case speaks of a
/// site that cannot be reached.
pub fn hint_for(error: &str, lower: &str) -> (s: String)
    ensures
        s@ == hinted(error@, lower@),
{
    if contains_text(lower, "certificate") || contains_text(lower, "tls") || contains_text(
        lower,
        "ssl",
    ) || contains_text(lower, "connect") || contains_text(lower, "timed out") || contains_text(
        lower,
        "dns",
    ) || contains_text(lower, "bad gateway") || contains_text(lower, "gateway timeout")
        || contains_text(lower, "proxy") {
        concat3(PROXY_HINT, ": ", error)
    } else {
        error.to_owned()
    }
}

/// An error text, with the advice to check the proxy where it speaks, in any
/// case, of a site that cannot be reached.
pub fn add_proxy_hint(error: &str) -> (s: String)
    ensures
        s@ == hinted(error@, text::lowercase(error@)),
{
    let lower = to_lowercase(error);
    hint_for(error, &lower)
}

// ---------------------------------------------------------------------------
// Laws

proof fn lemma_no_group_before(url: Seq<char>, j: int, n: int)
    requires
        0 <= j < n,
        n <= url.len(),
        forall|k: int| 0 <= k < n ==> #[trigger] url[k] != 's' || k + 1 < n && url[k + 1] != 'u',
    ensures
        !text::stands_at(url, "subgroupid="@, j),
{
    reveal_strlit("subgroupid=");
    if text::stands_at(url, "subgroupid="@, j) {
        let part = url.subrange(j, j + "subgroupid="@.len());
        assert(part[0] == 's' && part[1] == 'u');
        assert(url[j] == 's' && url[j + 1] == 'u');
    }
}

proof fn lemma_feed_base(k: int)
    requires
        0 <= k < "https://mikanani.me/RSS/Bangumi?bangumiId="@.len(),
    ensures
        "https://mikanani.me/RSS/Bangumi?bangumiId="@[k] == 's' ==> k == 4,
        "https://mikanani.me/RSS/Bangumi?bangumiId="@[5] != 'u',
        "https://mikanani.me/RSS/Bangumi?bangumiId="@.len() > 5,
{
    reveal_strlit("https://mikanani.me/RSS/Bangumi?bangumiId=");
    assert("https://mikanani.me/RSS/Bangumi?bangumiId="@.len() == 42);
    if k < 8 {
        assert(k == 0 || k == 1 || k == 2 || k == 3 || k == 4 || k == 5 || k == 6 || k == 7);
    } else if k < 16 {
        assert(k == 8 || k == 9 || k == 10 || k == 11 || k == 12 || k == 13 || k == 14 || k == 15);
    } else if k < 24 {
        assert(k == 16 || k == 17 || k == 18 || k == 19 || k == 20 || k == 21 || k == 22 || k
            == 23);
    } else if k < 32 {
        assert(k == 24 || k == 25 || k == 26 || k == 27 || k == 28 || k == 29 || k == 30 || k
            == 31);
    } else {
        assert(k == 32 || k == 33 || k == 34 || k == 35 || k == 36 || k == 37 || k == 38 || k == 39
            || k == 40 || k == 41);
    }
}

/// The address of a feed says which group it is of: the group's id reads back,
/// and the address of all groups names none.
pub proof fn law_feed_addresses_read_back(bangumi_id: u32, subgroup_id: u32)
    ensures
        mikan::group_id(feed_address(bangumi_id, subgroup_id)) == if subgroup_id == 0 {
            None::<u32>
        } else {
            Some(subgroup_id)
        },
{
    let base = "https://mikanani.me/RSS/Bangumi?bangumiId="@;
    let show = text::decimal(bangumi_id as nat);
    let group = text::decimal(subgroup_id as nat);
    let pat = "subgroupid="@;
    let url = feed_address(bangumi_id, subgroup_id);
    reveal_strlit("&subgroupid=");
    reveal_strlit("subgroupid=");
    reveal_strlit("&");
    text::lemma_decimal_read_back(bangumi_id as nat);
    text::lemma_decimal_read_back(subgroup_id as nat);
    assert(base.len() == 42) by {
        reveal_strlit("https://mikanani.me/RSS/Bangumi?bangumiId=");
    }
    let n = base.len() + show.len() + if subgroup_id == 0 { 0int } else { 1int };
    assert forall|k: int| 0 <= k < n implies #[trigger] url[k] != 's' || k + 1 < n && url[k + 1]
        != 'u' by {
        if k < base.len() {
            lemma_feed_base(k);
            assert(url[k] == base[k]);
            if k == 4 {
                assert(url[5] == base[5]);
            }
        } else if k < base.len() + show.len() {
            assert(url[k] == show[k - base.len()]);
            assert(text::digit(show[k - base.len()]));
        } else {
            assert(url[k] == "&subgroupid="@[0]);
        }
    }
    assert forall|j: int| 0 <= j < n implies !text::stands_at(url, pat, j) by {
        lemma_no_group_before(url, j, n);
    }
    text::lemma_find(url, pat);
    if subgroup_id == 0 {
        assert(url.len() == n);
        assert(text::find(url, pat) is None);
    } else {
        assert("&subgroupid="@ == seq!['&'] + pat);
        assert(url.subrange(n, n + pat.len()) == pat);
        assert(text::stands_at(url, pat, n));
        assert(text::find(url, pat) == Some(n));
        let rest = url.skip(n + pat.len());
        assert(rest == group);
        assert forall|j: int| !text::stands_at(group, pat, j) by {
            if text::stands_at(group, pat, j) {
                assert(group.subrange(j, j + pat.len())[0] == group[j]);
                assert(text::digit(group[j]));
            }
        }
        text::lemma_find(group, pat);
        assert(text::before_first(group, pat) == group);
        assert forall|j: int| !text::stands_at(group, "&"@, j) by {
            if text::stands_at(group, "&"@, j) {
                assert(group.subrange(j, j + 1)[0] == group[j]);
                assert(text::digit(group[j]));
            }
        }
        text::lemma_find(group, "&"@);
        assert(text::before_first(group, "&"@) == group);
    }
}

/// A category is never empty, and fit for the name of a directory.
pub proof fn law_category_is_fit(channel_title: Seq<char>)
    ensures
        category_for(channel_title).len() > 0,
        sanitize::safe_for_file(category_for(channel_title)),
{
    sanitize::law_stem_is_safe(channel_title);
    reveal_strlit("mikan");
}

/// Only a `~` that stands for itself or in front of a `/` is replaced: every
/// other path stays as it was typed.
pub proof fn law_other_paths_stay(path: Seq<char>, home: Option<Seq<char>>)
    requires
        path != "~"@,
        !text::stands_at(path, "~/"@, 0),
    ensures
        expanded(path, home) == path,
{
}

/// `~` stands for the home directory, alone or in front of a path, of which the
/// rest stays whole. Without a home directory nothing is replaced, nor where the
/// path does not begin with `~`, or goes on behind it with anything but `/`.
pub proof fn law_a_tilde_is_the_home_directory(
    path: Seq<char>,
    rest: Seq<char>,
    home: Seq<char>,
)
    ensures
        expanded(seq!['~'], Some(home)) == home,
        expanded(seq!['~', '/'] + rest, Some(home)) == home + seq!['/'] + rest,
        expanded(path, None) == path,
        path.len() == 0 || path[0] != '~' ==> expanded(path, Some(home)) == path,
        path.len() > 1 && path[1] != '/' ==> expanded(path, Some(home)) == path,
{
    reveal_strlit("~");
    reveal_strlit("~/");
    reveal_strlit("/");
    assert("~"@ =~= seq!['~']);
    assert("~/"@ =~= seq!['~', '/']);
    assert("/"@ =~= seq!['/']);
    let long = seq!['~', '/'] + rest;
    assert(long.subrange(0, 2) == seq!['~', '/']);
    assert(long.skip(2) == rest);
    assert(long.len() >= 2);
    if text::stands_at(path, "~/"@, 0) {
        assert(path.subrange(0, 2)[0] == path[0]);
        assert(path.subrange(0, 2)[1] == path[1]);
    }
}

/// An address of the web begins with `http://` or `https://`, and whatever begins
/// so is one.
pub proof fn law_web_addresses_by_their_front(s: Seq<char>, rest: Seq<char>)
    ensures
        web_address("http://"@ + rest),
        web_address("https://"@ + rest),
        web_address(s) ==> (s.len() >= 7 && s.take(7) == "http://"@) || (s.len() >= 8 && s.take(8)
            == "https://"@),
{
    reveal_strlit("http://");
    reveal_strlit("https://");
    let a = "http://"@ + rest;
    let b = "https://"@ + rest;
    assert(a.subrange(0, 7) == "http://"@);
    assert(b.subrange(0, 8) == "https://"@);
    if s.len() >= 7 {
        assert(s.take(7) == s.subrange(0, 7));
    }
    if s.len() >= 8 {
        assert(s.take(8) == s.subrange(0, 8));
    }
}

/// The category is the whole stem of the channel's title, so that channels with
/// other stems have other categories.
pub proof fn law_a_category_is_the_whole_stem(channel_title: Seq<char>)
    ensures
        sanitize::stem(channel_title).len() > 0 ==> category_for(channel_title) == sanitize::stem(
            channel_title,
        ),
        sanitize::stem(channel_title).len() == 0 ==> category_for(channel_title) == "mikan"@,
{
}

/// The address of a feed has the whole id of the show, and that of the group where
/// it is of one.
pub proof fn law_feed_addresses_name_show_and_group(bangumi_id: u32, subgroup_id: u32)
    ensures
        feed_address(bangumi_id, 0) == "https://mikanani.me/RSS/Bangumi?bangumiId="@
            + text::decimal(bangumi_id as nat),
        subgroup_id > 0 ==> feed_address(bangumi_id, subgroup_id) == feed_address(bangumi_id, 0)
            + "&subgroupid="@ + text::decimal(subgroup_id as nat),
{
}

/// The addresses of two feeds differ.
pub proof fn law_other_feeds_have_other_addresses(a: u32, b: u32, c: u32, d: u32)
    requires
        feed_address(a, b) == feed_address(c, d),
    ensures
        a == c,
        b == d,
{
    law_feed_addresses_read_back(a, b);
    law_feed_addresses_read_back(c, d);
    let base = "https://mikanani.me/RSS/Bangumi?bangumiId="@;
    let x = text::decimal(a as nat);
    let y = text::decimal(c as nat);
    let tail = if b == 0 {
        Seq::empty()
    } else {
        "&subgroupid="@ + text::decimal(b as nat)
    };
    let n = base.len() as int;
    assert(feed_address(a, b) =~= base + x + tail);
    assert(feed_address(c, d) =~= base + y + tail);
    assert(x.len() == y.len()) by {
        assert((base + x + tail).len() == base.len() + x.len() + tail.len());
        assert((base + y + tail).len() == base.len() + y.len() + tail.len());
    }
    assert((base + x + tail).subrange(n, n + x.len()) =~= x);
    assert((base + y + tail).subrange(n, n + y.len()) =~= y);
    text::law_numbers_read_back(a as nat, u32::MAX as nat);
    text::law_numbers_read_back(c as nat, u32::MAX as nat);
}

proof fn lemma_held(a: Seq<char>, word: Seq<char>, b: Seq<char>)
    ensures
        text::contains(a + word + b, word),
{
    let s = a + word + b;
    text::law_containing_is_having_a_part(s, word);
    assert(s.subrange(a.len() as int, a.len() as int + word.len()) == word);
}

/// An error that speaks anywhere of a certificate, of a connection, of a gateway or
/// of the like is one of a site that cannot be reached. One that speaks of nothing
/// of the kind is not.
pub proof fn law_words_of_a_blocked_site(a: Seq<char>, b: Seq<char>, other: Seq<char>)
    ensures
        looks_blocked(a + "certificate"@ + b),
        looks_blocked(a + "tls"@ + b),
        looks_blocked(a + "ssl"@ + b),
        looks_blocked(a + "connect"@ + b),
        looks_blocked(a + "timed out"@ + b),
        looks_blocked(a + "dns"@ + b),
        looks_blocked(a + "bad gateway"@ + b),
        looks_blocked(a + "gateway timeout"@ + b),
        looks_blocked(a + "proxy"@ + b),
        looks_blocked(other) ==> exists|word: Seq<char>|
            #[trigger] text::contains(other, word) && (word == "certificate"@ || word == "tls"@
                || word == "ssl"@ || word == "connect"@ || word == "timed out"@ || word == "dns"@
                || word == "bad gateway"@ || word == "gateway timeout"@ || word == "proxy"@),
{
    lemma_held(a, "certificate"@, b);
    lemma_held(a, "tls"@, b);
    lemma_held(a, "ssl"@, b);
    lemma_held(a, "connect"@, b);
    lemma_held(a, "timed out"@, b);
    lemma_held(a, "dns"@, b);
    lemma_held(a, "bad gateway"@, b);
    lemma_held(a, "gateway timeout"@, b);
    lemma_held(a, "proxy"@, b);
}

/// Advice or not, the whole error stands at the end of what is told; without advice
/// nothing else does.
pub proof fn law_an_error_is_told_whole(error: Seq<char>, lower: Seq<char>)
    ensures
        !looks_blocked(lower) ==> hinted(error, lower) == error,
        looks_blocked(lower) ==> hinted(error, lower)
            == "无法访问订阅 —— mikanani.me 常被 DNS 污染；请检查代理（--proxy http://host:port、HTTPS_PROXY 或系统代理）"@
            + ": "@ + error,
{
}

/// Every text of a list has its line.
pub proof fn law_every_label_is_listed(a: Seq<Seq<char>>, b: Seq<Seq<char>>)
    ensures
        listed(a + b) == listed(a) + listed(b),
        listed(Seq::empty()) == Seq::<char>::empty(),
        a.len() == 1 ==> listed(a) == "\n  • "@ + a[0],
    decreases b.len(),
{
    if b.len() == 0 {
        assert(a + b == a);
        assert(b == Seq::<Seq<char>>::empty());
        assert(listed(a) + Seq::<char>::empty() == listed(a));
    } else {
        law_every_label_is_listed(a, b.drop_last());
        assert((a + b).drop_last() == a + b.drop_last());
        assert(listed(a) + listed(b) == listed(a) + listed(b.drop_last()) + "\n  • "@ + b.last());
    }
    if a.len() == 1 {
        assert(a.drop_last() == Seq::<Seq<char>>::empty());
        reveal_with_fuel(listed, 2);
        assert(Seq::<char>::empty() + "\n  • "@ == "\n  • "@);
    }
}

/// The labels of formats are all of them, each whole; that of the list names the
/// file that the list goes to.
pub proof fn law_labels_are_seen_whole(
    formats: Seq<&FormatOption>,
    channel_title: Seq<char>,
    i: int,
)
    ensures
        labels_of(formats).len() == formats.len(),
        0 <= i < formats.len() ==> labels_of(formats)[i] == formats[i].label@,
        format_label(ExportFormat::TorrentFiles, channel_title) == "下载 .torrent 文件"@,
        format_label(ExportFormat::UrlList, channel_title) == "将种子 URL 列表写入「"@ + (
        export::list_stem(channel_title) + ".txt"@) + "」"@,
        format_label(ExportFormat::Qbt, channel_title) == "添加到 qBittorrent"@,
{
}

/// Every path of the history that holds what was typed, whatever the case of
/// either, is offered, and no other; each is decided by itself.
pub proof fn law_every_matching_path_is_offered(
    a: Seq<Seq<char>>,
    b: Seq<Seq<char>>,
    input: Seq<char>,
)
    ensures
        text::holding(a + b, lowered(a + b), input) == text::holding(a, lowered(a), input)
            + text::holding(b, lowered(b), input),
        a.len() == 1 ==> text::holding(a, lowered(a), input) == if text::contains(
            text::lowercase(a[0]),
            input,
        ) {
            a
        } else {
            Seq::empty()
        },
{
    assert(lowered(a + b) == lowered(a) + lowered(b));
    text::law_holding_goes_item_by_item(a, lowered(a), b, lowered(b), input);
    if a.len() == 1 {
        assert(lowered(a)[0] == text::lowercase(a[0]));
    }
}

/// A question that failed is told with what was asked and the whole cause.
pub proof fn law_a_failed_question_is_told(what: Seq<char>, cause: Seq<char>)
    ensures
        asking_failed(what, cause) == "获取"@ + what + ": "@ + cause,
{
}

}
