//! Episodes and feeds, and the reading of an RSS document into a feed.
use crate::sanitize;
use crate::sanitize::strip_unsafe;
use crate::text;
use crate::text::{concat, parse_u64, same, trim};
use crate::xml;
use crate::xml::{
    attributes_of, local_name, next_attribute, next_event, normalized_value, open_document,
    resolve_char_ref, tag_name, text_content, AttributeRead, XmlEvent, XmlEventView, XmlKind,
    XmlRead,
};
use vstd::prelude::*;

verus! {

/// One downloadable item of a feed.
#[derive(Debug, Clone)]
pub struct Episode {
    pub title: String,
    pub torrent_url: String,
    pub size: Option<u64>,
    pub pub_date: Option<String>,
}

/// An episode over sequences of characters.
pub struct EpisodeView {
    pub title: Seq<char>,
    pub torrent_url: Seq<char>,
    pub size: Option<u64>,
    pub pub_date: Option<Seq<char>>,
}

/// The text of an optional string.
pub open spec fn text_of(s: Option<String>) -> Option<Seq<char>> {
    match s {
        Some(t) => Some(t@),
        None => None,
    }
}

impl View for Episode {
    type V = EpisodeView;

    open spec fn view(&self) -> EpisodeView {
        EpisodeView {
            title: self.title@,
            torrent_url: self.torrent_url@,
            size: self.size,
            pub_date: text_of(self.pub_date),
        }
    }
}

impl EpisodeView {
    /// An episode of which nothing has been read.
    pub open spec fn blank() -> EpisodeView {
        EpisodeView {
            title: Seq::empty(),
            torrent_url: Seq::empty(),
            size: None,
            pub_date: None,
        }
    }
}

impl Default for Episode {
    fn default() -> (e: Episode)
        ensures
            e@ == EpisodeView::blank(),
    {
        Episode { title: String::new(), torrent_url: String::new(), size: None, pub_date: None }
    }
}

impl Episode {
    /// The same episode again.
    pub fn duplicate(&self) -> (e: Episode)
        ensures
            e == *self,
    {
        Episode {
            title: self.title.clone(),
            torrent_url: self.torrent_url.clone(),
            size: self.size,
            pub_date: match &self.pub_date {
                Some(d) => Some(d.clone()),
                None => None,
            },
        }
    }
}

/// The episodes of a list.
pub open spec fn views(episodes: Seq<Episode>) -> Seq<EpisodeView> {
    episodes.map_values(|e: Episode| e@)
}

/// A channel and its episodes, in the order of the document.
#[derive(Debug)]
pub struct Feed {
    pub channel_title: String,
    pub episodes: Vec<Episode>,
}

/// A feed over sequences.
pub struct FeedView {
    pub channel_title: Seq<char>,
    pub episodes: Seq<EpisodeView>,
}

impl View for Feed {
    type V = FeedView;

    open spec fn view(&self) -> FeedView {
        FeedView { channel_title: self.channel_title@, episodes: views(self.episodes@) }
    }
}

impl FeedView {
    /// A feed of which nothing has been read.
    pub open spec fn blank() -> FeedView {
        FeedView { channel_title: Seq::empty(), episodes: Seq::empty() }
    }
}

impl Default for Feed {
    fn default() -> (f: Feed)
        ensures
            f@ == FeedView::blank(),
    {
        let f = Feed { channel_title: String::new(), episodes: Vec::new() };
        proof {
            assert(views(f.episodes@) == Seq::<EpisodeView>::empty());
        }
        f
    }
}

/// Why a document gave no feed: the text of the XML error.
#[derive(Debug)]
pub struct FeedError {
    pub cause: String,
}

impl FeedError {
    /// What is told of it.
    pub fn message(&self) -> (s: String)
        ensures
            s@ == "解析订阅 XML: "@ + self.cause@,
    {
        concat("解析订阅 XML: ", &self.cause)
    }
}

// ---------------------------------------------------------------------------
// Text

/// `current` with `clean` added to its title.
pub open spec fn with_title(current: Option<EpisodeView>, clean: Seq<char>) -> Option<EpisodeView> {
    match current {
        Some(e) => Some(EpisodeView { title: e.title + clean, ..e }),
        None => None,
    }
}

/// `current` with `clean` added to its date.
pub open spec fn with_date(current: Option<EpisodeView>, clean: Seq<char>) -> Option<EpisodeView> {
    match current {
        Some(e) => {
            let before = match e.pub_date {
                Some(d) => d,
                None => Seq::empty(),
            };
            Some(EpisodeView { pub_date: Some(before + clean), ..e })
        },
        None => None,
    }
}

/// The elements that hold the channel's title.
pub open spec fn channel_title_path() -> Seq<Seq<char>> {
    seq!["rss"@, "channel"@, "title"@]
}

/// What text at `path` makes of the feed and of the item being read: only text
/// directly in the channel's title, in a title of an item, or in a `pubDate`
/// somewhere below a `torrent` is kept, and of that only what is safe to print.
pub open spec fn appended(
    path: Seq<Seq<char>>,
    feed: FeedView,
    current: Option<EpisodeView>,
    text: Seq<char>,
) -> (FeedView, Option<EpisodeView>) {
    let clean = sanitize::stripped(text);
    if path.len() > 0 && path.last() == "title"@ {
        if path == channel_title_path() {
            (FeedView { channel_title: feed.channel_title + clean, ..feed }, current)
        } else {
            (feed, with_title(current, clean))
        }
    } else if path.len() > 0 && path.last() == "pubDate"@ && path.contains("torrent"@) {
        (feed, with_date(current, clean))
    } else {
        (feed, current)
    }
}

/// Whether some part of `path` is `name`.
fn passes_through(path: &Vec<String>, name: &str) -> (r: bool)
    ensures
        r == text::texts(path@).contains(name@),
{
    let mut i: usize = 0;
    while i < path.len()
        invariant
            i <= path@.len(),
            forall|j: int| 0 <= j < i ==> #[trigger] text::texts(path@)[j] != name@,
        decreases path@.len() - i,
    {
        if same(&path[i], name) {
            assert(text::texts(path@)[i as int] == name@);
            return true;
        }
        i = i + 1;
    }
    false
}

/// Adds `text`, found at `path`, to the title or date that it belongs to. The
/// text is remote: what is unsafe to print is dropped first.
pub fn append_text(
    path: &Vec<String>,
    feed: &mut Feed,
    current: &mut Option<Episode>,
    text: &str,
)
    ensures
        (final(feed)@, episode_view(*final(current))) == appended(
            text::texts(path@),
            old(feed)@,
            episode_view(*old(current)),
            text@,
        ),
{
    let clean = strip_unsafe(text);
    let n: usize = path.len();
    let ghost parts = text::texts(path@);
    if n == 0 {
        return ;
    }
    proof {
        assert(parts.last() == path@[n - 1]@);
    }
    if same(&path[n - 1], "title") {
        let channel: bool = n == 3 && same(&path[0], "rss") && same(&path[1], "channel");
        proof {
            if channel {
                assert(parts == channel_title_path());
            } else if parts == channel_title_path() {
                assert(parts[0] == "rss"@ && parts[1] == "channel"@);
                assert(path@[0]@ == parts[0] && path@[1]@ == parts[1]);
            }
        }
        if channel {
            feed.channel_title.append(&clean);
        } else if let Some(mut ep) = current.take() {
            ep.title.append(&clean);
            *current = Some(ep);
        }
    } else if same(&path[n - 1], "pubDate") && passes_through(path, "torrent") {
        if let Some(mut ep) = current.take() {
            let mut date = match ep.pub_date.take() {
                Some(d) => d,
                None => String::new(),
            };
            date.append(&clean);
            ep.pub_date = Some(date);
            *current = Some(ep);
        }
    }
}

/// The view of an optional episode.
pub open spec fn episode_view(e: Option<Episode>) -> Option<EpisodeView> {
    match e {
        Some(x) => Some(x@),
        None => None,
    }
}


// ---------------------------------------------------------------------------
// Enclosures

/// The value of an attribute, safe to print; empty where it is ill-formed.
pub open spec fn clean_value(raw: Seq<char>) -> Seq<char> {
    match xml::attribute_value(raw) {
        Some(v) => sanitize::stripped(v),
        None => Seq::empty(),
    }
}

/// The number of bytes that a `length` attribute states.
pub open spec fn stated_size(value: Seq<char>) -> Option<u64> {
    match text::unsigned(value, u64::MAX as nat) {
        Some(n) => Some(n as u64),
        None => None,
    }
}

/// `e` after one attribute of its enclosure: `url` gives the torrent's URL,
/// `length` the size, and every other attribute is passed over.
pub open spec fn with_attribute(e: EpisodeView, attribute: AttributeRead) -> EpisodeView {
    match attribute {
        Some((key, raw)) => if xml::local_part(key) == "url"@ {
            EpisodeView { torrent_url: clean_value(raw), ..e }
        } else if xml::local_part(key) == "length"@ {
            EpisodeView { size: stated_size(clean_value(raw)), ..e }
        } else {
            e
        },
        None => e,
    }
}

/// `e` after the attributes of its enclosure, in order.
pub open spec fn with_attributes(e: EpisodeView, attributes: Seq<AttributeRead>) -> EpisodeView
    decreases attributes.len(),
{
    if attributes.len() == 0 {
        e
    } else {
        with_attributes(with_attribute(e, attributes[0]), attributes.skip(1))
    }
}

/// The attributes in the content of a tag.
pub open spec fn attributes_in(content: Seq<char>) -> Seq<AttributeRead> {
    xml::tag_attributes(content, xml::name_bytes(content) as usize)
}

/// Fills in from the raw value of one attribute what it says of the episode.
pub fn apply_attribute(episode: &mut Episode, key: &str, raw: &str)
    ensures
        final(episode)@ == with_attribute(old(episode)@, Some((key@, raw@))),
{
    let value = match normalized_value(raw) {
        Some(v) => strip_unsafe(&v),
        None => String::new(),
    };
    let name = local_name(key);
    if same(&name, "url") {
        episode.torrent_url = value;
    } else if same(&name, "length") {
        episode.size = parse_u64(&value);
    }
}

/// Fills in what the attributes of an enclosure say of the episode.
fn apply_enclosure(episode: &mut Episode, content: &str)
    ensures
        final(episode)@ == with_attributes(old(episode)@, attributes_in(content@)),
{
    let mut attributes = attributes_of(content);
    loop
        invariant_except_break
            with_attributes(old(episode)@, attributes_in(content@)) == with_attributes(
                episode@,
                xml::pending_attributes(attributes),
            ),
        ensures
            with_attributes(old(episode)@, attributes_in(content@)) == episode@,
        decreases xml::pending_attributes(attributes).len(),
    {
        match next_attribute(&mut attributes) {
            Some(Some(attribute)) => {
                apply_attribute(episode, &attribute.key, &attribute.value);
            },
            Some(None) => {},
            None => {
                break ;
            },
        }
    }
}

// ---------------------------------------------------------------------------
// References

/// The text that the reference `&name;` stands for: one character, or nothing
/// where it stands for none.
pub open spec fn reference_text(name: Seq<char>) -> Seq<char> {
    match xml::referred_char(name) {
        Some(c) => seq![c],
        None => Seq::empty(),
    }
}

/// The text that the reference `&name;` stands for: the character of a numeric
/// reference, or that of a predefined entity.
pub fn resolve_reference(name: &str) -> (r: String)
    ensures
        r@ == reference_text(name@),
{
    let mut out = String::new();
    match resolve_char_ref(name) {
        Some(c) => {
            out.push(c);
            assert(out@ == seq![c]);
        },
        None => {
            if same(name, "amp") {
                out.push('&');
            } else if same(name, "lt") {
                out.push('<');
            } else if same(name, "gt") {
                out.push('>');
            } else if same(name, "apos") {
                out.push('\'');
            } else if same(name, "quot") {
                out.push('"');
            }
            assert(out@ == reference_text(name@));
        },
    }
    out
}

// ---------------------------------------------------------------------------
// Documents

/// How far a document has been read: the open elements, the feed so far, and
/// the item being read.
pub struct FeedParser {
    pub path: Vec<String>,
    pub feed: Feed,
    pub current: Option<Episode>,
}

/// A parser's state over sequences.
pub struct ParserView {
    pub path: Seq<Seq<char>>,
    pub feed: FeedView,
    pub current: Option<EpisodeView>,
}

impl View for FeedParser {
    type V = ParserView;

    open spec fn view(&self) -> ParserView {
        ParserView {
            path: text::texts(self.path@),
            feed: self.feed@,
            current: episode_view(self.current),
        }
    }
}

impl ParserView {
    /// The state before the first event.
    pub open spec fn blank() -> ParserView {
        ParserView { path: Seq::empty(), feed: FeedView::blank(), current: None }
    }
}

/// The local name of a tag or end tag, from its content.
pub open spec fn element_name(content: Seq<char>) -> Seq<char> {
    xml::local_part(xml::first_word(content))
}

/// The state after text at the open elements.
pub open spec fn after_text(state: ParserView, text: Seq<char>) -> ParserView {
    let (feed, current) = appended(state.path, state.feed, state.current, text);
    ParserView { path: state.path, feed, current }
}

/// A date that was read: trimmed, and none at all where nothing is left.
pub open spec fn finished_date(date: Option<Seq<char>>) -> Option<Seq<char>> {
    match date {
        Some(d) => if text::trimmed(d).len() > 0 {
            Some(text::trimmed(d))
        } else {
            None
        },
        None => None,
    }
}

/// An item at its end, with title and date trimmed.
pub open spec fn finished(e: EpisodeView) -> EpisodeView {
    EpisodeView {
        title: text::trimmed(e.title),
        pub_date: finished_date(e.pub_date),
        ..e
    }
}

/// The feed after an item's end: an item without a title or without a torrent
/// URL is dropped.
pub open spec fn with_episode(feed: FeedView, e: EpisodeView) -> FeedView {
    let done = finished(e);
    if done.title.len() > 0 && done.torrent_url.len() > 0 {
        FeedView { episodes: feed.episodes.push(done), ..feed }
    } else {
        feed
    }
}

/// The state after the start tag of `name`.
pub open spec fn after_start(state: ParserView, name: Seq<char>) -> ParserView {
    ParserView {
        path: state.path.push(name),
        feed: state.feed,
        current: if name == "item"@ {
            Some(EpisodeView::blank())
        } else {
            state.current
        },
    }
}

/// The state after the end tag of `name`.
pub open spec fn after_end(state: ParserView, name: Seq<char>) -> ParserView {
    let closes = name == "item"@ && state.current is Some;
    ParserView {
        path: if state.path.len() > 0 {
            state.path.drop_last()
        } else {
            state.path
        },
        feed: if closes {
            with_episode(state.feed, state.current->0)
        } else {
            state.feed
        },
        current: if closes {
            None
        } else {
            state.current
        },
    }
}

/// The state after the empty tag with the given content.
pub open spec fn after_empty(state: ParserView, content: Seq<char>) -> ParserView {
    if element_name(content) == "enclosure"@ && state.current is Some {
        ParserView {
            current: Some(with_attributes(state.current->0, attributes_in(content))),
            ..state
        }
    } else {
        state
    }
}

/// The state after one event.
pub open spec fn after_event(state: ParserView, event: XmlEventView) -> ParserView {
    match event.kind {
        XmlKind::Start => after_start(state, element_name(event.content)),
        XmlKind::Empty => after_empty(state, event.content),
        XmlKind::End => after_end(state, xml::local_part(event.content)),
        XmlKind::Text => after_text(state, xml::normalized_eols(event.content)),
        XmlKind::CData => after_text(state, event.content),
        XmlKind::GeneralRef => after_text(state, reference_text(event.content)),
        XmlKind::Eof => state,
        XmlKind::Other => state,
    }
}

/// The state after the reads of a document, or the error that one of them gave.
pub open spec fn after_reads(state: ParserView, reads: Seq<XmlRead>) -> Result<
    ParserView,
    Seq<char>,
>
    decreases reads.len(),
{
    if reads.len() == 0 {
        Ok(state)
    } else {
        match reads[0] {
            Ok(event) => after_reads(after_event(state, event), reads.skip(1)),
            Err(cause) => Err(cause),
        }
    }
}

/// The feed in the reads of a document, or the error that one of them gave.
pub open spec fn feed_in(reads: Seq<XmlRead>) -> Result<FeedView, Seq<char>> {
    match after_reads(ParserView::blank(), reads) {
        Ok(state) => Ok(
            FeedView { channel_title: text::trimmed(state.feed.channel_title), ..state.feed },
        ),
        Err(cause) => Err(cause),
    }
}

impl FeedParser {
    /// A parser before the first event.
    pub fn new() -> (p: FeedParser)
        ensures
            p@ == ParserView::blank(),
    {
        let p = FeedParser { path: Vec::new(), feed: Feed::default(), current: None };
        proof {
            assert(text::texts(p.path@) == Seq::<Seq<char>>::empty());
        }
        p
    }

    /// Takes in text found at the open elements.
    fn take_text(&mut self, text: &str)
        ensures
            final(self)@ == after_text(old(self)@, text@),
    {
        append_text(&self.path, &mut self.feed, &mut self.current, text);
    }

    /// Takes in a start tag.
    fn take_start(&mut self, content: &str)
        ensures
            final(self)@ == after_start(old(self)@, element_name(content@)),
    {
        let qualified = tag_name(content);
        let name = local_name(&qualified);
        if same(&name, "item") {
            self.current = Some(Episode::default());
        }
        let ghost before = self.path@;
        let ghost added = name@;
        self.path.push(name);
        proof {
            assert(text::texts(self.path@) == text::texts(before).push(added));
        }
    }

    /// Takes in an empty tag.
    fn take_empty(&mut self, content: &str)
        ensures
            final(self)@ == after_empty(old(self)@, content@),
    {
        let qualified = tag_name(content);
        let name = local_name(&qualified);
        if same(&name, "enclosure") {
            if let Some(mut episode) = self.current.take() {
                apply_enclosure(&mut episode, content);
                self.current = Some(episode);
            }
        }
    }

    /// Takes in an end tag.
    fn take_end(&mut self, content: &str)
        ensures
            final(self)@ == after_end(old(self)@, xml::local_part(content@)),
    {
        let name = local_name(content);
        if same(&name, "item") {
            if let Some(episode) = self.current.take() {
                self.finish_item(episode);
            }
        }
        let ghost before = self.path@;
        let _ = self.path.pop();
        proof {
            if before.len() > 0 {
                assert(text::texts(self.path@) == text::texts(before).drop_last());
            } else {
                assert(text::texts(self.path@) == text::texts(before));
            }
        }
    }

    /// Adds an item that has ended to the feed.
    fn finish_item(&mut self, episode: Episode)
        ensures
            final(self).path == old(self).path,
            final(self).current == old(self).current,
            final(self).feed@ == with_episode(old(self).feed@, episode@),
    {
        let title = trim(&episode.title);
        let pub_date = match episode.pub_date {
            Some(d) => {
                let t = trim(&d);
                if t.as_str().is_empty() {
                    None
                } else {
                    Some(t)
                }
            },
            None => None,
        };
        let done = Episode {
            title,
            torrent_url: episode.torrent_url,
            size: episode.size,
            pub_date,
        };
        let ghost before = self.feed.episodes@;
        let ghost added = done@;
        if !done.title.as_str().is_empty() && !done.torrent_url.as_str().is_empty() {
            self.feed.episodes.push(done);
            proof {
                assert(views(self.feed.episodes@) == views(before).push(added));
            }
        }
    }

    /// Takes in one event of the document.
    pub fn apply(&mut self, event: &XmlEvent)
        ensures
            final(self)@ == after_event(old(self)@, event@),
    {
        match event.kind {
            XmlKind::Start => self.take_start(&event.content),
            XmlKind::Empty => self.take_empty(&event.content),
            XmlKind::End => self.take_end(&event.content),
            XmlKind::Text => {
                let t = match text_content(&event.content) {
                    Some(t) => t,
                    None => String::new(),
                };
                self.take_text(&t)
            },
            XmlKind::CData => self.take_text(&event.content),
            XmlKind::GeneralRef => {
                let t = resolve_reference(&event.content);
                self.take_text(&t)
            },
            XmlKind::Eof => {},
            XmlKind::Other => {},
        }
    }
}

/// Reads an RSS document into a feed. The error of a document that is not
/// well-formed is the parser's.
pub fn parse_feed(xml: &str) -> (r: Result<Feed, FeedError>)
    ensures
        match r {
            Ok(feed) => feed_in(xml::xml_reads(xml@)) == Ok::<FeedView, Seq<char>>(feed@),
            Err(e) => feed_in(xml::xml_reads(xml@)) == Err::<FeedView, Seq<char>>(e.cause@),
        },
{
    let mut reader = open_document(xml);
    let mut parser = FeedParser::new();
    let ghost all = xml::xml_reads(xml@);
    let ghost mut left = all;
    let mut going: bool = true;
    while going
        invariant
            all == xml::xml_reads(xml@),
            after_reads(ParserView::blank(), all) == after_reads(parser@, left),
            going ==> left == xml::pending_reads(reader) && xml::complete_reads(left),
            !going ==> left.len() == 0,
        decreases left.len(),
    {
        let ghost before = left;
        match next_event(&mut reader) {
            Ok(event) => {
                parser.apply(&event);
                going = event.kind != XmlKind::Eof;
                proof {
                    left = before.skip(1);
                    if going {
                        assert(!xml::ends_document(before[0]));
                        assert(before.len() > 1);
                        assert(left.last() == before.last());
                        assert forall|i: int| 0 <= i < left.len() - 1 implies !xml::ends_document(
                            #[trigger] left[i],
                        ) by {
                            assert(left[i] == before[i + 1]);
                        }
                    } else {
                        if before.len() > 1 {
                            assert(!xml::ends_document(before[0]));
                        }
                    }
                }
            },
            Err(cause) => {
                return Err(FeedError { cause });
            },
        }
    }
    let title = trim(&parser.feed.channel_title);
    Ok(Feed { channel_title: title, episodes: parser.feed.episodes })
}

// ---------------------------------------------------------------------------
// Laws

/// A date that is safe to print, or none.
pub open spec fn clean_date(date: Option<Seq<char>>) -> bool {
    date matches Some(d) ==> sanitize::safe_to_print(d)
}

/// Every text of the episode is safe to print.
pub open spec fn clean_episode(e: EpisodeView) -> bool {
    &&& sanitize::safe_to_print(e.title)
    &&& sanitize::safe_to_print(e.torrent_url)
    &&& clean_date(e.pub_date)
}

/// No white space at either end.
pub open spec fn tight(s: Seq<char>) -> bool {
    s.len() > 0 ==> !text::white_space(s[0]) && !text::white_space(s.last())
}

/// An episode as a feed holds it: safe to print, with a trimmed title, a URL,
/// and a trimmed date where it has one.
pub open spec fn complete_episode(e: EpisodeView) -> bool {
    &&& clean_episode(e)
    &&& e.title.len() > 0
    &&& tight(e.title)
    &&& e.torrent_url.len() > 0
    &&& (e.pub_date matches Some(d) ==> d.len() > 0 && tight(d))
}

/// Every episode of a feed is complete, and its title is safe to print.
pub open spec fn clean_feed(feed: FeedView) -> bool {
    &&& sanitize::safe_to_print(feed.channel_title)
    &&& forall|i: int| 0 <= i < feed.episodes.len() ==> complete_episode(#[trigger] feed.episodes[i])
}

/// What every state of the parser keeps.
pub open spec fn clean_state(state: ParserView) -> bool {
    &&& clean_feed(state.feed)
    &&& (state.current matches Some(e) ==> clean_episode(e))
}

proof fn lemma_safe_concat(a: Seq<char>, b: Seq<char>)
    requires
        sanitize::safe_to_print(a),
        sanitize::safe_to_print(b),
    ensures
        sanitize::safe_to_print(a + b),
{
    let s = a + b;
    assert forall|i: int| 0 <= i < s.len() implies !sanitize::unsafe_display(#[trigger] s[i]) by {
        if i < a.len() {
            assert(s[i] == a[i]);
        } else {
            assert(s[i] == b[i - a.len()]);
        }
    }
}

/// Trimming keeps a safe text safe.
pub proof fn lemma_trim_keeps_safe(s: Seq<char>)
    requires
        sanitize::safe_to_print(s),
    ensures
        sanitize::safe_to_print(text::trimmed(s)),
        tight(text::trimmed(s)),
{
    text::lemma_trimmed(s);
    let t = text::trimmed(s);
    let (a, b) = choose|a: int, b: int| 0 <= a <= b <= s.len() && t == #[trigger] s.subrange(a, b);
    assert forall|i: int| 0 <= i < t.len() implies !sanitize::unsafe_display(#[trigger] t[i]) by {
        assert(t[i] == s[a + i]);
    }
}

proof fn lemma_attributes_keep_clean(e: EpisodeView, attributes: Seq<AttributeRead>)
    requires
        clean_episode(e),
    ensures
        clean_episode(with_attributes(e, attributes)),
    decreases attributes.len(),
{
    if attributes.len() > 0 {
        if let Some((key, raw)) = attributes[0] {
            if let Some(v) = xml::attribute_value(raw) {
                sanitize::law_stripped_is_safe(v);
            }
        }
        lemma_attributes_keep_clean(with_attribute(e, attributes[0]), attributes.skip(1));
    }
}

proof fn lemma_text_keeps_clean(state: ParserView, t: Seq<char>)
    requires
        clean_state(state),
    ensures
        clean_state(after_text(state, t)),
{
    let clean = sanitize::stripped(t);
    sanitize::law_stripped_is_safe(t);
    lemma_safe_concat(state.feed.channel_title, clean);
    if let Some(e) = state.current {
        lemma_safe_concat(e.title, clean);
        match e.pub_date {
            Some(d) => lemma_safe_concat(d, clean),
            None => lemma_safe_concat(Seq::empty(), clean),
        }
    }
}

proof fn lemma_finished_is_complete(feed: FeedView, e: EpisodeView)
    requires
        clean_feed(feed),
        clean_episode(e),
    ensures
        clean_feed(with_episode(feed, e)),
{
    lemma_trim_keeps_safe(e.title);
    if let Some(d) = e.pub_date {
        lemma_trim_keeps_safe(d);
    }
}

/// Whatever event comes, a parser whose texts are safe to print and whose
/// episodes are complete stays so.
pub proof fn law_every_event_keeps_the_feed_clean(state: ParserView, event: XmlEventView)
    requires
        clean_state(state),
    ensures
        clean_state(after_event(state, event)),
{
    match event.kind {
        XmlKind::Start => {},
        XmlKind::Empty => {
            if let Some(e) = state.current {
                lemma_attributes_keep_clean(e, attributes_in(event.content));
            }
        },
        XmlKind::End => {
            if let Some(e) = state.current {
                lemma_finished_is_complete(state.feed, e);
            }
        },
        XmlKind::Text => lemma_text_keeps_clean(state, xml::normalized_eols(event.content)),
        XmlKind::CData => lemma_text_keeps_clean(state, event.content),
        XmlKind::GeneralRef => lemma_text_keeps_clean(state, reference_text(event.content)),
        XmlKind::Eof => {},
        XmlKind::Other => {},
    }
}

proof fn lemma_reads_keep_clean(state: ParserView, reads: Seq<XmlRead>)
    requires
        clean_state(state),
    ensures
        after_reads(state, reads) matches Ok(end) ==> clean_state(end),
    decreases reads.len(),
{
    if reads.len() > 0 {
        if let Ok(event) = reads[0] {
            law_every_event_keeps_the_feed_clean(state, event);
            lemma_reads_keep_clean(after_event(state, event), reads.skip(1));
        }
    }
}

/// Whatever document was read: no text of the feed is unsafe to print, the
/// channel's title is trimmed, and every episode has a trimmed title that is not
/// empty, a torrent URL, and a trimmed date that is not empty or none at all.
pub proof fn law_a_feed_is_clean(reads: Seq<XmlRead>)
    ensures
        feed_in(reads) matches Ok(feed) ==> clean_feed(feed) && tight(feed.channel_title),
{
    lemma_reads_keep_clean(ParserView::blank(), reads);
    if let Ok(state) = after_reads(ParserView::blank(), reads) {
        lemma_trim_keeps_safe(state.feed.channel_title);
    }
}

/// Text that arrives in two parts leaves the same as the whole: splitting a
/// title into text, references and CDATA does not change what is read.
pub proof fn law_text_in_parts_is_the_whole(state: ParserView, a: Seq<char>, b: Seq<char>)
    ensures
        after_text(after_text(state, a), b) == after_text(state, a + b),
{
    sanitize::law_stripping_distributes(a, b);
    let ca = sanitize::stripped(a);
    let cb = sanitize::stripped(b);
    assert((state.feed.channel_title + ca) + cb == state.feed.channel_title + (ca + cb));
    if let Some(e) = state.current {
        assert((e.title + ca) + cb == e.title + (ca + cb));
        let d = match e.pub_date {
            Some(d) => d,
            None => Seq::empty(),
        };
        assert((d + ca) + cb == d + (ca + cb));
    }
}

/// How a text writes its line ends does not matter: none of them is kept.
pub proof fn law_line_ends_do_not_matter(t: Seq<char>)
    ensures
        sanitize::stripped(xml::normalized_eols(t)) == sanitize::stripped(t),
    decreases t.len(),
{
    if t.len() > 0 {
        if t[0] == '\r' {
            let rest = if t.len() > 1 && t[1] == '\n' {
                t.skip(2)
            } else {
                t.skip(1)
            };
            let front = if t.len() > 1 && t[1] == '\n' {
                seq!['\r', '\n']
            } else {
                seq!['\r']
            };
            law_line_ends_do_not_matter(rest);
            assert(t == front + rest);
            sanitize::law_stripping_distributes(front, rest);
            sanitize::law_stripping_distributes(seq!['\n'], xml::normalized_eols(rest));
            reveal_with_fuel(Seq::filter, 3);
            assert(seq!['\r', '\n'].drop_last() == seq!['\r']);
            assert(seq!['\r'].drop_last() == Seq::<char>::empty());
            assert(seq!['\n'].drop_last() == Seq::<char>::empty());
            assert(sanitize::stripped(front) == Seq::<char>::empty());
            assert(sanitize::stripped(seq!['\n']) == Seq::<char>::empty());
        } else {
            let rest = t.skip(1);
            law_line_ends_do_not_matter(rest);
            assert(t == seq![t[0]] + rest);
            sanitize::law_stripping_distributes(seq![t[0]], rest);
            sanitize::law_stripping_distributes(seq![t[0]], xml::normalized_eols(rest));
        }
    }
}

/// Reading gives an error exactly where one of the reads did, and then the
/// first one's.
pub proof fn law_a_feed_fails_with_the_first_error(reads: Seq<XmlRead>, i: int)
    requires
        0 <= i <= reads.len(),
        forall|j: int| 0 <= j < i ==> (#[trigger] reads[j]) is Ok,
        i < reads.len() ==> reads[i] is Err,
    ensures
        i == reads.len() <==> feed_in(reads) is Ok,
        i < reads.len() ==> feed_in(reads)->Err_0 == reads[i]->Err_0,
{
    lemma_first_error(ParserView::blank(), reads, i);
}

proof fn lemma_first_error(state: ParserView, reads: Seq<XmlRead>, i: int)
    requires
        0 <= i <= reads.len(),
        forall|j: int| 0 <= j < i ==> (#[trigger] reads[j]) is Ok,
        i < reads.len() ==> reads[i] is Err,
    ensures
        i == reads.len() <==> after_reads(state, reads) is Ok,
        i < reads.len() ==> after_reads(state, reads)->Err_0 == reads[i]->Err_0,
    decreases reads.len(),
{
    if i > 0 {
        assert(reads[0] is Ok);
        let rest = reads.skip(1);
        assert forall|j: int| 0 <= j < i - 1 implies (#[trigger] rest[j]) is Ok by {
            assert(rest[j] == reads[j + 1]);
        }
        if i < reads.len() {
            assert(rest[i - 1] == reads[i]);
        }
        lemma_first_error(after_event(state, reads[0]->Ok_0), rest, i - 1);
    }
}

/// Episodes are only ever added, at the end: no later event drops or changes
/// one that was read, and one event adds at most one.
pub proof fn law_episodes_keep_document_order(state: ParserView, event: XmlEventView)
    ensures
        state.feed.episodes.is_prefix_of(after_event(state, event).feed.episodes),
        after_event(state, event).feed.episodes.len() <= state.feed.episodes.len() + 1,
        after_event(state, event).feed.episodes.len() > state.feed.episodes.len() ==> event.kind
            == XmlKind::End && xml::local_part(event.content) == "item"@,
{
}

/// The address that an enclosure writes with the predefined entities is that of
/// the episode, where it is safe to print: a `&amp;` in it becomes a `&`.
pub proof fn law_enclosure_addresses_read_back(url: Seq<char>, key: Seq<char>, e: EpisodeView)
    requires
        sanitize::safe_to_print(url),
        xml::local_part(key) == "url"@,
    ensures
        with_attribute(e, Some((key, xml::escaped(url)))) == (EpisodeView {
            torrent_url: url,
            ..e
        }),
{
    assert forall|i: int| 0 <= i < url.len() implies !xml::space_in_value(#[trigger] url[i]) by {
        assert(!sanitize::unsafe_display(url[i]));
    }
    xml::law_escaped_values_read_back(url);
    sanitize::law_stripping_keeps_safe_text(url);
}

/// An event with the given content.
pub open spec fn event(kind: XmlKind, content: Seq<char>) -> XmlEventView {
    XmlEventView { kind, content }
}

/// The state after events, in order.
pub open spec fn after_events(state: ParserView, events: Seq<XmlEventView>) -> ParserView
    decreases events.len(),
{
    if events.len() == 0 {
        state
    } else {
        after_event(after_events(state, events.drop_last()), events.last())
    }
}

/// Events are read like the reads that give them.
pub proof fn law_reads_are_their_events(
    state: ParserView,
    events: Seq<XmlEventView>,
    rest: Seq<XmlRead>,
)
    ensures
        after_reads(state, events.map_values(|e: XmlEventView| Ok::<XmlEventView, Seq<char>>(e)) + rest)
            == after_reads(after_events(state, events), rest),
    decreases events.len(),
{
    let reads = events.map_values(|e: XmlEventView| Ok::<XmlEventView, Seq<char>>(e));
    if events.len() == 0 {
        assert(reads + rest == rest);
    } else {
        let before = events.drop_last();
        let last: XmlRead = Ok(events.last());
        let tail = seq![last] + rest;
        law_reads_are_their_events(state, before, tail);
        let firsts = before.map_values(|e: XmlEventView| Ok::<XmlEventView, Seq<char>>(e));
        assert(firsts + tail == reads + rest);
        assert(tail.skip(1) == rest);
    }
}

/// Events in two parts are the events in a row.
pub proof fn law_events_in_parts_are_the_whole(
    state: ParserView,
    a: Seq<XmlEventView>,
    b: Seq<XmlEventView>,
)
    ensures
        after_events(state, a + b) == after_events(after_events(state, a), b),
    decreases b.len(),
{
    if b.len() == 0 {
        assert(a + b == a);
    } else {
        law_events_in_parts_are_the_whole(state, a, b.drop_last());
        assert((a + b).drop_last() == a + b.drop_last());
    }
}

/// A title: its tag, its words and its end.
pub open spec fn title_events(tag: Seq<char>, words: Seq<char>, end: Seq<char>) -> Seq<
    XmlEventView,
> {
    seq![event(XmlKind::Start, tag), event(XmlKind::Text, words), event(XmlKind::End, end)]
}

/// One event.
proof fn lemma_one_event(state: ParserView, a: XmlEventView)
    ensures
        after_events(state, seq![a]) == after_event(state, a),
{
    reveal_with_fuel(after_events, 2);
    assert(seq![a].drop_last() == Seq::<XmlEventView>::empty());
}

/// Three events, one after the other.
proof fn lemma_three_events(state: ParserView, a: XmlEventView, b: XmlEventView, c: XmlEventView)
    ensures
        after_events(state, seq![a, b, c]) == after_event(
            after_event(after_event(state, a), b),
            c,
        ),
{
    lemma_one_event(state, a);
    assert(seq![a, b].drop_last() == seq![a]);
    assert(after_events(state, seq![a, b]) == after_event(after_event(state, a), b));
    assert(seq![a, b, c].drop_last() == seq![a, b]);
}

/// The names of elements differ.
proof fn lemma_element_names()
    ensures
        "title"@ != "item"@,
        "torrent"@ != "item"@,
        "pubDate"@ != "item"@,
        "pubDate"@ != "title"@,
        "torrent"@ != "title"@,
        "channel"@ != "item"@,
{
    reveal_strlit("item");
    reveal_strlit("title");
    reveal_strlit("torrent");
    reveal_strlit("pubDate");
    reveal_strlit("channel");
    assert("title"@.len() == 5 && "item"@.len() == 4 && "torrent"@.len() == 7 && "pubDate"@.len()
        == 7 && "channel"@.len() == 7);
}

/// A title in an item is added to that of the episode, and nothing else changes.
pub proof fn law_a_title_is_read(
    state: ParserView,
    e: EpisodeView,
    tag: Seq<char>,
    words: Seq<char>,
    end: Seq<char>,
)
    requires
        state.current == Some(e),
        state.path.len() > 0,
        state.path.last() == "item"@,
        element_name(tag) == "title"@,
        xml::local_part(end) == "title"@,
    ensures
        after_events(state, title_events(tag, words, end)) == (ParserView {
            current: Some(EpisodeView { title: e.title + sanitize::stripped(words), ..e }),
            ..state
        }),
{
    law_line_ends_do_not_matter(words);
    lemma_element_names();
    let inner = state.path.push("title"@);
    assert(inner.drop_last() == state.path);
    assert(inner != channel_title_path()) by {
        if inner == channel_title_path() {
            assert(inner[inner.len() - 2] == "item"@);
            assert(channel_title_path()[1] == "channel"@);
        }
    }
    lemma_three_events(
        state,
        event(XmlKind::Start, tag),
        event(XmlKind::Text, words),
        event(XmlKind::End, end),
    );
}

/// A date below a torrent is that of the episode, and nothing else changes.
pub proof fn law_a_date_is_read(
    state: ParserView,
    e: EpisodeView,
    torrent: Seq<char>,
    tag: Seq<char>,
    date: Seq<char>,
    end: Seq<char>,
    torrent_end: Seq<char>,
)
    requires
        state.current == Some(e),
        e.pub_date is None,
        element_name(torrent) == "torrent"@,
        element_name(tag) == "pubDate"@,
        xml::local_part(end) == "pubDate"@,
        xml::local_part(torrent_end) == "torrent"@,
    ensures
        after_events(
            state,
            seq![event(XmlKind::Start, torrent)] + title_events(tag, date, end) + seq![
                event(XmlKind::End, torrent_end),
            ],
        ) == (ParserView {
            current: Some(EpisodeView { pub_date: Some(sanitize::stripped(date)), ..e }),
            ..state
        }),
{
    law_line_ends_do_not_matter(date);
    lemma_element_names();
    let open = seq![event(XmlKind::Start, torrent)];
    let middle = title_events(tag, date, end);
    let close = seq![event(XmlKind::End, torrent_end)];
    let outer = state.path.push("torrent"@);
    let inner = outer.push("pubDate"@);
    assert(inner.drop_last() == outer);
    assert(outer.drop_last() == state.path);
    assert(inner[state.path.len() as int] == "torrent"@);
    assert(inner.contains("torrent"@));
    assert(Seq::<char>::empty() + sanitize::stripped(date) == sanitize::stripped(date));
    law_events_in_parts_are_the_whole(state, open, middle);
    law_events_in_parts_are_the_whole(state, open + middle, close);
    lemma_one_event(state, open[0]);
    let s1 = after_event(state, open[0]);
    lemma_three_events(s1, middle[0], middle[1], middle[2]);
    assert(middle == seq![middle[0], middle[1], middle[2]]);
    let s2 = after_events(s1, middle);
    assert(s2 == (ParserView {
        path: outer,
        current: Some(EpisodeView { pub_date: Some(sanitize::stripped(date)), ..e }),
        ..state
    }));
    lemma_one_event(s2, close[0]);
}

/// What text at `path` in an item adds to its episode.
pub open spec fn gathered(path: Seq<Seq<char>>, e: EpisodeView, text: Seq<char>) -> EpisodeView {
    let clean = sanitize::stripped(text);
    if path.len() > 0 && path.last() == "title"@ {
        with_title(Some(e), clean)->0
    } else if path.len() > 0 && path.last() == "pubDate"@ && path.contains("torrent"@) {
        with_date(Some(e), clean)->0
    } else {
        e
    }
}

/// What one event in an item makes of the open elements and of its episode.
pub open spec fn collected_by(
    path: Seq<Seq<char>>,
    e: EpisodeView,
    event: XmlEventView,
) -> (Seq<Seq<char>>, EpisodeView) {
    match event.kind {
        XmlKind::Start => (path.push(element_name(event.content)), e),
        XmlKind::Empty => (
            path,
            if element_name(event.content) == "enclosure"@ {
                with_attributes(e, attributes_in(event.content))
            } else {
                e
            },
        ),
        XmlKind::End => (path.drop_last(), e),
        XmlKind::Text => (path, gathered(path, e, xml::normalized_eols(event.content))),
        XmlKind::CData => (path, gathered(path, e, event.content)),
        XmlKind::GeneralRef => (path, gathered(path, e, reference_text(event.content))),
        XmlKind::Eof => (path, e),
        XmlKind::Other => (path, e),
    }
}

/// What the events in an item make of the open elements and of its episode, in
/// order.
pub open spec fn collected(
    path: Seq<Seq<char>>,
    e: EpisodeView,
    events: Seq<XmlEventView>,
) -> (Seq<Seq<char>>, EpisodeView)
    decreases events.len(),
{
    if events.len() == 0 {
        (path, e)
    } else {
        let (p, d) = collected(path, e, events.drop_last());
        collected_by(p, d, events.last())
    }
}

/// How many more elements the events open than they close.
pub open spec fn depth(events: Seq<XmlEventView>) -> int
    decreases events.len(),
{
    if events.len() == 0 {
        0
    } else {
        depth(events.drop_last()) + match events.last().kind {
            XmlKind::Start => 1int,
            XmlKind::End => -1int,
            _ => 0int,
        }
    }
}

/// An event that neither begins nor ends an item.
pub open spec fn no_item_tag(event: XmlEventView) -> bool {
    &&& event.kind == XmlKind::Start ==> element_name(event.content) != "item"@
    &&& event.kind == XmlKind::End ==> xml::local_part(event.content) != "item"@
}

/// Events that stay in the element around them and hold no tag of an item.
pub open spec fn within_item(events: Seq<XmlEventView>) -> bool {
    &&& forall|i: int| 0 <= i < events.len() ==> no_item_tag(#[trigger] events[i])
    &&& forall|k: int| 0 <= k <= events.len() ==> depth(#[trigger] events.take(k)) >= 0
}

proof fn lemma_item_path_is_not_the_channel(path: Seq<Seq<char>>, k: int)
    requires
        0 <= k < path.len(),
        path[k] == "item"@,
    ensures
        path != channel_title_path(),
{
    lemma_element_names();
    reveal_strlit("rss");
    reveal_strlit("item");
    assert("rss"@.len() == 3 && "item"@.len() == 4);
    if path == channel_title_path() {
        assert(path[k] == channel_title_path()[k]);
        assert(k == 0 || k == 1 || k == 2);
    }
}

proof fn lemma_within_item(state: ParserView, e: EpisodeView, events: Seq<XmlEventView>)
    requires
        state.current == Some(e),
        state.path.len() > 0,
        state.path.last() == "item"@,
        within_item(events),
    ensures
        after_events(state, events) == (ParserView {
            path: collected(state.path, e, events).0,
            feed: state.feed,
            current: Some(collected(state.path, e, events).1),
        }),
        collected(state.path, e, events).0.len() == state.path.len() + depth(events),
        state.path.is_prefix_of(collected(state.path, e, events).0),
    decreases events.len(),
{
    if events.len() > 0 {
        let before = events.drop_last();
        let last = events.last();
        assert forall|i: int| 0 <= i < before.len() implies no_item_tag(#[trigger] before[i]) by {
            assert(before[i] == events[i]);
        }
        assert forall|k: int| 0 <= k <= before.len() implies depth(#[trigger] before.take(k))
            >= 0 by {
            assert(before.take(k) == events.take(k));
        }
        lemma_within_item(state, e, before);
        assert(no_item_tag(events[events.len() - 1]));
        assert(events.take(events.len() as int) == events);
        assert(depth(events) >= 0);
        let (path, d) = collected(state.path, e, before);
        let n = state.path.len() - 1;
        assert(path[n] == state.path[n]);
        lemma_item_path_is_not_the_channel(path, n);
        match last.kind {
            XmlKind::End => {
                assert(path.len() > state.path.len());
                assert(state.path.is_prefix_of(path.drop_last()));
            },
            XmlKind::Start => {
                assert(state.path.is_prefix_of(path.push(element_name(last.content))));
            },
            _ => {},
        }
    }
}

/// Whatever an item holds, as long as its tags match and no other item begins in
/// it: what is left of it is the episode collected from its titles, dates and
/// enclosures, wherever they stand and however often. Everything else in it,
/// such as its links and descriptions, leaves no trace, and the title of the
/// channel and the episodes before it stay as they were.
pub proof fn law_an_item_becomes_an_episode(
    state: ParserView,
    tag: Seq<char>,
    body: Seq<XmlEventView>,
    end: Seq<char>,
)
    requires
        element_name(tag) == "item"@,
        xml::local_part(end) == "item"@,
        within_item(body),
        depth(body) == 0,
    ensures
        after_events(
            state,
            seq![event(XmlKind::Start, tag)] + body + seq![event(XmlKind::End, end)],
        ) == (ParserView {
            path: state.path,
            feed: with_episode(
                state.feed,
                collected(state.path.push("item"@), EpisodeView::blank(), body).1,
            ),
            current: None,
        }),
{
    let open = seq![event(XmlKind::Start, tag)];
    let close = seq![event(XmlKind::End, end)];
    law_events_in_parts_are_the_whole(state, open, body);
    law_events_in_parts_are_the_whole(state, open + body, close);
    lemma_one_event(state, open[0]);
    let inside = after_event(state, open[0]);
    lemma_within_item(inside, EpisodeView::blank(), body);
    let (path, e) = collected(inside.path, EpisodeView::blank(), body);
    assert(path == inside.path);
    assert(path.drop_last() == state.path);
    lemma_one_event(after_events(inside, body), close[0]);
}

/// An element in an item that is neither a title, nor a date, nor an enclosure
/// adds nothing by its text.
pub proof fn law_other_text_adds_nothing(path: Seq<Seq<char>>, e: EpisodeView, text: Seq<char>)
    requires
        path.len() > 0,
        path.last() != "title"@,
        path.last() != "pubDate"@ || !path.contains("torrent"@),
    ensures
        gathered(path, e, text) == e,
{
}

// ---------------------------------------------------------------------------
// Laws of what is written and read

proof fn lemma_digits_are_safe(n: nat)
    ensures
        sanitize::safe_to_print(text::decimal(n)),
        xml::attribute_value(text::decimal(n)) == Some(text::decimal(n)),
        clean_value(text::decimal(n)) == text::decimal(n),
{
    let d = text::decimal(n);
    text::lemma_decimal_read_back(n);
    assert forall|i: int| 0 <= i < d.len() implies !sanitize::unsafe_display(#[trigger] d[i]) by {
        assert(text::digit(d[i]));
    }
    assert forall|i: int| 0 <= i < d.len() implies !xml::space_in_value(#[trigger] d[i]) && d[i]
        != '&' by {
        assert(text::digit(d[i]));
    }
    xml::law_plain_values_stand_for_themselves(d);
    sanitize::law_stripping_keeps_safe_text(d);
}

/// The size that an enclosure writes in decimal is that of the episode, for every
/// number of 64 bits, and nothing else of the episode changes. A larger number is
/// no size.
pub proof fn law_enclosure_sizes_read_back(n: nat, key: Seq<char>, e: EpisodeView)
    requires
        xml::local_part(key) == "length"@,
    ensures
        with_attribute(e, Some((key, text::decimal(n)))) == (EpisodeView {
            size: if n <= 0xffff_ffff_ffff_ffff {
                Some(n as u64)
            } else {
                None
            },
            ..e
        }),
{
    reveal_strlit("url");
    reveal_strlit("length");
    assert("url"@.len() == 3 && "length"@.len() == 6);
    lemma_digits_are_safe(n);
    text::law_numbers_read_back(n, u64::MAX as nat);
}

/// The attributes of an enclosure are all taken, one after the other, and one
/// that is neither an address nor a size, or that is ill-formed, changes nothing.
pub proof fn law_every_attribute_is_taken(
    e: EpisodeView,
    a: Seq<AttributeRead>,
    b: Seq<AttributeRead>,
)
    ensures
        with_attributes(e, a + b) == with_attributes(with_attributes(e, a), b),
        a.len() == 1 ==> with_attributes(e, a) == with_attribute(e, a[0]),
        a.len() == 1 && (a[0] is None || (a[0] matches Some((key, _)) && xml::local_part(key)
            != "url"@ && xml::local_part(key) != "length"@)) ==> with_attributes(e, a) == e,
    decreases a.len(),
{
    if a.len() == 1 {
        reveal_with_fuel(with_attributes, 2);
    }
    if a.len() == 0 {
        assert(a + b == b);
    } else {
        assert((a + b).skip(1) == a.skip(1) + b);
        law_every_attribute_is_taken(with_attribute(e, a[0]), a.skip(1), b);
    }
}

/// An item that has ended is an episode with its trimmed title and date and its
/// address and size as they are, behind all the others; without a title or an
/// address it is none.
pub proof fn law_an_ended_item_is_the_last_episode(feed: FeedView, e: EpisodeView)
    ensures
        text::trimmed(e.title).len() > 0 && e.torrent_url.len() > 0 ==> {
            let after = with_episode(feed, e);
            &&& after.channel_title == feed.channel_title
            &&& after.episodes.len() == feed.episodes.len() + 1
            &&& after.episodes.drop_last() == feed.episodes
            &&& after.episodes.last().title == text::trimmed(e.title)
            &&& after.episodes.last().torrent_url == e.torrent_url
            &&& after.episodes.last().size == e.size
            &&& (e.pub_date is None ==> after.episodes.last().pub_date is None)
            &&& (e.pub_date matches Some(d) ==> after.episodes.last().pub_date == if text::trimmed(
                d,
            ).len() > 0 {
                Some(text::trimmed(d))
            } else {
                None
            })
        },
        text::trimmed(e.title).len() == 0 || e.torrent_url.len() == 0 ==> with_episode(feed, e)
            == feed,
{
    let done = finished(e);
    assert(feed.episodes.push(done).drop_last() == feed.episodes);
}

/// The title of the channel is that in its title element, and nothing else
/// changes. Wherever text stands that is no title and no date, it changes nothing
/// at all.
pub proof fn law_the_channel_title_is_read(
    state: ParserView,
    tag: Seq<char>,
    words: Seq<char>,
    end: Seq<char>,
)
    requires
        state.path == seq!["rss"@, "channel"@],
        element_name(tag) == "title"@,
        xml::local_part(end) == "title"@,
    ensures
        after_events(state, title_events(tag, words, end)) == (ParserView {
            feed: FeedView {
                channel_title: state.feed.channel_title + sanitize::stripped(words),
                ..state.feed
            },
            ..state
        }),
{
    law_line_ends_do_not_matter(words);
    lemma_element_names();
    let inner = state.path.push("title"@);
    assert(inner == channel_title_path());
    assert(inner.drop_last() == state.path);
    lemma_three_events(
        state,
        event(XmlKind::Start, tag),
        event(XmlKind::Text, words),
        event(XmlKind::End, end),
    );
}

/// An element that is no item, and in it only text that is neither of a title nor
/// of a date, leaves everything as it was, however long or deep it is.
pub proof fn law_other_elements_leave_no_trace(
    state: ParserView,
    tag: Seq<char>,
    words: Seq<char>,
    end: Seq<char>,
)
    requires
        element_name(tag) != "item"@,
        element_name(tag) != "title"@,
        element_name(tag) != "pubDate"@,
        xml::local_part(end) == element_name(tag),
    ensures
        after_events(state, title_events(tag, words, end)) == state,
{
    let inner = state.path.push(element_name(tag));
    assert(inner.drop_last() == state.path);
    lemma_three_events(
        state,
        event(XmlKind::Start, tag),
        event(XmlKind::Text, words),
        event(XmlKind::End, end),
    );
}

/// Plain text, CDATA and references add the same: a title is the same text
/// however it is written.
pub proof fn law_text_is_text_however_written(state: ParserView, words: Seq<char>, c: char)
    ensures
        after_event(state, event(XmlKind::Text, words)) == after_event(
            state,
            event(XmlKind::CData, words),
        ),
        c == '&' ==> after_event(state, event(XmlKind::GeneralRef, "amp"@)) == after_event(
            state,
            event(XmlKind::CData, seq![c]),
        ),
        c == '<' ==> after_event(state, event(XmlKind::GeneralRef, "lt"@)) == after_event(
            state,
            event(XmlKind::CData, seq![c]),
        ),
        c == '>' ==> after_event(state, event(XmlKind::GeneralRef, "gt"@)) == after_event(
            state,
            event(XmlKind::CData, seq![c]),
        ),
        c == '\'' ==> after_event(state, event(XmlKind::GeneralRef, "apos"@)) == after_event(
            state,
            event(XmlKind::CData, seq![c]),
        ),
        c == '"' ==> after_event(state, event(XmlKind::GeneralRef, "quot"@)) == after_event(
            state,
            event(XmlKind::CData, seq![c]),
        ),
{
    law_line_ends_do_not_matter(words);
    xml::lemma_entities();
}

/// An item as a feed writes it: title, torrent with a date, enclosure.
pub open spec fn written_item(title: Seq<char>, date: Seq<char>, enclosure: Seq<char>) -> Seq<
    XmlEventView,
> {
    seq![event(XmlKind::Start, "item"@)] + title_events("title"@, title, "title"@) + (seq![
        event(XmlKind::Start, "torrent"@),
    ] + title_events("pubDate"@, date, "pubDate"@) + seq![event(XmlKind::End, "torrent"@)]) + seq![
        event(XmlKind::Empty, enclosure),
    ] + seq![event(XmlKind::End, "item"@)]
}

/// A text that a feed gives as it is: safe to print, not empty, and without white
/// space at its ends.
pub open spec fn plain(s: Seq<char>) -> bool {
    &&& s.len() > 0
    &&& !text::white_space(s[0])
    &&& !text::white_space(s.last())
    &&& forall|i: int| 0 <= i < s.len() ==> !sanitize::unsafe_display(#[trigger] s[i])
}

/// An enclosure that writes the address and the size.
pub open spec fn encloses(enclosure: Seq<char>, url: Seq<char>, size: u64) -> bool {
    &&& element_name(enclosure) == "enclosure"@
    &&& xml::tag_attributes(enclosure, xml::name_bytes(enclosure) as usize) == seq![
        Some(("url"@, xml::escaped(url))),
        Some(("length"@, text::decimal(size as nat))),
    ]
}

proof fn lemma_plain_name(name: Seq<char>)
    requires
        forall|i: int| 0 <= i < name.len() ==> 'A' <= #[trigger] name[i] && name[i] <= 'z',
    ensures
        xml::local_part(name) == name,
        element_name(name) == name,
{
    reveal_strlit(" \t\r\n");
    let spaces = " \t\r\n"@;
    assert(spaces.len() == 4);
    assert(spaces[0] == ' ' && spaces[1] == '\t' && spaces[2] == '\r' && spaces[3] == '\n');
    assert forall|i: int| 0 <= i < name.len() implies !spaces.contains(#[trigger] name[i]) by {
        assert('A' <= name[i]);
    }
    assert forall|i: int| 0 <= i < name.len() implies #[trigger] name[i] != ':' by {
        assert('A' <= name[i]);
    }
    xml::law_prefixes_are_cut_off(name, Seq::empty());
    xml::law_tag_names_end_at_white_space(name, Seq::empty());
    assert(name + Seq::<char>::empty() == name);
}

proof fn lemma_plain_names()
    ensures
        xml::local_part("url"@) == "url"@,
        xml::local_part("length"@) == "length"@,
        element_name("item"@) == "item"@ && xml::local_part("item"@) == "item"@,
        element_name("title"@) == "title"@ && xml::local_part("title"@) == "title"@,
        element_name("torrent"@) == "torrent"@ && xml::local_part("torrent"@) == "torrent"@,
        element_name("pubDate"@) == "pubDate"@ && xml::local_part("pubDate"@) == "pubDate"@,
        element_name("rss"@) == "rss"@ && xml::local_part("rss"@) == "rss"@,
        element_name("channel"@) == "channel"@ && xml::local_part("channel"@) == "channel"@,
{
    reveal_strlit("url");
    reveal_strlit("length");
    reveal_strlit("item");
    reveal_strlit("title");
    reveal_strlit("torrent");
    reveal_strlit("pubDate");
    reveal_strlit("rss");
    reveal_strlit("channel");
    lemma_plain_name("url"@);
    lemma_plain_name("length"@);
    lemma_plain_name("item"@);
    lemma_plain_name("title"@);
    lemma_plain_name("torrent"@);
    lemma_plain_name("pubDate"@);
    lemma_plain_name("rss"@);
    lemma_plain_name("channel"@);
}

/// An item as a feed writes it is read as it is written: with its whole title,
/// address and date, and its size.
pub proof fn law_an_item_is_read_as_written(
    state: ParserView,
    title: Seq<char>,
    url: Seq<char>,
    size: u64,
    date: Seq<char>,
    enclosure: Seq<char>,
)
    requires
        plain(title),
        plain(date),
        url.len() > 0,
        sanitize::safe_to_print(url),
        encloses(enclosure, url, size),
    ensures
        after_events(state, written_item(title, date, enclosure)) == (ParserView {
            path: state.path,
            feed: FeedView {
                episodes: state.feed.episodes.push(
                    EpisodeView {
                        title,
                        torrent_url: url,
                        size: Some(size),
                        pub_date: Some(date),
                    },
                ),
                ..state.feed
            },
            current: None,
        }),
{
    lemma_plain_names();
    sanitize::law_stripping_keeps_safe_text(title);
    sanitize::law_stripping_keeps_safe_text(date);
    text::lemma_trimmed_fixed(title);
    text::lemma_trimmed_fixed(date);
    let a = seq![event(XmlKind::Start, "item"@)];
    let b = title_events("title"@, title, "title"@);
    let c = seq![event(XmlKind::Start, "torrent"@)] + title_events("pubDate"@, date, "pubDate"@)
        + seq![event(XmlKind::End, "torrent"@)];
    let d = seq![event(XmlKind::Empty, enclosure)];
    let f = seq![event(XmlKind::End, "item"@)];
    law_events_in_parts_are_the_whole(state, a, b);
    law_events_in_parts_are_the_whole(state, a + b, c);
    law_events_in_parts_are_the_whole(state, a + b + c, d);
    law_events_in_parts_are_the_whole(state, a + b + c + d, f);
    lemma_one_event(state, a[0]);
    let s1 = after_event(state, a[0]);
    let inner = state.path.push("item"@);
    assert(inner.drop_last() == state.path);
    law_a_title_is_read(s1, EpisodeView::blank(), "title"@, title, "title"@);
    let s2 = after_events(s1, b);
    assert(Seq::<char>::empty() + title == title);
    let titled = EpisodeView { title, ..EpisodeView::blank() };
    law_a_date_is_read(s2, titled, "torrent"@, "pubDate"@, date, "pubDate"@, "torrent"@);
    let s3 = after_events(s2, c);
    let dated = EpisodeView { pub_date: Some(date), ..titled };
    assert(s3.current == Some(dated));
    lemma_one_event(s3, d[0]);
    let s4 = after_event(s3, d[0]);
    let first: AttributeRead = Some(("url"@, xml::escaped(url)));
    let second: AttributeRead = Some(("length"@, text::decimal(size as nat)));
    assert(seq![first, second] == seq![first] + seq![second]);
    law_every_attribute_is_taken(dated, seq![first], seq![second]);
    law_enclosure_addresses_read_back(url, "url"@, dated);
    let addressed = EpisodeView { torrent_url: url, ..dated };
    law_every_attribute_is_taken(addressed, seq![second], Seq::empty());
    law_enclosure_sizes_read_back(size as nat, "length"@, addressed);
    let whole = EpisodeView { size: Some(size), ..addressed };
    assert(s4.current == Some(whole));
    lemma_one_event(s4, f[0]);
    assert(finished(whole) == whole);
}

/// An episode that a feed can write as it is.
pub open spec fn writable(e: EpisodeView) -> bool {
    &&& plain(e.title)
    &&& e.torrent_url.len() > 0
    &&& sanitize::safe_to_print(e.torrent_url)
    &&& e.size is Some
    &&& e.pub_date matches Some(d)
    &&& plain(d)
}

/// Episodes as a feed writes them, one item after the other.
pub open spec fn written_items(episodes: Seq<EpisodeView>, enclosures: Seq<Seq<char>>) -> Seq<
    XmlEventView,
>
    decreases episodes.len(),
{
    if episodes.len() == 0 {
        Seq::empty()
    } else {
        written_items(episodes.drop_last(), enclosures.drop_last()) + written_item(
            episodes.last().title,
            episodes.last().pub_date->0,
            enclosures.last(),
        )
    }
}

proof fn lemma_items_are_read_as_written(
    state: ParserView,
    episodes: Seq<EpisodeView>,
    enclosures: Seq<Seq<char>>,
)
    requires
        state.current is None,
        episodes.len() == enclosures.len(),
        forall|i: int|
            0 <= i < episodes.len() ==> writable(#[trigger] episodes[i]) && encloses(
                enclosures[i],
                episodes[i].torrent_url,
                episodes[i].size->0,
            ),
    ensures
        after_events(state, written_items(episodes, enclosures)) == (ParserView {
            feed: FeedView { episodes: state.feed.episodes + episodes, ..state.feed },
            ..state
        }),
    decreases episodes.len(),
{
    if episodes.len() == 0 {
        assert(state.feed.episodes + episodes == state.feed.episodes);
    } else {
        let n = episodes.len() - 1;
        let before = episodes.drop_last();
        let e = episodes[n];
        assert forall|i: int| 0 <= i < before.len() implies writable(#[trigger] before[i])
            && encloses(
            enclosures.drop_last()[i],
            before[i].torrent_url,
            before[i].size->0,
        ) by {
            assert(before[i] == episodes[i]);
        }
        lemma_items_are_read_as_written(state, before, enclosures.drop_last());
        let items = written_items(before, enclosures.drop_last());
        let last = written_item(e.title, e.pub_date->0, enclosures[n]);
        law_events_in_parts_are_the_whole(state, items, last);
        let s1 = after_events(state, items);
        assert(writable(episodes[n]));
        law_an_item_is_read_as_written(
            s1,
            e.title,
            e.torrent_url,
            e.size->0,
            e.pub_date->0,
            enclosures[n],
        );
        assert((state.feed.episodes + before).push(e) == state.feed.episodes + episodes);
    }
}

/// A feed is read as it is written: the whole title of the channel and every
/// episode, in order, however many there are and however long their texts.
pub proof fn law_a_feed_is_read_as_written(
    title: Seq<char>,
    episodes: Seq<EpisodeView>,
    enclosures: Seq<Seq<char>>,
)
    requires
        plain(title),
        episodes.len() == enclosures.len(),
        forall|i: int|
            0 <= i < episodes.len() ==> writable(#[trigger] episodes[i]) && encloses(
                enclosures[i],
                episodes[i].torrent_url,
                episodes[i].size->0,
            ),
    ensures
        feed_in(
            (seq![event(XmlKind::Start, "rss"@)] + seq![event(XmlKind::Start, "channel"@)]
                + title_events("title"@, title, "title"@) + written_items(episodes, enclosures)
                + seq![event(XmlKind::End, "channel"@)] + seq![event(XmlKind::End, "rss"@)] + seq![
                event(XmlKind::Eof, Seq::empty()),
            ]).map_values(|e: XmlEventView| Ok::<XmlEventView, Seq<char>>(e)),
        ) == Ok::<FeedView, Seq<char>>(FeedView { channel_title: title, episodes }),
{
    lemma_plain_names();
    lemma_element_names();
    reveal_strlit("rss");
    reveal_strlit("item");
    assert("rss"@.len() == 3 && "item"@.len() == 4);
    let a = seq![event(XmlKind::Start, "rss"@)];
    let b = seq![event(XmlKind::Start, "channel"@)];
    let c = title_events("title"@, title, "title"@);
    let d = written_items(episodes, enclosures);
    let f = seq![event(XmlKind::End, "channel"@)];
    let g = seq![event(XmlKind::End, "rss"@)];
    let h = seq![event(XmlKind::Eof, Seq::empty())];
    let s0 = ParserView::blank();
    law_events_in_parts_are_the_whole(s0, a, b);
    law_events_in_parts_are_the_whole(s0, a + b, c);
    law_events_in_parts_are_the_whole(s0, a + b + c, d);
    law_events_in_parts_are_the_whole(s0, a + b + c + d, f);
    law_events_in_parts_are_the_whole(s0, a + b + c + d + f, g);
    law_events_in_parts_are_the_whole(s0, a + b + c + d + f + g, h);
    lemma_one_event(s0, a[0]);
    let s1 = after_event(s0, a[0]);
    lemma_one_event(s1, b[0]);
    let s2 = after_event(s1, b[0]);
    assert(s2.path == seq!["rss"@, "channel"@]);
    law_the_channel_title_is_read(s2, "title"@, title, "title"@);
    sanitize::law_stripping_keeps_safe_text(title);
    assert(Seq::<char>::empty() + title == title);
    let s3 = after_events(s2, c);
    assert(s3.feed.channel_title == title && s3.current is None);
    lemma_items_are_read_as_written(s3, episodes, enclosures);
    assert(Seq::<EpisodeView>::empty() + episodes == episodes);
    let s4 = after_events(s3, d);
    lemma_one_event(s4, f[0]);
    let s5 = after_event(s4, f[0]);
    lemma_one_event(s5, g[0]);
    let s6 = after_event(s5, g[0]);
    lemma_one_event(s6, h[0]);
    text::lemma_trimmed_fixed(title);
    let all = a + b + c + d + f + g + h;
    law_reads_are_their_events(s0, all, Seq::empty());
    let reads = all.map_values(|e: XmlEventView| Ok::<XmlEventView, Seq<char>>(e));
    assert(reads + Seq::<XmlRead>::empty() == reads);
}

/// What an episode or a feed shows over sequences is all of it.
pub proof fn law_episodes_are_seen_whole(s: Seq<Episode>, feed: Feed, i: int)
    ensures
        views(s).len() == s.len(),
        0 <= i < s.len() ==> {
            &&& views(s)[i].title == s[i].title@
            &&& views(s)[i].torrent_url == s[i].torrent_url@
            &&& views(s)[i].size == s[i].size
            &&& (s[i].pub_date is None ==> views(s)[i].pub_date is None)
            &&& (s[i].pub_date matches Some(d) ==> views(s)[i].pub_date == Some(d@))
        },
        feed@.channel_title == feed.channel_title@,
        feed@.episodes == views(feed.episodes@),
{
}

/// Text directly in a title is added to the title of the item, wherever in it the
/// title stands; directly in the title of the channel it is added to that. Text in a
/// date below a torrent is added to the date, behind what it has. Only what is
/// unsafe to print is left out, and nothing else changes.
pub proof fn law_text_goes_where_it_belongs(
    path: Seq<Seq<char>>,
    feed: FeedView,
    e: EpisodeView,
    words: Seq<char>,
    k: int,
)
    ensures
        path != seq!["rss"@, "channel"@] ==> appended(path.push("title"@), feed, Some(e), words) == (
            feed,
            Some(EpisodeView { title: e.title + sanitize::stripped(words), ..e }),
        ),
        appended(seq!["rss"@, "channel"@, "title"@], feed, Some(e), words) == (
            FeedView { channel_title: feed.channel_title + sanitize::stripped(words), ..feed },
            Some(e),
        ),
        appended(seq!["rss"@, "channel"@, "title"@], feed, None, words) == (
            FeedView { channel_title: feed.channel_title + sanitize::stripped(words), ..feed },
            None::<EpisodeView>,
        ),
        0 <= k < path.len() && path[k] == "torrent"@ && e.pub_date is None ==> appended(
            path.push("pubDate"@),
            feed,
            Some(e),
            words,
        ) == (feed, Some(EpisodeView { pub_date: Some(sanitize::stripped(words)), ..e })),
        0 <= k < path.len() && path[k] == "torrent"@ && e.pub_date is Some ==> appended(
            path.push("pubDate"@),
            feed,
            Some(e),
            words,
        ) == (
            feed,
            Some(
                EpisodeView { pub_date: Some(e.pub_date->0 + sanitize::stripped(words)), ..e },
            ),
        ),
        (forall|i: int| 0 <= i < path.len() ==> #[trigger] path[i] != "torrent"@) ==> appended(
            path.push("pubDate"@),
            feed,
            Some(e),
            words,
        ) == (feed, Some(e)),
        path.len() > 0 && path.last() != "title"@ && path.last() != "pubDate"@ ==> appended(
            path,
            feed,
            Some(e),
            words,
        ) == (feed, Some(e)),
        appended(path.push("pubDate"@), feed, None, words) == (feed, None::<EpisodeView>),
{
    lemma_element_names();
    reveal_strlit("pubDate");
    reveal_strlit("title");
    reveal_strlit("torrent");
    assert("pubDate"@.len() == 7 && "title"@.len() == 5 && "torrent"@.len() == 7);
    assert("pubDate"@[0] == 'p' && "torrent"@[0] == 't');
    let titled = path.push("title"@);
    assert(titled.drop_last() == path);
    assert(channel_title_path().drop_last() == seq!["rss"@, "channel"@]);
    assert(seq!["rss"@, "channel"@, "title"@] == channel_title_path());
    let dated = path.push("pubDate"@);
    if 0 <= k < path.len() && path[k] == "torrent"@ {
        assert(dated[k] == "torrent"@);
    }
    assert(Seq::<char>::empty() + sanitize::stripped(words) == sanitize::stripped(words));
    if forall|i: int| 0 <= i < path.len() ==> #[trigger] path[i] != "torrent"@ {
        assert forall|i: int| 0 <= i < dated.len() implies #[trigger] dated[i] != "torrent"@ by {
            if i < path.len() {
                assert(dated[i] == path[i]);
            }
        }
    }
}

/// A start tag goes one element deeper, and an end tag one back, however deep. Only
/// the start of an item begins an episode, with nothing in it yet, and only its end
/// makes one.
pub proof fn law_tags_open_and_close(state: ParserView, content: Seq<char>)
    ensures
        after_event(state, event(XmlKind::Start, content)).path == state.path.push(
            element_name(content),
        ),
        after_event(state, event(XmlKind::Start, content)).feed == state.feed,
        element_name(content) == "item"@ ==> after_event(state, event(XmlKind::Start, content)).current
            == Some(
            EpisodeView {
                title: Seq::empty(),
                torrent_url: Seq::empty(),
                size: None,
                pub_date: None,
            },
        ),
        element_name(content) != "item"@ ==> after_event(state, event(XmlKind::Start, content)).current
            == state.current,
        state.path.len() > 0 ==> after_event(state, event(XmlKind::End, content)).path
            == state.path.drop_last(),
        state.path.len() == 0 ==> after_event(state, event(XmlKind::End, content)).path
            == state.path,
        xml::local_part(content) != "item"@ ==> after_event(
            state,
            event(XmlKind::End, content),
        ).feed == state.feed && after_event(state, event(XmlKind::End, content)).current
            == state.current,
        xml::local_part(content) == "item"@ ==> after_event(
            state,
            event(XmlKind::End, content),
        ).current is None,
        after_event(state, event(XmlKind::Other, content)) == state,
        after_event(state, event(XmlKind::Eof, content)) == state,
{
}

/// Every attribute of an enclosure in an item is taken into its episode. An
/// enclosure elsewhere, and an empty tag of any other name, change nothing.
pub proof fn law_enclosures_are_taken_whole(state: ParserView, e: EpisodeView, content: Seq<char>)
    ensures
        element_name(content) == "enclosure"@ && state.current == Some(e) ==> after_event(
            state,
            event(XmlKind::Empty, content),
        ) == (ParserView {
            current: Some(
                with_attributes(
                    e,
                    xml::tag_attributes(content, xml::name_bytes(content) as usize),
                ),
            ),
            ..state
        }),
        element_name(content) != "enclosure"@ || state.current is None ==> after_event(
            state,
            event(XmlKind::Empty, content),
        ) == state,
{
}

/// The name of an element is what its tag begins with, up to white space, without a
/// prefix.
pub proof fn law_elements_are_named_by_their_tags(
    prefix: Seq<char>,
    name: Seq<char>,
    rest: Seq<char>,
)
    requires
        forall|i: int|
            0 <= i < prefix.len() ==> #[trigger] prefix[i] != ':' && !" \t\r\n"@.contains(prefix[i]),
        forall|i: int| 0 <= i < name.len() ==> !" \t\r\n"@.contains(#[trigger] name[i]),
        rest.len() > 0 ==> " \t\r\n"@.contains(rest[0]),
    ensures
        element_name(prefix + seq![':'] + name + rest) == name,
        (forall|i: int| 0 <= i < name.len() ==> #[trigger] name[i] != ':') ==> element_name(
            name + rest,
        ) == name,
{
    reveal_strlit(" \t\r\n");
    let spaces = " \t\r\n"@;
    assert(spaces.len() == 4);
    assert(spaces[0] == ' ' && spaces[1] == '\t' && spaces[2] == '\r' && spaces[3] == '\n');
    let whole = prefix + seq![':'] + name;
    assert forall|i: int| 0 <= i < whole.len() implies !spaces.contains(#[trigger] whole[i]) by {
        if i < prefix.len() {
            assert(whole[i] == prefix[i]);
        } else if i > prefix.len() {
            assert(whole[i] == name[i - prefix.len() - 1]);
        } else {
            assert(whole[i] == ':');
        }
    }
    xml::law_tag_names_end_at_white_space(whole, rest);
    xml::law_prefixes_are_cut_off(prefix, name);
    xml::law_tag_names_end_at_white_space(name, rest);
    if forall|i: int| 0 <= i < name.len() ==> #[trigger] name[i] != ':' {
        xml::law_prefixes_are_cut_off(name, rest);
    }
}

/// A reference by the code of a character adds that character to the text, as if it
/// stood there itself. One that stands for nothing adds nothing.
pub proof fn law_references_add_their_characters(state: ParserView, n: nat, name: Seq<char>)
    ensures
        0 < n < 0xd800 || 0xe000 <= n <= 0x10ffff ==> after_event(
            state,
            event(XmlKind::GeneralRef, seq!['#'] + text::decimal(n)),
        ) == after_event(state, event(XmlKind::CData, seq![n as char])),
        name.len() > 0 && name[0] != '#' && name != "amp"@ && name != "lt"@ && name != "gt"@ && name
            != "apos"@ && name != "quot"@ ==> after_event(state, event(XmlKind::GeneralRef, name))
            == after_event(state, event(XmlKind::CData, Seq::empty())),
{
    if 0 < n < 0xd800 || 0xe000 <= n <= 0x10ffff {
        xml::law_codes_stand_for_their_characters(n, Seq::empty());
    }
}

}
