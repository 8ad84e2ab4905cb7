//! Shows and subtitle groups, as the pages of Mikan list them.
use crate::feed;
use crate::page;
use crate::page::{
    attribute, child_texts, parse_page, parse_selector, select_all, select_below, text_nodes,
    FEED_LINK, GROUP_BLOCK, PUBLISHER_LINK, SHOW_CAPTION, SHOW_LINK,
};
use crate::sanitize;
use crate::sanitize::strip_unsafe;
use crate::text;
use crate::text::{
    chars_of, concat, cut_after, cut_before, decimal_text, is_blank, join, parse_u32, string_of,
    strip_prefix, trim,
};
use scraper::ElementRef;
use vstd::prelude::*;

verus! {

/// A show, as a search lists it.
#[derive(Debug, Clone, PartialEq)]
pub struct Show {
    pub title: String,
    pub id: u32,
}

/// A group that publishes a show with its subtitles. The id `0` is kept for the
/// entry that stands for all groups.
#[derive(Debug, Clone, PartialEq)]
pub struct Subgroup {
    pub name: String,
    pub id: u32,
}

/// An entry of a list: what it shows, and the id that it stands for.
pub struct EntryView {
    pub name: Seq<char>,
    pub id: u32,
}

impl View for Show {
    type V = EntryView;

    open spec fn view(&self) -> EntryView {
        EntryView { name: self.title@, id: self.id }
    }
}

impl View for Subgroup {
    type V = EntryView;

    open spec fn view(&self) -> EntryView {
        EntryView { name: self.name@, id: self.id }
    }
}

impl Show {
    /// What a list shows of it.
    pub fn label(&self) -> (s: String)
        ensures
            s@ == self.title@,
    {
        self.title.clone()
    }

    /// The same show again.
    pub fn duplicate(&self) -> (s: Show)
        ensures
            s == *self,
    {
        Show { title: self.title.clone(), id: self.id }
    }
}

impl Subgroup {
    /// What a list shows of it.
    pub fn label(&self) -> (s: String)
        ensures
            s@ == self.name@,
    {
        self.name.clone()
    }

    /// The same group again.
    pub fn duplicate(&self) -> (s: Subgroup)
        ensures
            s == *self,
    {
        Subgroup { name: self.name.clone(), id: self.id }
    }
}

/// The entries that a list of shows gives.
pub open spec fn show_views(shows: Seq<Show>) -> Seq<EntryView> {
    shows.map_values(|s: Show| s@)
}

/// The entries that a list of groups gives.
pub open spec fn group_views(groups: Seq<Subgroup>) -> Seq<EntryView> {
    groups.map_values(|g: Subgroup| g@)
}

// ---------------------------------------------------------------------------
// One entry for each id

/// Some entry has the id.
pub open spec fn lists_id(entries: Seq<EntryView>, id: u32) -> bool {
    exists|i: int| 0 <= i < entries.len() && (#[trigger] entries[i]).id == id
}

/// The entries that were found, and of those with one id only the first.
pub open spec fn first_of_each(found: Seq<Option<EntryView>>) -> Seq<EntryView>
    decreases found.len(),
{
    if found.len() == 0 {
        Seq::empty()
    } else {
        let before = first_of_each(found.drop_last());
        match found.last() {
            Some(e) => if lists_id(before, e.id) {
                before
            } else {
                before.push(e)
            },
            None => before,
        }
    }
}

/// A name as it is shown: safe to print and trimmed.
pub open spec fn shown_name(raw: Seq<char>) -> Seq<char> {
    text::trimmed(sanitize::stripped(raw))
}

/// The entry with the name and the id that were found: none without an id, and
/// none where nothing of the name can be shown.
pub open spec fn entry(id: Option<u32>, raw: Seq<char>) -> Option<EntryView> {
    match id {
        Some(id) => if shown_name(raw).len() > 0 {
            Some(EntryView { name: shown_name(raw), id })
        } else {
            None
        },
        None => None,
    }
}

/// The name as it is shown.
fn show_name(raw: &str) -> (s: String)
    ensures
        s@ == shown_name(raw@),
{
    let safe = strip_unsafe(raw);
    trim(&safe)
}

// ---------------------------------------------------------------------------
// Search results

/// An attribute or a caption that a card names its show by.
pub struct Caption {
    pub title: Option<String>,
    pub text: String,
}

/// A link to a show on a page of search results. A page links a show more than
/// once.
pub struct Card {
    pub href: Option<String>,
    pub own: Caption,
    pub caption: Option<Caption>,
}

/// A caption over sequences of characters.
pub struct CaptionView {
    pub title: Option<Seq<char>>,
    pub text: Seq<char>,
}

/// A card over sequences of characters.
pub struct CardView {
    pub href: Option<Seq<char>>,
    pub own: CaptionView,
    pub caption: Option<CaptionView>,
}

impl View for Caption {
    type V = CaptionView;

    open spec fn view(&self) -> CaptionView {
        CaptionView { title: feed::text_of(self.title), text: self.text@ }
    }
}

impl View for Card {
    type V = CardView;

    open spec fn view(&self) -> CardView {
        CardView {
            href: feed::text_of(self.href),
            own: self.own@,
            caption: match self.caption {
                Some(c) => Some(c@),
                None => None,
            },
        }
    }
}

/// The cards of a list.
pub open spec fn card_views(cards: Seq<Card>) -> Seq<CardView> {
    cards.map_values(|c: Card| c@)
}

/// The digits at the front of `s`.
pub open spec fn leading_digits(s: Seq<char>) -> Seq<char>
    decreases s.len(),
{
    if s.len() == 0 || !text::digit(s[0]) {
        Seq::empty()
    } else {
        seq![s[0]] + leading_digits(s.skip(1))
    }
}

/// A number as a `u32`.
pub open spec fn as_id(n: Option<nat>) -> Option<u32> {
    match n {
        Some(n) => Some(n as u32),
        None => None,
    }
}

/// The id of the show that a link leads to.
pub open spec fn show_id(href: Seq<char>) -> Option<u32> {
    if text::stands_at(href, "/Home/Bangumi/"@, 0) {
        let digits = leading_digits(href.skip("/Home/Bangumi/"@.len() as int));
        as_id(text::unsigned(digits, u32::MAX as nat))
    } else {
        None
    }
}

/// The name in a caption: its `title` attribute, or its text where that is
/// missing or blank.
pub open spec fn caption_name(c: CaptionView) -> Seq<char> {
    match c.title {
        Some(t) => if text::trimmed(t).len() > 0 {
            t
        } else {
            c.text
        },
        None => c.text,
    }
}

/// The name on a card: that of the caption inside it, or of the link itself
/// where it has none.
pub open spec fn card_name(card: CardView) -> Seq<char> {
    match card.caption {
        Some(c) => caption_name(c),
        None => caption_name(card.own),
    }
}

/// The show that a card stands for.
pub open spec fn card_show(card: CardView) -> Option<EntryView> {
    match card.href {
        Some(href) => entry(show_id(href), card_name(card)),
        None => None,
    }
}

/// The shows that the cards of a page stand for, each once.
pub open spec fn shows_on(cards: Seq<CardView>) -> Seq<EntryView> {
    first_of_each(cards.map_values(|c: CardView| card_show(c)))
}

proof fn lemma_leading_digits_at(s: Seq<char>, k: int)
    requires
        0 <= k <= s.len(),
        forall|i: int| 0 <= i < k ==> text::digit(#[trigger] s[i]),
        k < s.len() ==> !text::digit(s[k]),
    ensures
        leading_digits(s) == s.take(k),
    decreases k,
{
    if k == 0 {
        assert(s.take(0) == Seq::<char>::empty());
    } else {
        assert(text::digit(s[0]));
        let t = s.skip(1);
        assert forall|i: int| 0 <= i < k - 1 implies text::digit(#[trigger] t[i]) by {
            assert(t[i] == s[i + 1]);
        }
        lemma_leading_digits_at(t, k - 1);
        assert(seq![s[0]] + t.take(k - 1) == s.take(k));
    }
}

/// The id of the show that a link leads to.
pub fn show_id_from(href: &str) -> (r: Option<u32>)
    ensures
        r == show_id(href@),
{
    match strip_prefix(href, "/Home/Bangumi/") {
        Some(rest) => {
            let v = chars_of(&rest);
            let mut k: usize = 0;
            while k < v.len() && '0' <= v[k] && v[k] <= '9'
                invariant
                    k <= v@.len(),
                    forall|i: int| 0 <= i < k ==> text::digit(#[trigger] v@[i]),
                decreases v@.len() - k,
            {
                k = k + 1;
            }
            proof {
                lemma_leading_digits_at(v@, k as int);
                assert(v@.subrange(0, k as int) == v@.take(k as int));
            }
            let digits = string_of(&v, 0, k);
            parse_u32(&digits)
        },
        None => None,
    }
}

/// The name in a caption.
pub fn caption_text(caption: &Caption) -> (s: String)
    ensures
        s@ == caption_name(caption@),
{
    match &caption.title {
        Some(t) => {
            if is_blank(t) {
                caption.text.clone()
            } else {
                t.clone()
            }
        },
        None => caption.text.clone(),
    }
}

/// The show that a card stands for.
pub fn show_on_card(card: &Card) -> (r: Option<Show>)
    ensures
        r is Some <==> card_show(card@) is Some,
        r matches Some(s) ==> card_show(card@) == Some(s@),
{
    let id = match &card.href {
        Some(href) => show_id_from(href),
        None => None,
    };
    let raw = match &card.caption {
        Some(c) => caption_text(c),
        None => caption_text(&card.own),
    };
    let title = show_name(&raw);
    match id {
        Some(id) => {
            if title.as_str().is_empty() {
                None
            } else {
                Some(Show { title, id })
            }
        },
        None => None,
    }
}

/// The shows that the cards of a page stand for, each once, in the order of the
/// cards.
pub fn shows_from(cards: &Vec<Card>) -> (shows: Vec<Show>)
    ensures
        show_views(shows@) == shows_on(card_views(cards@)),
{
    let mut out: Vec<Show> = Vec::new();
    let mut i: usize = 0;
    let ghost found = card_views(cards@).map_values(|c: CardView| card_show(c));
    proof {
        assert(found.take(0) == Seq::<Option<EntryView>>::empty());
        assert(show_views(out@) == Seq::<EntryView>::empty());
    }
    while i < cards.len()
        invariant
            i <= cards@.len(),
            found == card_views(cards@).map_values(|c: CardView| card_show(c)),
            show_views(out@) == first_of_each(found.take(i as int)),
        decreases cards@.len() - i,
    {
        proof {
            assert(found.take(i + 1).drop_last() == found.take(i as int));
            assert(found.take(i + 1).last() == card_show(cards@[i as int]@));
        }
        if let Some(show) = show_on_card(&cards[i]) {
            let mut known: bool = false;
            let mut j: usize = 0;
            while j < out.len()
                invariant
                    j <= out@.len(),
                    known == exists|k: int|
                        0 <= k < j && (#[trigger] show_views(out@)[k]).id == show.id,
                decreases out@.len() - j,
            {
                assert(show_views(out@)[j as int].id == out@[j as int].id);
                if out[j].id == show.id {
                    known = true;
                }
                j = j + 1;
            }
            if !known {
                let ghost before = out@;
                let ghost added = show@;
                out.push(show);
                proof {
                    assert(show_views(out@) == show_views(before).push(added));
                }
            }
        }
        i = i + 1;
    }
    proof {
        assert(found.take(found.len() as int) == found);
    }
    out
}

// ---------------------------------------------------------------------------
// Subtitle groups

/// The block of a subtitle group on the page of a show: the link to its feed,
/// the name in the link to its publisher, and what stands directly in the
/// block, where only text nodes have a text.
pub struct Block {
    pub feed_href: Option<String>,
    pub publisher: Option<String>,
    pub children: Vec<Option<String>>,
}

/// A block over sequences.
pub struct BlockView {
    pub feed_href: Option<Seq<char>>,
    pub publisher: Option<Seq<char>>,
    pub children: Seq<Option<Seq<char>>>,
}

impl View for Block {
    type V = BlockView;

    open spec fn view(&self) -> BlockView {
        BlockView {
            feed_href: feed::text_of(self.feed_href),
            publisher: feed::text_of(self.publisher),
            children: page::optional_texts(self.children@),
        }
    }
}

/// The blocks of a list.
pub open spec fn block_views(blocks: Seq<Block>) -> Seq<BlockView> {
    blocks.map_values(|b: Block| b@)
}

/// The text before the first child that is no text.
pub open spec fn text_in_front(children: Seq<Option<Seq<char>>>) -> Seq<char>
    decreases children.len(),
{
    if children.len() == 0 {
        Seq::empty()
    } else {
        match children[0] {
            Some(t) => t + text_in_front(children.skip(1)),
            None => Seq::empty(),
        }
    }
}

/// The group id in the query of a link to a feed: what stands after the first
/// `subgroupid=`, up to the next `&` or `subgroupid=`.
pub open spec fn group_id(href: Seq<char>) -> Option<u32> {
    match text::after_first(href, "subgroupid="@) {
        Some(rest) => {
            let value = text::before_first(text::before_first(rest, "subgroupid="@), "&"@);
            as_id(text::unsigned(value, u32::MAX as nat))
        },
        None => None,
    }
}

/// The name in a block: that of its publisher, or the text in front where it
/// links none.
pub open spec fn block_name(block: BlockView) -> Seq<char> {
    match block.publisher {
        Some(name) => name,
        None => text::trimmed(text_in_front(block.children)),
    }
}

/// The group that a block stands for.
pub open spec fn block_group(block: BlockView) -> Option<EntryView> {
    match block.feed_href {
        Some(href) => entry(group_id(href), block_name(block)),
        None => None,
    }
}

/// The groups that the blocks of a page stand for, each once.
pub open spec fn groups_on(blocks: Seq<BlockView>) -> Seq<EntryView> {
    first_of_each(blocks.map_values(|b: BlockView| block_group(b)))
}

/// The group id in the query of a link to a feed.
pub fn subgroupid_from(href: &str) -> (r: Option<u32>)
    ensures
        r == group_id(href@),
{
    match cut_after(href, "subgroupid=") {
        Some(rest) => {
            let one = cut_before(&rest, "subgroupid=");
            let value = cut_before(&one, "&");
            parse_u32(&value)
        },
        None => None,
    }
}

/// The text of a block before its first child that is no text, trimmed.
pub fn leading_text(children: &Vec<Option<String>>) -> (s: String)
    ensures
        s@ == text::trimmed(text_in_front(page::optional_texts(children@))),
{
    let mut out = String::new();
    let mut i: usize = 0;
    let mut going: bool = true;
    let ghost all = page::optional_texts(children@);
    proof {
        assert(all.skip(0) == all);
    }
    while going && i < children.len()
        invariant
            i <= children@.len(),
            all == page::optional_texts(children@),
            going ==> text_in_front(all) == out@ + text_in_front(all.skip(i as int)),
            !going ==> text_in_front(all) == out@,
        decreases children@.len() - i,
    {
        proof {
            assert(all.skip(i as int).skip(1) == all.skip(i + 1));
            assert(all.skip(i as int)[0] == all[i as int]);
        }
        let ghost before = out@;
        match &children[i] {
            Some(t) => {
                out.append(t);
                proof {
                    assert(before + (t@ + text_in_front(all.skip(i + 1))) == (before + t@)
                        + text_in_front(all.skip(i + 1)));
                }
            },
            None => {
                going = false;
            },
        }
        i = i + 1;
    }
    trim(&out)
}

/// The group that a block stands for.
pub fn group_in_block(block: &Block) -> (r: Option<Subgroup>)
    ensures
        r is Some <==> block_group(block@) is Some,
        r matches Some(g) ==> block_group(block@) == Some(g@),
{
    let id = match &block.feed_href {
        Some(href) => subgroupid_from(href),
        None => None,
    };
    let raw = match &block.publisher {
        Some(name) => name.clone(),
        None => leading_text(&block.children),
    };
    let name = show_name(&raw);
    match id {
        Some(id) => {
            if name.as_str().is_empty() {
                None
            } else {
                Some(Subgroup { name, id })
            }
        },
        None => None,
    }
}

/// The groups that the blocks of a page stand for, each once, in the order of
/// the blocks.
pub fn groups_from(blocks: &Vec<Block>) -> (groups: Vec<Subgroup>)
    ensures
        group_views(groups@) == groups_on(block_views(blocks@)),
{
    let mut out: Vec<Subgroup> = Vec::new();
    let mut i: usize = 0;
    let ghost found = block_views(blocks@).map_values(|b: BlockView| block_group(b));
    proof {
        assert(found.take(0) == Seq::<Option<EntryView>>::empty());
        assert(group_views(out@) == Seq::<EntryView>::empty());
    }
    while i < blocks.len()
        invariant
            i <= blocks@.len(),
            found == block_views(blocks@).map_values(|b: BlockView| block_group(b)),
            group_views(out@) == first_of_each(found.take(i as int)),
        decreases blocks@.len() - i,
    {
        proof {
            assert(found.take(i + 1).drop_last() == found.take(i as int));
            assert(found.take(i + 1).last() == block_group(blocks@[i as int]@));
        }
        if let Some(group) = group_in_block(&blocks[i]) {
            let mut known: bool = false;
            let mut j: usize = 0;
            while j < out.len()
                invariant
                    j <= out@.len(),
                    known == exists|k: int|
                        0 <= k < j && (#[trigger] group_views(out@)[k]).id == group.id,
                decreases out@.len() - j,
            {
                assert(group_views(out@)[j as int].id == out@[j as int].id);
                if out[j].id == group.id {
                    known = true;
                }
                j = j + 1;
            }
            if !known {
                let ghost before = out@;
                let ghost added = group@;
                out.push(group);
                proof {
                    assert(group_views(out@) == group_views(before).push(added));
                }
            }
        }
        i = i + 1;
    }
    proof {
        assert(found.take(found.len() as int) == found);
    }
    out
}

// ---------------------------------------------------------------------------
// Pages

/// All the text in the element at `at`.
pub open spec fn whole_text(tree: Seq<char>, at: nat) -> Seq<char> {
    text::joined(page::texts_at(tree, at), ""@)
}

/// What names a show at an element.
pub open spec fn caption_at(tree: Seq<char>, at: nat) -> CaptionView {
    CaptionView {
        title: page::attribute_at(tree, at, "title"@),
        text: whole_text(tree, at),
    }
}

/// The card at a link to a show.
pub open spec fn card_at(tree: Seq<char>, at: nat) -> CardView {
    let captions = page::matching_below(tree, at, SHOW_CAPTION@);
    CardView {
        href: page::attribute_at(tree, at, "href"@),
        own: caption_at(tree, at),
        caption: if captions.len() > 0 {
            Some(caption_at(tree, captions[0]))
        } else {
            None
        },
    }
}

/// The cards on a page of search results.
pub open spec fn cards_in(tree: Seq<char>) -> Seq<CardView> {
    page::matching(tree, SHOW_LINK@).map_values(|at: nat| card_at(tree, at))
}

/// The block at an element.
pub open spec fn block_at(tree: Seq<char>, at: nat) -> BlockView {
    let feeds = page::matching_below(tree, at, FEED_LINK@);
    let publishers = page::matching_below(tree, at, PUBLISHER_LINK@);
    BlockView {
        feed_href: if feeds.len() > 0 {
            page::attribute_at(tree, feeds[0], "href"@)
        } else {
            None
        },
        publisher: if publishers.len() > 0 {
            Some(whole_text(tree, publishers[0]))
        } else {
            None
        },
        children: page::children_at(tree, at),
    }
}

/// The blocks on the page of a show.
pub open spec fn blocks_in(tree: Seq<char>) -> Seq<BlockView> {
    page::matching(tree, GROUP_BLOCK@).map_values(|at: nat| block_at(tree, at))
}

/// What names a show at an element.
fn read_caption(element: &ElementRef<'_>) -> (c: Caption)
    ensures
        c@ == caption_at(page::element_place(*element).0, page::element_place(*element).1),
{
    let nodes = text_nodes(element);
    Caption { title: attribute(element, "title"), text: join(&nodes, "") }
}

/// The card at a link to a show.
fn read_card(element: &ElementRef<'_>) -> (c: Card)
    ensures
        c@ == card_at(page::element_place(*element).0, page::element_place(*element).1),
{
    let selector = parse_selector(SHOW_CAPTION);
    let captions = select_below(element, &selector);
    let ghost here = page::element_place(*element);
    let ghost below = page::matching_below(here.0, here.1, SHOW_CAPTION@);
    proof {
        assert(page::places(captions@).len() == below.len());
    }
    let caption = if captions.len() > 0 {
        proof {
            assert(page::places(captions@)[0] == page::places_in(here.0, below)[0]);
        }
        Some(read_caption(&captions[0]))
    } else {
        None
    };
    Card { href: attribute(element, "href"), own: read_caption(element), caption }
}

/// The shows on a page of search results, each once. A page without any gives
/// none.
pub fn parse_shows(html: &str) -> (shows: Vec<Show>)
    ensures
        show_views(shows@) == shows_on(cards_in(page::parsed_tree(html@))),
        shows@.len() == shows_on(cards_in(page::parsed_tree(html@))).len(),
        forall|i: int|
            0 <= i < shows@.len() ==> (#[trigger] shows@[i]).id == shows_on(
                cards_in(page::parsed_tree(html@)),
            )[i].id && shows@[i].title@ == shows_on(cards_in(page::parsed_tree(html@)))[i].name,
{
    let page = parse_page(html);
    let selector = parse_selector(SHOW_LINK);
    let links = select_all(&page, &selector);
    let ghost tree = page::parsed_tree(html@);
    let ghost positions = page::matching(tree, SHOW_LINK@);
    let mut cards: Vec<Card> = Vec::new();
    let mut i: usize = 0;
    proof {
        assert(page::places(links@).len() == positions.len());
    }
    while i < links.len()
        invariant
            i <= links@.len(),
            page::places(links@) == page::places_in(tree, positions),
            links@.len() == positions.len(),
            cards@.len() == i,
            forall|k: int| 0 <= k < i ==> (#[trigger] cards@[k])@ == card_at(tree, positions[k]),
        decreases links@.len() - i,
    {
        proof {
            assert(page::places(links@)[i as int] == page::places_in(tree, positions)[i as int]);
        }
        cards.push(read_card(&links[i]));
        i = i + 1;
    }
    proof {
        assert(card_views(cards@) == cards_in(page::parsed_tree(html@)));
    }
    let shows = shows_from(&cards);
    proof {
        let listed = shows_on(cards_in(page::parsed_tree(html@)));
        assert(show_views(shows@).len() == shows@.len());
        assert forall|i: int| 0 <= i < shows@.len() implies (#[trigger] shows@[i]).id
            == listed[i].id && shows@[i].title@ == listed[i].name by {
            assert(show_views(shows@)[i] == shows@[i]@);
        }
    }
    shows
}

/// The block at an element.
fn read_block(element: &ElementRef<'_>) -> (b: Block)
    ensures
        b@ == block_at(page::element_place(*element).0, page::element_place(*element).1),
{
    let feed_selector = parse_selector(FEED_LINK);
    let feeds = select_below(element, &feed_selector);
    let publisher_selector = parse_selector(PUBLISHER_LINK);
    let publishers = select_below(element, &publisher_selector);
    let ghost here = page::element_place(*element);
    let ghost feeds_at = page::matching_below(here.0, here.1, FEED_LINK@);
    let ghost publishers_at = page::matching_below(here.0, here.1, PUBLISHER_LINK@);
    proof {
        assert(page::places(feeds@).len() == feeds_at.len());
        assert(page::places(publishers@).len() == publishers_at.len());
    }
    let feed_href = if feeds.len() > 0 {
        proof {
            assert(page::places(feeds@)[0] == page::places_in(here.0, feeds_at)[0]);
        }
        attribute(&feeds[0], "href")
    } else {
        None
    };
    let publisher = if publishers.len() > 0 {
        proof {
            assert(page::places(publishers@)[0] == page::places_in(here.0, publishers_at)[0]);
        }
        let nodes = text_nodes(&publishers[0]);
        Some(join(&nodes, ""))
    } else {
        None
    };
    Block { feed_href, publisher, children: child_texts(element) }
}

/// The subtitle groups on the page of a show, each once. A page without any
/// gives none.
pub fn parse_subgroups(html: &str) -> (groups: Vec<Subgroup>)
    ensures
        group_views(groups@) == groups_on(blocks_in(page::parsed_tree(html@))),
        groups@.len() == groups_on(blocks_in(page::parsed_tree(html@))).len(),
        forall|i: int|
            0 <= i < groups@.len() ==> (#[trigger] groups@[i]).id == groups_on(
                blocks_in(page::parsed_tree(html@)),
            )[i].id && groups@[i].name@ == groups_on(blocks_in(page::parsed_tree(html@)))[i].name,
{
    let page = parse_page(html);
    let selector = parse_selector(GROUP_BLOCK);
    let elements = select_all(&page, &selector);
    let ghost tree = page::parsed_tree(html@);
    let ghost positions = page::matching(tree, GROUP_BLOCK@);
    let mut blocks: Vec<Block> = Vec::new();
    let mut i: usize = 0;
    proof {
        assert(page::places(elements@).len() == positions.len());
    }
    while i < elements.len()
        invariant
            i <= elements@.len(),
            page::places(elements@) == page::places_in(tree, positions),
            elements@.len() == positions.len(),
            blocks@.len() == i,
            forall|k: int| 0 <= k < i ==> (#[trigger] blocks@[k])@ == block_at(tree, positions[k]),
        decreases elements@.len() - i,
    {
        proof {
            assert(page::places(elements@)[i as int] == page::places_in(tree, positions)[i as int]);
        }
        blocks.push(read_block(&elements[i]));
        i = i + 1;
    }
    proof {
        assert(block_views(blocks@) == blocks_in(page::parsed_tree(html@)));
    }
    let groups = groups_from(&blocks);
    proof {
        let listed = groups_on(blocks_in(page::parsed_tree(html@)));
        assert(group_views(groups@).len() == groups@.len());
        assert forall|i: int| 0 <= i < groups@.len() implies (#[trigger] groups@[i]).id
            == listed[i].id && groups@[i].name@ == listed[i].name by {
            assert(group_views(groups@)[i] == groups@[i]@);
        }
    }
    groups
}

// ---------------------------------------------------------------------------
// Addresses

/// The address of the site.
pub const BASE: &'static str = "https://mikanani.me";

/// The address of the search, to which the words come as the parameter
/// `searchstr`.
pub fn search_url() -> (url: String)
    ensures
        url@ == BASE@ + "/Home/Search"@,
        url@ == "https://mikanani.me/Home/Search"@,
{
    proof {
        reveal_strlit("https://mikanani.me");
        reveal_strlit("/Home/Search");
        reveal_strlit("https://mikanani.me/Home/Search");
        assert(BASE@ + "/Home/Search"@ =~= "https://mikanani.me/Home/Search"@);
    }
    concat(BASE, "/Home/Search")
}

/// The address of the page of a show.
pub fn bangumi_url(id: u32) -> (url: String)
    ensures
        url@ == BASE@ + "/Home/Bangumi/"@ + text::decimal(id as nat),
        url@ == "https://mikanani.me/Home/Bangumi/"@ + text::decimal(id as nat),
{
    proof {
        reveal_strlit("https://mikanani.me");
        reveal_strlit("/Home/Bangumi/");
        reveal_strlit("https://mikanani.me/Home/Bangumi/");
        assert(BASE@ + "/Home/Bangumi/"@ =~= "https://mikanani.me/Home/Bangumi/"@);
    }
    let front = concat(BASE, "/Home/Bangumi/");
    let digits = decimal_text(id as u64);
    concat(&front, &digits)
}

// ---------------------------------------------------------------------------
// Laws

/// No two entries of a list have the same id.
pub open spec fn distinct_ids(entries: Seq<EntryView>) -> bool {
    forall|i: int, j: int|
        0 <= i < j < entries.len() ==> (#[trigger] entries[i]).id != (#[trigger] entries[j]).id
}

/// However often a page links the same id, it is listed once.
pub proof fn law_ids_are_distinct(found: Seq<Option<EntryView>>)
    ensures
        distinct_ids(first_of_each(found)),
    decreases found.len(),
{
    if found.len() > 0 {
        law_ids_are_distinct(found.drop_last());
    }
}

/// A list holds only what was found.
pub proof fn law_listed_entries_were_found(found: Seq<Option<EntryView>>, i: int)
    requires
        0 <= i < first_of_each(found).len(),
    ensures
        found.contains(Some(first_of_each(found)[i])),
    decreases found.len(),
{
    let before = first_of_each(found.drop_last());
    if i < before.len() {
        law_listed_entries_were_found(found.drop_last(), i);
        let k = choose|k: int|
            0 <= k < found.drop_last().len() && found.drop_last()[k] == Some(before[i]);
        assert(found[k] == Some(before[i]));
    } else {
        assert(found[found.len() - 1] == Some(first_of_each(found)[i]));
    }
}

/// What was found first with its id is listed.
pub proof fn law_the_first_of_an_id_is_listed(found: Seq<Option<EntryView>>, k: int)
    requires
        0 <= k < found.len(),
        found[k] is Some,
        forall|j: int| 0 <= j < k && (#[trigger] found[j]) is Some ==> found[j]->0.id != found[k]->0.id,
    ensures
        first_of_each(found).contains(found[k]->0),
    decreases found.len(),
{
    let shorter = found.drop_last();
    let before = first_of_each(shorter);
    let e = found[k]->0;
    if k < found.len() - 1 {
        assert(shorter[k] == found[k]);
        assert forall|j: int| 0 <= j < k && (#[trigger] shorter[j]) is Some implies shorter[j]->0.id
            != shorter[k]->0.id by {
            assert(shorter[j] == found[j]);
        }
        law_the_first_of_an_id_is_listed(shorter, k);
        let i = choose|i: int| 0 <= i < before.len() && before[i] == e;
        assert(first_of_each(found)[i] == e);
    } else {
        if lists_id(before, e.id) {
            let i = choose|i: int| 0 <= i < before.len() && (#[trigger] before[i]).id == e.id;
            law_listed_entries_were_found(shorter, i);
            let j = choose|j: int| 0 <= j < shorter.len() && shorter[j] == Some(before[i]);
            assert(found[j] == Some(before[i]));
        }
        assert(first_of_each(found)[before.len() as int] == e);
    }
}

/// A name that can be shown: not empty, trimmed, and safe to print.
pub open spec fn presentable(e: EntryView) -> bool {
    &&& e.name.len() > 0
    &&& feed::tight(e.name)
    &&& sanitize::safe_to_print(e.name)
}

proof fn lemma_entry_is_presentable(id: Option<u32>, raw: Seq<char>)
    ensures
        entry(id, raw) matches Some(e) ==> presentable(e),
{
    sanitize::law_stripped_is_safe(raw);
    feed::lemma_trim_keeps_safe(sanitize::stripped(raw));
}

/// Whatever page was read, the name of every show and of every group listed can
/// be shown.
pub proof fn law_listed_names_are_presentable(cards: Seq<CardView>, blocks: Seq<BlockView>, i: int)
    ensures
        0 <= i < shows_on(cards).len() ==> presentable(shows_on(cards)[i]),
        0 <= i < groups_on(blocks).len() ==> presentable(groups_on(blocks)[i]),
{
    let shows = cards.map_values(|c: CardView| card_show(c));
    let groups = blocks.map_values(|b: BlockView| block_group(b));
    if 0 <= i < shows_on(cards).len() {
        law_listed_entries_were_found(shows, i);
        let k = choose|k: int| 0 <= k < shows.len() && shows[k] == Some(shows_on(cards)[i]);
        assert(shows[k] == card_show(cards[k]));
        lemma_entry_is_presentable(show_id(cards[k].href->0), card_name(cards[k]));
    }
    if 0 <= i < groups_on(blocks).len() {
        law_listed_entries_were_found(groups, i);
        let k = choose|k: int| 0 <= k < groups.len() && groups[k] == Some(groups_on(blocks)[i]);
        assert(groups[k] == block_group(blocks[k]));
        lemma_entry_is_presentable(group_id(blocks[k].feed_href->0), block_name(blocks[k]));
    }
}

/// A link that writes an id in decimal, followed by anything that is no digit,
/// leads to the show with that id.
pub proof fn law_show_links_read_back(id: u32, rest: Seq<char>)
    requires
        rest.len() > 0 ==> !text::digit(rest[0]),
    ensures
        show_id("/Home/Bangumi/"@ + text::decimal(id as nat) + rest) == Some(id),
{
    let front = "/Home/Bangumi/"@;
    let digits = text::decimal(id as nat);
    let href = front + digits + rest;
    text::lemma_decimal_read_back(id as nat);
    assert(href.subrange(0, front.len() as int) == front);
    let tail = href.skip(front.len() as int);
    assert(tail == digits + rest);
    assert forall|i: int| 0 <= i < digits.len() implies text::digit(#[trigger] tail[i]) by {
        assert(tail[i] == digits[i]);
    }
    if digits.len() < tail.len() {
        assert(tail[digits.len() as int] == rest[0]);
    }
    lemma_leading_digits_at(tail, digits.len() as int);
    assert(tail.take(digits.len() as int) == digits);
}

/// A list goes through what was found from the front: what is found later adds at
/// the end, or nothing where its id is listed.
pub proof fn law_listing_goes_on(found: Seq<Option<EntryView>>, next: Option<EntryView>)
    ensures
        first_of_each(Seq::empty()) == Seq::<EntryView>::empty(),
        next is None ==> first_of_each(found.push(next)) == first_of_each(found),
        next matches Some(e) ==> first_of_each(found.push(next)) == if exists|i: int|
            0 <= i < first_of_each(found).len() && (#[trigger] first_of_each(found)[i]).id == e.id {
            first_of_each(found)
        } else {
            first_of_each(found).push(e)
        },
{
    assert(found.push(next).drop_last() == found);
}

/// Whatever was found, its id is listed, at the place that is returned, and with
/// the first name that was found for it.
pub proof fn law_every_id_found_is_listed(found: Seq<Option<EntryView>>, k: int) -> (r: (int, int))
    requires
        0 <= k < found.len(),
        found[k] is Some,
    ensures
        0 <= r.0 < first_of_each(found).len(),
        0 <= r.1 <= k,
        first_of_each(found)[r.0].id == found[k]->0.id,
        found[r.1] == Some(first_of_each(found)[r.0]),
        forall|j: int| 0 <= j < r.1 && (#[trigger] found[j]) is Some ==> found[j]->0.id
            != found[k]->0.id,
    decreases k,
{
    let all = first_of_each(found);
    let id = found[k]->0.id;
    if exists|j: int| 0 <= j < k && (#[trigger] found[j]) is Some && found[j]->0.id == id {
        let j = choose|j: int| 0 <= j < k && (#[trigger] found[j]) is Some && found[j]->0.id == id;
        law_every_id_found_is_listed(found, j)
    } else {
        law_the_first_of_an_id_is_listed(found, k);
        let i = choose|i: int| 0 <= i < all.len() && all[i] == found[k]->0;
        (i, k)
    }
}

/// The digits that follow the front of a link to a show, up to anything else, are
/// the id of the show.
pub proof fn law_show_ids_are_the_digits(digits: Seq<char>, rest: Seq<char>)
    requires
        forall|i: int| 0 <= i < digits.len() ==> '0' <= #[trigger] digits[i] && digits[i] <= '9',
        rest.len() > 0 ==> !('0' <= rest[0] && rest[0] <= '9'),
    ensures
        show_id("/Home/Bangumi/"@ + digits + rest) == match text::unsigned(digits, 0xffff_ffff) {
            Some(n) => Some(n as u32),
            None => None,
        },
{
    let front = "/Home/Bangumi/"@;
    let href = front + digits + rest;
    assert(href.subrange(0, front.len() as int) == front);
    let tail = href.skip(front.len() as int);
    assert(tail == digits + rest);
    assert forall|i: int| 0 <= i < digits.len() implies text::digit(#[trigger] tail[i]) by {
        assert(tail[i] == digits[i]);
    }
    if digits.len() < tail.len() {
        assert(tail[digits.len() as int] == rest[0]);
    }
    lemma_leading_digits_at(tail, digits.len() as int);
    assert(tail.take(digits.len() as int) == digits);
}

proof fn lemma_leading_digits(s: Seq<char>) -> (k: int)
    ensures
        0 <= k <= s.len(),
        forall|i: int| 0 <= i < k ==> '0' <= #[trigger] s[i] && s[i] <= '9',
        k < s.len() ==> !('0' <= s[k] && s[k] <= '9'),
    decreases s.len(),
{
    if s.len() == 0 || !('0' <= s[0] && s[0] <= '9') {
        0
    } else {
        let k = lemma_leading_digits(s.skip(1));
        assert forall|i: int| 0 <= i < k + 1 implies '0' <= #[trigger] s[i] && s[i] <= '9' by {
            if i > 0 {
                assert(s.skip(1)[i - 1] == s[i]);
            }
        }
        k + 1
    }
}

/// Only a link that begins as one to a show, with digits behind, has an id; it is
/// the number that those digits write.
pub proof fn law_only_show_links_have_ids(href: Seq<char>) -> (k: int)
    requires
        show_id(href) is Some,
    ensures
        14 < k <= href.len(),
        href.take(14) == "/Home/Bangumi/"@,
        forall|i: int| 14 <= i < k ==> '0' <= #[trigger] href[i] && href[i] <= '9',
        k < href.len() ==> !('0' <= href[k] && href[k] <= '9'),
        text::unsigned(href.subrange(14, k), 0xffff_ffff) == Some(show_id(href)->0 as nat),
{
    reveal_strlit("/Home/Bangumi/");
    let front = "/Home/Bangumi/"@;
    assert(front.len() == 14);
    assert(href.take(14) == href.subrange(0, 14));
    let tail = href.skip(14);
    let k = lemma_leading_digits(tail);
    let digits = tail.take(k);
    assert(href == front + digits + tail.skip(k));
    law_show_ids_are_the_digits(digits, tail.skip(k));
    assert(href.subrange(14, 14 + k) == digits);
    text::law_only_digits_are_numbers(seq!['x'], 0xffff_ffff, 0);
    assert(k > 0) by {
        if k == 0 {
            assert(digits == Seq::<char>::empty());
        }
    }
    assert forall|i: int| 14 <= i < 14 + k implies '0' <= #[trigger] href[i] && href[i] <= '9' by {
        assert(tail[i - 14] == href[i]);
    }
    if 14 + k < href.len() {
        assert(tail[k] == href[14 + k]);
    }
    14 + k
}

/// The name that a page gives for the show at a link: the title of the caption
/// inside it, or of the link where it has no caption; where that is missing or
/// blank, all the text there.
pub open spec fn name_at(tree: Seq<char>, at: nat) -> Seq<char> {
    let captions = page::matching_below(tree, at, "div.an-text"@);
    let named = if captions.len() > 0 {
        captions[0]
    } else {
        at
    };
    match page::attribute_at(tree, named, "title"@) {
        Some(t) if text::trimmed(t).len() > 0 => t,
        _ => text::joined(page::texts_at(tree, named), ""@),
    }
}

/// Every link on a page that the selector of show links finds, with digits that
/// write an id and a name that can be shown, has its id among the shows listed.
/// The name listed is that of the first such link, which is returned with the
/// place in the list.
pub proof fn law_every_show_link_is_listed(
    tree: Seq<char>,
    k: int,
    digits: Seq<char>,
    rest: Seq<char>,
    id: u32,
) -> (r: (int, int))
    requires
        0 <= k < page::matching(tree, "a[href^=\"/Home/Bangumi/\"]"@).len(),
        page::attribute_at(
            tree,
            page::matching(tree, "a[href^=\"/Home/Bangumi/\"]"@)[k],
            "href"@,
        ) == Some("/Home/Bangumi/"@ + digits + rest),
        forall|i: int| 0 <= i < digits.len() ==> '0' <= #[trigger] digits[i] && digits[i] <= '9',
        rest.len() > 0 ==> !('0' <= rest[0] && rest[0] <= '9'),
        text::unsigned(digits, 0xffff_ffff) == Some(id as nat),
        text::trimmed(
            sanitize::stripped(
                name_at(tree, page::matching(tree, "a[href^=\"/Home/Bangumi/\"]"@)[k]),
            ),
        ).len() > 0,
    ensures
        ({
            let shows = shows_on(cards_in(tree));
            let links = page::matching(tree, "a[href^=\"/Home/Bangumi/\"]"@);
            &&& 0 <= r.0 < shows.len()
            &&& shows[r.0].id == id
            &&& 0 <= r.1 <= k
            &&& shows[r.0].name == text::trimmed(sanitize::stripped(name_at(tree, links[r.1])))
        }),
{
    let links = page::matching(tree, "a[href^=\"/Home/Bangumi/\"]"@);
    let cards = cards_in(tree);
    let found = cards.map_values(|c: CardView| card_show(c));
    assert(cards.len() == links.len());
    assert(cards[k] == card_at(tree, links[k]));
    law_show_ids_are_the_digits(digits, rest);
    lemma_name_at(tree, links[k]);
    assert(found[k] == card_show(cards[k]));
    let r = law_every_id_found_is_listed(found, k);
    assert(cards[r.1] == card_at(tree, links[r.1]));
    assert(found[r.1] == card_show(cards[r.1]));
    lemma_name_at(tree, links[r.1]);
    r
}

proof fn lemma_name_at(tree: Seq<char>, at: nat)
    ensures
        card_name(card_at(tree, at)) == name_at(tree, at),
{
}

/// Every show listed is that of a link on the page, which is returned: the link
/// leads to its id, and its name is that at the link. Shows stand in the order of
/// their links, and none is listed twice.
pub proof fn law_every_listed_show_is_linked(tree: Seq<char>, i: int, j: int) -> (r: (int, int))
    requires
        0 <= i < j < shows_on(cards_in(tree)).len(),
    ensures
        ({
            let shows = shows_on(cards_in(tree));
            let links = page::matching(tree, "a[href^=\"/Home/Bangumi/\"]"@);
            &&& 0 <= r.0 < r.1 < links.len()
            &&& shows[i].id != shows[j].id
            &&& page::attribute_at(tree, links[r.0], "href"@) is Some
            &&& page::attribute_at(tree, links[r.1], "href"@) is Some
            &&& show_id(page::attribute_at(tree, links[r.0], "href"@)->0) == Some(shows[i].id)
            &&& show_id(page::attribute_at(tree, links[r.1], "href"@)->0) == Some(shows[j].id)
            &&& shows[i].name == text::trimmed(sanitize::stripped(name_at(tree, links[r.0])))
            &&& shows[j].name == text::trimmed(sanitize::stripped(name_at(tree, links[r.1])))
        }),
{
    let links = page::matching(tree, "a[href^=\"/Home/Bangumi/\"]"@);
    let cards = cards_in(tree);
    let found = cards.map_values(|c: CardView| card_show(c));
    law_ids_are_distinct(found);
    let r = lemma_sources(found, i, j);
    assert(cards[r.0] == card_at(tree, links[r.0]));
    assert(cards[r.1] == card_at(tree, links[r.1]));
    assert(found[r.0] == card_show(cards[r.0]));
    assert(found[r.1] == card_show(cards[r.1]));
    lemma_name_at(tree, links[r.0]);
    lemma_name_at(tree, links[r.1]);
    r
}

proof fn lemma_source(found: Seq<Option<EntryView>>, i: int) -> (k: int)
    requires
        0 <= i < first_of_each(found).len(),
    ensures
        0 <= k < found.len(),
        found[k] == Some(first_of_each(found)[i]),
{
    law_listed_entries_were_found(found, i);
    choose|k: int| 0 <= k < found.len() && found[k] == Some(first_of_each(found)[i])
}

proof fn lemma_sources(found: Seq<Option<EntryView>>, i: int, j: int) -> (r: (int, int))
    requires
        0 <= i < j < first_of_each(found).len(),
    ensures
        0 <= r.0 < r.1 < found.len(),
        found[r.0] == Some(first_of_each(found)[i]),
        found[r.1] == Some(first_of_each(found)[j]),
    decreases found.len(),
{
    let t = found.drop_last();
    let before = first_of_each(t);
    if j < before.len() {
        let r = lemma_sources(t, i, j);
        assert(t[r.0] == found[r.0] && t[r.1] == found[r.1]);
        r
    } else {
        let k = lemma_source(t, i);
        assert(t[k] == found[k]);
        (k, found.len() - 1)
    }
}

/// The id in a link to the feed of a group is what stands behind the first
/// `subgroupid=`, up to an `&` or the end.
pub proof fn law_feed_links_read_back(front: Seq<char>, digits: Seq<char>, rest: Seq<char>)
    requires
        forall|j: int|
            0 <= j < front.len() ==> (#[trigger] (front + "subgroupid="@ + (digits
                + rest)).subrange(j, j + "subgroupid="@.len())) != "subgroupid="@,
        forall|i: int| 0 <= i < digits.len() ==> '0' <= #[trigger] digits[i] && digits[i] <= '9',
        rest.len() > 0 ==> rest[0] == '&',
    ensures
        group_id(front + "subgroupid="@ + (digits + rest)) == match text::unsigned(
            digits,
            0xffff_ffff,
        ) {
            Some(n) => Some(n as u32),
            None => None,
        },
        !text::contains(front, "subgroupid="@) ==> group_id(front) is None,
{
    reveal_strlit("subgroupid=");
    reveal_strlit("&");
    let key = "subgroupid="@;
    let amp = "&"@;
    assert(key.len() == 11 && key[0] == 's');
    assert(amp.len() == 1 && amp[0] == '&');
    let tail = digits + rest;
    text::law_parts_are_found_again(front, key, tail);
    text::law_cutting_is_at_the_first(tail, key);
    let one = text::before_first(tail, key);
    let p = one.len() as int;
    assert(one == tail.take(p));
    if text::after_first(tail, key) is Some {
        assert(tail[p] == key[0]);
        if p < digits.len() {
            assert(tail[p] == digits[p]);
        } else if p == digits.len() {
            assert(tail[p] == rest[0]);
        }
    }
    assert(p >= digits.len());
    text::law_cutting_is_at_the_first(one, amp);
    let value = text::before_first(one, amp);
    let q = value.len() as int;
    if text::after_first(one, amp) is Some {
        assert(one[q] == '&');
        if q < digits.len() {
            assert(one[q] == digits[q]);
        }
        if q > digits.len() {
            let m = digits.len() as int;
            assert(one.subrange(m, m + 1)[0] == rest[0]);
            assert(one.subrange(m, m + 1) == amp);
        }
    } else if p > digits.len() {
        let m = digits.len() as int;
        assert(one.subrange(m, m + 1)[0] == rest[0]);
        assert(one.subrange(m, m + 1) == amp);
    }
    assert(q == digits.len());
    assert(value == one.take(q));
    assert(tail.take(q) == digits);
    assert(one.take(q) == tail.take(q));
    if !text::contains(front, key) {
        text::law_containing_is_having_a_part(front, key);
        text::law_cutting_is_at_the_first(front, key);
        if let Some(r) = text::after_first(front, key) {
            let n = text::before_first(front, key).len() as int;
            assert(front.subrange(n, n + key.len()) == key);
        }
    }
}

/// The text in front of a block is all the text before its first child that is
/// no text.
pub proof fn law_all_text_in_front_is_read(
    texts: Seq<Seq<char>>,
    rest: Seq<Option<Seq<char>>>,
)
    requires
        rest.len() > 0 ==> rest[0] is None,
    ensures
        text_in_front(texts.map_values(|t: Seq<char>| Some(t)) + rest) == text::joined(texts, ""@),
    decreases texts.len(),
{
    reveal_strlit("");
    assert(""@ == Seq::<char>::empty());
    let all = texts.map_values(|t: Seq<char>| Some(t)) + rest;
    if texts.len() == 0 {
        assert(all == rest);
        text::law_joining_goes_through(texts, texts, ""@);
        assert(texts == Seq::<Seq<char>>::empty());
    } else {
        let t = texts.skip(1);
        law_all_text_in_front_is_read(t, rest);
        assert(all[0] == Some(texts[0]));
        assert(all.skip(1) == t.map_values(|t: Seq<char>| Some(t)) + rest);
        assert(texts == seq![texts[0]] + t);
        text::law_joining_goes_through(seq![texts[0]], t, ""@);
        if t.len() == 0 {
            assert(t == Seq::<Seq<char>>::empty());
            assert(texts == seq![texts[0]]);
            assert(texts[0] + Seq::<char>::empty() == texts[0]);
        } else {
            assert(texts[0] + ""@ + text::joined(t, ""@) == texts[0] + text::joined(t, ""@));
        }
    }
}

/// The name that a page gives for the group at a block: all the text in the link
/// to its publisher, or the text in front where there is none.
pub open spec fn group_name_at(tree: Seq<char>, at: nat) -> Seq<char> {
    let publishers = page::matching_below(tree, at, "a[href^=\"/Home/PublishGroup/\"]"@);
    if publishers.len() > 0 {
        text::joined(page::texts_at(tree, publishers[0]), ""@)
    } else {
        text::trimmed(text_in_front(page::children_at(tree, at)))
    }
}

/// Every block on the page of a show, with a link to a feed that has a group id
/// and with a name that can be shown, has its id among the groups listed. The
/// name listed is that of the first such block, which is returned with the place
/// in the list.
pub proof fn law_every_group_block_is_listed(tree: Seq<char>, k: int, id: u32) -> (r: (int, int))
    requires
        0 <= k < page::matching(tree, "div.subgroup-text"@).len(),
        ({
            let at = page::matching(tree, "div.subgroup-text"@)[k];
            let links = page::matching_below(tree, at, "a[href*=\"/RSS/Bangumi\"]"@);
            &&& links.len() > 0
            &&& page::attribute_at(tree, links[0], "href"@) is Some
            &&& group_id(page::attribute_at(tree, links[0], "href"@)->0) == Some(id)
            &&& text::trimmed(sanitize::stripped(group_name_at(tree, at))).len() > 0
        }),
    ensures
        ({
            let groups = groups_on(blocks_in(tree));
            let blocks = page::matching(tree, "div.subgroup-text"@);
            &&& 0 <= r.0 < groups.len()
            &&& groups[r.0].id == id
            &&& 0 <= r.1 <= k
            &&& groups[r.0].name == text::trimmed(
                sanitize::stripped(group_name_at(tree, blocks[r.1])),
            )
        }),
{
    let at = page::matching(tree, "div.subgroup-text"@);
    let blocks = blocks_in(tree);
    let found = blocks.map_values(|b: BlockView| block_group(b));
    assert(blocks[k] == block_at(tree, at[k]));
    assert(found[k] == block_group(blocks[k]));
    let r = law_every_id_found_is_listed(found, k);
    assert(blocks[r.1] == block_at(tree, at[r.1]));
    assert(found[r.1] == block_group(blocks[r.1]));
    r
}

/// Every group listed is that of a block on the page, which is returned: its feed
/// link has that id, and its name is that of the block. Groups stand in the order
/// of their blocks, and none is listed twice.
pub proof fn law_every_listed_group_has_a_block(tree: Seq<char>, i: int, j: int) -> (r: (int, int))
    requires
        0 <= i < j < groups_on(blocks_in(tree)).len(),
    ensures
        ({
            let groups = groups_on(blocks_in(tree));
            let at = page::matching(tree, "div.subgroup-text"@);
            let first = page::matching_below(tree, at[r.0], "a[href*=\"/RSS/Bangumi\"]"@);
            let second = page::matching_below(tree, at[r.1], "a[href*=\"/RSS/Bangumi\"]"@);
            &&& 0 <= r.0 < r.1 < at.len()
            &&& groups[i].id != groups[j].id
            &&& first.len() > 0 && second.len() > 0
            &&& page::attribute_at(tree, first[0], "href"@) is Some
            &&& page::attribute_at(tree, second[0], "href"@) is Some
            &&& group_id(page::attribute_at(tree, first[0], "href"@)->0) == Some(groups[i].id)
            &&& group_id(page::attribute_at(tree, second[0], "href"@)->0) == Some(groups[j].id)
            &&& groups[i].name == text::trimmed(sanitize::stripped(group_name_at(tree, at[r.0])))
            &&& groups[j].name == text::trimmed(sanitize::stripped(group_name_at(tree, at[r.1])))
        }),
{
    let at = page::matching(tree, "div.subgroup-text"@);
    let blocks = blocks_in(tree);
    let found = blocks.map_values(|b: BlockView| block_group(b));
    law_ids_are_distinct(found);
    let r = lemma_sources(found, i, j);
    assert(blocks[r.0] == block_at(tree, at[r.0]));
    assert(blocks[r.1] == block_at(tree, at[r.1]));
    assert(found[r.0] == block_group(blocks[r.0]));
    assert(found[r.1] == block_group(blocks[r.1]));
    r
}

/// A link to a show gives the whole title of what names it, where that is safe to
/// print and without white space at its ends: the first caption inside the link,
/// or the link itself where there is none. Without a title, or with a blank one,
/// it gives the whole text there.
pub proof fn law_shows_have_their_whole_names(
    tree: Seq<char>,
    at: nat,
    named: nat,
    name: Seq<char>,
    href: Seq<char>,
)
    requires
        page::matching_below(tree, at, "div.an-text"@).len() > 0 ==> named == page::matching_below(
            tree,
            at,
            "div.an-text"@,
        )[0],
        page::matching_below(tree, at, "div.an-text"@).len() == 0 ==> named == at,
        page::attribute_at(tree, named, "title"@) == Some(name) || (text::joined(
            page::texts_at(tree, named),
            ""@,
        ) == name && (page::attribute_at(tree, named, "title"@) is None || page::attribute_at(
            tree,
            named,
            "title"@,
        ) == Some(""@))),
        feed::plain(name),
        page::attribute_at(tree, at, "href"@) == Some(href),
        show_id(href) is Some,
    ensures
        card_show(card_at(tree, at)) == Some(EntryView { name, id: show_id(href)->0 }),
{
    reveal_strlit("");
    assert(""@ == Seq::<char>::empty());
    text::law_trimming_cuts_only_white_space(""@);
    text::lemma_trimmed_fixed(name);
    sanitize::law_stripping_keeps_safe_text(name);
}

/// A block gives the whole text of the first link to its publisher, where that is
/// safe to print and without white space at its ends. Without one it gives the
/// whole text in front.
pub proof fn law_groups_have_their_whole_names(
    tree: Seq<char>,
    at: nat,
    texts: Seq<Seq<char>>,
    rest: Seq<Option<Seq<char>>>,
    name: Seq<char>,
    href: Seq<char>,
)
    requires
        feed::plain(name),
        ({
            let publishers = page::matching_below(tree, at, "a[href^=\"/Home/PublishGroup/\"]"@);
            ||| publishers.len() > 0 && text::joined(page::texts_at(tree, publishers[0]), ""@)
                == name
            ||| publishers.len() == 0 && page::children_at(tree, at) == texts.map_values(
                |t: Seq<char>| Some(t),
            ) + rest && (rest.len() > 0 ==> rest[0] is None) && text::joined(texts, ""@) == name
        }),
        page::matching_below(tree, at, "a[href*=\"/RSS/Bangumi\"]"@).len() > 0,
        page::attribute_at(
            tree,
            page::matching_below(tree, at, "a[href*=\"/RSS/Bangumi\"]"@)[0],
            "href"@,
        ) == Some(href),
        group_id(href) is Some,
    ensures
        block_group(block_at(tree, at)) == Some(EntryView { name, id: group_id(href)->0 }),
{
    let publishers = page::matching_below(tree, at, "a[href^=\"/Home/PublishGroup/\"]"@);
    if publishers.len() == 0 {
        law_all_text_in_front_is_read(texts, rest);
    }
    text::lemma_trimmed_fixed(name);
    sanitize::law_stripping_keeps_safe_text(name);
}

/// Every show listed is that of a link on the page, which is returned: the link
/// leads to its id, and its name is that at the link.
pub proof fn law_a_listed_show_has_its_link(tree: Seq<char>, i: int) -> (k: int)
    requires
        0 <= i < shows_on(cards_in(tree)).len(),
    ensures
        ({
            let shows = shows_on(cards_in(tree));
            let links = page::matching(tree, "a[href^=\"/Home/Bangumi/\"]"@);
            &&& 0 <= k < links.len()
            &&& page::attribute_at(tree, links[k], "href"@) is Some
            &&& show_id(page::attribute_at(tree, links[k], "href"@)->0) == Some(shows[i].id)
            &&& shows[i].name == text::trimmed(sanitize::stripped(name_at(tree, links[k])))
        }),
{
    let links = page::matching(tree, "a[href^=\"/Home/Bangumi/\"]"@);
    let cards = cards_in(tree);
    let found = cards.map_values(|c: CardView| card_show(c));
    let k = lemma_source(found, i);
    assert(cards[k] == card_at(tree, links[k]));
    assert(found[k] == card_show(cards[k]));
    lemma_name_at(tree, links[k]);
    k
}

/// Every group listed is that of a block on the page, which is returned: its feed
/// link has that id, and its name is that of the block.
pub proof fn law_a_listed_group_has_its_block(tree: Seq<char>, i: int) -> (k: int)
    requires
        0 <= i < groups_on(blocks_in(tree)).len(),
    ensures
        ({
            let groups = groups_on(blocks_in(tree));
            let at = page::matching(tree, "div.subgroup-text"@);
            let feeds = page::matching_below(tree, at[k], "a[href*=\"/RSS/Bangumi\"]"@);
            &&& 0 <= k < at.len()
            &&& feeds.len() > 0
            &&& page::attribute_at(tree, feeds[0], "href"@) is Some
            &&& group_id(page::attribute_at(tree, feeds[0], "href"@)->0) == Some(groups[i].id)
            &&& groups[i].name == text::trimmed(sanitize::stripped(group_name_at(tree, at[k])))
        }),
{
    let at = page::matching(tree, "div.subgroup-text"@);
    let blocks = blocks_in(tree);
    let found = blocks.map_values(|b: BlockView| block_group(b));
    let k = lemma_source(found, i);
    assert(blocks[k] == block_at(tree, at[k]));
    assert(found[k] == block_group(blocks[k]));
    k
}

/// Lists over sequences are all of them, each whole.
pub proof fn law_lists_are_seen_whole(shows: Seq<Show>, groups: Seq<Subgroup>, i: int)
    ensures
        show_views(shows).len() == shows.len(),
        0 <= i < shows.len() ==> show_views(shows)[i].id == shows[i].id && show_views(shows)[i].name
            == shows[i].title@,
        group_views(groups).len() == groups.len(),
        0 <= i < groups.len() ==> group_views(groups)[i].id == groups[i].id && group_views(
            groups,
        )[i].name == groups[i].name@,
{
}

/// A caption inside a link speaks for it alone: where nothing of the caption can be
/// shown there is no show, whatever the link itself is called. Only a link without a
/// caption is called by its own title or text.
pub proof fn law_an_empty_caption_names_no_show(tree: Seq<char>, at: nat, caption: nat)
    requires
        page::matching_below(tree, at, "div.an-text"@).len() > 0,
        page::matching_below(tree, at, "div.an-text"@)[0] == caption,
        page::attribute_at(tree, caption, "title"@) is None || text::trimmed(
            page::attribute_at(tree, caption, "title"@)->0,
        ).len() == 0,
        text::joined(page::texts_at(tree, caption), ""@).len() == 0,
    ensures
        card_show(card_at(tree, at)) is None,
{
    let none = Seq::<char>::empty();
    assert(text::joined(page::texts_at(tree, caption), ""@) == none);
    sanitize::law_stripping_goes_by_character(none, 'x');
    text::law_trimming_cuts_only_white_space(none);
}

/// A link to the publisher speaks for a block alone: where it has no text there is no
/// group, whatever stands in front. Nor is there one without a link to a feed, or
/// without an id in that link.
pub proof fn law_an_empty_publisher_names_no_group(tree: Seq<char>, at: nat)
    ensures
        page::matching_below(tree, at, "a[href^=\"/Home/PublishGroup/\"]"@).len() > 0
            && text::joined(
            page::texts_at(
                tree,
                page::matching_below(tree, at, "a[href^=\"/Home/PublishGroup/\"]"@)[0],
            ),
            ""@,
        ).len() == 0 ==> block_group(block_at(tree, at)) is None,
        page::matching_below(tree, at, "a[href*=\"/RSS/Bangumi\"]"@).len() == 0 ==> block_group(
            block_at(tree, at),
        ) is None,
        page::matching_below(tree, at, "a[href*=\"/RSS/Bangumi\"]"@).len() > 0
            && (page::attribute_at(
            tree,
            page::matching_below(tree, at, "a[href*=\"/RSS/Bangumi\"]"@)[0],
            "href"@,
        ) matches Some(href) && !text::contains(href, "subgroupid="@)) ==> block_group(
            block_at(tree, at),
        ) is None,
{
    let none = Seq::<char>::empty();
    let publishers = page::matching_below(tree, at, "a[href^=\"/Home/PublishGroup/\"]"@);
    if publishers.len() > 0 {
        let name = text::joined(page::texts_at(tree, publishers[0]), ""@);
        if name.len() == 0 {
            assert(name == none);
            sanitize::law_stripping_goes_by_character(none, 'x');
            text::law_trimming_cuts_only_white_space(none);
        }
    }
    let feeds = page::matching_below(tree, at, "a[href*=\"/RSS/Bangumi\"]"@);
    if feeds.len() > 0 {
        if let Some(href) = page::attribute_at(tree, feeds[0], "href"@) {
            if !text::contains(href, "subgroupid="@) {
                lemma_no_group_id(href);
            }
        }
    }
}

proof fn lemma_no_group_id(href: Seq<char>)
    requires
        !text::contains(href, "subgroupid="@),
    ensures
        group_id(href) is None,
{
    let key = "subgroupid="@;
    text::law_containing_is_having_a_part(href, key);
    text::law_cutting_is_at_the_first(href, key);
    if let Some(rest) = text::after_first(href, key) {
        let n = text::before_first(href, key).len() as int;
        assert(href.subrange(n, n + key.len()) == key);
    }
}

}
