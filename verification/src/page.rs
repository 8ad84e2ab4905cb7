//! Finding elements in HTML pages with `scraper`, as plain values.
//!
//! An element stands for a place in a page: the page's tree and the element's
//! position among the nodes of the tree. What is found at a place is left to the
//! names below; the functions say which of them each call answers.
use scraper::{ElementRef, Html, Selector};
use vstd::prelude::*;

verus! {

/// `scraper::Html`.
#[verifier::external_type_specification]
#[verifier::external_body]
pub struct ExHtml(scraper::Html);

/// `scraper::Selector`.
#[verifier::external_type_specification]
#[verifier::external_body]
pub struct ExSelector(scraper::Selector);

/// `scraper::ElementRef`.
#[verifier::external_type_specification]
#[verifier::external_body]
pub struct ExElementRef<'a>(scraper::ElementRef<'a>);

/// The tree of a page, written out: its nodes and how they hang together.
pub uninterp spec fn page_tree(page: Html) -> Seq<char>;

/// The tree that a source parses to, written out.
pub uninterp spec fn parsed_tree(source: Seq<char>) -> Seq<char>;

/// The CSS that a selector was parsed from.
pub uninterp spec fn selector_css(selector: Selector) -> Seq<char>;

/// The tree of an element's page, and the element's position among its nodes.
pub uninterp spec fn element_place(element: ElementRef<'_>) -> (Seq<char>, nat);

/// The positions of the elements of a tree that match a selector, as they are
/// found.
pub uninterp spec fn matching(tree: Seq<char>, css: Seq<char>) -> Seq<nat>;

/// The positions of the elements below the one at `at` that match a selector,
/// as they are found.
pub uninterp spec fn matching_below(tree: Seq<char>, at: nat, css: Seq<char>) -> Seq<nat>;

/// The value of an attribute of the element at `at`.
pub uninterp spec fn attribute_at(tree: Seq<char>, at: nat, name: Seq<char>) -> Option<Seq<char>>;

/// The text nodes in the element at `at`, at any depth, as they are found.
pub uninterp spec fn texts_at(tree: Seq<char>, at: nat) -> Seq<Seq<char>>;

/// The direct children of the element at `at`: of a text node its text, of any
/// other node nothing.
pub uninterp spec fn children_at(tree: Seq<char>, at: nat) -> Seq<Option<Seq<char>>>;

/// `Html::parse_document`: the page whose tree a source parses to. It does not
/// fail. Different sources can give the same tree.
#[verifier::external_body]
pub(crate) fn parse_page(html: &str) -> (page: Html)
    ensures
        page_tree(page) == parsed_tree(html@),
{
    Html::parse_document(html)
}

/// The links to the page of a show.
pub const SHOW_LINK: &'static str = "a[href^=\"/Home/Bangumi/\"]";

/// The caption of a show's card.
pub const SHOW_CAPTION: &'static str = "div.an-text";

/// The block of a subtitle group.
pub const GROUP_BLOCK: &'static str = "div.subgroup-text";

/// The links to a feed.
pub const FEED_LINK: &'static str = "a[href*=\"/RSS/Bangumi\"]";

/// The links to the page of a publisher.
pub const PUBLISHER_LINK: &'static str = "a[href^=\"/Home/PublishGroup/\"]";

/// The selectors of this library.
pub open spec fn known_selector(css: Seq<char>) -> bool {
    ||| css == SHOW_LINK@
    ||| css == SHOW_CAPTION@
    ||| css == GROUP_BLOCK@
    ||| css == FEED_LINK@
    ||| css == PUBLISHER_LINK@
}

/// `Selector::parse`: the selector that a text writes. Each text admitted here
/// is a tag with one class or one attribute test, which `Selector::parse`
/// accepts.
#[verifier::external_body]
pub(crate) fn parse_selector(css: &str) -> (selector: Selector)
    requires
        known_selector(css@),
    ensures
        selector_css(selector) == css@,
{
    Selector::parse(css).expect("valid selector")
}

/// The places of elements.
pub open spec fn places(elements: Seq<ElementRef<'_>>) -> Seq<(Seq<char>, nat)> {
    elements.map_values(|e: ElementRef<'_>| element_place(e))
}

/// Positions in one tree, as places.
pub open spec fn places_in(tree: Seq<char>, positions: Seq<nat>) -> Seq<(Seq<char>, nat)> {
    positions.map_values(|at: nat| (tree, at))
}

/// `Html::select`: the elements of a page that match a selector.
#[verifier::external_body]
pub(crate) fn select_all<'a>(page: &'a Html, selector: &Selector) -> (elements: Vec<ElementRef<'a>>)
    ensures
        places(elements@) == places_in(
            page_tree(*page),
            matching(page_tree(*page), selector_css(*selector)),
        ),
{
    page.select(selector).collect()
}

/// `ElementRef::select`: the elements below another that match a selector.
#[verifier::external_body]
pub(crate) fn select_below<'a>(element: &ElementRef<'a>, selector: &Selector) -> (elements: Vec<
    ElementRef<'a>,
>)
    ensures
        places(elements@) == places_in(
            element_place(*element).0,
            matching_below(
                element_place(*element).0,
                element_place(*element).1,
                selector_css(*selector),
            ),
        ),
{
    element.select(selector).collect()
}

/// `Element::attr`: the value of an attribute.
#[verifier::external_body]
pub(crate) fn attribute(element: &ElementRef<'_>, name: &str) -> (value: Option<String>)
    ensures
        value is Some <==> attribute_at(
            element_place(*element).0,
            element_place(*element).1,
            name@,
        ) is Some,
        value matches Some(v) ==> attribute_at(
            element_place(*element).0,
            element_place(*element).1,
            name@,
        ) == Some(v@),
{
    element.value().attr(name).map(|v| v.to_owned())
}

/// `ElementRef::text`: the text nodes in an element.
#[verifier::external_body]
pub(crate) fn text_nodes(element: &ElementRef<'_>) -> (nodes: Vec<String>)
    ensures
        crate::text::texts(nodes@) == texts_at(element_place(*element).0, element_place(*element).1),
{
    element.text().map(|t| t.to_owned()).collect()
}

/// The texts of a list of optional strings.
pub open spec fn optional_texts(v: Seq<Option<String>>) -> Seq<Option<Seq<char>>> {
    v.map_values(
        |t: Option<String>|
            match t {
                Some(s) => Some(s@),
                None => None::<Seq<char>>,
            },
    )
}

/// `NodeRef::children`: the direct children of an element, the text nodes among
/// them by their text.
#[verifier::external_body]
pub(crate) fn child_texts(element: &ElementRef<'_>) -> (children: Vec<Option<String>>)
    ensures
        optional_texts(children@) == children_at(
            element_place(*element).0,
            element_place(*element).1,
        ),
{
    element.children().map(|c| c.value().as_text().map(|t| t.to_string())).collect()
}

}
