//! The HTML of a page as the `scraper` crate parses it: the page, CSS
//! selectors, and the elements that selectors pick, each known by the page
//! text and the path of (selector, match) steps that leads to it.

use vstd::prelude::*;
use scraper::{ElementRef, Html, Selector};
use crate::text::opt_view;

verus! {

#[verifier::external_type_specification]
#[verifier::external_body]
pub struct ExHtml(scraper::Html);

#[verifier::external_type_specification]
#[verifier::external_body]
pub struct ExSelector(scraper::Selector);

#[verifier::external_type_specification]
#[verifier::external_body]
pub struct ExElementRef<'a>(scraper::ElementRef<'a>);

/// Whether `scraper::Selector::parse` accepts a CSS selector group.
pub uninterp spec fn selector_is_valid(css: Seq<char>) -> bool;

/// How many elements `scraper::Html::select` yields for the selector `css`
/// in the page parsed from `page`.
pub uninterp spec fn document_matches(page: Seq<char>, css: Seq<char>) -> nat;

/// How many elements `scraper::ElementRef::select` yields for the selector
/// `css` under the element that `path` leads to in the page parsed from
/// `page`.
pub uninterp spec fn element_matches(
    page: Seq<char>,
    path: Seq<(Seq<char>, nat)>,
    css: Seq<char>,
) -> nat;

/// What `scraper::ElementRef::attr` gives for the attribute `name` of the
/// element that `path` leads to in the page parsed from `page`.
pub uninterp spec fn element_attribute(
    page: Seq<char>,
    path: Seq<(Seq<char>, nat)>,
    name: Seq<char>,
) -> Option<Seq<char>>;

/// What `scraper::ElementRef::text` gives, joined, for the element that
/// `path` leads to in the page parsed from `page`.
pub uninterp spec fn element_text_of(page: Seq<char>, path: Seq<(Seq<char>, nat)>) -> Seq<char>;

/// A parsed page, with the text that it was parsed from.
pub struct Page {
    text: String,
    html: Html,
}

impl View for Page {
    type V = Seq<char>;

    closed spec fn view(&self) -> Seq<char> {
        self.text@
    }
}

impl Page {
    /// Parses a page, and keeps its text beside the tree.
    /// Trusted: `scraper::Html::parse_document`, which never fails (it repairs
    /// malformed HTML as browsers do). The tree is known through the names
    /// above, which speak of the page text; stated is that the tree kept is
    /// the one parsed from the text kept.
    #[verifier::external_body]
    pub(crate) fn parse(text: &str) -> (r: Page)
        ensures
            r@ == text@,
    {
        Page { text: text.to_owned(), html: Html::parse_document(text) }
    }
}

/// A parsed CSS selector, with the text that it was parsed from.
pub struct PageSelector {
    css: String,
    selector: Selector,
}

impl View for PageSelector {
    type V = Seq<char>;

    closed spec fn view(&self) -> Seq<char> {
        self.css@
    }
}

impl PageSelector {
    /// Parses a CSS selector group, where `scraper` accepts it, and keeps its
    /// text beside it.
    /// Trusted: `scraper::Selector::parse`; whether it succeeds depends on the
    /// selector text alone (`selector_is_valid`), and the selector kept is the
    /// one parsed from the text kept.
    #[verifier::external_body]
    pub(crate) fn parse(css: &str) -> (r: Option<PageSelector>)
        ensures
            r is Some <==> selector_is_valid(css@),
            r matches Some(s) ==> s@ == css@,
    {
        match Selector::parse(css) {
            Ok(selector) => Some(PageSelector { css: css.to_owned(), selector }),
            Err(_) => None,
        }
    }
}

/// An element of a page, with the page text and the path that leads to it.
pub struct PageElement<'a> {
    element: ElementRef<'a>,
    page: Ghost<Seq<char>>,
    path: Ghost<Seq<(Seq<char>, nat)>>,
}

impl<'a> View for PageElement<'a> {
    type V = (Seq<char>, Seq<(Seq<char>, nat)>);

    closed spec fn view(&self) -> (Seq<char>, Seq<(Seq<char>, nat)>) {
        (self.page@, self.path@)
    }
}

/// The elements of a page that a selector picks, in the order in which
/// `scraper` yields them.
/// Trusted: `scraper::Html::select`; the `i`-th element is the one that the
/// path `[(selector, i)]` leads to, and there are `document_matches` of them.
#[verifier::external_body]
pub(crate) fn select_in_page<'a>(page: &'a Page, selector: &PageSelector) -> (r: Vec<PageElement<'a>>)
    ensures
        r.len() == document_matches(page@, selector@),
        forall|i: int| 0 <= i < r.len() ==> #[trigger] r[i]@ == (page@, seq![(selector@, i as nat)]),
{
    page.html.select(&selector.selector).enumerate().map(
        |(i, e)|
            PageElement {
                element: e,
                page: Ghost(page@),
                path: Ghost(seq![(selector@, i as nat)]),
            },
    ).collect()
}

/// The descendants of an element that a selector picks, in the order in
/// which `scraper` yields them.
/// Trusted: `scraper::ElementRef::select`; the `i`-th element is the one that
/// the element's path followed by `(selector, i)` leads to, and there are
/// `element_matches` of them.
#[verifier::external_body]
pub(crate) fn select_in_element<'a>(element: &PageElement<'a>, selector: &PageSelector) -> (r: Vec<
    PageElement<'a>,
>)
    ensures
        r.len() == element_matches(element@.0, element@.1, selector@),
        forall|i: int|
            0 <= i < r.len() ==> #[trigger] r[i]@ == (element@.0, element@.1.push(
                (selector@, i as nat),
            )),
{
    element.element.select(&selector.selector).enumerate().map(
        |(i, e)|
            PageElement {
                element: e,
                page: Ghost(element@.0),
                path: Ghost(element@.1.push((selector@, i as nat))),
            },
    ).collect()
}

/// The value of an attribute of an element, if it has one.
/// Trusted: `scraper::ElementRef::attr`, named by `element_attribute`.
#[verifier::external_body]
pub(crate) fn element_attr(element: &PageElement, name: &str) -> (r: Option<String>)
    ensures
        opt_view(r) == element_attribute(element@.0, element@.1, name@),
{
    element.element.attr(name).map(String::from)
}

/// The text of an element: its descendant text nodes, joined.
/// Trusted: `scraper::ElementRef::text`, named by `element_text_of`.
#[verifier::external_body]
pub(crate) fn element_text(element: &PageElement) -> (r: String)
    ensures
        r@ == element_text_of(element@.0, element@.1),
{
    element.element.text().collect()
}

} // verus!
