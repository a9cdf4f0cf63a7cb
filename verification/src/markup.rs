//! Markup parsing: what a CSS selector finds in a piece of HTML, as plain
//! values. The parsing and the matching are the `scraper` crate's.

use vstd::prelude::*;
use crate::models::opt_text;

verus! {

/// An element that a selector found.
#[derive(Debug)]
pub struct Element {
    /// The element's own markup, its tags included.
    pub html: String,
    /// The text of the element: its text nodes, joined in the order of the
    /// document.
    pub text: String,
}

/// Mathematical view of an `Element`.
pub struct ElementView {
    pub html: Seq<char>,
    pub text: Seq<char>,
}

impl View for Element {
    type V = ElementView;

    open spec fn view(&self) -> ElementView {
        ElementView { html: self.html@, text: self.text@ }
    }
}

/// The views of a sequence of elements.
pub open spec fn element_views(elements: Seq<Element>) -> Seq<ElementView> {
    elements.map_values(|e: Element| e@)
}

/// The views of the elements found, if the selector was valid.
pub open spec fn found_views(found: Option<Vec<Element>>) -> Option<Seq<ElementView>> {
    match found {
        Some(elements) => Some(element_views(elements@)),
        None => None,
    }
}

/// The views of the attribute values found, if the selector was valid.
pub open spec fn attr_views(found: Option<Vec<Option<String>>>) -> Option<Seq<Option<Seq<char>>>> {
    match found {
        Some(values) => Some(values@.map_values(|v: Option<String>| opt_text(v))),
        None => None,
    }
}

/// The elements of the document `markup` that match `selector`, in the order
/// in which `Html::select` yields them; `None` where `selector` is no valid
/// selector.
pub uninterp spec fn document_matches(markup: Seq<char>, selector: Seq<char>) -> Option<
    Seq<ElementView>,
>;

/// The elements of the fragment `markup` that match `selector`, in the order
/// in which `Html::select` yields them; `None` where `selector` is no valid
/// selector.
pub uninterp spec fn fragment_matches(markup: Seq<char>, selector: Seq<char>) -> Option<
    Seq<ElementView>,
>;

/// For each element of the fragment `markup` that matches `selector`, in the
/// order in which `Html::select` yields them, the value of its attribute
/// `name`, if it has one; `None` where `selector` is no valid selector.
pub uninterp spec fn fragment_attrs(
    markup: Seq<char>,
    selector: Seq<char>,
    name: Seq<char>,
) -> Option<Seq<Option<Seq<char>>>>;

/// `scraper::Html::parse_document` and `Html::select`: parses `markup` as a
/// whole document and hands out each element that `Selector::parse` of
/// `selector` matches, with `ElementRef::html` and the joined
/// `ElementRef::text`. The result depends on the two texts alone.
#[verifier::external_body]
pub(crate) fn select_in_document(markup: &str, selector: &str) -> (found: Option<Vec<Element>>)
    ensures
        found_views(found) == document_matches(markup@, selector@),
{
    let selector = scraper::Selector::parse(selector).ok()?;
    let document = scraper::Html::parse_document(markup);
    Some(
        document.select(&selector).map(
            |e| Element { html: e.html(), text: e.text().collect() },
        ).collect(),
    )
}

/// `scraper::Html::parse_fragment` and `Html::select`: as
/// `select_in_document`, with `markup` parsed as a fragment.
#[verifier::external_body]
pub(crate) fn select_in_fragment(markup: &str, selector: &str) -> (found: Option<Vec<Element>>)
    ensures
        found_views(found) == fragment_matches(markup@, selector@),
{
    let selector = scraper::Selector::parse(selector).ok()?;
    let fragment = scraper::Html::parse_fragment(markup);
    Some(
        fragment.select(&selector).map(
            |e| Element { html: e.html(), text: e.text().collect() },
        ).collect(),
    )
}

/// `scraper::Html::parse_fragment`, `Html::select` and `ElementRef::attr`:
/// the value of the attribute `name` of each element found.
#[verifier::external_body]
pub(crate) fn select_attrs(markup: &str, selector: &str, name: &str) -> (found: Option<
    Vec<Option<String>>,
>)
    ensures
        attr_views(found) == fragment_attrs(markup@, selector@, name@),
{
    let selector = scraper::Selector::parse(selector).ok()?;
    let fragment = scraper::Html::parse_fragment(markup);
    Some(fragment.select(&selector).map(|e| e.attr(name).map(|v| v.to_string())).collect())
}

/// The element at position `n` of what was found.
pub open spec fn element_at(found: Option<Seq<ElementView>>, n: int) -> Option<ElementView> {
    match found {
        Some(elements) => if 0 <= n < elements.len() {
            Some(elements[n])
        } else {
            None
        },
        None => None,
    }
}

/// The attribute value at position `n` of what was found.
pub open spec fn attr_at(found: Option<Seq<Option<Seq<char>>>>, n: int) -> Option<Seq<char>> {
    match found {
        Some(values) => if 0 <= n < values.len() {
            values[n]
        } else {
            None
        },
        None => None,
    }
}

/// The element at position `n` of what was found.
pub fn nth_of(found: Option<Vec<Element>>, n: usize) -> (element: Option<Element>)
    ensures
        match element {
            Some(e) => Some(e@) == element_at(found_views(found), n as int),
            None => element_at(found_views(found), n as int) is None,
        },
{
    match found {
        Some(mut elements) => if n < elements.len() {
            Some(elements.remove(n))
        } else {
            None
        },
        None => None,
    }
}

/// The element at position `n` of the fragment's matches.
pub fn nth_element(markup: &str, selector: &str, n: usize) -> (element: Option<Element>)
    ensures
        match element {
            Some(e) => Some(e@) == element_at(fragment_matches(markup@, selector@), n as int),
            None => element_at(fragment_matches(markup@, selector@), n as int) is None,
        },
{
    nth_of(select_in_fragment(markup, selector), n)
}

/// The attribute `name` of the element at position `n` of the fragment's
/// matches.
pub fn nth_attr(markup: &str, selector: &str, name: &str, n: usize) -> (value: Option<String>)
    ensures
        opt_text(value) == attr_at(fragment_attrs(markup@, selector@, name@), n as int),
{
    match select_attrs(markup, selector, name) {
        Some(mut values) => if n < values.len() {
            values.remove(n)
        } else {
            None
        },
        None => None,
    }
}

} // verus!
