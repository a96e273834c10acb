//! Queries over a parsed HTML document.
//!
//! Parsing and CSS selection are done by the `scraper` crate. This module
//! declares its types, names what its functions return, and builds from them
//! the queries that the extractors use.

use vstd::prelude::*;
use scraper::ElementRef;
use scraper::Html;
use scraper::Selector;
use crate::report::option_view;
use crate::report::string_views;

verus! {

/// `scraper::Html`, a parsed document. Nothing of its inside is visible here.
#[verifier::external_type_specification]
#[verifier::external_body]
pub struct ExHtml(Html);

/// `scraper::Selector`, a compiled CSS selector group.
#[verifier::external_type_specification]
#[verifier::external_body]
pub struct ExSelector(Selector);

/// `scraper::ElementRef`, a reference to one element of a document.
#[verifier::external_type_specification]
#[verifier::external_body]
pub struct ExElementRef<'a>(ElementRef<'a>);

/// The document that `scraper::Html::parse_document` builds from `html`.
pub uninterp spec fn parsed_document(html: Seq<char>) -> Html;

/// What `scraper::Selector::parse` makes of `css`: the compiled selector, or
/// `None` where `css` is no valid selector group.
pub uninterp spec fn compiled_selector(css: Seq<char>) -> Option<Selector>;

/// The elements of `doc` that `selector` matches, in the order in which
/// `scraper::Html::select` yields them.
pub uninterp spec fn selected_elements(doc: Html, selector: Selector) -> Seq<ElementRef<'static>>;

/// The text of an element as `scraper::ElementRef::text` yields it: its
/// descendant text nodes, joined.
pub uninterp spec fn text_of(element: ElementRef<'static>) -> Seq<char>;

/// The value of the attribute `name` of an element as
/// `scraper::ElementRef::attr` gives it, or `None` where the element has no
/// such attribute.
pub uninterp spec fn attribute_of(element: ElementRef<'static>, name: Seq<char>) -> Option<
    Seq<char>,
>;

/// Calls `scraper::Html::parse_document`, which never fails: it builds a tree
/// from whatever it is given. The result is named, not described.
#[verifier::external_body]
pub(crate) fn parse_document(html: &str) -> (doc: Html)
    ensures
        doc == parsed_document(html@),
{
    Html::parse_document(html)
}

/// Calls `scraper::Selector::parse` and drops the error's detail. The result
/// is named, not described.
#[verifier::external_body]
pub(crate) fn parse_selector(css: &str) -> (selector: Option<Selector>)
    ensures
        selector == compiled_selector(css@),
{
    Selector::parse(css).ok()
}

/// Calls `scraper::Html::select` and collects what it yields. The result is
/// named, not described.
#[verifier::external_body]
pub(crate) fn select_elements<'a>(doc: &'a Html, selector: &Selector) -> (elements: Vec<
    ElementRef<'a>,
>)
    ensures
        elements@ == selected_elements(*doc, *selector),
{
    doc.select(selector).collect()
}

/// Calls `scraper::ElementRef::text` and joins the pieces it yields. The
/// result is named, not described.
#[verifier::external_body]
pub(crate) fn element_text(element: &ElementRef) -> (text: String)
    ensures
        text@ == text_of(*element),
{
    element.text().collect()
}

/// Calls `scraper::ElementRef::attr` and copies what it returns. The result
/// is named, not described.
#[verifier::external_body]
pub(crate) fn element_attribute(element: &ElementRef, name: &str) -> (value: Option<String>)
    ensures
        option_view(value) == attribute_of(*element, name@),
{
    element.attr(name).map(|value| value.to_string())
}

/// The views of a list of optional strings, in order.
pub open spec fn option_views(values: Seq<Option<String>>) -> Seq<Option<Seq<char>>> {
    values.map_values(|value: Option<String>| option_view(value))
}

/// The elements of `doc` that the selector `css` matches, in the order in
/// which they are selected. A selector that does not compile matches nothing.
pub open spec fn elements_matching(doc: Html, css: Seq<char>) -> Seq<ElementRef<'static>> {
    match compiled_selector(css) {
        Some(selector) => selected_elements(doc, selector),
        None => Seq::empty(),
    }
}

/// The texts of the elements of `doc` that the selector `css` matches.
pub open spec fn texts_matching(doc: Html, css: Seq<char>) -> Seq<Seq<char>> {
    elements_matching(doc, css).map_values(|element: ElementRef<'static>| text_of(element))
}

/// The values of the attribute `name` on the elements of `doc` that the
/// selector `css` matches.
pub open spec fn attributes_matching(doc: Html, css: Seq<char>, name: Seq<char>) -> Seq<
    Option<Seq<char>>,
> {
    elements_matching(doc, css).map_values(
        |element: ElementRef<'static>| attribute_of(element, name),
    )
}

/// The elements that `css` matches.
pub fn elements_of<'a>(doc: &'a Html, css: &str) -> (elements: Vec<ElementRef<'a>>)
    ensures
        elements@ == elements_matching(*doc, css@),
{
    match parse_selector(css) {
        Some(selector) => select_elements(doc, &selector),
        None => Vec::new(),
    }
}

/// The texts of the elements that `css` matches.
pub fn element_texts(doc: &Html, css: &str) -> (texts: Vec<String>)
    ensures
        string_views(texts@) == texts_matching(*doc, css@),
{
    let elements = elements_of(doc, css);
    let mut texts: Vec<String> = Vec::new();
    let mut i: usize = 0;
    while i < elements.len()
        invariant
            i <= elements.len(),
            texts@.len() == i,
            forall|k: int| 0 <= k < i ==> (#[trigger] texts@[k])@ == text_of(elements@[k]),
        decreases elements.len() - i,
    {
        texts.push(element_text(&elements[i]));
        i = i + 1;
    }
    assert(string_views(texts@) =~= texts_matching(*doc, css@));
    texts
}

/// The values of the attribute `name` on the elements that `css` matches.
pub fn element_attributes(doc: &Html, css: &str, name: &str) -> (values: Vec<Option<String>>)
    ensures
        option_views(values@) == attributes_matching(*doc, css@, name@),
{
    let elements = elements_of(doc, css);
    let mut values: Vec<Option<String>> = Vec::new();
    let mut i: usize = 0;
    while i < elements.len()
        invariant
            i <= elements.len(),
            values@.len() == i,
            forall|k: int|
                0 <= k < i ==> option_view(#[trigger] values@[k]) == attribute_of(
                    elements@[k],
                    name@,
                ),
        decreases elements.len() - i,
    {
        values.push(element_attribute(&elements[i], name));
        i = i + 1;
    }
    assert(option_views(values@) =~= attributes_matching(*doc, css@, name@));
    values
}

} // verus!
