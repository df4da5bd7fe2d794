//! The markup query engine, as this library sees it.
//!
//! Parsing HTML and matching CSS selectors is the work of the `scraper` crate.
//! Nothing in this file is proved. The spec functions without a body give names
//! to what `scraper` computes; each executable function makes one call into it
//! and states, over those names, what the library relies on. The rest of the
//! library is verified against these statements.
//!
//! A document is seen as a collection of elements. An element handle stands for
//! a place in its document: what is read through it (text, attributes, the
//! elements below it) depends on the document's text alone.

use scraper::error::SelectorErrorKind;
use scraper::{ElementRef, Html, Selector};
use vstd::prelude::*;

verus! {

/// A parsed HTML document.
#[verifier::external_type_specification]
#[verifier::external_body]
pub struct ExHtml(Html);

/// A handle to one element of a parsed document.
#[verifier::external_type_specification]
#[verifier::external_body]
pub struct ExElementRef<'a>(ElementRef<'a>);

/// A compiled CSS selector group.
#[verifier::external_type_specification]
#[verifier::external_body]
pub struct ExSelector(Selector);

/// The reason why a text is no CSS selector group.
#[verifier::external_type_specification]
#[verifier::external_body]
pub struct ExSelectorErrorKind(SelectorErrorKind);

/// The document that `Html::parse_document` builds from a text.
pub uninterp spec fn parsed(page: Seq<char>) -> Html;

/// What `Selector::parse` makes of a text: the compiled selector group, or the
/// reason why the text is none.
pub uninterp spec fn compiled(text: Seq<char>) -> Result<Selector, SelectorErrorKind>;

/// The message that a selector error displays.
pub uninterp spec fn selector_error_text(kind: SelectorErrorKind) -> Seq<char>;

/// The elements of a document that match a selector, in the order in which
/// `Html::select` yields them.
pub uninterp spec fn page_matches(doc: Html, selector: Selector) -> Seq<ElementRef<'static>>;

/// The elements below an element that match a selector, in the order in which
/// `ElementRef::select` yields them. The element itself is not among them.
pub uninterp spec fn element_matches(element: ElementRef<'static>, selector: Selector) -> Seq<
    ElementRef<'static>,
>;

/// The child nodes of an element that are elements themselves, in document
/// order, as `ElementRef::child_elements` yields them.
pub uninterp spec fn element_children(element: ElementRef<'static>) -> Seq<ElementRef<'static>>;

/// Whether `Selector::matches` holds of an element.
pub uninterp spec fn selector_accepts(selector: Selector, element: ElementRef<'static>) -> bool;

/// The text nodes below an element, in document order, one after the other,
/// as `ElementRef::text` yields them.
pub uninterp spec fn element_text(element: ElementRef<'static>) -> Seq<char>;

/// The value of the attribute of that name, if the element has one, as
/// `ElementRef::attr` returns it.
pub uninterp spec fn element_attr(element: ElementRef<'static>, name: Seq<char>) -> Option<
    Seq<char>,
>;

/// Calls `Html::parse_document`. Believed, not proved: parsing returns for every
/// text, and the document that it builds depends on the text alone.
#[verifier::external_body]
pub(crate) fn parse_page(page: &str) -> (doc: Html)
    ensures
        doc == parsed(page@),
{
    Html::parse_document(page)
}

/// Calls `Selector::parse`. Believed, not proved: whether the text compiles,
/// and into what or with which error, depends on the text alone.
#[verifier::external_body]
pub(crate) fn parse_selector(text: &str) -> (outcome: Result<Selector, SelectorErrorKind>)
    ensures
        outcome == compiled(text@),
{
    Selector::parse(text)
}

/// Calls `to_string` on a `SelectorErrorKind`, which writes what its `Display`
/// writes. Believed, not proved: the message depends on the error alone.
#[verifier::external_body]
pub(crate) fn describe_selector_error(kind: &SelectorErrorKind) -> (message: String)
    ensures
        message@ == selector_error_text(*kind),
{
    kind.to_string()
}

/// Calls `Html::select` and collects what the iterator yields, in its order.
/// Believed, not proved: the elements depend on document and selector alone.
#[verifier::external_body]
pub(crate) fn select_in_page<'a>(doc: &'a Html, selector: &Selector) -> (found: Vec<
    ElementRef<'a>,
>)
    ensures
        found@ == page_matches(*doc, *selector),
{
    doc.select(selector).collect()
}

/// Calls `ElementRef::select` and collects what the iterator yields, in its
/// order. Believed, not proved: the elements depend on element and selector
/// alone.
#[verifier::external_body]
pub(crate) fn select_in<'a>(element: &ElementRef<'a>, selector: &Selector) -> (found: Vec<
    ElementRef<'a>,
>)
    ensures
        found@ == element_matches(*element, *selector),
{
    element.select(selector).collect()
}

/// Calls `ElementRef::child_elements` and collects what the iterator yields,
/// in its order. Believed, not proved: the children depend on the element
/// alone.
#[verifier::external_body]
pub(crate) fn children_of<'a>(element: &ElementRef<'a>) -> (children: Vec<ElementRef<'a>>)
    ensures
        children@ == element_children(*element),
{
    element.child_elements().collect()
}

/// Calls `Selector::matches`. Believed, not proved: the answer depends on
/// selector and element alone.
#[verifier::external_body]
pub(crate) fn accepts(selector: &Selector, element: &ElementRef) -> (accepted: bool)
    ensures
        accepted == selector_accepts(*selector, *element),
{
    selector.matches(element)
}

/// Calls `ElementRef::text` and collects the pieces that the iterator yields
/// into one string, in its order. Believed, not proved: the text depends on
/// the element alone.
#[verifier::external_body]
pub(crate) fn text_of(element: &ElementRef) -> (text: String)
    ensures
        text@ == element_text(*element),
{
    element.text().collect()
}

/// Calls `ElementRef::attr`. Believed, not proved: whether the element has the
/// attribute, and with which value, depends on element and name alone.
#[verifier::external_body]
pub(crate) fn attr_of<'a>(element: &ElementRef<'a>, name: &str) -> (value: Option<&'a str>)
    ensures
        element_attr(*element, name@) == match value {
            Some(v) => Some(v@),
            None => None,
        },
{
    element.attr(name)
}

} // verus!
