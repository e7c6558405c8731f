//! Queries on HTML documents, made by the `scraper` crate. What a query
//! returns is a function of the document and the selector alone, and it
//! takes an HTML parser to state, so each has a name here.
use vstd::prelude::*;

verus! {

/// For each element of the document `html` that matches the CSS selector
/// `selector`, in document order, the value of its attribute `attr` (if it
/// has one); nothing when the selector does not parse.
pub uninterp spec fn selected_attributes(
    html: Seq<char>,
    selector: Seq<char>,
    attr: Seq<char>,
) -> Option<Seq<Option<Seq<char>>>>;

/// For each element of the document `html` that matches the CSS selector
/// `selector`, in document order, its inner HTML; nothing when the selector
/// does not parse.
pub uninterp spec fn selected_inner_html(html: Seq<char>, selector: Seq<char>) -> Option<
    Seq<Seq<char>>,
>;

/// Parses `selector` with `scraper::Selector::parse` and `html` with
/// `scraper::Html::parse_document`, and reads attribute `attr` of every
/// element that `Html::select` yields. The contract names the result
/// (`selected_attributes`); it states nothing of what the parser makes of
/// the text.
#[verifier::external_body]
pub(crate) fn select_attributes(html: &str, selector: &str, attr: &str) -> (res: Option<
    Vec<Option<String>>,
>)
    ensures
        res.deep_view() == selected_attributes(html@, selector@, attr@),
{
    let selector = scraper::Selector::parse(selector).ok()?;
    let document = scraper::Html::parse_document(html);
    let mut values = Vec::new();
    for element in document.select(&selector) {
        values.push(match element.value().attr(attr) {
            Some(value) => Some(value.to_string()),
            None => None,
        });
    }
    Some(values)
}

/// Parses `selector` with `scraper::Selector::parse` and `html` with
/// `scraper::Html::parse_document`, and takes `ElementRef::inner_html` of
/// every element that `Html::select` yields. The contract names the result
/// (`selected_inner_html`); it states nothing of what the parser makes of
/// the text.
#[verifier::external_body]
pub(crate) fn select_inner_html(html: &str, selector: &str) -> (res: Option<Vec<String>>)
    ensures
        res.deep_view() == selected_inner_html(html@, selector@),
{
    let selector = scraper::Selector::parse(selector).ok()?;
    let document = scraper::Html::parse_document(html);
    let mut pieces = Vec::new();
    for element in document.select(&selector) {
        pieces.push(element.inner_html());
    }
    Some(pieces)
}

} // verus!
