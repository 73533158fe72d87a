//! Queries against the catalog site's markup, carried out by the
//! `scraper` crate.  Parsing a document and selecting nodes is a pure
//! function of the document text and the selector strings, so each
//! query's result is given a name here, and the extractors' contracts
//! are stated over those names.
use vstd::prelude::*;

verus! {

/// The concatenated text of the first element of `body` matching
/// `selector`; `None` when no element matches.
pub uninterp spec fn first_text_of(body: Seq<char>, selector: Seq<char>) -> Option<Seq<char>>;

/// The serialized HTML of the first element of `body` matching
/// `selector`; `None` when no element matches.
pub uninterp spec fn first_html_of(body: Seq<char>, selector: Seq<char>) -> Option<Seq<char>>;

/// For every element of `body` matching `item_selector`, in document
/// order: the text of its first descendant matching `field_selector`,
/// or `None` for an item without such a descendant.
pub uninterp spec fn item_field_texts_of(
    body: Seq<char>,
    item_selector: Seq<char>,
    field_selector: Seq<char>,
) -> Seq<Option<Seq<char>>>;

/// For every element of `body` matching `row_selector`, in document
/// order: the texts of its first descendants matching
/// `label_selector` and `value_selector`.
pub uninterp spec fn pair_texts_of(
    body: Seq<char>,
    row_selector: Seq<char>,
    label_selector: Seq<char>,
    value_selector: Seq<char>,
) -> Seq<(Option<Seq<char>>, Option<Seq<char>>)>;

/// The text of the last descendant matching `inner_selector` of the
/// first element of `body` matching `outer_selector`.
pub uninterp spec fn last_inner_text_of(
    body: Seq<char>,
    outer_selector: Seq<char>,
    inner_selector: Seq<char>,
) -> Option<Seq<char>>;

/// Relies on scraper's `Html::parse_document`, `Selector::parse`,
/// `Html::select` and `ElementRef::text`: the text of the first
/// matching element, a function of the document and selector alone.
#[verifier::external_body]
pub(crate) fn first_text(body: &str, selector: &str) -> (r: Option<String>)
    ensures
        r.deep_view() == first_text_of(body@, selector@),
{
    let doc = scraper::Html::parse_document(body);
    let Ok(sel) = scraper::Selector::parse(selector) else {
        return None;
    };
    doc.select(&sel).next().map(|el| el.text().collect::<String>())
}

/// Relies on scraper's `Html::parse_document`, `Selector::parse`,
/// `Html::select` and `ElementRef::html`: the serialized HTML of the
/// first matching element.
#[verifier::external_body]
pub(crate) fn first_html(body: &str, selector: &str) -> (r: Option<String>)
    ensures
        r.deep_view() == first_html_of(body@, selector@),
{
    let doc = scraper::Html::parse_document(body);
    let Ok(sel) = scraper::Selector::parse(selector) else {
        return None;
    };
    doc.select(&sel).next().map(|el| el.html())
}

/// Relies on scraper's `Html::parse_document`, `Selector::parse`,
/// `Html::select`, `ElementRef::select` and `ElementRef::text`: one
/// entry per matching item, each the text of its first matching
/// descendant.
#[verifier::external_body]
pub(crate) fn item_field_texts(body: &str, item_selector: &str, field_selector: &str) -> (r: Vec<
    Option<String>,
>)
    ensures
        r.deep_view() == item_field_texts_of(body@, item_selector@, field_selector@),
{
    let doc = scraper::Html::parse_document(body);
    let parsed = (scraper::Selector::parse(item_selector), scraper::Selector::parse(field_selector));
    let (Ok(items), Ok(field)) = parsed else {
        return Vec::new();
    };
    doc.select(&items).map(
        |el| el.select(&field).next().map(|f| f.text().collect::<String>()),
    ).collect()
}

/// Relies on scraper's `Html::parse_document`, `Selector::parse`,
/// `Html::select`, `ElementRef::select` and `ElementRef::text`: one
/// entry per matching row, pairing the texts of its first label and
/// value descendants.
#[verifier::external_body]
pub(crate) fn pair_texts(
    body: &str,
    row_selector: &str,
    label_selector: &str,
    value_selector: &str,
) -> (r: Vec<(Option<String>, Option<String>)>)
    ensures
        r.deep_view() == pair_texts_of(body@, row_selector@, label_selector@, value_selector@),
{
    let doc = scraper::Html::parse_document(body);
    let parsed = (
        scraper::Selector::parse(row_selector),
        scraper::Selector::parse(label_selector),
        scraper::Selector::parse(value_selector),
    );
    let (Ok(rows), Ok(label), Ok(value)) = parsed else {
        return Vec::new();
    };
    doc.select(&rows).map(|row| (
        row.select(&label).next().map(|n| n.text().collect::<String>()),
        row.select(&value).next().map(|n| n.text().collect::<String>()),
    )).collect()
}

/// Relies on scraper's `Html::parse_document`, `Selector::parse`,
/// `Html::select`, `ElementRef::select` and `ElementRef::text`: the
/// text of the last matching descendant of the first matching
/// element.
#[verifier::external_body]
pub(crate) fn last_inner_text(body: &str, outer_selector: &str, inner_selector: &str) -> (r:
    Option<String>)
    ensures
        r.deep_view() == last_inner_text_of(body@, outer_selector@, inner_selector@),
{
    let doc = scraper::Html::parse_document(body);
    let parsed = (scraper::Selector::parse(outer_selector), scraper::Selector::parse(inner_selector));
    let (Ok(outer), Ok(inner)) = parsed else {
        return None;
    };
    doc.select(&outer).next().and_then(
        |el| el.select(&inner).map(|n| n.text().collect::<String>()).last(),
    )
}

} // verus!
