//! What pages hold at the places that CSS selectors name.
//!
//! Reading a page and matching selectors is left to the `scraper` crate.
//! The library names the results and says of them only that they depend on
//! nothing but the page and the selectors.

use vstd::prelude::*;

verus! {

/// The inner HTML of every element of the page `html` that `selector`
/// matches, in the order of the page; `None` where `scraper` does not accept
/// `selector`.
pub uninterp spec fn selected_html(html: Seq<char>, selector: Seq<char>) -> Option<Seq<Seq<char>>>;

/// The value of the attribute `attr` of every element of the page `html`
/// that `selector` matches, in the order of the page, `None` in the place of
/// an element without that attribute; `None` where `scraper` does not accept
/// `selector`.
pub uninterp spec fn selected_attr(html: Seq<char>, selector: Seq<char>, attr: Seq<char>) -> Option<
    Seq<Option<Seq<char>>>,
>;

/// For every element of the page `html` that `outer` matches, the inner
/// HTML of every element inside it that `inner` matches; `None` where
/// `scraper` does not accept one of the selectors.
pub uninterp spec fn selected_html_within(html: Seq<char>, outer: Seq<char>, inner: Seq<char>)
    -> Option<Seq<Seq<Seq<char>>>>;

/// For every element of the page `html` that `outer` matches, the value of
/// the attribute `attr` of every element inside it that `inner` matches;
/// `None` where `scraper` does not accept one of the selectors.
pub uninterp spec fn selected_attr_within(
    html: Seq<char>,
    outer: Seq<char>,
    inner: Seq<char>,
    attr: Seq<char>,
) -> Option<Seq<Seq<Option<Seq<char>>>>>;

/// `scraper::Html::select` on the page that `scraper::Html::parse_document`
/// reads from `html`, with the selector that `scraper::Selector::parse`
/// reads from `selector`, and of every element its
/// `scraper::ElementRef::inner_html`. The result depends on the two texts
/// alone.
#[verifier::external_body]
pub(crate) fn select_html(html: &str, selector: &str) -> (r: Option<Vec<String>>)
    ensures
        r.deep_view() == selected_html(html@, selector@),
{
    let sel = scraper::Selector::parse(selector).ok()?;
    let doc = scraper::Html::parse_document(html);
    Some(doc.select(&sel).map(|e| e.inner_html()).collect())
}

/// `scraper::Html::select` as in `select_html`, and of every element its
/// attribute `attr`, through `scraper::ElementRef::attr`. The result depends
/// on the three texts alone.
#[verifier::external_body]
pub(crate) fn select_attr(html: &str, selector: &str, attr: &str) -> (r: Option<
    Vec<Option<String>>,
>)
    ensures
        r.deep_view() == selected_attr(html@, selector@, attr@),
{
    let sel = scraper::Selector::parse(selector).ok()?;
    let doc = scraper::Html::parse_document(html);
    Some(doc.select(&sel).map(|e| e.attr(attr).map(|v| v.to_string())).collect())
}

/// `scraper::ElementRef::select` with the selector `inner` on every element
/// that `scraper::Html::select` gives for `outer`, and of every element
/// found so its `scraper::ElementRef::inner_html`. The result depends on the
/// three texts alone.
#[verifier::external_body]
pub(crate) fn select_html_within(html: &str, outer: &str, inner: &str) -> (r: Option<
    Vec<Vec<String>>,
>)
    ensures
        r.deep_view() == selected_html_within(html@, outer@, inner@),
{
    let out = scraper::Selector::parse(outer).ok()?;
    let inn = scraper::Selector::parse(inner).ok()?;
    let doc = scraper::Html::parse_document(html);
    Some(doc.select(&out).map(|o| o.select(&inn).map(|e| e.inner_html()).collect()).collect())
}

/// `scraper::ElementRef::select` as in `select_html_within`, and of every
/// element found so its attribute `attr`, through
/// `scraper::ElementRef::attr`. The result depends on the four texts alone.
#[verifier::external_body]
pub(crate) fn select_attr_within(html: &str, outer: &str, inner: &str, attr: &str) -> (r: Option<
    Vec<Vec<Option<String>>>,
>)
    ensures
        r.deep_view() == selected_attr_within(html@, outer@, inner@, attr@),
{
    let out = scraper::Selector::parse(outer).ok()?;
    let inn = scraper::Selector::parse(inner).ok()?;
    let doc = scraper::Html::parse_document(html);
    Some(
        doc.select(&out).map(
            |o| o.select(&inn).map(|e| e.attr(attr).map(|v| v.to_string())).collect(),
        ).collect(),
    )
}

} // verus!
