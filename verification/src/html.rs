//! Selecting elements of an HTML document, through the `scraper` crate.
use vstd::prelude::*;

verus! {

/// An element found in a document: its text, and the value of one of its attributes.
pub struct Element {
    pub text: String,
    pub attr: Option<String>,
}

/// An element as plain values.
pub open spec fn element_view(e: Element) -> (Seq<char>, Option<Seq<char>>) {
    (
        e.text@,
        match e.attr {
            Some(a) => Some(a@),
            None => None,
        },
    )
}

/// Texts as plain values.
pub open spec fn texts_view(v: Seq<String>) -> Seq<Seq<char>> {
    v.map_values(|s: String| s@)
}

/// Groups of elements as plain values.
pub open spec fn groups_view(v: Seq<Vec<Element>>) -> Seq<Seq<(Seq<char>, Option<Seq<char>>)>> {
    v.map_values(|g: Vec<Element>| g@.map_values(|e: Element| element_view(e)))
}

/// Groups of groups of texts as plain values.
pub open spec fn nested_texts_view(v: Seq<Vec<Vec<String>>>) -> Seq<Seq<Seq<Seq<char>>>> {
    v.map_values(|g: Vec<Vec<String>>| g@.map_values(|t: Vec<String>| texts_view(t@)))
}

/// What scraper gives for `html` parsed as a document and `selector` parsed as a CSS
/// selector group: `None` when the selector does not parse; otherwise the text of each
/// matching element, in document order.
pub uninterp spec fn selected_texts(html: Seq<char>, selector: Seq<char>) -> Option<
    Seq<Seq<char>>,
>;

/// What scraper gives for `html` parsed as a document and two selectors: `None` when one
/// of them does not parse; otherwise, for each element matching `outer` in document order,
/// the elements below it that match `inner`, each as its text and the value of its
/// attribute `attr`.
pub uninterp spec fn selected_within(
    html: Seq<char>,
    outer: Seq<char>,
    inner: Seq<char>,
    attr: Seq<char>,
) -> Option<Seq<Seq<(Seq<char>, Option<Seq<char>>)>>>;

/// What scraper gives for `html` parsed as a document and three selectors: `None` when one
/// of them does not parse; otherwise, for each element matching `outer`, for each element
/// below it matching `middle`, the texts of the elements below that one matching `inner`.
pub uninterp spec fn selected_within_twice(
    html: Seq<char>,
    outer: Seq<char>,
    middle: Seq<char>,
    inner: Seq<char>,
) -> Option<Seq<Seq<Seq<Seq<char>>>>>;

/// Calls `scraper::Html::parse_document`, `scraper::Selector::parse`, `Html::select` and
/// `ElementRef::text`. Claims that the texts returned are those named `selected_texts` and
/// that it fails exactly when that name is `None`; nothing is claimed of the error message.
#[verifier::external_body]
pub fn select_texts(html: &str, selector: &str) -> (r: Result<Vec<String>, String>)
    ensures
        match r {
            Ok(v) => selected_texts(html@, selector@) == Some(texts_view(v@)),
            Err(_) => selected_texts(html@, selector@) is None,
        },
{
    let doc = scraper::Html::parse_document(html);
    let sel = scraper::Selector::parse(selector).map_err(|e| format!("{:?}", e))?;
    let mut out = Vec::new();
    for e in doc.select(&sel) {
        out.push(e.text().collect::<String>());
    }
    Ok(out)
}

/// Calls `scraper::Html::parse_document`, `scraper::Selector::parse`, `Html::select`,
/// `ElementRef::select`, `ElementRef::text` and `ElementRef::attr`. Claims that the groups
/// returned are those named `selected_within` and that it fails exactly when that name is
/// `None`; nothing is claimed of the error message.
#[verifier::external_body]
pub fn select_within(html: &str, outer: &str, inner: &str, attr: &str) -> (r: Result<
    Vec<Vec<Element>>,
    String,
>)
    ensures
        match r {
            Ok(v) => selected_within(html@, outer@, inner@, attr@) == Some(groups_view(v@)),
            Err(_) => selected_within(html@, outer@, inner@, attr@) is None,
        },
{
    let doc = scraper::Html::parse_document(html);
    let a = scraper::Selector::parse(outer).map_err(|e| format!("{:?}", e))?;
    let b = scraper::Selector::parse(inner).map_err(|e| format!("{:?}", e))?;
    let mut out = Vec::new();
    for x in doc.select(&a) {
        let mut group = Vec::new();
        for y in x.select(&b) {
            group.push(Element { text: y.text().collect(), attr: y.attr(attr).map(String::from) });
        }
        out.push(group);
    }
    Ok(out)
}

/// Calls `scraper::Html::parse_document`, `scraper::Selector::parse`, `Html::select`,
/// `ElementRef::select` and `ElementRef::text`. Claims that the texts returned are those
/// named `selected_within_twice` and that it fails exactly when that name is `None`;
/// nothing is claimed of the error message.
#[verifier::external_body]
pub fn select_within_twice(html: &str, outer: &str, middle: &str, inner: &str) -> (r: Result<
    Vec<Vec<Vec<String>>>,
    String,
>)
    ensures
        match r {
            Ok(v) => selected_within_twice(html@, outer@, middle@, inner@) == Some(
                nested_texts_view(v@),
            ),
            Err(_) => selected_within_twice(html@, outer@, middle@, inner@) is None,
        },
{
    let doc = scraper::Html::parse_document(html);
    let a = scraper::Selector::parse(outer).map_err(|e| format!("{:?}", e))?;
    let b = scraper::Selector::parse(middle).map_err(|e| format!("{:?}", e))?;
    let c = scraper::Selector::parse(inner).map_err(|e| format!("{:?}", e))?;
    let mut out = Vec::new();
    for x in doc.select(&a) {
        let mut group = Vec::new();
        for y in x.select(&b) {
            group.push(y.select(&c).map(|z| z.text().collect::<String>()).collect());
        }
        out.push(group);
    }
    Ok(out)
}

} // verus!
