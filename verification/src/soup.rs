//! The trusted boundary to the HTML tree: declarations of scraper's
//! document and element types, thin query wrappers over them in the manner
//! of BeautifulSoup, and the verified extraction of the plain row model
//! the classifiers consume.
//!
//! An HTML node is opaque to the proofs; everything the classifiers read
//! is first copied into `RowData`, and every contract of consequence is
//! stated over that model.

use vstd::prelude::*;
use scraper::{ElementRef, Html};
use crate::rows::{CellData, ImgData, LinkData, RowData, TimeData};

verus! {

#[verifier::external_type_specification]
#[verifier::external_body]
pub struct ExHtml(Html);

#[verifier::external_type_specification]
#[verifier::external_body]
pub struct ExElementRef<'a>(ElementRef<'a>);

/// Relies on scraper's `Html::parse_document`: parses leniently and never
/// fails, setting quirks flags instead.
#[verifier::external_body]
pub fn parse_document(html: &str) -> Html {
    Html::parse_document(html)
}

/// Relies on scraper's `Selector::parse` and `Html::select`: all descendant
/// elements matching the selector, in document order.  An unparsable
/// selector matches nothing.
#[verifier::external_body]
pub fn doc_find_all<'a>(doc: &'a Html, selectors: &str) -> Vec<ElementRef<'a>> {
    match scraper::Selector::parse(selectors) {
        Ok(sel) => doc.select(&sel).collect(),
        Err(_) => Vec::new(),
    }
}

/// Relies on scraper's `Selector::parse` and `Html::select`: the first
/// matching descendant element, if any.
#[verifier::external_body]
pub fn doc_find<'a>(doc: &'a Html, selectors: &str) -> Option<ElementRef<'a>> {
    match scraper::Selector::parse(selectors) {
        Ok(sel) => doc.select(&sel).next(),
        Err(_) => None,
    }
}

/// Relies on scraper's `Selector::parse` and `ElementRef::select`: all
/// matching descendant elements, in document order.
#[verifier::external_body]
pub fn find_all<'a>(el: &ElementRef<'a>, selectors: &str) -> Vec<ElementRef<'a>> {
    match scraper::Selector::parse(selectors) {
        Ok(sel) => el.select(&sel).collect(),
        Err(_) => Vec::new(),
    }
}

/// Relies on scraper's `Selector::parse` and `ElementRef::select`: the
/// first matching descendant element, if any.
#[verifier::external_body]
pub fn find<'a>(el: &ElementRef<'a>, selectors: &str) -> Option<ElementRef<'a>> {
    match scraper::Selector::parse(selectors) {
        Ok(sel) => el.select(&sel).next(),
        Err(_) => None,
    }
}

/// Relies on scraper's `ElementRef::text`: the concatenated descendant
/// text of the element.
#[verifier::external_body]
pub fn el_text(el: &ElementRef<'_>) -> String {
    el.text().collect()
}

/// Relies on scraper's `ElementRef::attr`: the attribute's value, if the
/// element carries it.
#[verifier::external_body]
pub fn el_attr(el: &ElementRef<'_>, attr: &str) -> Option<String> {
    el.attr(attr).map(str::to_string)
}

/// Relies on scraper's `ElementRef::html`: the serialised markup of the
/// element.
#[verifier::external_body]
pub fn el_html(el: &ElementRef<'_>) -> String {
    el.html()
}

/// Reads an attribute, or fails with a message naming the attribute and
/// the element's serialised form.
pub fn try_attr(el: &ElementRef<'_>, attr: &str) -> (r: Result<String, String>)
    ensures
        r matches Result::Err(m) ==> exists|h: Seq<char>|
            m@ == #[trigger] spec_missing_attr_message(attr@, h),
{
    match el_attr(el, attr) {
        Option::Some(v) => Result::Ok(v),
        Option::None => {
            let html = el_html(el);
            let m = missing_attr_message(attr, html.as_str());
            proof {
                assert(m@ == spec_missing_attr_message(attr@, html@));
            }
            Result::Err(m)
        },
    }
}

/// The message `try_attr` fails with.
pub open spec fn spec_missing_attr_message(attr: Seq<char>, html: Seq<char>) -> Seq<char> {
    "could not find attribute '"@ + attr + "' in '"@ + html + seq!['\'']
}

/// Builds the message naming a missing attribute and the markup it was
/// expected on.
pub fn missing_attr_message(attr: &str, html: &str) -> (r: String)
    ensures
        r@ == spec_missing_attr_message(attr@, html@),
{
    let mut out = "could not find attribute '".to_owned();
    out.append(attr);
    out.append("' in '");
    out.append(html);
    out.append("'");
    proof {
        reveal_strlit("'");
        assert("'"@ =~= seq!['\'']);
        assert(out@ =~= spec_missing_attr_message(attr@, html@));
    }
    out
}

/// Reads the plain facts of one `<td>` cell: its text, and what the
/// classifiers look at inside it.
pub fn cell_data(cell: &ElementRef<'_>) -> CellData {
    let text = el_text(cell);
    let span = match find(cell, "span") {
        Option::Some(e) => Option::Some(el_text(&e)),
        Option::None => Option::None,
    };
    let img = match find(cell, "img") {
        Option::Some(e) => Option::Some(ImgData { title: el_attr(&e, "title") }),
        Option::None => Option::None,
    };
    let link = match find(cell, "a") {
        Option::Some(e) => Option::Some(
            LinkData { text: el_text(&e), href: el_attr(&e, "href") },
        ),
        Option::None => Option::None,
    };
    let time = match find(cell, "time") {
        Option::Some(e) => Option::Some(
            TimeData {
                datetime: el_attr(&e, "datetime"),
                text: el_text(&e),
                timestamp: el_attr(&e, "data-timestamp"),
            },
        ),
        Option::None => Option::None,
    };
    let tt = match find(cell, "tt") {
        Option::Some(e) => Option::Some(el_text(&e)),
        Option::None => Option::None,
    };
    CellData { text, span, img, link, time, tt }
}

/// Reads one `<tr>` row into the plain row model.
pub fn row_data(row: &ElementRef<'_>) -> RowData {
    let cell_els = find_all(row, "td");
    let mut cells: Vec<CellData> = Vec::new();
    let mut i: usize = 0;
    while i < cell_els.len()
        decreases cell_els.len() - i,
    {
        cells.push(cell_data(&cell_els[i]));
        i = i + 1;
    }
    RowData { cells, html: el_html(row) }
}

/// Reads every `<tr>` row of a table body into the plain row model, in
/// table order.
pub fn table_rows(tbody: &ElementRef<'_>) -> Vec<RowData> {
    let row_els = find_all(tbody, "tr");
    let mut rows: Vec<RowData> = Vec::new();
    let mut i: usize = 0;
    while i < row_els.len()
        decreases row_els.len() - i,
    {
        rows.push(row_data(&row_els[i]));
        i = i + 1;
    }
    rows
}

} // verus!
