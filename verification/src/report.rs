//! The table locator and error-page detector shared by every report kind:
//! find the expected `<tbody>`, or surface the page's own explanation of
//! why there is none.

use vstd::prelude::*;
use scraper::{ElementRef, Html};
use crate::soup::{doc_find, el_text};
use crate::strutil::{spec_trim, spec_collapse, trim, collapse_lines};

verus! {

/// The selector a section selector composes to: the section selector,
/// a space and `tbody`, trimmed, so an empty section means "any `tbody`".
pub open spec fn spec_tbody_selector(section: Seq<char>) -> Seq<char> {
    spec_trim(section + " tbody"@)
}

/// Composes the `tbody` selector for a report section.
pub fn tbody_selector(section: &str) -> (r: String)
    ensures
        r@ == spec_tbody_selector(section@),
{
    let mut joined = section.to_owned();
    joined.append(" tbody");
    trim(joined.as_str()).to_owned()
}

/// The message synthesised when a page holds neither the expected table
/// nor an alert container.
pub open spec fn spec_unknown_error_message(selectors: Seq<char>, url: Seq<char>) -> Seq<char> {
    "Unknown Hydra Error with '"@ + selectors + "' found at "@ + url
}

/// Builds the fallback error message naming the selector and the URL.
pub fn unknown_error_message(selectors: &str, url: &str) -> (r: String)
    ensures
        r@ == spec_unknown_error_message(selectors@, url@),
{
    let mut out = "Unknown Hydra Error with '".to_owned();
    out.append(selectors);
    out.append("' found at ");
    out.append(url);
    proof {
        assert(out@ =~= spec_unknown_error_message(selectors@, url@));
    }
    out
}

/// What a locator failure surfaces: either some text collapsed line by
/// line into one line — the page's own alert — or the synthesised
/// fallback naming the composed selector and the URL.
pub open spec fn spec_locator_message(m: Seq<char>, selectors: Seq<char>, url: Seq<char>) -> bool {
    ||| m == spec_unknown_error_message(selectors, url)
    ||| exists|t: Seq<char>| m == #[trigger] spec_collapse(t)
}

/// Locates the expected table body under the given section selector.  When
/// the document has none — the package may not exist, or may not have been
/// evaluated — the failure branch carries a human-readable message: the
/// page's own alert text, trimmed line by line and joined into one line,
/// or the synthesised fallback naming the selector and the URL.
pub fn find_tbody<'a>(doc: &'a Html, section: &str, url: &str) -> (r: Result<
    ElementRef<'a>,
    String,
>)
    ensures
        r matches Result::Err(m) ==> spec_locator_message(
            m@,
            spec_tbody_selector(section@),
            url@,
        ),
{
    let selectors = tbody_selector(section);
    match doc_find(doc, selectors.as_str()) {
        Option::Some(tbody) => Result::Ok(tbody),
        Option::None => {
            let status = match doc_find(doc, "div.alert") {
                Option::Some(alert) => {
                    let text = el_text(&alert);
                    let collapsed = collapse_lines(text.as_str());
                    proof {
                        assert(collapsed@ == spec_collapse(text@));
                    }
                    collapsed
                },
                Option::None => unknown_error_message(selectors.as_str(), url),
            };
            Result::Err(status)
        },
    }
}

} // verus!
