//! The plain-value model of a table row: everything the row classifier
//! reads out of the markup, and the errors classification can raise.
//!
//! The scraping layer fills this model from the document; the classifiers
//! work on it alone, so their behaviour is stated and proved over plain
//! strings.

use vstd::prelude::*;
use crate::strutil::{spec_contains, spec_ends_with, contains, ends_with};

verus! {

/// The first `<a>` element of a cell: its text and its link target.
pub struct LinkData {
    pub text: String,
    pub href: Option<String>,
}

/// The first `<time>` element of a cell.
pub struct TimeData {
    pub datetime: Option<String>,
    pub text: String,
    pub timestamp: Option<String>,
}

/// The first `<img>` element of a cell; only its `title` attribute matters.
pub struct ImgData {
    pub title: Option<String>,
}

/// The plain facts read out of one `<td>` cell.
pub struct CellData {
    /// Concatenated descendant text.
    pub text: String,
    /// Text of the first `<span>`, if the cell has one.
    pub span: Option<String>,
    pub img: Option<ImgData>,
    pub link: Option<LinkData>,
    pub time: Option<TimeData>,
    /// Text of the first `<tt>`, if the cell has one.
    pub tt: Option<String>,
}

/// One `<tr>` row: its cells, and its raw markup for error messages.
pub struct RowData {
    pub cells: Vec<CellData>,
    pub html: String,
}

/// Why a table could not be read into records.
#[derive(Clone, Debug)]
pub enum ParseError {
    /// A row had an unexpected shape and was not a skippable link row; the
    /// raw markup is carried so the broken layout can be diagnosed.
    Shape { context: String, html: String },
    /// An expected sub-element or attribute was absent from a row.
    Missing { what: String, html: String },
    /// A numeric cell held non-numeric, non-empty text.
    BadNumber { text: String },
}

/// Spec-level image of a `ParseError`.
pub ghost enum ParseErrorV {
    Shape { context: Seq<char>, html: Seq<char> },
    Missing { what: Seq<char>, html: Seq<char> },
    BadNumber { text: Seq<char> },
}

impl View for ParseError {
    type V = ParseErrorV;

    open spec fn view(&self) -> ParseErrorV {
        match self {
            ParseError::Shape { context, html } => ParseErrorV::Shape {
                context: context@,
                html: html@,
            },
            ParseError::Missing { what, html } => ParseErrorV::Missing {
                what: what@,
                html: html@,
            },
            ParseError::BadNumber { text } => ParseErrorV::BadNumber { text: text@ },
        }
    }
}

/// The human-readable account of a classification failure.
pub open spec fn spec_parse_error_message(e: ParseErrorV) -> Seq<char> {
    match e {
        ParseErrorV::Shape { context, html } => "error while parsing Hydra status for '"@
            + context + "': "@ + html,
        ParseErrorV::Missing { what, html } => "could not find '"@ + what + "' in '"@ + html
            + seq!['\''],
        ParseErrorV::BadNumber { text } => "could not parse number: '"@ + text + seq!['\''],
    }
}

impl ParseError {
    /// Renders the failure as one human-readable line, the raw row markup
    /// included where the error carries it.
    pub fn message(&self) -> (r: String)
        ensures
            r@ == spec_parse_error_message(self@),
    {
        proof {
            reveal_strlit("'");
            assert("'"@ =~= seq!['\'']);
        }
        match self {
            ParseError::Shape { context, html } => {
                let mut out = "error while parsing Hydra status for '".to_owned();
                out.append(context.as_str());
                out.append("': ");
                out.append(html.as_str());
                proof {
                    assert(out@ =~= spec_parse_error_message(self@));
                }
                out
            },
            ParseError::Missing { what, html } => {
                let mut out = "could not find '".to_owned();
                out.append(what.as_str());
                out.append("' in '");
                out.append(html.as_str());
                out.append("'");
                proof {
                    assert(out@ =~= spec_parse_error_message(self@));
                }
                out
            },
            ParseError::BadNumber { text } => {
                let mut out = "could not parse number: '".to_owned();
                out.append(text.as_str());
                out.append("'");
                proof {
                    assert(out@ =~= spec_parse_error_message(self@));
                }
                out
            },
        }
    }
}

/// The view of an optional string.
pub open spec fn opt_view(o: Option<String>) -> Option<Seq<char>> {
    match o {
        Option::None => Option::None,
        Option::Some(s) => Option::Some(s@),
    }
}

/// The given string, or nothing's text.
pub open spec fn opt_or_empty(o: Option<Seq<char>>) -> Seq<char> {
    match o {
        Option::None => Seq::empty(),
        Option::Some(s) => s,
    }
}

/// A row the dashboard adds for its own "see all results" and "see full
/// list" links: its first cell's link ends with `/all` or carries `full=1`.
pub open spec fn spec_row_skippable(r: RowData) -> bool {
    &&& r.cells@.len() > 0
    &&& r.cells@[0].link matches Option::Some(l)
    &&& l.href matches Option::Some(h)
    &&& (spec_ends_with(h@, "/all"@) || spec_contains(h@, "full=1"@))
}

/// Decides whether a row is one of the dashboard's own link rows, to be
/// skipped without a record and without an error.
pub fn row_skippable(r: &RowData) -> (b: bool)
    ensures
        b == spec_row_skippable(*r),
{
    if r.cells.len() == 0 {
        return false;
    }
    match &r.cells[0].link {
        Option::None => false,
        Option::Some(l) => match &l.href {
            Option::None => false,
            Option::Some(h) => ends_with(h.as_str(), "/all") || contains(h.as_str(), "full=1"),
        },
    }
}

} // verus!
