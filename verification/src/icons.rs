//! The closed vocabulary of row-level outcome kinds, with the glyph each
//! kind renders and serialises to.

use vstd::prelude::*;

verus! {

/// Classification tag of one table row: records are compared by variant,
/// never by glyph.
#[derive(Clone, Copy, Debug, PartialEq, Eq, Structural)]
pub enum StatusIcon {
    Succeeded,
    Failed,
    Cancelled,
    Queued,
    Warning,
}

/// The glyph a status icon renders as.
pub open spec fn spec_glyph(icon: StatusIcon) -> Seq<char> {
    match icon {
        StatusIcon::Succeeded => "\u{2714}"@,
        StatusIcon::Failed => "\u{2716}"@,
        StatusIcon::Cancelled => "\u{23f9}"@,
        StatusIcon::Queued => "\u{29d6}"@,
        StatusIcon::Warning => "\u{26a0}"@,
    }
}

impl StatusIcon {
    /// Renders the icon as its fixed glyph.
    pub fn glyph(&self) -> (r: &'static str)
        ensures
            r@ == spec_glyph(*self),
    {
        match self {
            StatusIcon::Succeeded => "\u{2714}",
            StatusIcon::Failed => "\u{2716}",
            StatusIcon::Cancelled => "\u{23f9}",
            StatusIcon::Queued => "\u{29d6}",
            StatusIcon::Warning => "\u{26a0}",
        }
    }
}

impl StatusIcon {
    /// Serialises the icon as a JSON string holding its glyph.
    pub fn to_json(&self) -> (r: String)
        ensures
            r@ == crate::jsonfmt::spec_json_string(spec_glyph(*self)),
    {
        let mut out = String::new();
        crate::jsonfmt::append_json_string(&mut out, self.glyph());
        proof {
            assert(out@ =~= crate::jsonfmt::spec_json_string(spec_glyph(*self)));
        }
        out
    }
}

/// An unclassifiable record falls back to the warning icon.
impl Default for StatusIcon {
    fn default() -> (r: Self)
        ensures
            r == StatusIcon::Warning,
    {
        StatusIcon::Warning
    }
}

} // verus!
