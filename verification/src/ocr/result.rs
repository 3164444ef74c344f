//! The unit of output: one piece of text with its box.

use vstd::prelude::*;
use vstd::string::*;
use crate::ocr::geometry::{BoundingBox, Orientation};

verus! {

/// One recognised piece of text.
#[derive(Clone, Debug)]
pub struct OcrResult {
    /// The cleaned text.
    pub text: String,
    /// The upright box around the text.
    pub tight_bounding_box: BoundingBox,
    /// Whether the entry combines two or more recognised lines.
    pub is_merged: Option<bool>,
    /// `"vertical"` or `"horizontal"`; unset where undetermined.
    pub forced_orientation: Option<String>,
}

/// What an [`OcrResult`] holds, with its strings as sequences.
pub struct OcrResultView {
    pub text: Seq<char>,
    pub tight_bounding_box: BoundingBox,
    pub is_merged: Option<bool>,
    pub forced_orientation: Option<Seq<char>>,
}

/// An optional string as an optional sequence.
pub open spec fn name_view(name: Option<String>) -> Option<Seq<char>> {
    match name {
        Some(s) => Some(s@),
        None => None,
    }
}

impl View for OcrResult {
    type V = OcrResultView;

    open spec fn view(&self) -> OcrResultView {
        OcrResultView {
            text: self.text@,
            tight_bounding_box: self.tight_bounding_box,
            is_merged: self.is_merged,
            forced_orientation: name_view(self.forced_orientation),
        }
    }
}

/// The views of a sequence of results.
pub open spec fn views(results: Seq<OcrResult>) -> Seq<OcrResultView> {
    results.map_values(|r: OcrResult| r@)
}

/// The name by which an orientation is written.
pub open spec fn orientation_name(o: Orientation) -> Seq<char> {
    match o {
        Orientation::Vertical => "vertical"@,
        Orientation::Horizontal => "horizontal"@,
    }
}

impl Orientation {
    /// The name by which the orientation is written.
    pub fn name(&self) -> (s: String)
        ensures
            s@ == orientation_name(*self),
    {
        match self {
            Orientation::Vertical => String::from_str("vertical"),
            Orientation::Horizontal => String::from_str("horizontal"),
        }
    }
}

/// Whether two optional names are the same.
pub fn same_name(a: &Option<String>, b: &Option<String>) -> (same: bool)
    ensures
        same == (name_view(*a) == name_view(*b)),
{
    match (a, b) {
        (None, None) => true,
        (Some(x), Some(y)) => *x == *y,
        _ => false,
    }
}

/// Whether an optional name says `"vertical"`.
pub fn names_vertical(name: &Option<String>) -> (vertical: bool)
    ensures
        vertical == (name_view(*name) == Some(orientation_name(Orientation::Vertical))),
{
    match name {
        Some(s) => {
            let v = String::from_str("vertical");
            *s == v
        },
        None => false,
    }
}

pub(crate) fn copy_name(name: &Option<String>) -> (copy: Option<String>)
    ensures
        name_view(copy) == name_view(*name),
{
    match name {
        Some(s) => Some(s.clone()),
        None => None,
    }
}

pub(crate) fn copy_result(r: &OcrResult) -> (copy: OcrResult)
    ensures
        copy@ == r@,
{
    OcrResult {
        text: r.text.clone(),
        tight_bounding_box: r.tight_bounding_box,
        is_merged: r.is_merged,
        forced_orientation: copy_name(&r.forced_orientation),
    }
}

} // verus!
