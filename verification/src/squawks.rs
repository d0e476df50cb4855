//! The squawks.json file of the Squawks EuroScope plugin: special-purpose SSR codes
//! and code ranges with their messages.
use vstd::prelude::*;

use crate::colours::Colour;

verus! {

/// An inclusive range of SSR codes, both ends written in octal.
#[derive(Clone, Debug)]
pub struct Range {
    pub start: String,
    pub end: String,
}

/// One entry: either a single code or a range, with the message to display.
#[derive(Clone, Debug)]
pub struct SquawkDef {
    pub code: Option<String>,
    pub range: Option<Range>,
    pub message: String,
    pub color: Colour,
}

/// The contents of squawks.json.
#[derive(Clone, Debug)]
pub struct SquawksJson {
    pub non_discrete_color: Colour,
    pub non_discrete_message: String,
    pub non_discrete: Vec<String>,
    pub squawks: Vec<SquawkDef>,
}

} // verus!
