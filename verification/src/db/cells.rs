//! Value coercion: turning one driver-native cell of unknown concrete
//! type into a display string.
//!
//! A backend probes each cell in a fixed order — 32-bit integer, then
//! 64-bit integer, then 64-bit floating point, then text, then boolean
//! — and the first probe that decodes wins; a cell that decodes as
//! nothing renders as the literal string `"NULL"`. The order matters:
//! a cell representable as both integer and text must render as the
//! narrowest numeric type the driver accepts, not as text. A failed
//! probe is never an error, only "try next".

use vstd::prelude::*;

use crate::text::{int_str, parse_int, i32_string, i64_string, lemma_int_str_round_trip};

verus! {

/// The outcomes of the five ordered decode attempts on one cell.
/// A floating-point decode is carried as the driver-rendered text of
/// the value, since this layer only displays it.
pub struct CellProbes {
    pub as_i32: Option<i32>,
    pub as_i64: Option<i64>,
    pub as_f64_text: Option<String>,
    pub as_text: Option<String>,
    pub as_bool: Option<bool>,
}

/// The display string of a cell, given its probe outcomes: the first
/// successful probe in the fixed order wins, and a cell with no
/// successful probe displays as `"NULL"`.
pub open spec fn coerced_cell(p: CellProbes) -> Seq<char> {
    if p.as_i32 is Some {
        int_str(p.as_i32->0 as int)
    } else if p.as_i64 is Some {
        int_str(p.as_i64->0 as int)
    } else if p.as_f64_text is Some {
        p.as_f64_text->0@
    } else if p.as_text is Some {
        p.as_text->0@
    } else if p.as_bool is Some {
        if p.as_bool->0 { "true"@ } else { "false"@ }
    } else {
        "NULL"@
    }
}

/// Renders one cell from its probe outcomes.
pub fn render_cell(p: CellProbes) -> (r: String)
    ensures
        r@ == coerced_cell(p),
{
    let CellProbes { as_i32, as_i64, as_f64_text, as_text, as_bool } = p;
    if let Some(v) = as_i32 {
        i32_string(v)
    } else if let Some(v) = as_i64 {
        i64_string(v)
    } else if let Some(t) = as_f64_text {
        t
    } else if let Some(t) = as_text {
        t
    } else if let Some(b) = as_bool {
        if b { String::from_str("true") } else { String::from_str("false") }
    } else {
        String::from_str("NULL")
    }
}

/// A cell that decodes as a 32-bit integer displays as a decimal
/// string that parses back to the same integer.
pub proof fn lemma_i32_cell_round_trip(p: CellProbes)
    requires
        p.as_i32 is Some,
    ensures
        parse_int(coerced_cell(p)) == Some(p.as_i32->0 as int),
{
    lemma_int_str_round_trip(p.as_i32->0 as int);
}

} // verus!
