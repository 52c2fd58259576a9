//! The formula resolver: a pure function of (formula mode, cached cell
//! value, formula lookup at the cell's coordinate) deciding which value is
//! rendered.
use vstd::prelude::*;

use crate::app::FormulaMode;
use crate::render::spec_cell_diag;
use crate::workbook::{CellVal, CellValue};

verus! {

/// The value to render for one cell.
/// - `CachedValue`: the cached value, unchanged; the formula is not consulted.
/// - `IfEmpty`: if the cached value is empty, or an empty string, a present
///   non-empty formula text (as a string value), else the cached value.
/// - `Always`: a present non-empty formula text (as a string value),
///   else the cached value.
pub open spec fn spec_resolve(mode: FormulaMode, cell: CellVal, formula: Option<Seq<char>>) -> CellVal {
    match mode {
        FormulaMode::CachedValue => cell,
        FormulaMode::IfEmpty => {
            if cell is Empty || (cell matches CellVal::Text(s) && s.len() == 0) {
                match formula {
                    Some(f) => if f.len() > 0 {
                        CellVal::Text(f)
                    } else {
                        CellVal::Empty
                    },
                    None => CellVal::Empty,
                }
            } else {
                cell
            }
        },
        FormulaMode::Always => {
            match formula {
                Some(f) => if f.len() > 0 {
                    CellVal::Text(f)
                } else {
                    cell
                },
                None => cell,
            }
        },
    }
}

impl CellValue {
    /// An identical copy of this cell value.
    pub fn dup(&self) -> (r: CellValue)
        ensures
            r@ == self@,
    {
        match self {
            CellValue::Empty => CellValue::Empty,
            CellValue::Bool(b) => CellValue::Bool(*b),
            CellValue::Int(i) => CellValue::Int(*i),
            CellValue::Number(s) => CellValue::Number(s.clone()),
            CellValue::Text(s) => CellValue::Text(s.clone()),
            CellValue::Error(s) => CellValue::Error(s.clone()),
        }
    }
}

/// Resolve one cell: pick the cached value or the formula text, per mode.
pub fn resolve_cell(mode: FormulaMode, cell: &CellValue, formula: Option<&String>) -> (r: CellValue)
    ensures
        r@ == spec_resolve(
            mode,
            cell@,
            match formula {
                Some(f) => Some(f@),
                None => None,
            },
        ),
{
    match mode {
        FormulaMode::CachedValue => cell.dup(),
        FormulaMode::IfEmpty => {
            let blank = match cell {
                CellValue::Empty => true,
                CellValue::Text(s) => s.as_str().is_empty(),
                _ => false,
            };
            if blank {
                match formula {
                    Some(f) => {
                        if !f.as_str().is_empty() {
                            CellValue::Text(f.clone())
                        } else {
                            CellValue::Empty
                        }
                    },
                    None => CellValue::Empty,
                }
            } else {
                cell.dup()
            }
        },
        FormulaMode::Always => {
            match formula {
                Some(f) => {
                    if !f.as_str().is_empty() {
                        CellValue::Text(f.clone())
                    } else {
                        cell.dup()
                    }
                },
                None => cell.dup(),
            }
        },
    }
}

/// A cell with a non-empty cached string value keeps it under `CachedValue`
/// and `IfEmpty`; `Always` replaces it with a present non-empty formula text.
pub proof fn lemma_nonempty_string_keeps_cached(cell: CellVal, f: Seq<char>)
    requires
        cell matches CellVal::Text(s) && s.len() > 0,
        f.len() > 0,
    ensures
        spec_resolve(FormulaMode::CachedValue, cell, Some(f)) == cell,
        spec_resolve(FormulaMode::IfEmpty, cell, Some(f)) == cell,
        spec_resolve(FormulaMode::Always, cell, Some(f)) == CellVal::Text(f),
{
}

/// An empty cached value with a present non-empty formula text: `IfEmpty`
/// and `Always` both return the formula text as a string value;
/// `CachedValue` returns the empty value.
pub proof fn lemma_empty_cell_takes_formula(f: Seq<char>)
    requires
        f.len() > 0,
    ensures
        spec_resolve(FormulaMode::IfEmpty, CellVal::Empty, Some(f)) == CellVal::Text(f),
        spec_resolve(FormulaMode::Always, CellVal::Empty, Some(f)) == CellVal::Text(f),
        spec_resolve(FormulaMode::CachedValue, CellVal::Empty, Some(f)) == CellVal::Empty,
{
}

/// An empty cached value with no formula text at its coordinate resolves to
/// the empty value under every mode, and emits no diagnostic.
pub proof fn lemma_empty_without_formula_stays_empty(mode: FormulaMode)
    ensures
        spec_resolve(mode, CellVal::Empty, None) == CellVal::Empty,
        spec_cell_diag(spec_resolve(mode, CellVal::Empty, None)) is None,
{
}

} // verus!
