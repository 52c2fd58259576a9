//! The render request: the immutable configuration one conversion runs
//! under, built once from external input.
use vstd::prelude::*;

verus! {

/// Whether and when rendered output favors formula text over cached values.
#[derive(Copy, Clone, Debug, PartialEq, Eq, Structural)]
pub enum FormulaMode {
    /// Never show formula: always display the cached value, even if empty.
    CachedValue,
    /// Show formula if the cached value is empty or absent.
    IfEmpty,
    /// Always show formula for formula cells, ignoring cached values.
    Always,
}

/// The mathematical value of a render request.
pub struct AppV {
    pub path: Seq<char>,
    pub sheet: Seq<char>,
    pub row_separator: Seq<char>,
    pub col_separator: Seq<char>,
    pub sheet_separator: Seq<char>,
    pub formula: FormulaMode,
}

/// One conversion's configuration.
pub struct App {
    /// Spreadsheet file path (kept for the decoder; the engine never reads it).
    pub path: String,
    /// Names or indexes (1 is first, separated by comma) of the sheets to convert.
    pub sheet: String,
    /// Row separator (a single character).
    pub row_separator: String,
    /// Column separator (a single character).
    pub col_separator: String,
    /// Sheet separator (a single character), repeated a hundredfold.
    pub sheet_separator: String,
    /// Whether and when to show formulas.
    pub formula: FormulaMode,
}

impl View for App {
    type V = AppV;

    open spec fn view(&self) -> AppV {
        AppV {
            path: self.path@,
            sheet: self.sheet@,
            row_separator: self.row_separator@,
            col_separator: self.col_separator@,
            sheet_separator: self.sheet_separator@,
            formula: self.formula,
        }
    }
}

} // verus!
