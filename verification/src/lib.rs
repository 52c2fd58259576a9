//! Converts a decoded spreadsheet workbook — an in-memory grid of typed
//! cells, with an optional parallel grid of formula text — into delimited
//! text output: per cell, the cached value, the formula text, or a
//! formula-priority blend, assembled into a multi-sheet, delimiter-correct
//! stream with a diagnostic side channel.
use vstd::prelude::*;

pub mod app;
pub mod errors;
pub mod render;
pub mod resolve;
pub mod select;
pub mod totext;
pub mod workbook;

use crate::app::{App, AppV, FormulaMode};
use crate::errors::Errors;
use crate::totext::{spec_run, XlsToText};
use crate::workbook::Workbook;

verus! {

/// A configured separator must be a single byte-sized unit: the first
/// character of `s`, when its code point fits in one byte.
pub open spec fn spec_separator_byte(s: Seq<char>) -> Option<u8> {
    if s.len() > 0 && (s[0] as u32) <= 255 {
        Some((s[0] as u32) as u8)
    } else {
        None
    }
}

/// Convert a decoded workbook under a render request. Returns the overall
/// result, the bytes of the output stream (what was written stays, even
/// when a later sheet fails), and the diagnostic lines, in order.
pub fn run(app: App, wb: Workbook) -> (r: (Result<(), Errors>, Vec<u8>, Vec<String>))
    requires
        wb.wf(),
    ensures
        ({
            let t = spec_run(app@, wb);
            &&& r.1@ == t.1
            &&& r.2.deep_view() == t.2
            &&& match r.0 {
                Ok(_) => t.0 is None,
                Err(e) => t.0 == Some(e@),
            }
        }),
{
    let ghost app0 = app@;
    let ghost wb0 = wb;
    let mut x = XlsToText::new(app, wb);
    let res = x.parse_worksheets();
    proof {
        assert(x.out@ =~= spec_run(app0, wb0).1);
        assert(x.diagnostics.deep_view() =~~= spec_run(app0, wb0).2);
    }
    (res, x.out, x.diagnostics)
}

/// Convert a workbook under the default request: all sheets, tab-separated
/// columns, newline-terminated rows, `-` as the sheet separator, cached
/// values only.
pub fn bench_run(path: &str, wb: Workbook) -> (r: (Result<(), Errors>, Vec<u8>, Vec<String>))
    requires
        wb.wf(),
    ensures
        ({
            let t = spec_run(
                (AppV {
                    path: path@,
                    sheet: "all"@,
                    row_separator: "\n"@,
                    col_separator: "\t"@,
                    sheet_separator: "-"@,
                    formula: FormulaMode::CachedValue,
                }),
                wb,
            );
            &&& r.1@ == t.1
            &&& r.2.deep_view() == t.2
            &&& match r.0 {
                Ok(_) => t.0 is None,
                Err(e) => t.0 == Some(e@),
            }
        }),
{
    let app = App {
        path: path.to_owned(),
        sheet: String::from_str("all"),
        row_separator: String::from_str("\n"),
        col_separator: String::from_str("\t"),
        sheet_separator: String::from_str("-"),
        formula: FormulaMode::CachedValue,
    };
    run(app, wb)
}

} // verus!
