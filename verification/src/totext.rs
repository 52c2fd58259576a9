//! The sheet emitter: drives sheets end-to-end. It resolves each cell
//! through the formula resolver, renders it, assembles delimited records,
//! and appends the inter-sheet separator block, collecting diagnostics on
//! the side.
use vstd::prelude::*;

use crate::app::{App, AppV, FormulaMode};
use crate::errors::{ErrV, Errors};
use crate::render::{
    cell_diag, render_cell, repeat_string, spec_cell_diag, spec_render, spec_repeat,
};
use crate::resolve::{resolve_cell, spec_resolve};
use crate::select::{select_sheets, spec_order};
use crate::spec_separator_byte;
use crate::workbook::{
    spec_first_named, spec_formula_at, CellVal, CellValue, FormulaGrid, FormulaRange, Grid, Sheet,
    ValueRange, Workbook,
};

verus! {

/// The delimited encoding of one record: the fields joined by `delim`,
/// quoted where the delimiters require it, ended by `term`. This names
/// what the record writer of the `csv` crate produces; it depends on the
/// arguments alone.
pub uninterp spec fn csv_record(fields: Seq<Seq<char>>, delim: u8, term: u8) -> Seq<u8>;

/// Relies on csv::WriterBuilder and csv::Writer: `write_record` encodes one
/// record — the fields joined by `delim`, quoted where needed, ended by
/// `term` — into the in-memory buffer, and `into_inner` flushes and returns
/// it. csv reports errors only for records of unequal length (impossible
/// here: each writer writes exactly one record) and for failures of the
/// underlying writer (std documents writing to a `Vec<u8>` as infallible),
/// so the two results are unwrapped.
#[verifier::external_body]
fn encode_record(fields: &Vec<String>, delim: u8, term: u8) -> (r: Vec<u8>)
    ensures
        r@ == csv_record(fields.deep_view(), delim, term),
{
    let mut w = csv::WriterBuilder::new()
        .delimiter(delim)
        .terminator(csv::Terminator::Any(term))
        .from_writer(Vec::new());
    w.write_record(fields.iter().map(|f| f.as_bytes())).unwrap();
    w.into_inner().unwrap()
}

/// Turn a configured separator string into a single delimiter byte: the
/// first character, when its code point fits in one byte.
pub fn separator_to_byte(s: &str) -> (r: Result<u8, Errors>)
    ensures
        match r {
            Ok(b) => spec_separator_byte(s@) == Some(b),
            Err(e) => spec_separator_byte(s@) is None && e@ == ErrV::InvalidSeparator,
        },
{
    if s.is_empty() {
        Err(Errors::InvalidSeparator)
    } else {
        let c = s.get_char(0);
        let u = c as u32;
        if u <= 255 {
            Ok(u as u8)
        } else {
            Err(Errors::InvalidSeparator)
        }
    }
}

/// The formula text consulted for a cell: none at all when the sheet's
/// formula range failed to parse.
pub open spec fn spec_formula_opt(fr: FormulaRange, row: int, col: int) -> Option<Seq<char>> {
    match fr {
        FormulaRange::Parsed(f) => spec_formula_at(f, row, col),
        FormulaRange::Failed(_) => None,
    }
}

/// When the formula range failed to parse, resolution degrades to
/// `CachedValue` behavior for every cell of the sheet.
pub open spec fn spec_effective_mode(mode: FormulaMode, fr: FormulaRange) -> FormulaMode {
    match fr {
        FormulaRange::Failed(_) => FormulaMode::CachedValue,
        _ => mode,
    }
}

/// The value rendered for the cell at absolute (row, col).
pub open spec fn spec_resolved(
    mode: FormulaMode,
    fr: FormulaRange,
    cell: CellVal,
    row: int,
    col: int,
) -> CellVal {
    spec_resolve(spec_effective_mode(mode, fr), cell, spec_formula_opt(fr, row, col))
}

/// The text fields of one data record.
pub open spec fn spec_row_fields(
    mode: FormulaMode,
    fr: FormulaRange,
    row: Seq<CellVal>,
    abs_row: int,
    start_col: int,
) -> Seq<Seq<char>> {
    Seq::new(row.len(), |i: int| spec_render(spec_resolved(mode, fr, row[i], abs_row, start_col + i)))
}

/// The diagnostics one row emits, cell by cell, left to right.
pub open spec fn spec_row_diags(
    mode: FormulaMode,
    fr: FormulaRange,
    row: Seq<CellVal>,
    abs_row: int,
    start_col: int,
) -> Seq<Seq<char>>
    decreases row.len(),
{
    if row.len() == 0 {
        Seq::empty()
    } else {
        let head = match spec_cell_diag(spec_resolved(mode, fr, row[0], abs_row, start_col)) {
            Some(d) => seq![d],
            None => Seq::<Seq<char>>::empty(),
        };
        head + spec_row_diags(mode, fr, row.drop_first(), abs_row, start_col + 1)
    }
}

/// The encoded data records of the first `j` rows of a grid.
pub open spec fn spec_rows_out(
    g: Grid,
    mode: FormulaMode,
    fr: FormulaRange,
    delim: u8,
    term: u8,
    j: int,
) -> Seq<u8>
    decreases j,
{
    if j <= 0 {
        Seq::empty()
    } else {
        spec_rows_out(g, mode, fr, delim, term, j - 1) + csv_record(
            spec_row_fields(
                mode,
                fr,
                g.rows@[j - 1].deep_view(),
                g.start_row + (j - 1),
                g.start_col as int,
            ),
            delim,
            term,
        )
    }
}

/// The diagnostics of the first `j` rows of a grid.
pub open spec fn spec_rows_diags(g: Grid, mode: FormulaMode, fr: FormulaRange, j: int) -> Seq<
    Seq<char>,
>
    decreases j,
{
    if j <= 0 {
        Seq::empty()
    } else {
        spec_rows_diags(g, mode, fr, j - 1) + spec_row_diags(
            mode,
            fr,
            g.rows@[j - 1].deep_view(),
            g.start_row + (j - 1),
            g.start_col as int,
        )
    }
}

/// The trailing separator record of a sheet of the given width: the sheet
/// separator repeated a hundredfold in the first field, every other field
/// empty.
pub open spec fn spec_trailer_fields(width: int, sep: Seq<char>) -> Seq<Seq<char>> {
    Seq::new(
        width as nat,
        |i: int|
            if i == 0 {
                spec_repeat(sep, 100)
            } else {
                Seq::<char>::empty()
            },
    )
}

/// Everything one non-empty sheet writes to the output stream: its data
/// records, then the trailing separator record.
pub open spec fn spec_sheet_output(
    g: Grid,
    mode: FormulaMode,
    fr: FormulaRange,
    delim: u8,
    term: u8,
    sheet_sep: Seq<char>,
) -> Seq<u8> {
    spec_rows_out(g, mode, fr, delim, term, g.height()) + csv_record(
        spec_trailer_fields(g.width(), sheet_sep),
        delim,
        term,
    )
}

/// The one diagnostic a sheet whose formula range failed to parse emits,
/// unless the mode never consults formulas.
pub open spec fn spec_formula_fail_diag(mode: FormulaMode, fr: FormulaRange) -> Seq<Seq<char>> {
    match fr {
        FormulaRange::Failed(e) => {
            if !(mode is CachedValue) {
                seq!["Formula parsing error: "@ + e@]
            } else {
                Seq::empty()
            }
        },
        _ => Seq::empty(),
    }
}

/// What processing one sheet by name adds to the run: the fatal error if
/// any (`None` on success), the bytes appended to the output stream, and
/// the diagnostic lines emitted, in order.
pub open spec fn spec_sheet_outcome(app: AppV, wb: Workbook, name: Seq<char>) -> (
    Option<ErrV>,
    Seq<u8>,
    Seq<Seq<char>>,
) {
    match spec_first_named(wb.sheets@, name) {
        None => (Some(ErrV::NotFound(name)), Seq::empty(), Seq::empty()),
        Some(sheet) => match sheet.values {
            ValueRange::Missing => (Some(ErrV::NotFound(name)), Seq::empty(), Seq::empty()),
            ValueRange::Failed(e) => (Some(ErrV::Spreadsheet(e@)), Seq::empty(), Seq::empty()),
            ValueRange::Blank => (None, Seq::empty(), Seq::empty()),
            ValueRange::Present(g) => {
                let fdiag = spec_formula_fail_diag(app.formula, sheet.formulas);
                match (spec_separator_byte(app.row_separator), spec_separator_byte(
                    app.col_separator,
                )) {
                    (Some(term), Some(delim)) => (
                        None,
                        spec_sheet_output(
                            g,
                            app.formula,
                            sheet.formulas,
                            delim,
                            term,
                            app.sheet_separator,
                        ),
                        fdiag + spec_rows_diags(g, app.formula, sheet.formulas, g.height()),
                    ),
                    _ => (Some(ErrV::InvalidSeparator), Seq::empty(), fdiag),
                }
            },
        },
    }
}

/// What processing a list of sheet names adds to the run, stopping at the
/// first fatal error; output and diagnostics of the sheets already
/// processed remain.
pub open spec fn spec_sheets_outcome(app: AppV, wb: Workbook, names: Seq<Seq<char>>) -> (
    Option<ErrV>,
    Seq<u8>,
    Seq<Seq<char>>,
)
    decreases names.len(),
{
    if names.len() == 0 {
        (None, Seq::empty(), Seq::empty())
    } else {
        let first = spec_sheet_outcome(app, wb, names[0]);
        if first.0 is Some {
            first
        } else {
            let rest = spec_sheets_outcome(app, wb, names.drop_first());
            (rest.0, first.1 + rest.1, first.2 + rest.2)
        }
    }
}

/// The whole conversion: the separators are validated once up front, and a
/// failure there aborts before any sheet is processed; then the sheets the
/// specification selects are processed in order.
pub open spec fn spec_run(app: AppV, wb: Workbook) -> (Option<ErrV>, Seq<u8>, Seq<Seq<char>>) {
    if spec_separator_byte(app.row_separator) is None || spec_separator_byte(
        app.col_separator,
    ) is None {
        (Some(ErrV::InvalidSeparator), Seq::empty(), Seq::empty())
    } else {
        spec_sheets_outcome(app, wb, spec_order(app.sheet, wb.spec_names()))
    }
}

/// Every non-empty sheet's output ends with one trailing separator record
/// of exactly the sheet's width: the configured sheet separator repeated a
/// hundredfold in the first field, every other field empty.
pub proof fn lemma_trailer_record(
    g: Grid,
    mode: FormulaMode,
    fr: FormulaRange,
    delim: u8,
    term: u8,
    sep: Seq<char>,
)
    requires
        g.wf(),
    ensures
        ({
            let tf = spec_trailer_fields(g.width(), sep);
            &&& spec_sheet_output(g, mode, fr, delim, term, sep) == spec_rows_out(
                g,
                mode,
                fr,
                delim,
                term,
                g.height(),
            ) + csv_record(tf, delim, term)
            &&& tf.len() == g.width()
            &&& tf[0] == spec_repeat(sep, 100)
            &&& forall|i: int| 1 <= i < tf.len() ==> tf[i] == Seq::<char>::empty()
        }),
{
}

/// An error-typed cell never aborts its sheet: a selected sheet with a
/// present grid and valid separators always succeeds, whatever its cells
/// hold, with one record per row and one field per cell; an error cell
/// renders as empty text and emits exactly one diagnostic line carrying
/// its error code.
pub proof fn lemma_error_cell_never_aborts(
    app: AppV,
    wb: Workbook,
    name: Seq<char>,
    e: Seq<char>,
    fr: FormulaRange,
    row: Seq<CellVal>,
    abs_row: int,
    start_col: int,
)
    requires
        spec_first_named(wb.sheets@, name) matches Some(sheet) && sheet.values is Present,
        spec_separator_byte(app.row_separator) is Some,
        spec_separator_byte(app.col_separator) is Some,
    ensures
        spec_sheet_outcome(app, wb, name).0 is None,
        spec_render(CellVal::Error(e)) == Seq::<char>::empty(),
        spec_cell_diag(CellVal::Error(e)) == Some("Error: "@ + e),
        spec_row_fields(app.formula, fr, row, abs_row, start_col).len() == row.len(),
{
}

/// First-match search for a sheet by name.
fn find_named(sheets: &Vec<Sheet>, name: &String) -> (r: Option<usize>)
    ensures
        match r {
            Some(i) => i < sheets@.len() && spec_first_named(sheets@, name@) == Some(
                sheets@[i as int],
            ),
            None => spec_first_named(sheets@, name@) is None,
        },
{
    let mut i: usize = 0;
    proof {
        assert(sheets@.skip(0) =~= sheets@);
    }
    while i < sheets.len()
        invariant
            i <= sheets@.len(),
            spec_first_named(sheets@, name@) == spec_first_named(sheets@.skip(i as int), name@),
        decreases sheets@.len() - i,
    {
        proof {
            assert(sheets@.skip(i as int)[0] == sheets@[i as int]);
            assert(sheets@.skip(i as int).drop_first() =~= sheets@.skip(i as int + 1));
        }
        if sheets[i].name == *name {
            return Some(i);
        }
        i = i + 1;
    }
    None
}

/// The conversion driver: the request, the decoded workbook, and what has
/// been produced so far — the output stream's bytes and the diagnostic
/// side channel's lines.
pub struct XlsToText {
    pub app: App,
    pub wb: Workbook,
    pub out: Vec<u8>,
    pub diagnostics: Vec<String>,
}

impl XlsToText {
    /// Begin a conversion: nothing produced yet.
    pub fn new(app: App, wb: Workbook) -> (r: XlsToText)
        ensures
            r.app == app,
            r.wb == wb,
            r.out@ == Seq::<u8>::empty(),
            r.diagnostics.deep_view() == Seq::<Seq<char>>::empty(),
    {
        let r = XlsToText { app, wb, out: Vec::new(), diagnostics: Vec::new() };
        proof {
            assert(r.diagnostics.deep_view() =~~= Seq::<Seq<char>>::empty());
        }
        r
    }

    /// Render one sheet fully: its data records, then the trailing
    /// separator record, appended to the output stream; diagnostics for
    /// error cells and for a failed formula range go to the side channel.
    #[verifier::loop_isolation(false)]
    pub fn parse_worksheet(&mut self, sheet_name: String) -> (r: Result<(), Errors>)
        requires
            old(self).wb.wf(),
        ensures
            ({
                let oc = spec_sheet_outcome(old(self).app@, old(self).wb, sheet_name@);
                &&& final(self).app == old(self).app
                &&& final(self).wb == old(self).wb
                &&& final(self).out@ == old(self).out@ + oc.1
                &&& final(self).diagnostics.deep_view() == old(self).diagnostics.deep_view()
                    + oc.2
                &&& match r {
                    Ok(_) => oc.0 is None,
                    Err(e) => oc.0 == Some(e@),
                }
            }),
    {
        let ghost oc = spec_sheet_outcome(old(self).app@, old(self).wb, sheet_name@);
        let ghost out0 = self.out@;
        let ghost diag0 = self.diagnostics.deep_view();

        let i = match find_named(&self.wb.sheets, &sheet_name) {
            None => {
                proof {
                    assert(self.out@ =~= out0 + oc.1);
                    assert(self.diagnostics.deep_view() =~~= diag0 + oc.2);
                }
                return Err(Errors::NotFound(sheet_name));
            },
            Some(i) => i,
        };
        let ghost sheet = self.wb.sheets@[i as int];
        proof {
            assert(sheet.wf());
        }
        let grid: &Grid = match &self.wb.sheets[i].values {
            ValueRange::Missing => {
                proof {
                    assert(self.out@ =~= out0 + oc.1);
                    assert(self.diagnostics.deep_view() =~~= diag0 + oc.2);
                }
                return Err(Errors::NotFound(sheet_name));
            },
            ValueRange::Failed(e) => {
                let msg = e.clone();
                proof {
                    assert(self.out@ =~= out0 + oc.1);
                    assert(self.diagnostics.deep_view() =~~= diag0 + oc.2);
                }
                return Err(Errors::Spreadsheet(msg));
            },
            ValueRange::Blank => {
                proof {
                    assert(self.out@ =~= out0 + oc.1);
                    assert(self.diagnostics.deep_view() =~~= diag0 + oc.2);
                }
                return Ok(());
            },
            ValueRange::Present(g) => g,
        };
        let ghost g = *grid;
        let ghost fr = sheet.formulas;
        let ghost mode = self.app@.formula;

        let formulas: &FormulaRange = &self.wb.sheets[i].formulas;
        let mut fail_text: Option<String> = None;
        match formulas {
            FormulaRange::Failed(e) => {
                match self.app.formula {
                    FormulaMode::CachedValue => {},
                    _ => {
                        let mut d = String::from_str("Formula parsing error: ");
                        d.append(e.as_str());
                        fail_text = Some(d);
                    },
                }
            },
            FormulaRange::Parsed(_) => {},
        }
        let ghost fdiag = spec_formula_fail_diag(mode, fr);
        match fail_text {
            Some(d) => {
                let ghost before = self.diagnostics.deep_view();
                self.diagnostics.push(d);
                proof {
                    assert(self.diagnostics.deep_view() =~~= before + fdiag);
                }
            },
            None => {
                proof {
                    assert(self.diagnostics.deep_view() =~~= diag0 + fdiag);
                }
            },
        }

        let eff_mode = match formulas {
            FormulaRange::Failed(_) => FormulaMode::CachedValue,
            _ => self.app.formula,
        };
        proof {
            assert(eff_mode == spec_effective_mode(mode, fr));
        }

        let term = match separator_to_byte(self.app.row_separator.as_str()) {
            Ok(b) => b,
            Err(e) => {
                proof {
                    assert(self.out@ =~= out0 + oc.1);
                    assert(self.diagnostics.deep_view() =~~= diag0 + oc.2);
                }
                return Err(e);
            },
        };
        let delim = match separator_to_byte(self.app.col_separator.as_str()) {
            Ok(b) => b,
            Err(e) => {
                proof {
                    assert(self.out@ =~= out0 + oc.1);
                    assert(self.diagnostics.deep_view() =~~= diag0 + oc.2);
                }
                return Err(e);
            },
        };

        let height = grid.rows.len();
        let width = grid.rows[0].len();
        let mut j: usize = 0;
        while j < height
            invariant
                j <= height,
                g.wf(),
                height == g.rows@.len(),
                width == g.rows@[0]@.len(),
                *grid == g,
                *formulas == fr,
                self.app == old(self).app,
                self.wb == old(self).wb,
                mode == old(self).app@.formula,
                eff_mode == spec_effective_mode(mode, fr),
                fdiag == spec_formula_fail_diag(mode, fr),
                self.out@ == out0 + spec_rows_out(g, mode, fr, delim, term, j as int),
                self.diagnostics.deep_view() == diag0 + fdiag + spec_rows_diags(
                    g,
                    mode,
                    fr,
                    j as int,
                ),
            decreases height - j,
        {
            let row: &Vec<CellValue> = &grid.rows[j];
            let ghost rowv = row.deep_view();
            let ghost abs_row = g.start_row + j as int;
            let ghost scol = g.start_col as int;
            let mut fields: Vec<String> = Vec::new();
            let ghost dprefix = self.diagnostics.deep_view();
            let ghost mut added = Seq::<Seq<char>>::empty();
            proof {
                assert(rowv.skip(0) =~= rowv);
                assert(fields.deep_view() =~~= spec_row_fields(mode, fr, rowv, abs_row, scol).take(
                    0,
                ));
            }
            let mut i2: usize = 0;
            while i2 < width
                invariant
                    i2 <= width,
                    g.wf(),
                    j < g.rows@.len(),
                    width == g.rows@[0]@.len(),
                    *grid == g,
                    *formulas == fr,
                    rowv == g.rows@[j as int].deep_view(),
                    width == rowv.len(),
                    abs_row == g.start_row + j as int,
                    scol == g.start_col as int,
                    eff_mode == spec_effective_mode(mode, fr),
                    self.app == old(self).app,
                    self.wb == old(self).wb,
                    self.out@ == out0 + spec_rows_out(g, mode, fr, delim, term, j as int),
                    fields.deep_view() == spec_row_fields(mode, fr, rowv, abs_row, scol).take(
                        i2 as int,
                    ),
                    self.diagnostics.deep_view() == dprefix + added,
                    spec_row_diags(mode, fr, rowv, abs_row, scol) == added + spec_row_diags(
                        mode,
                        fr,
                        rowv.skip(i2 as int),
                        abs_row,
                        scol + i2 as int,
                    ),
                decreases width - i2,
            {
                let cell = &row[i2];
                let abs_r: u64 = grid.start_row as u64 + j as u64;
                let abs_c: u64 = grid.start_col as u64 + i2 as u64;
                let fopt: Option<&String> = match formulas {
                    FormulaRange::Parsed(f) => f.formula_at(abs_r, abs_c),
                    FormulaRange::Failed(_) => None,
                };
                let ghost fspec = spec_formula_opt(fr, abs_row, scol + i2 as int);
                proof {
                    assert(abs_r as int == abs_row);
                    assert(abs_c as int == scol + i2 as int);
                    match fopt {
                        Some(f) => {
                            assert(fspec == Some(f@));
                        },
                        None => {
                            assert(fspec is None);
                        },
                    }
                }
                let resolved = resolve_cell(eff_mode, cell, fopt);
                proof {
                    assert(cell@ == rowv[i2 as int]);
                    assert(resolved@ == spec_resolved(mode, fr, rowv[i2 as int], abs_row, scol
                        + i2 as int));
                }
                let ghost rem = rowv.skip(i2 as int);
                proof {
                    assert(rem[0] == rowv[i2 as int]);
                    assert(rem.drop_first() =~= rowv.skip(i2 as int + 1));
                }
                match cell_diag(&resolved) {
                    Some(d) => {
                        let ghost before = self.diagnostics.deep_view();
                        let ghost dv = d@;
                        self.diagnostics.push(d);
                        proof {
                            assert(self.diagnostics.deep_view() =~~= before + seq![dv]);
                            added = added + seq![dv];
                        }
                    },
                    None => {},
                }
                let ghost fprev = fields.deep_view();
                fields.push(render_cell(&resolved));
                proof {
                    assert(fields.deep_view() =~~= fprev + seq![
                        spec_render(spec_resolved(mode, fr, rowv[i2 as int], abs_row, scol
                            + i2 as int)),
                    ]);
                    assert(fields.deep_view() =~~= spec_row_fields(mode, fr, rowv, abs_row, scol)
                        .take(i2 as int + 1));
                    assert(spec_row_diags(mode, fr, rem, abs_row, scol + i2 as int) == (match
                        spec_cell_diag(spec_resolved(mode, fr, rem[0], abs_row, scol + i2 as int)) {
                        Some(dd) => seq![dd],
                        None => Seq::<Seq<char>>::empty(),
                    }) + spec_row_diags(
                        mode,
                        fr,
                        rowv.skip(i2 as int + 1),
                        abs_row,
                        scol + i2 as int + 1,
                    ));
                    assert(spec_row_diags(mode, fr, rowv, abs_row, scol) =~~= added
                        + spec_row_diags(
                        mode,
                        fr,
                        rowv.skip(i2 as int + 1),
                        abs_row,
                        scol + i2 as int + 1,
                    ));
                }
                i2 = i2 + 1;
            }
            proof {
                assert(spec_row_fields(mode, fr, rowv, abs_row, scol).take(width as int)
                    =~~= spec_row_fields(mode, fr, rowv, abs_row, scol));
                assert(rowv.skip(width as int).len() == 0);
                assert(spec_row_diags(mode, fr, rowv, abs_row, scol) =~~= added);
            }
            let mut rec = encode_record(&fields, delim, term);
            self.out.append(&mut rec);
            proof {
                assert(self.out@ =~= out0 + spec_rows_out(g, mode, fr, delim, term, j as int + 1));
                assert(self.diagnostics.deep_view() =~~= diag0 + fdiag + spec_rows_diags(
                    g,
                    mode,
                    fr,
                    j as int + 1,
                ));
            }
            j = j + 1;
        }

        let mut tfields: Vec<String> = Vec::new();
        tfields.push(repeat_string(&self.app.sheet_separator, 100));
        let ghost sep = self.app@.sheet_separator;
        let mut w2: usize = 1;
        proof {
            assert(tfields.deep_view() =~~= spec_trailer_fields(width as int, sep).take(1));
        }
        while w2 < width
            invariant
                1 <= w2 <= width,
                sep == old(self).app@.sheet_separator,
                tfields.deep_view() == spec_trailer_fields(width as int, sep).take(w2 as int),
            decreases width - w2,
        {
            tfields.push(String::new());
            proof {
                assert(tfields.deep_view() =~~= spec_trailer_fields(width as int, sep).take(
                    w2 as int + 1,
                ));
            }
            w2 = w2 + 1;
        }
        proof {
            assert(tfields.deep_view() =~~= spec_trailer_fields(width as int, sep));
        }
        let mut trec = encode_record(&tfields, delim, term);
        self.out.append(&mut trec);
        proof {
            assert(self.out@ =~= out0 + spec_sheet_output(g, mode, fr, delim, term, sep));
            assert(self.out@ =~= out0 + oc.1);
            assert(self.diagnostics.deep_view() =~~= diag0 + oc.2);
        }
        Ok(())
    }

    /// Process the sheets the specification selects, in their resolved
    /// order, stopping at the first fatal error; what the sheets already
    /// processed wrote remains. The separators are validated once up
    /// front: a failure there aborts before any sheet is processed.
    #[verifier::loop_isolation(false)]
    pub fn parse_worksheets(&mut self) -> (r: Result<(), Errors>)
        requires
            old(self).wb.wf(),
        ensures
            ({
                let t = spec_run(old(self).app@, old(self).wb);
                &&& final(self).app == old(self).app
                &&& final(self).wb == old(self).wb
                &&& final(self).out@ == old(self).out@ + t.1
                &&& final(self).diagnostics.deep_view() == old(self).diagnostics.deep_view()
                    + t.2
                &&& match r {
                    Ok(_) => t.0 is None,
                    Err(e) => t.0 == Some(e@),
                }
            }),
    {
        let ghost t = spec_run(old(self).app@, old(self).wb);
        let ghost app0 = old(self).app@;
        let ghost wb0 = old(self).wb;
        let ghost out0 = self.out@;
        let ghost diag0 = self.diagnostics.deep_view();

        if let Err(e) = separator_to_byte(self.app.row_separator.as_str()) {
            proof {
                assert(self.out@ =~= out0 + t.1);
                assert(self.diagnostics.deep_view() =~~= diag0 + t.2);
            }
            return Err(e);
        }
        if let Err(e) = separator_to_byte(self.app.col_separator.as_str()) {
            proof {
                assert(self.out@ =~= out0 + t.1);
                assert(self.diagnostics.deep_view() =~~= diag0 + t.2);
            }
            return Err(e);
        }

        let mut names: Vec<String> = Vec::new();
        let mut i: usize = 0;
        while i < self.wb.sheets.len()
            invariant
                i <= self.wb.sheets@.len(),
                names@.len() == i,
                self.app == old(self).app,
                self.wb == old(self).wb,
                forall|k: int| 0 <= k < i ==> (#[trigger] names@[k])@ == self.wb.sheets@[k].name@,
            decreases self.wb.sheets@.len() - i,
        {
            names.push(self.wb.sheets[i].name.clone());
            i = i + 1;
        }
        proof {
            assert(names.deep_view() =~~= wb0.spec_names());
        }
        let order = select_sheets(&self.app.sheet, &names);
        let ghost odv = order.deep_view();
        proof {
            assert(odv == spec_order(app0.sheet, wb0.spec_names()));
        }

        let ghost mut sofar_o = Seq::<u8>::empty();
        let ghost mut sofar_d = Seq::<Seq<char>>::empty();
        let mut k: usize = 0;
        proof {
            assert(odv.skip(0) =~~= odv);
            assert(out0 + sofar_o =~= out0);
            assert(diag0 + sofar_d =~~= diag0);
            assert(sofar_o + spec_sheets_outcome(app0, wb0, odv).1 =~= spec_sheets_outcome(
                app0,
                wb0,
                odv,
            ).1);
            assert(sofar_d + spec_sheets_outcome(app0, wb0, odv).2 =~~= spec_sheets_outcome(
                app0,
                wb0,
                odv,
            ).2);
        }
        while k < order.len()
            invariant
                k <= order@.len(),
                self.app == old(self).app,
                self.wb == old(self).wb,
                self.out@ == out0 + sofar_o,
                self.diagnostics.deep_view() == diag0 + sofar_d,
                spec_sheets_outcome(app0, wb0, odv).0 == spec_sheets_outcome(
                    app0,
                    wb0,
                    odv.skip(k as int),
                ).0,
                spec_sheets_outcome(app0, wb0, odv).1 == sofar_o + spec_sheets_outcome(
                    app0,
                    wb0,
                    odv.skip(k as int),
                ).1,
                spec_sheets_outcome(app0, wb0, odv).2 == sofar_d + spec_sheets_outcome(
                    app0,
                    wb0,
                    odv.skip(k as int),
                ).2,
            decreases order@.len() - k,
        {
            let ghost rem = odv.skip(k as int);
            proof {
                assert(rem[0] == odv[k as int]);
                assert(rem.drop_first() =~~= odv.skip(k as int + 1));
                assert(order@[k as int].deep_view() == odv[k as int]);
            }
            let name = order[k].clone();
            proof {
                assert(name@ == odv[k as int]);
            }
            let ghost oc1 = spec_sheet_outcome(app0, wb0, name@);
            let res = self.parse_worksheet(name);
            match res {
                Ok(_) => {
                    proof {
                        let so = sofar_o;
                        let sd = sofar_d;
                        sofar_o = so + oc1.1;
                        sofar_d = sd + oc1.2;
                        assert(self.out@ =~= out0 + sofar_o);
                        assert(self.diagnostics.deep_view() =~~= diag0 + sofar_d);
                        let rest2 = spec_sheets_outcome(app0, wb0, odv.skip(k as int + 1));
                        assert(spec_sheets_outcome(app0, wb0, rem).0 == rest2.0);
                        assert(spec_sheets_outcome(app0, wb0, rem).1 == oc1.1 + rest2.1);
                        assert(spec_sheets_outcome(app0, wb0, rem).2 == oc1.2 + rest2.2);
                        assert(sofar_o + rest2.1 =~= so + (oc1.1 + rest2.1));
                        assert(sofar_d + rest2.2 =~~= sd + (oc1.2 + rest2.2));
                    }
                },
                Err(e) => {
                    proof {
                        assert(spec_sheets_outcome(app0, wb0, rem).0 == oc1.0);
                        assert(spec_sheets_outcome(app0, wb0, rem).1 == oc1.1);
                        assert(spec_sheets_outcome(app0, wb0, rem).2 == oc1.2);
                        assert(self.out@ =~= out0 + (sofar_o + oc1.1));
                        assert(self.diagnostics.deep_view() =~~= diag0 + (sofar_d + oc1.2));
                    }
                    return Err(e);
                },
            }
            k = k + 1;
        }
        proof {
            assert(odv.skip(odv.len() as int).len() == 0);
            assert(t.1 =~= sofar_o);
            assert(t.2 =~~= sofar_d);
        }
        Ok(())
    }
}

} // verus!
