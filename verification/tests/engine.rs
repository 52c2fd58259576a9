use xlstotext::app::{App, FormulaMode};
use xlstotext::errors::Errors;
use xlstotext::run;
use xlstotext::workbook::{
    CellValue, FormulaGrid, FormulaRange, Grid, Sheet, ValueRange, Workbook,
};

fn req(sheet: &str, rs: &str, cs: &str, ss: &str, formula: FormulaMode) -> App {
    App {
        path: String::new(),
        sheet: sheet.to_string(),
        row_separator: rs.to_string(),
        col_separator: cs.to_string(),
        sheet_separator: ss.to_string(),
        formula,
    }
}

fn text(s: &str) -> CellValue {
    CellValue::Text(s.to_string())
}

fn no_formulas() -> FormulaRange {
    FormulaRange::Parsed(FormulaGrid { start_row: 0, start_col: 0, rows: Vec::new() })
}

fn grid_sheet(name: &str, start: (u32, u32), rows: Vec<Vec<CellValue>>) -> Sheet {
    Sheet {
        name: name.to_string(),
        values: ValueRange::Present(Grid { start_row: start.0, start_col: start.1, rows }),
        formulas: no_formulas(),
    }
}

/// The trailing separator record of a sheet: `ss` a hundredfold, then
/// `width - 1` empty fields, joined by `cs`, ended by `rs`.
fn trailer(ss: &str, cs: &str, rs: &str, width: usize) -> String {
    let mut t = ss.repeat(100);
    for _ in 1..width {
        t.push_str(cs);
    }
    t.push_str(rs);
    t
}

fn out_string(out: Vec<u8>) -> String {
    String::from_utf8(out).unwrap()
}

fn three_sheet_workbook() -> Workbook {
    Workbook {
        sheets: vec![
            grid_sheet("Alpha", (0, 0), vec![vec![text("A1")]]),
            grid_sheet("Beta", (0, 0), vec![vec![text("B1")]]),
            grid_sheet("Gamma", (0, 0), vec![vec![text("C1")]]),
        ],
    }
}

fn one_sheet_output(cell: &str) -> String {
    format!("{cell}\n{}", trailer("-", ",", "\n", 1))
}

#[test]
fn round_trip_cached_value() {
    let wb = Workbook {
        sheets: vec![grid_sheet(
            "Sheet1",
            (0, 0),
            vec![
                vec![CellValue::Int(1), text("a")],
                vec![text(""), CellValue::Number("2.5".to_string())],
            ],
        )],
    };
    let (res, out, diags) = run(req("all", "\n", ",", "-", FormulaMode::CachedValue), wb);
    assert!(res.is_ok());
    assert_eq!(out_string(out), format!("1,a\n,2.5\n{}", trailer("-", ",", "\n", 2)));
    assert!(diags.is_empty());
}

#[test]
fn numeric_spec_selects_sheets_in_token_order() {
    let (res, out, _) = run(
        req("1,3", "\n", ",", "-", FormulaMode::CachedValue),
        three_sheet_workbook(),
    );
    assert!(res.is_ok());
    assert_eq!(out_string(out), format!("{}{}", one_sheet_output("A1"), one_sheet_output("C1")));
}

#[test]
fn invalid_tokens_are_silently_skipped() {
    let (res, out, _) = run(
        req("1,foo,3", "\n", ",", "-", FormulaMode::CachedValue),
        three_sheet_workbook(),
    );
    assert!(res.is_ok());
    assert_eq!(out_string(out), format!("{}{}", one_sheet_output("A1"), one_sheet_output("C1")));
}

#[test]
fn all_spec_processes_every_sheet_in_order() {
    let (res, out, _) = run(
        req("all", "\n", ",", "-", FormulaMode::CachedValue),
        three_sheet_workbook(),
    );
    assert!(res.is_ok());
    assert_eq!(
        out_string(out),
        format!("{}{}{}", one_sheet_output("A1"), one_sheet_output("B1"), one_sheet_output("C1"))
    );
}

#[test]
fn spec_without_valid_tokens_falls_back_to_every_sheet() {
    let (res, out, _) = run(
        req("Beta,7", "\n", ",", "-", FormulaMode::CachedValue),
        three_sheet_workbook(),
    );
    assert!(res.is_ok());
    assert_eq!(
        out_string(out),
        format!("{}{}{}", one_sheet_output("A1"), one_sheet_output("B1"), one_sheet_output("C1"))
    );
}

#[test]
fn duplicate_indices_process_a_sheet_twice() {
    let (res, out, _) = run(
        req("2,2", "\n", ",", "-", FormulaMode::CachedValue),
        three_sheet_workbook(),
    );
    assert!(res.is_ok());
    assert_eq!(out_string(out), format!("{}{}", one_sheet_output("B1"), one_sheet_output("B1")));
}

#[test]
fn index_zero_is_skipped_like_an_invalid_token() {
    let (res, out, _) = run(
        req("0", "\n", ",", "-", FormulaMode::CachedValue),
        three_sheet_workbook(),
    );
    assert!(res.is_ok());
    assert_eq!(
        out_string(out),
        format!("{}{}{}", one_sheet_output("A1"), one_sheet_output("B1"), one_sheet_output("C1"))
    );
}

#[test]
fn index_zero_does_not_disturb_valid_tokens() {
    let (res, out, _) = run(
        req("0,2", "\n", ",", "-", FormulaMode::CachedValue),
        three_sheet_workbook(),
    );
    assert!(res.is_ok());
    assert_eq!(out_string(out), one_sheet_output("B1"));
}

#[test]
fn error_cell_never_aborts_the_sheet() {
    let wb = Workbook {
        sheets: vec![grid_sheet(
            "S",
            (0, 0),
            vec![
                vec![CellValue::Error("#DIV/0!".to_string()), CellValue::Int(2)],
                vec![CellValue::Int(3), CellValue::Int(4)],
            ],
        )],
    };
    let (res, out, diags) = run(req("all", "\n", ",", "-", FormulaMode::CachedValue), wb);
    assert!(res.is_ok());
    assert_eq!(out_string(out), format!(",2\n3,4\n{}", trailer("-", ",", "\n", 2)));
    assert_eq!(diags, vec!["Error: #DIV/0!".to_string()]);
}

#[test]
fn trailer_record_has_the_sheet_width() {
    let wb = Workbook {
        sheets: vec![grid_sheet("S", (0, 0), vec![vec![text("x"), text("y"), text("z")]])],
    };
    let (res, out, _) = run(req("all", "\n", ",", "-", FormulaMode::CachedValue), wb);
    assert!(res.is_ok());
    assert_eq!(out_string(out), format!("x,y,z\n{}", trailer("-", ",", "\n", 3)));
}

#[test]
fn fields_holding_the_delimiter_are_quoted() {
    let wb = Workbook { sheets: vec![grid_sheet("S", (0, 0), vec![vec![text("a,b"), text("c")]])] };
    let (res, out, _) = run(req("all", "\n", ",", "-", FormulaMode::CachedValue), wb);
    assert!(res.is_ok());
    assert_eq!(out_string(out), format!("\"a,b\",c\n{}", trailer("-", ",", "\n", 2)));
}

#[test]
fn sole_empty_field_is_quoted() {
    let wb = Workbook { sheets: vec![grid_sheet("S", (0, 0), vec![vec![CellValue::Empty]])] };
    let (res, out, _) = run(req("all", "\n", ",", "-", FormulaMode::CachedValue), wb);
    assert!(res.is_ok());
    assert_eq!(out_string(out), format!("\"\"\n{}", trailer("-", ",", "\n", 1)));
}

fn formula_sheet(mode_rows: Vec<Vec<CellValue>>, frows: Vec<Vec<&str>>) -> Workbook {
    let formulas = FormulaGrid {
        start_row: 0,
        start_col: 0,
        rows: frows.into_iter().map(|r| r.into_iter().map(|s| s.to_string()).collect()).collect(),
    };
    Workbook {
        sheets: vec![Sheet {
            name: "S".to_string(),
            values: ValueRange::Present(Grid { start_row: 0, start_col: 0, rows: mode_rows }),
            formulas: FormulaRange::Parsed(formulas),
        }],
    }
}

#[test]
fn if_empty_fills_empty_cells_from_the_formula_grid() {
    let wb = formula_sheet(
        vec![vec![CellValue::Empty, text("v")]],
        vec![vec!["=F1", "=F2"]],
    );
    let (res, out, diags) = run(req("all", "\n", ",", "-", FormulaMode::IfEmpty), wb);
    assert!(res.is_ok());
    assert_eq!(out_string(out), format!("=F1,v\n{}", trailer("-", ",", "\n", 2)));
    assert!(diags.is_empty());
}

#[test]
fn always_replaces_every_cell_that_has_a_formula() {
    let wb = formula_sheet(
        vec![vec![CellValue::Int(7), text("v")]],
        vec![vec!["=F1", "=F2"]],
    );
    let (res, out, _) = run(req("all", "\n", ",", "-", FormulaMode::Always), wb);
    assert!(res.is_ok());
    assert_eq!(out_string(out), format!("=F1,=F2\n{}", trailer("-", ",", "\n", 2)));
}

#[test]
fn cached_value_never_consults_the_formula_grid() {
    let wb = formula_sheet(
        vec![vec![CellValue::Empty, text("v")]],
        vec![vec!["=F1", "=F2"]],
    );
    let (res, out, _) = run(req("all", "\n", ",", "-", FormulaMode::CachedValue), wb);
    assert!(res.is_ok());
    assert_eq!(out_string(out), format!(",v\n{}", trailer("-", ",", "\n", 2)));
}

#[test]
fn formula_lookup_follows_the_grids_absolute_offsets() {
    let formulas =
        FormulaGrid { start_row: 2, start_col: 5, rows: vec![vec!["=HIT".to_string()]] };
    let wb = Workbook {
        sheets: vec![Sheet {
            name: "S".to_string(),
            values: ValueRange::Present(Grid {
                start_row: 2,
                start_col: 5,
                rows: vec![vec![CellValue::Empty, CellValue::Empty]],
            }),
            formulas: FormulaRange::Parsed(formulas),
        }],
    };
    let (res, out, _) = run(req("all", "\n", ",", "-", FormulaMode::IfEmpty), wb);
    assert!(res.is_ok());
    assert_eq!(out_string(out), format!("=HIT,\n{}", trailer("-", ",", "\n", 2)));
}

#[test]
fn failed_formula_range_degrades_to_cached_values_with_one_diagnostic() {
    let wb = Workbook {
        sheets: vec![Sheet {
            name: "S".to_string(),
            values: ValueRange::Present(Grid {
                start_row: 0,
                start_col: 0,
                rows: vec![vec![CellValue::Empty, text("v")]],
            }),
            formulas: FormulaRange::Failed("boom".to_string()),
        }],
    };
    let (res, out, diags) = run(req("all", "\n", ",", "-", FormulaMode::IfEmpty), wb);
    assert!(res.is_ok());
    assert_eq!(out_string(out), format!(",v\n{}", trailer("-", ",", "\n", 2)));
    assert_eq!(diags, vec!["Formula parsing error: boom".to_string()]);
}

#[test]
fn failed_formula_range_is_silent_under_cached_value() {
    let wb = Workbook {
        sheets: vec![Sheet {
            name: "S".to_string(),
            values: ValueRange::Present(Grid {
                start_row: 0,
                start_col: 0,
                rows: vec![vec![text("v")]],
            }),
            formulas: FormulaRange::Failed("boom".to_string()),
        }],
    };
    let (res, out, diags) = run(req("all", "\n", ",", "-", FormulaMode::CachedValue), wb);
    assert!(res.is_ok());
    assert_eq!(out_string(out), one_sheet_output("v"));
    assert!(diags.is_empty());
}

#[test]
fn missing_sheet_reports_not_found_and_keeps_earlier_output() {
    let wb = Workbook {
        sheets: vec![
            grid_sheet("Good", (0, 0), vec![vec![text("g")]]),
            Sheet { name: "Bad".to_string(), values: ValueRange::Missing, formulas: no_formulas() },
        ],
    };
    let (res, out, _) = run(req("all", "\n", ",", "-", FormulaMode::CachedValue), wb);
    assert!(matches!(res, Err(Errors::NotFound(ref n)) if n == "Bad"));
    assert_eq!(out_string(out), one_sheet_output("g"));
}

#[test]
fn failed_sheet_surfaces_the_decoder_error_verbatim() {
    let wb = Workbook {
        sheets: vec![
            grid_sheet("Good", (0, 0), vec![vec![text("g")]]),
            Sheet {
                name: "Broken".to_string(),
                values: ValueRange::Failed("cell out of bounds".to_string()),
                formulas: no_formulas(),
            },
        ],
    };
    let (res, out, _) = run(req("all", "\n", ",", "-", FormulaMode::CachedValue), wb);
    assert!(matches!(res, Err(Errors::Spreadsheet(ref m)) if m == "cell out of bounds"));
    assert!(matches!(&res, Err(e) if e.message() == "cell out of bounds"));
    assert_eq!(out_string(out), one_sheet_output("g"));
}

#[test]
fn blank_sheet_produces_no_output_at_all() {
    let wb = Workbook {
        sheets: vec![
            Sheet { name: "Empty".to_string(), values: ValueRange::Blank, formulas: no_formulas() },
            grid_sheet("Full", (0, 0), vec![vec![text("f")]]),
        ],
    };
    let (res, out, diags) = run(req("all", "\n", ",", "-", FormulaMode::CachedValue), wb);
    assert!(res.is_ok());
    assert_eq!(out_string(out), one_sheet_output("f"));
    assert!(diags.is_empty());
}

#[test]
fn invalid_row_separator_aborts_before_any_row() {
    let wb = three_sheet_workbook();
    let (res, out, _) = run(req("all", "\u{2192}", ",", "-", FormulaMode::CachedValue), wb);
    assert!(matches!(res, Err(Errors::InvalidSeparator)));
    assert!(out.is_empty());
}

#[test]
fn invalid_column_separator_aborts_before_any_row() {
    let wb = three_sheet_workbook();
    let (res, out, _) = run(req("all", "\n", "", "-", FormulaMode::CachedValue), wb);
    assert!(matches!(res, Err(Errors::InvalidSeparator)));
    assert!(out.is_empty());
}

#[test]
fn tab_and_newline_defaults_delimit_records() {
    let wb = Workbook {
        sheets: vec![grid_sheet("S", (0, 0), vec![vec![text("a"), text("b")]])],
    };
    let (res, out, _) = run(req("all", "\n", "\t", "=", FormulaMode::CachedValue), wb);
    assert!(res.is_ok());
    assert_eq!(out_string(out), format!("a\tb\n{}", trailer("=", "\t", "\n", 2)));
}

#[test]
fn workbook_without_sheets_succeeds_with_no_output() {
    let wb = Workbook { sheets: Vec::new() };
    let (res, out, diags) = run(req("all", "\n", ",", "-", FormulaMode::CachedValue), wb);
    assert!(res.is_ok());
    assert!(out.is_empty());
    assert!(diags.is_empty());
}

#[test]
fn bench_run_uses_the_default_request() {
    let wb = Workbook {
        sheets: vec![grid_sheet("S", (0, 0), vec![vec![text("a"), text("b")]])],
    };
    let (res, out, _) = xlstotext::bench_run("ignored.xlsx", wb);
    assert!(res.is_ok());
    assert_eq!(out_string(out), format!("a\tb\n{}", trailer("-", "\t", "\n", 2)));
}

#[test]
fn invalid_separator_aborts_before_any_sheet_is_processed() {
    let wb = Workbook {
        sheets: vec![Sheet {
            name: "OnlyBlank".to_string(),
            values: ValueRange::Blank,
            formulas: no_formulas(),
        }],
    };
    let (res, out, diags) = run(req("all", "\n", "", "-", FormulaMode::CachedValue), wb);
    assert!(matches!(res, Err(Errors::InvalidSeparator)));
    assert!(out.is_empty());
    assert!(diags.is_empty());
}
