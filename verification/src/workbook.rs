//! In-memory model of a decoded workbook: sheet names, per-sheet value
//! grids and per-sheet formula grids. The decoder fills this model; the
//! engine only reads it.
use vstd::prelude::*;

verus! {

/// One spreadsheet cell, as the decoder hands it over. Values whose
/// canonical text the decoder already fixed (floating-point numbers,
/// dates, durations) arrive as `Number` carrying that text.
pub enum CellValue {
    Empty,
    Bool(bool),
    Int(i64),
    /// A numeric, date or duration cell, already in its canonical text form.
    Number(String),
    /// A string cell, kept verbatim.
    Text(String),
    /// An error cell; the payload is the error code's display text.
    Error(String),
}

/// The mathematical value of a cell: what contracts speak about.
pub enum CellVal {
    Empty,
    Bool(bool),
    Int(int),
    Number(Seq<char>),
    Text(Seq<char>),
    Error(Seq<char>),
}

impl View for CellValue {
    type V = CellVal;

    open spec fn view(&self) -> CellVal {
        match self {
            CellValue::Empty => CellVal::Empty,
            CellValue::Bool(b) => CellVal::Bool(*b),
            CellValue::Int(i) => CellVal::Int(*i as int),
            CellValue::Number(s) => CellVal::Number(s@),
            CellValue::Text(s) => CellVal::Text(s@),
            CellValue::Error(s) => CellVal::Error(s@),
        }
    }
}

impl DeepView for CellValue {
    type V = CellVal;

    open spec fn deep_view(&self) -> CellVal {
        self.view()
    }
}

/// A sheet's cell grid: dense rows, all of the declared width, placed at
/// an absolute start coordinate (sheets need not start at (0, 0)).
pub struct Grid {
    pub start_row: u32,
    pub start_col: u32,
    pub rows: Vec<Vec<CellValue>>,
}

impl Grid {
    pub open spec fn height(self) -> int {
        self.rows@.len() as int
    }

    pub open spec fn width(self) -> int {
        self.rows@[0]@.len() as int
    }

    /// Shape the decoder guarantees: at least one row, uniform positive
    /// width, and extents that fit the spreadsheet coordinate space.
    pub open spec fn wf(self) -> bool {
        &&& self.height() >= 1
        &&& self.width() >= 1
        &&& self.height() <= u32::MAX
        &&& self.width() <= u32::MAX
        &&& forall|i: int|
            0 <= i < self.height() ==> (#[trigger] self.rows@[i])@.len() == self.width()
    }
}

/// What fetching a sheet's value range yields.
pub enum ValueRange {
    /// The decoder has no range under this name: reported as not found.
    Missing,
    /// The decoder failed to read the sheet; the payload is its message,
    /// surfaced verbatim as a fatal error.
    Failed(String),
    /// The sheet exists but has no start coordinate: genuinely empty.
    Blank,
    /// A non-empty grid of cells.
    Present(Grid),
}

/// A sheet's formula grid: rows of formula text, aligned to the same
/// absolute coordinate space as the value grid. A cell without a formula
/// holds the empty string.
pub struct FormulaGrid {
    pub start_row: u32,
    pub start_col: u32,
    pub rows: Vec<Vec<String>>,
}

impl FormulaGrid {
    pub open spec fn wf(self) -> bool {
        &&& self.rows@.len() <= u32::MAX
        &&& forall|i: int|
            0 <= i < self.rows@.len() ==> (#[trigger] self.rows@[i])@.len() <= u32::MAX
    }
}

/// The formula text stored at an absolute coordinate, if the coordinate
/// falls inside the grid.
pub open spec fn spec_formula_at(f: FormulaGrid, row: int, col: int) -> Option<Seq<char>> {
    let r = row - f.start_row;
    let c = col - f.start_col;
    if 0 <= r < f.rows@.len() && 0 <= c < f.rows@[r]@.len() {
        Some(f.rows@[r]@[c]@)
    } else {
        None
    }
}

impl FormulaGrid {
    /// Look up the formula text at an absolute (row, column) coordinate.
    pub fn formula_at(&self, row: u64, col: u64) -> (r: Option<&String>)
        ensures
            match r {
                Some(s) => spec_formula_at(*self, row as int, col as int) == Some(s@),
                None => spec_formula_at(*self, row as int, col as int) is None,
            },
    {
        if row >= self.start_row as u64 && row - (self.start_row as u64) < self.rows.len() as u64 {
            let i: usize = (row - self.start_row as u64) as usize;
            let line: &Vec<String> = &self.rows[i];
            if col >= self.start_col as u64 && col - (self.start_col as u64) < line.len() as u64 {
                let j: usize = (col - self.start_col as u64) as usize;
                Some(&line[j])
            } else {
                None
            }
        } else {
            None
        }
    }
}

/// What fetching a sheet's formula range yields: the grid, or the text of
/// the decoder's failure report for that sheet.
pub enum FormulaRange {
    Parsed(FormulaGrid),
    Failed(String),
}

/// One decoded sheet.
pub struct Sheet {
    pub name: String,
    pub values: ValueRange,
    pub formulas: FormulaRange,
}

impl Sheet {
    pub open spec fn wf(self) -> bool {
        &&& match self.values {
            ValueRange::Present(g) => g.wf(),
            _ => true,
        }
        &&& match self.formulas {
            FormulaRange::Parsed(f) => f.wf(),
            _ => true,
        }
    }
}

/// A decoded workbook: its sheets, in native order.
pub struct Workbook {
    pub sheets: Vec<Sheet>,
}

impl Workbook {
    pub open spec fn wf(self) -> bool {
        forall|i: int| 0 <= i < self.sheets@.len() ==> (#[trigger] self.sheets@[i]).wf()
    }

    /// The workbook's sheet names, in native order.
    pub open spec fn spec_names(self) -> Seq<Seq<char>> {
        Seq::new(self.sheets@.len(), |i: int| self.sheets@[i].name@)
    }

    /// The first sheet carrying the given name, if any.
    pub open spec fn spec_sheet_named(self, name: Seq<char>) -> Option<Sheet> {
        spec_first_named(self.sheets@, name)
    }
}

/// First-match lookup by name over a sequence of sheets.
pub open spec fn spec_first_named(sheets: Seq<Sheet>, name: Seq<char>) -> Option<Sheet>
    decreases sheets.len(),
{
    if sheets.len() == 0 {
        None
    } else if sheets[0].name@ == name {
        Some(sheets[0])
    } else {
        spec_first_named(sheets.drop_first(), name)
    }
}

} // verus!
