//! The cell renderer: maps one resolved cell value to the text fragment
//! placed in the output row, and decides which cells yield a diagnostic.
use vstd::prelude::*;

use crate::workbook::{CellVal, CellValue};

verus! {

/// The decimal digit character for `d`.
pub open spec fn spec_digit_char(d: int) -> char {
    if d == 0 {
        '0'
    } else if d == 1 {
        '1'
    } else if d == 2 {
        '2'
    } else if d == 3 {
        '3'
    } else if d == 4 {
        '4'
    } else if d == 5 {
        '5'
    } else if d == 6 {
        '6'
    } else if d == 7 {
        '7'
    } else if d == 8 {
        '8'
    } else {
        '9'
    }
}

/// The decimal digit string of a non-negative integer, most significant
/// digit first, without leading zeros (except for zero itself).
pub open spec fn spec_nat_string(n: int) -> Seq<char>
    recommends
        n >= 0,
    decreases n,
{
    if n <= 9 {
        seq![spec_digit_char(n)]
    } else {
        spec_nat_string(n / 10) + seq![spec_digit_char(n % 10)]
    }
}

/// The canonical decimal text of an integer: a minus sign for negative
/// values, then the digits.
pub open spec fn spec_int_string(i: int) -> Seq<char> {
    if i < 0 {
        seq!['-'] + spec_nat_string(-i)
    } else {
        spec_nat_string(i)
    }
}

fn digit_str(d: u64) -> (r: &'static str)
    requires
        d <= 9,
    ensures
        r@ == seq![spec_digit_char(d as int)],
{
    if d == 0 {
        proof {
            reveal_strlit("0");
        }
        assert("0"@ =~= seq![spec_digit_char(0)]);
        "0"
    } else if d == 1 {
        proof {
            reveal_strlit("1");
        }
        assert("1"@ =~= seq![spec_digit_char(1)]);
        "1"
    } else if d == 2 {
        proof {
            reveal_strlit("2");
        }
        assert("2"@ =~= seq![spec_digit_char(2)]);
        "2"
    } else if d == 3 {
        proof {
            reveal_strlit("3");
        }
        assert("3"@ =~= seq![spec_digit_char(3)]);
        "3"
    } else if d == 4 {
        proof {
            reveal_strlit("4");
        }
        assert("4"@ =~= seq![spec_digit_char(4)]);
        "4"
    } else if d == 5 {
        proof {
            reveal_strlit("5");
        }
        assert("5"@ =~= seq![spec_digit_char(5)]);
        "5"
    } else if d == 6 {
        proof {
            reveal_strlit("6");
        }
        assert("6"@ =~= seq![spec_digit_char(6)]);
        "6"
    } else if d == 7 {
        proof {
            reveal_strlit("7");
        }
        assert("7"@ =~= seq![spec_digit_char(7)]);
        "7"
    } else if d == 8 {
        proof {
            reveal_strlit("8");
        }
        assert("8"@ =~= seq![spec_digit_char(8)]);
        "8"
    } else {
        proof {
            reveal_strlit("9");
        }
        assert("9"@ =~= seq![spec_digit_char(9)]);
        "9"
    }
}

fn u64_string(n: u64) -> (r: String)
    ensures
        r@ == spec_nat_string(n as int),
    decreases n,
{
    if n <= 9 {
        String::from_str(digit_str(n))
    } else {
        let mut s = u64_string(n / 10);
        s.append(digit_str(n % 10));
        s
    }
}

/// Render an integer cell to its canonical decimal text.
pub fn i64_string(i: i64) -> (r: String)
    ensures
        r@ == spec_int_string(i as int),
{
    if i >= 0 {
        u64_string(i as u64)
    } else {
        let m: u64 = ((-(i + 1)) as u64) + 1;
        assert(m as int == -(i as int));
        let mut s = String::from_str("-");
        s.append(u64_string(m).as_str());
        proof {
            reveal_strlit("-");
        }
        assert("-"@ =~= seq!['-']);
        s
    }
}

/// `s` repeated `n` times.
pub open spec fn spec_repeat(s: Seq<char>, n: int) -> Seq<char>
    decreases n,
{
    if n <= 0 {
        Seq::empty()
    } else {
        spec_repeat(s, n - 1) + s
    }
}

/// Concatenate `n` copies of `s`.
pub fn repeat_string(s: &String, n: u64) -> (r: String)
    ensures
        r@ == spec_repeat(s@, n as int),
{
    let mut r = String::new();
    let mut i: u64 = 0;
    while i < n
        invariant
            i <= n,
            r@ == spec_repeat(s@, i as int),
        decreases n - i,
    {
        r.append(s.as_str());
        i = i + 1;
    }
    r
}

/// The text a resolved cell contributes to its record: empty for empty and
/// error cells, verbatim for strings, canonical text otherwise.
pub open spec fn spec_render(c: CellVal) -> Seq<char> {
    match c {
        CellVal::Empty => Seq::empty(),
        CellVal::Bool(b) => if b {
            "true"@
        } else {
            "false"@
        },
        CellVal::Int(i) => spec_int_string(i),
        CellVal::Number(s) => s,
        CellVal::Text(s) => s,
        CellVal::Error(_) => Seq::empty(),
    }
}

/// The diagnostic a resolved cell emits: one line naming the error code
/// for an error cell, nothing for every other cell.
pub open spec fn spec_cell_diag(c: CellVal) -> Option<Seq<char>> {
    match c {
        CellVal::Error(e) => Some("Error: "@ + e),
        _ => None,
    }
}

/// Render one resolved cell to its text fragment.
pub fn render_cell(c: &CellValue) -> (r: String)
    ensures
        r@ == spec_render(c@),
{
    match c {
        CellValue::Empty => String::new(),
        CellValue::Bool(b) => {
            if *b {
                String::from_str("true")
            } else {
                String::from_str("false")
            }
        },
        CellValue::Int(i) => i64_string(*i),
        CellValue::Number(s) => s.clone(),
        CellValue::Text(s) => s.clone(),
        CellValue::Error(_) => String::new(),
    }
}

/// The diagnostic for one resolved cell, if it is an error cell.
pub fn cell_diag(c: &CellValue) -> (r: Option<String>)
    ensures
        match r {
            Some(d) => spec_cell_diag(c@) == Some(d@),
            None => spec_cell_diag(c@) is None,
        },
{
    match c {
        CellValue::Error(e) => {
            let mut d = String::from_str("Error: ");
            d.append(e.as_str());
            Some(d)
        },
        _ => None,
    }
}

} // verus!
