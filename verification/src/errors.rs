//! The fatal error taxonomy of the conversion. Cell-level and per-sheet
//! formula failures are not here: those degrade to diagnostics instead.
use vstd::prelude::*;

verus! {

/// A fatal error of the conversion. Variants reserved for the decoder or
/// the output stream carry that collaborator's message as plain text.
#[derive(Debug)]
pub enum Errors {
    InvalidSeparator,
    MissingSeparator,
    Empty,
    NotFound(String),
    Csv(String),
    Spreadsheet(String),
    CellError(String),
}

/// The mathematical value of an error.
pub enum ErrV {
    InvalidSeparator,
    MissingSeparator,
    Empty,
    NotFound(Seq<char>),
    Csv(Seq<char>),
    Spreadsheet(Seq<char>),
    CellError(Seq<char>),
}

impl View for Errors {
    type V = ErrV;

    open spec fn view(&self) -> ErrV {
        match self {
            Errors::InvalidSeparator => ErrV::InvalidSeparator,
            Errors::MissingSeparator => ErrV::MissingSeparator,
            Errors::Empty => ErrV::Empty,
            Errors::NotFound(s) => ErrV::NotFound(s@),
            Errors::Csv(s) => ErrV::Csv(s@),
            Errors::Spreadsheet(s) => ErrV::Spreadsheet(s@),
            Errors::CellError(s) => ErrV::CellError(s@),
        }
    }
}

/// The single human-readable message reported for a fatal error.
pub open spec fn spec_message(e: ErrV) -> Seq<char> {
    match e {
        ErrV::Empty => "Empty spreadsheet"@,
        ErrV::NotFound(s) => "Could not find sheet \""@ + s + "\" in spreadsheet"@,
        ErrV::InvalidSeparator => "A provided separator is invalid, separators need to be a single ascii chacter"@,
        ErrV::MissingSeparator => "No separator found"@,
        ErrV::Csv(s) => s,
        ErrV::Spreadsheet(s) => s,
        ErrV::CellError(s) => "Error found in cell ("@ + s + ")"@,
    }
}

impl Errors {
    /// Render this error as its human-readable message.
    pub fn message(&self) -> (r: String)
        ensures
            r@ == spec_message(self@),
    {
        match self {
            Errors::Empty => String::from_str("Empty spreadsheet"),
            Errors::NotFound(s) => {
                let mut m = String::from_str("Could not find sheet \"");
                m.append(s.as_str());
                m.append("\" in spreadsheet");
                m
            },
            Errors::InvalidSeparator => String::from_str(
                "A provided separator is invalid, separators need to be a single ascii chacter",
            ),
            Errors::MissingSeparator => String::from_str("No separator found"),
            Errors::Csv(s) => s.clone(),
            Errors::Spreadsheet(s) => s.clone(),
            Errors::CellError(s) => {
                let mut m = String::from_str("Error found in cell (");
                m.append(s.as_str());
                m.append(")");
                m
            },
        }
    }
}

} // verus!
