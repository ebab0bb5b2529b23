//! The library's errors and the diagnostics of its parsers.

use crate::text::{cat2, decimal, decimal_u64};
use vstd::prelude::*;

verus! {

/// What can go wrong in the library. Each message is held without its prefix.
#[derive(Debug)]
pub enum NanoError {
    Parse(String),
    Catalog(String),
    Storage(String),
    Plan(String),
    Execution(String),
    Lance(String),
    Manifest(String),
    Io(String),
    UniqueConstraint {
        type_label: String,
        property: String,
        value: String,
        first_row: u64,
        second_row: u64,
    },
}

/// The mathematical value of a `NanoError`.
pub enum ErrorModel {
    Parse(Seq<char>),
    Catalog(Seq<char>),
    Storage(Seq<char>),
    Plan(Seq<char>),
    Execution(Seq<char>),
    Lance(Seq<char>),
    Manifest(Seq<char>),
    Io(Seq<char>),
    UniqueConstraint {
        type_label: Seq<char>,
        property: Seq<char>,
        value: Seq<char>,
        first_row: nat,
        second_row: nat,
    },
}

impl View for NanoError {
    type V = ErrorModel;

    open spec fn view(&self) -> ErrorModel {
        match *self {
            NanoError::Parse(m) => ErrorModel::Parse(m@),
            NanoError::Catalog(m) => ErrorModel::Catalog(m@),
            NanoError::Storage(m) => ErrorModel::Storage(m@),
            NanoError::Plan(m) => ErrorModel::Plan(m@),
            NanoError::Execution(m) => ErrorModel::Execution(m@),
            NanoError::Lance(m) => ErrorModel::Lance(m@),
            NanoError::Manifest(m) => ErrorModel::Manifest(m@),
            NanoError::Io(m) => ErrorModel::Io(m@),
            NanoError::UniqueConstraint { type_label, property, value, first_row, second_row } =>
            ErrorModel::UniqueConstraint {
                type_label: type_label@,
                property: property@,
                value: value@,
                first_row: first_row as nat,
                second_row: second_row as nat,
            },
        }
    }
}

/// The text shown for an error.
pub open spec fn error_text(e: ErrorModel) -> Seq<char> {
    match e {
        ErrorModel::Parse(m) => "parse error: "@ + m,
        ErrorModel::Catalog(m) => "catalog error: "@ + m,
        ErrorModel::Storage(m) => "storage error: "@ + m,
        ErrorModel::Plan(m) => "plan error: "@ + m,
        ErrorModel::Execution(m) => "execution error: "@ + m,
        ErrorModel::Lance(m) => "lance error: "@ + m,
        ErrorModel::Manifest(m) => "manifest error: "@ + m,
        ErrorModel::Io(m) => "io error: "@ + m,
        ErrorModel::UniqueConstraint { type_label, property, value, first_row, second_row } =>
        "@unique constraint violation on "@ + type_label + "."@ + property + ": duplicate value '"@
            + value + "' at rows "@ + decimal(first_row) + " and "@ + decimal(second_row),
    }
}

impl NanoError {
    /// The text shown for the error.
    pub fn to_string(&self) -> (r: String)
        ensures
            r@ == error_text(self@),
    {
        match self {
            NanoError::Parse(m) => cat2("parse error: ", m),
            NanoError::Catalog(m) => cat2("catalog error: ", m),
            NanoError::Storage(m) => cat2("storage error: ", m),
            NanoError::Plan(m) => cat2("plan error: ", m),
            NanoError::Execution(m) => cat2("execution error: ", m),
            NanoError::Lance(m) => cat2("lance error: ", m),
            NanoError::Manifest(m) => cat2("manifest error: ", m),
            NanoError::Io(m) => cat2("io error: ", m),
            NanoError::UniqueConstraint { type_label, property, value, first_row, second_row } => {
                let mut s = cat2("@unique constraint violation on ", type_label);
                s.append(".");
                s.append(property);
                s.append(": duplicate value '");
                s.append(value);
                s.append("' at rows ");
                s.append(&decimal_u64(*first_row));
                s.append(" and ");
                s.append(&decimal_u64(*second_row));
                s
            },
        }
    }
}

/// A range of bytes of a source text.
#[derive(Debug, Clone, Copy, PartialEq, Eq, Structural)]
pub struct SourceSpan {
    pub start: usize,
    pub end: usize,
}

impl SourceSpan {
    pub fn new(start: usize, end: usize) -> (r: SourceSpan)
        ensures
            r.start == start,
            r.end == end,
    {
        SourceSpan { start, end }
    }
}

/// A parser's message, with the place in the source where there is one.
#[derive(Debug)]
pub struct ParseDiagnostic {
    pub message: String,
    pub span: Option<SourceSpan>,
}

impl ParseDiagnostic {
    pub fn new(message: String, span: Option<SourceSpan>) -> (r: ParseDiagnostic)
        ensures
            r.message@ == message@,
            r.span == span,
    {
        ParseDiagnostic { message, span }
    }

    /// The text shown for the diagnostic.
    pub fn to_string(&self) -> (r: String)
        ensures
            r@ == self.message@,
    {
        self.message.clone()
    }
}

} // verus!
