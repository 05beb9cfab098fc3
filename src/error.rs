use crate::sexpr::{Decimal, SExpr};
use vstd::prelude::*;

verus! {

/// Why a record could not be decoded. Each kind carries the offending sub-expression, and the
/// record and field names where they matter.
#[derive(Debug, PartialEq)]
pub enum ParseError {
    /// A singular keyed field occurred twice: record, field, offending element.
    DuplicateField(&'static str, &'static str, SExpr),
    /// A symbol outside an enumeration: the value, and the accepted symbols.
    ExpectedEnumSymbol(SExpr, &'static str),
    /// A pair was required where this value stands.
    ExpectedList(SExpr),
    /// A number was required.
    ExpectedFloat(SExpr),
    /// An integral number was required.
    ExpectedInt(SExpr),
    /// A string was required.
    ExpectedStr(SExpr),
    /// A symbol was required.
    ExpectedSym(SExpr),
    /// The end of a list was required; this content trails it.
    ExpectedNil(SExpr),
    /// The named symbol was required.
    ExpectedNamedSym(SExpr, &'static str),
    /// A negative height.
    InvalidHeight(Decimal),
    /// A paper size that is not one of the known names.
    InvalidPaperSize(String),
    /// Text that is not a UUID.
    InvalidUuid(String),
    /// A negative width.
    InvalidWidth(Decimal),
    /// A required field is absent: record, field, and the record's expression.
    MissingField(&'static str, &'static str, SExpr),
    /// An element that the record does not accept.
    Unexpected(SExpr),
}

impl ParseError {
    /// The error for an absent required field.
    pub fn missing_field(struct_name: &'static str, field_name: &'static str, value: &SExpr) -> (r:
        ParseError)
        ensures
            r == ParseError::MissingField(struct_name, field_name, *value),
    {
        ParseError::MissingField(struct_name, field_name, value.copy())
    }
}

} // verus!
