//! Unique identifiers of schematic items.
use crate::error::ParseError;
use vstd::prelude::*;

verus! {

/// A 128-bit unique identifier.
#[derive(Clone, Copy, Debug, PartialEq, Eq, Structural)]
pub struct Uuid {
    pub value: u128,
}

/// The identifier that the text `s` denotes in one of the usual UUID notations, if any.
pub uninterp spec fn uuid_value(s: Seq<char>) -> Option<u128>;

/// Relies on `uuid::Uuid::parse_str` (with `Uuid::as_u128`): it accepts the simple,
/// hyphenated, braced and URN notations, and its result depends on the text alone; the empty
/// text has none of the lengths it accepts.
#[verifier::external_body]
fn parse_uuid(s: &str) -> (r: Option<u128>)
    ensures
        r == uuid_value(s@),
        s@.len() == 0 ==> r is None,
{
    uuid::Uuid::parse_str(s).ok().map(|u| u.as_u128())
}

/// The identifier for `text`, given what parsing it gave.
pub open spec fn spec_uuid_from(text: String, parsed: Option<u128>) -> Result<Uuid, ParseError> {
    match parsed {
        Some(value) => Ok(Uuid { value }),
        None => Err(ParseError::InvalidUuid(text)),
    }
}

impl Uuid {
    /// The identifier for `text` from the value that parsing it gave; text that did not
    /// parse is reported.
    pub fn from_parsed(text: &String, parsed: Option<u128>) -> (r: Result<Uuid, ParseError>)
        ensures
            r == spec_uuid_from(*text, parsed),
    {
        match parsed {
            Some(value) => Ok(Uuid { value }),
            None => Err(ParseError::InvalidUuid(text.clone())),
        }
    }

    /// Parses the identifier written as `text`.
    pub fn parse(text: &String) -> (r: Result<Uuid, ParseError>)
        ensures
            r == spec_uuid_from(*text, uuid_value(text@)),
    {
        let parsed = parse_uuid(text.as_str());
        Uuid::from_parsed(text, parsed)
    }
}

} // verus!
