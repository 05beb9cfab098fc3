//! Type-directed coercion of one atom: the leaf step of every schema.
use crate::error::ParseError;
use crate::expect::{decimal_to_int, spec_integral, text_is};
use crate::identifier::{spec_uuid_from, uuid_value, Uuid};
use crate::sexpr::{Decimal, SExpr};
use vstd::prelude::*;

verus! {

/// The category of a field's target type.
#[derive(Clone, Copy, Debug, PartialEq, Eq, Structural)]
pub enum TypeCategory {
    /// A number, read as written.
    Float,
    /// An integral number.
    Int,
    /// Text.
    String,
    /// A unique identifier.
    Uuid,
    /// Another record, decoded by its own matcher.
    General,
    /// A type no schema may use.
    Unsupported,
}

/// The value of a coerced atom.
#[derive(Clone, Debug, PartialEq)]
pub enum LeafValue {
    Float(Decimal),
    Int(i64),
    Str(String),
    Uuid(Uuid),
}

/// The category of a type written as the path `segments`: `f64`, `i64`, `String` or
/// `std::string::String`, `Uuid` or `uuid::Uuid` are leaves; another path names a record; the
/// empty path is unsupported.
pub open spec fn spec_category(segments: Seq<Seq<char>>) -> TypeCategory {
    if segments.len() == 0 {
        TypeCategory::Unsupported
    } else if segments.len() == 1 {
        if segments[0] == "f64"@ {
            TypeCategory::Float
        } else if segments[0] == "i64"@ {
            TypeCategory::Int
        } else if segments[0] == "String"@ {
            TypeCategory::String
        } else if segments[0] == "Uuid"@ {
            TypeCategory::Uuid
        } else {
            TypeCategory::General
        }
    } else if segments.len() == 2 {
        if segments[0] == "uuid"@ && segments[1] == "Uuid"@ {
            TypeCategory::Uuid
        } else {
            TypeCategory::General
        }
    } else if segments.len() == 3 {
        if segments[0] == "std"@ && segments[1] == "string"@ && segments[2] == "String"@ {
            TypeCategory::String
        } else {
            TypeCategory::General
        }
    } else {
        TypeCategory::General
    }
}

/// The texts of the segments.
pub open spec fn segment_texts(segments: Seq<String>) -> Seq<Seq<char>> {
    segments.map_values(|s: String| s@)
}

impl TypeCategory {
    /// The category of the type written as the path `segments`.
    pub fn of_path(segments: &Vec<String>) -> (r: TypeCategory)
        ensures
            r == spec_category(segment_texts(segments@)),
    {
        let n = segments.len();
        if n == 0 {
            TypeCategory::Unsupported
        } else if n == 1 {
            let s = &segments[0];
            if text_is(s, "f64") {
                TypeCategory::Float
            } else if text_is(s, "i64") {
                TypeCategory::Int
            } else if text_is(s, "String") {
                TypeCategory::String
            } else if text_is(s, "Uuid") {
                TypeCategory::Uuid
            } else {
                TypeCategory::General
            }
        } else if n == 2 {
            if text_is(&segments[0], "uuid") && text_is(&segments[1], "Uuid") {
                TypeCategory::Uuid
            } else {
                TypeCategory::General
            }
        } else if n == 3 {
            if text_is(&segments[0], "std") && text_is(&segments[1], "string") && text_is(
                &segments[2],
                "String",
            ) {
                TypeCategory::String
            } else {
                TypeCategory::General
            }
        } else {
            TypeCategory::General
        }
    }

    /// Whether a field of this category is one atom.
    pub open spec fn is_leaf(self) -> bool {
        self == TypeCategory::Float || self == TypeCategory::Int || self == TypeCategory::String
            || self == TypeCategory::Uuid
    }
}

/// The coercion of `atom` to a leaf of category `category`.
pub open spec fn spec_coerce(atom: SExpr, category: TypeCategory) -> Result<LeafValue, ParseError> {
    match category {
        TypeCategory::Float => match atom {
            SExpr::Number(d) => Ok(LeafValue::Float(d)),
            _ => Err(ParseError::ExpectedFloat(atom)),
        },
        TypeCategory::Int => match atom {
            SExpr::Number(d) => match spec_integral(d.mantissa as int, d.scale as nat) {
                Some(i) => Ok(LeafValue::Int(i as i64)),
                None => Err(ParseError::ExpectedInt(atom)),
            },
            _ => Err(ParseError::ExpectedInt(atom)),
        },
        TypeCategory::String => match atom {
            SExpr::Str(s) => Ok(LeafValue::Str(s)),
            SExpr::Symbol(s) => Ok(LeafValue::Str(s)),
            _ => Err(ParseError::ExpectedStr(atom)),
        },
        _ => match atom {
            SExpr::Str(s) => match spec_uuid_from(s, uuid_value(s@)) {
                Ok(u) => Ok(LeafValue::Uuid(u)),
                Err(e) => Err(e),
            },
            SExpr::Symbol(s) => match spec_uuid_from(s, uuid_value(s@)) {
                Ok(u) => Ok(LeafValue::Uuid(u)),
                Err(e) => Err(e),
            },
            _ => Err(ParseError::ExpectedStr(atom)),
        },
    }
}

/// Coerces one atom to a leaf of the given category; a mismatch is reported with the atom.
pub fn coerce(atom: &SExpr, category: TypeCategory) -> (r: Result<LeafValue, ParseError>)
    requires
        category.is_leaf(),
    ensures
        r == spec_coerce(*atom, category),
{
    match category {
        TypeCategory::Float => match atom {
            SExpr::Number(d) => Ok(LeafValue::Float(*d)),
            _ => Err(ParseError::ExpectedFloat(atom.copy())),
        },
        TypeCategory::Int => match atom {
            SExpr::Number(d) => match decimal_to_int(*d) {
                Some(i) => Ok(LeafValue::Int(i)),
                None => Err(ParseError::ExpectedInt(atom.copy())),
            },
            _ => Err(ParseError::ExpectedInt(atom.copy())),
        },
        TypeCategory::String => match atom {
            SExpr::Str(s) => Ok(LeafValue::Str(s.clone())),
            SExpr::Symbol(s) => Ok(LeafValue::Str(s.clone())),
            _ => Err(ParseError::ExpectedStr(atom.copy())),
        },
        _ => match atom {
            SExpr::Str(s) | SExpr::Symbol(s) => match Uuid::parse(s) {
                Ok(u) => Ok(LeafValue::Uuid(u)),
                Err(e) => Err(e),
            },
            _ => Err(ParseError::ExpectedStr(atom.copy())),
        },
    }
}

} // verus!

verus! {

/// Positional strictness at the leaf level: a number and a string exchanged between a number
/// field and a text field are refused by both fields, never read as each other.
pub proof fn lemma_exchanged_leaves_refused(number: SExpr, text: SExpr)
    requires
        number matches SExpr::Number(_),
        text matches SExpr::Str(_),
    ensures
        spec_coerce(text, TypeCategory::Float) == Err::<LeafValue, ParseError>(
            ParseError::ExpectedFloat(text),
        ),
        spec_coerce(text, TypeCategory::Int) == Err::<LeafValue, ParseError>(
            ParseError::ExpectedInt(text),
        ),
        spec_coerce(number, TypeCategory::String) == Err::<LeafValue, ParseError>(
            ParseError::ExpectedStr(number),
        ),
{
}

} // verus!
