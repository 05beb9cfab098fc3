//! Page settings.
use crate::error::ParseError;
use crate::expect::{
    expect_float_head, expect_named_head, expect_null, expect_str_head, spec_expect_null,
    spec_float_head, spec_named_head, spec_str_head, text_is,
};
use crate::geometry::{spec_size_from_mm, Size};
use crate::sexpr::SExpr;
use vstd::prelude::*;

verus! {

/// Page orientation.
#[derive(Clone, Copy, Debug, PartialEq, Eq, Structural)]
pub enum PaperOrientation {
    Landscape,
    Portrait,
}

/// A standard ISO or ANSI page size, or a custom one.
#[derive(Clone, Copy, Debug, PartialEq, Eq, Structural)]
pub enum PaperSize {
    /// ISO A0: 841 x 1189 mm.
    IsoA0,
    /// ISO A1: 594 x 841 mm.
    IsoA1,
    /// ISO A2: 420 x 594 mm.
    IsoA2,
    /// ISO A3: 297 x 420 mm.
    IsoA3,
    /// ISO A4: 210 x 297 mm.
    IsoA4,
    /// ISO A5: 148 x 210 mm.
    IsoA5,
    /// ANSI A (Letter).
    AnsiA,
    /// ANSI B (Tabloid).
    AnsiB,
    /// ANSI C.
    AnsiC,
    /// ANSI D.
    AnsiD,
    /// ANSI E.
    AnsiE,
    /// A custom size.
    User(Size),
}

/// Page settings `(paper "<size>" [portrait])` or `(paper "User" <height> <width>)`.
#[derive(Clone, Copy, Debug, PartialEq, Eq, Structural)]
pub struct Paper {
    /// The page size.
    pub paper_size: PaperSize,
    /// The orientation; landscape unless given.
    pub orientation: PaperOrientation,
}

impl PaperOrientation {
    /// Whether this is landscape orientation.
    pub fn is_landscape(&self) -> (r: bool)
        ensures
            r == (*self == PaperOrientation::Landscape),
    {
        matches!(self, PaperOrientation::Landscape)
    }

    /// Whether this is portrait orientation.
    pub fn is_portrait(&self) -> (r: bool)
        ensures
            r == (*self == PaperOrientation::Portrait),
    {
        matches!(self, PaperOrientation::Portrait)
    }
}

/// The standard page size named `s`.
pub open spec fn paper_size_named(s: Seq<char>) -> Option<PaperSize> {
    if s == "A0"@ {
        Some(PaperSize::IsoA0)
    } else if s == "A1"@ {
        Some(PaperSize::IsoA1)
    } else if s == "A2"@ {
        Some(PaperSize::IsoA2)
    } else if s == "A3"@ {
        Some(PaperSize::IsoA3)
    } else if s == "A4"@ {
        Some(PaperSize::IsoA4)
    } else if s == "A5"@ {
        Some(PaperSize::IsoA5)
    } else if s == "A"@ {
        Some(PaperSize::AnsiA)
    } else if s == "B"@ {
        Some(PaperSize::AnsiB)
    } else if s == "C"@ {
        Some(PaperSize::AnsiC)
    } else if s == "D"@ {
        Some(PaperSize::AnsiD)
    } else if s == "E"@ {
        Some(PaperSize::AnsiE)
    } else {
        None
    }
}

impl PaperSize {
    /// The standard page size named `s`.
    pub fn from_str(s: &String) -> (r: Result<PaperSize, ParseError>)
        ensures
            match paper_size_named(s@) {
                Some(p) => r == Ok::<PaperSize, ParseError>(p),
                None => r == Err::<PaperSize, ParseError>(ParseError::InvalidPaperSize(*s)),
            },
    {
        if text_is(s, "A0") {
            Ok(PaperSize::IsoA0)
        } else if text_is(s, "A1") {
            Ok(PaperSize::IsoA1)
        } else if text_is(s, "A2") {
            Ok(PaperSize::IsoA2)
        } else if text_is(s, "A3") {
            Ok(PaperSize::IsoA3)
        } else if text_is(s, "A4") {
            Ok(PaperSize::IsoA4)
        } else if text_is(s, "A5") {
            Ok(PaperSize::IsoA5)
        } else if text_is(s, "A") {
            Ok(PaperSize::AnsiA)
        } else if text_is(s, "B") {
            Ok(PaperSize::AnsiB)
        } else if text_is(s, "C") {
            Ok(PaperSize::AnsiC)
        } else if text_is(s, "D") {
            Ok(PaperSize::AnsiD)
        } else if text_is(s, "E") {
            Ok(PaperSize::AnsiE)
        } else {
            Err(ParseError::InvalidPaperSize(s.clone()))
        }
    }
}

/// The decoding of page settings.
pub open spec fn spec_paper(e: SExpr) -> Result<Paper, ParseError> {
    match spec_named_head(e, "paper") {
        Err(err) => Err(err),
        Ok(rest) => match spec_str_head(rest) {
            Err(err) => Err(err),
            Ok((name, rest)) => if name@ == "User"@ {
                match spec_float_head(rest) {
                    Err(err) => Err(err),
                    Ok((height, rest)) => match spec_float_head(rest) {
                        Err(err) => Err(err),
                        Ok((width, rest)) => match spec_expect_null(rest) {
                            Err(err) => Err(err),
                            Ok(_) => match spec_size_from_mm(width, height) {
                                Err(err) => Err(err),
                                Ok(size) => Ok(
                                    Paper {
                                        paper_size: PaperSize::User(size),
                                        orientation: PaperOrientation::Landscape,
                                    },
                                ),
                            },
                        },
                    },
                }
            } else {
                match paper_size_named(name@) {
                    None => Err(ParseError::InvalidPaperSize(name)),
                    Some(paper_size) => match rest {
                        SExpr::Null => Ok(
                            Paper { paper_size, orientation: PaperOrientation::Landscape },
                        ),
                        _ => match spec_named_head(rest, "portrait") {
                            Err(err) => Err(err),
                            Ok(rest) => match spec_expect_null(rest) {
                                Err(err) => Err(err),
                                Ok(_) => Ok(
                                    Paper { paper_size, orientation: PaperOrientation::Portrait },
                                ),
                            },
                        },
                    },
                }
            },
        },
    }
}

impl Paper {
    /// Decodes page settings.
    pub fn try_from(e: &SExpr) -> (r: Result<Paper, ParseError>)
        ensures
            r == spec_paper(*e),
    {
        let rest = expect_named_head(e, "paper")?;
        let (name, rest) = expect_str_head(rest)?;
        if text_is(&name, "User") {
            let (height, rest) = expect_float_head(rest)?;
            let (width, rest) = expect_float_head(rest)?;
            expect_null(rest)?;
            let size = Size::from_mm(width, height)?;
            Ok(Paper { paper_size: PaperSize::User(size), orientation: PaperOrientation::Landscape })
        } else {
            let paper_size = PaperSize::from_str(&name)?;
            match rest {
                SExpr::Null => Ok(Paper { paper_size, orientation: PaperOrientation::Landscape }),
                _ => {
                    let rest = expect_named_head(rest, "portrait")?;
                    expect_null(rest)?;
                    Ok(Paper { paper_size, orientation: PaperOrientation::Portrait })
                },
            }
        }
    }
}

} // verus!
