use crate::coerce::TypeCategory;
use crate::error::ParseError;
use crate::expect::{spec_float_head, spec_named_head, spec_opt_float_end};
use crate::positional::{
    float_of, match_positional, matched_float, matched_opt_float, opt_float_of,
    spec_match_positional, spec_match_from, Matched, Positional,
};
use crate::sexpr::{Decimal, SExpr};
use vstd::prelude::*;

verus! {

/// A colour `(color <red> <green> <blue> [<alpha>])`, each component between 0 and 1.
#[derive(Clone, Copy, Debug, PartialEq, Eq, Structural)]
pub struct Color {
    /// Red component.
    pub red: Decimal,
    /// Green component.
    pub green: Decimal,
    /// Blue component.
    pub blue: Decimal,
    /// Alpha component, when given.
    pub alpha: Option<Decimal>,
}

/// The decoding of `(color <red> <green> <blue> [<alpha>])`.
pub open spec fn spec_color(e: SExpr) -> Result<Color, ParseError> {
    match spec_named_head(e, "color") {
        Err(err) => Err(err),
        Ok(v) => match spec_float_head(v) {
            Err(err) => Err(err),
            Ok((red, v)) => match spec_float_head(v) {
                Err(err) => Err(err),
                Ok((green, v)) => match spec_float_head(v) {
                    Err(err) => Err(err),
                    Ok((blue, v)) => match spec_opt_float_end(v) {
                        Err(err) => Err(err),
                        Ok(alpha) => Ok(Color { red, green, blue, alpha }),
                    },
                },
            },
        },
    }
}

/// The positions of a colour.
pub open spec fn color_items() -> Seq<Positional> {
    seq![
        Positional::Leaf(TypeCategory::Float),
        Positional::Leaf(TypeCategory::Float),
        Positional::Leaf(TypeCategory::Float),
        Positional::Optional(TypeCategory::Float),
    ]
}

fn color_items_exec() -> (r: Vec<Positional>)
    ensures
        r@ == color_items(),
{
    let r = vec![
        Positional::Leaf(TypeCategory::Float),
        Positional::Leaf(TypeCategory::Float),
        Positional::Leaf(TypeCategory::Float),
        Positional::Optional(TypeCategory::Float),
    ];
    assert(r@ =~= color_items());
    r
}

/// The colour that the matched positions hold.
pub open spec fn color_of(ms: Seq<Matched>) -> Color {
    Color {
        red: float_of(ms[0]),
        green: float_of(ms[1]),
        blue: float_of(ms[2]),
        alpha: opt_float_of(ms[3]),
    }
}

proof fn lemma_color_positions(e: SExpr)
    ensures
        spec_color(e) == match spec_match_positional("color", color_items(), e) {
            Ok(ms) => Ok(color_of(ms)),
            Err(err) => Err::<Color, ParseError>(err),
        },
        spec_match_positional("color", color_items(), e) matches Ok(ms) ==> ms.len() == 4,
{
    reveal_with_fuel(spec_match_from, 5);
}

impl Color {
    /// Decodes `(color <red> <green> <blue> [<alpha>])`.
    pub fn try_from(e: &SExpr) -> (r: Result<Color, ParseError>)
        ensures
            r == spec_color(*e),
    {
        proof {
            lemma_color_positions(*e);
        }
        let items = color_items_exec();
        assert(crate::positional::well_formed(items@));
        let ms = match_positional("color", &items, e)?;
        Ok(
            Color {
                red: matched_float(&ms[0]),
                green: matched_float(&ms[1]),
                blue: matched_float(&ms[2]),
                alpha: matched_opt_float(&ms[3]),
            },
        )
    }
}

} // verus!
