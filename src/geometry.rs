//! Positional records: coordinates, point lists and sizes.
use crate::coerce::TypeCategory;
use crate::keyed::list_of;
use crate::error::ParseError;
use crate::expect::{
    expect_float_head, expect_named_head, expect_null, expect_opt_float_end, is_symbol,
    spec_expect_null, spec_float_head, spec_named_head, spec_opt_float_end, symbol_is,
};
use crate::positional::{
    float_of, match_positional, matched_float, matched_opt_float, opt_float_of,
    spec_match_from, spec_match_positional, well_formed, Positional,
};
use crate::sexpr::{list_len, Decimal, SExpr};
use crate::units::{
    mm_to_nm, mm_to_unsigned_nm, nm_to_mm, pow10, spec_mm_to_nm, spec_mm_to_unsigned_nm,
    spec_nm_to_mm, spec_shift_mm,
};
use vstd::prelude::*;

verus! {

/// A position `(at <x> <y> [<angle>])`, in nanometres, with an optional angle in degrees.
#[derive(Clone, Copy, Debug, PartialEq, Eq, Structural)]
pub struct Position {
    /// X coordinate in nanometres.
    pub x: i64,
    /// Y coordinate in nanometres.
    pub y: i64,
    /// Rotation in degrees.
    pub angle: Option<Decimal>,
}

/// An offset in nanometres.
#[derive(Clone, Copy, Debug, PartialEq, Eq, Structural)]
pub struct Offset {
    /// X offset in nanometres.
    pub x: i64,
    /// Y offset in nanometres.
    pub y: i64,
}

/// A key-value property.
#[derive(Clone, Debug, PartialEq)]
pub struct Property {
    /// Property name.
    pub key: String,
    /// Property value.
    pub value: String,
}

/// A size in nanometres; neither side is negative.
#[derive(Clone, Copy, Debug, PartialEq, Eq, Structural)]
pub struct Size {
    /// Width in nanometres.
    pub width: u64,
    /// Height in nanometres.
    pub height: u64,
}

/// A list of coordinate points `(pts (xy <x> <y>)...)`.
#[derive(Clone, Debug, PartialEq)]
pub struct Points {
    /// The points, in the order of the input.
    pub points: Vec<Position>,
}

/// The coordinates `<x> <y> [<angle>]` that close a list.
pub open spec fn spec_xy_rest(v: SExpr) -> Result<Position, ParseError> {
    match spec_float_head(v) {
        Err(e) => Err(e),
        Ok((x, v)) => match spec_float_head(v) {
            Err(e) => Err(e),
            Ok((y, v)) => match spec_opt_float_end(v) {
                Err(e) => Err(e),
                Ok(angle) => Ok(Position { x: spec_mm_to_nm(x), y: spec_mm_to_nm(y), angle }),
            },
        },
    }
}

/// The decoding of `(at <x> <y> [<angle>])`.
pub open spec fn spec_position(e: SExpr) -> Result<Position, ParseError> {
    match spec_named_head(e, "at") {
        Err(err) => Err(err),
        Ok(rest) => spec_xy_rest(rest),
    }
}

/// The decoding of a point `(xy <x> <y>)`.
pub open spec fn spec_xy(e: SExpr) -> Result<Position, ParseError> {
    match spec_named_head(e, "xy") {
        Err(err) => Err(err),
        Ok(rest) => match spec_float_head(rest) {
            Err(err) => Err(err),
            Ok((x, v)) => match spec_float_head(v) {
                Err(err) => Err(err),
                Ok((y, v)) => match spec_expect_null(v) {
                    Err(err) => Err(err),
                    Ok(_) => Ok(Position { x: spec_mm_to_nm(x), y: spec_mm_to_nm(y), angle: None }),
                },
            },
        },
    }
}

/// Whether `e` is a list headed by the symbol `name`.
pub open spec fn headed_by(e: SExpr, name: &str) -> bool {
    e matches SExpr::Cons(h, _) && is_symbol(*h, name)
}

/// The points at the start of the list `v`: as many `(xy ...)` elements as stand there, each
/// decoded, in input order, and the rest of the list after them. Stopping is no error.
pub open spec fn spec_xy_prefix(v: SExpr) -> Result<(Seq<Position>, SExpr), ParseError>
    decreases v,
{
    match v {
        SExpr::Cons(h, t) => if headed_by(*h, "xy") {
            match spec_xy(*h) {
                Err(err) => Err(err),
                Ok(p) => match spec_xy_prefix(*t) {
                    Err(err) => Err(err),
                    Ok((ps, end)) => Ok((seq![p].add(ps), end)),
                },
            }
        } else {
            Ok((Seq::empty(), v))
        },
        _ => Ok((Seq::empty(), v)),
    }
}

/// The points of the list `v`: its `(xy ...)` prefix, after which the list must end.
pub open spec fn spec_xy_list(v: SExpr) -> Result<Seq<Position>, ParseError> {
    match spec_xy_prefix(v) {
        Err(err) => Err(err),
        Ok((ps, end)) => match end {
            SExpr::Null => Ok(ps),
            _ => Err(ParseError::ExpectedNil(end)),
        },
    }
}

/// The repeated step of a point list: points that each decode, followed by anything that is
/// not a point, give exactly those points in input order and leave the rest in place; no
/// points give the empty list.
pub proof fn lemma_xy_prefix(items: Seq<SExpr>, decoded: Seq<Position>, rest: SExpr)
    requires
        decoded.len() == items.len(),
        forall|k: int|
            0 <= k < items.len() ==> headed_by(#[trigger] items[k], "xy") && spec_xy(items[k])
                == Ok::<Position, ParseError>(decoded[k]),
        !(rest matches SExpr::Cons(h, _) && headed_by(*h, "xy")),
    ensures
        spec_xy_prefix(list_of(items, rest)) == Ok::<(Seq<Position>, SExpr), ParseError>(
            (decoded, rest),
        ),
    decreases items.len(),
{
    if items.len() == 0 {
        assert(decoded =~= Seq::<Position>::empty());
    } else {
        let tail_items = items.subrange(1, items.len() as int);
        let tail_decoded = decoded.subrange(1, decoded.len() as int);
        assert forall|k: int| 0 <= k < tail_items.len() implies headed_by(
            #[trigger] tail_items[k],
            "xy",
        ) && spec_xy(tail_items[k]) == Ok::<Position, ParseError>(tail_decoded[k]) by {
            assert(tail_items[k] == items[k + 1]);
        }
        lemma_xy_prefix(tail_items, tail_decoded, rest);
        assert(items[0] == items[0]);
        assert(seq![decoded[0]].add(tail_decoded) =~= decoded);
    }
}

/// The decoding of `(pts (xy <x> <y>)...)`.
pub open spec fn spec_points(e: SExpr) -> Result<Seq<Position>, ParseError> {
    match spec_named_head(e, "pts") {
        Err(err) => Err(err),
        Ok(rest) => spec_xy_list(rest),
    }
}

/// The decoding of a size from millimetres.
pub open spec fn spec_size_from_mm(width: Decimal, height: Decimal) -> Result<Size, ParseError> {
    if width.mantissa < 0 {
        Err(ParseError::InvalidWidth(width))
    } else if height.mantissa < 0 {
        Err(ParseError::InvalidHeight(height))
    } else {
        Ok(
            Size {
                width: spec_mm_to_unsigned_nm(width).unwrap(),
                height: spec_mm_to_unsigned_nm(height).unwrap(),
            },
        )
    }
}

/// The sides `<height> <width>` that close a list: height first, as the format writes them.
pub open spec fn spec_hw_rest(v: SExpr) -> Result<Size, ParseError> {
    match spec_float_head(v) {
        Err(e) => Err(e),
        Ok((height, v)) => match spec_float_head(v) {
            Err(e) => Err(e),
            Ok((width, v)) => match spec_expect_null(v) {
                Err(e) => Err(e),
                Ok(_) => spec_size_from_mm(width, height),
            },
        },
    }
}

/// The decoding of `(size <height> <width>)`.
pub open spec fn spec_size(e: SExpr) -> Result<Size, ParseError> {
    match spec_named_head(e, "size") {
        Err(err) => Err(err),
        Ok(rest) => spec_hw_rest(rest),
    }
}

impl Position {
    /// Decodes the coordinates `<x> <y> [<angle>]` that close a list.
    pub fn try_from_xy_cons(v: &SExpr) -> (r: Result<Position, ParseError>)
        ensures
            r == spec_xy_rest(*v),
    {
        let (x, v) = expect_float_head(v)?;
        let (y, v) = expect_float_head(v)?;
        let angle = expect_opt_float_end(v)?;
        Ok(Position { x: mm_to_nm(x), y: mm_to_nm(y), angle })
    }

    /// Decodes `(at <x> <y> [<angle>])`.
    pub fn try_from(e: &SExpr) -> (r: Result<Position, ParseError>)
        ensures
            r == spec_position(*e),
    {
        proof {
            lemma_position_positions(*e);
        }
        let items = position_items_exec();
        let ms = match_positional("at", &items, e)?;
        Ok(
            Position {
                x: mm_to_nm(matched_float(&ms[0])),
                y: mm_to_nm(matched_float(&ms[1])),
                angle: matched_opt_float(&ms[2]),
            },
        )
    }

    /// Decodes a point `(xy <x> <y>)`; it has no angle.
    pub fn try_from_xy(e: &SExpr) -> (r: Result<Position, ParseError>)
        ensures
            r == spec_xy(*e),
    {
        proof {
            lemma_xy_positions(*e);
        }
        let items = pair_items_exec();
        let ms = match_positional("xy", &items, e)?;
        Ok(
            Position {
                x: mm_to_nm(matched_float(&ms[0])),
                y: mm_to_nm(matched_float(&ms[1])),
                angle: None,
            },
        )
    }
}

/// The positions of `(at <x> <y> [<angle>])`.
pub open spec fn position_items() -> Seq<Positional> {
    seq![
        Positional::Leaf(TypeCategory::Float),
        Positional::Leaf(TypeCategory::Float),
        Positional::Optional(TypeCategory::Float),
    ]
}

fn position_items_exec() -> (r: Vec<Positional>)
    ensures
        r@ == position_items(),
        well_formed(r@),
{
    let r = vec![
        Positional::Leaf(TypeCategory::Float),
        Positional::Leaf(TypeCategory::Float),
        Positional::Optional(TypeCategory::Float),
    ];
    assert(r@ =~= position_items());
    r
}

/// Two numbers, as in `(xy <x> <y>)` and `(size <height> <width>)`.
pub open spec fn pair_items() -> Seq<Positional> {
    seq![Positional::Leaf(TypeCategory::Float), Positional::Leaf(TypeCategory::Float)]
}

fn pair_items_exec() -> (r: Vec<Positional>)
    ensures
        r@ == pair_items(),
        well_formed(r@),
{
    let r = vec![Positional::Leaf(TypeCategory::Float), Positional::Leaf(TypeCategory::Float)];
    assert(r@ =~= pair_items());
    r
}

proof fn lemma_position_positions(e: SExpr)
    ensures
        spec_position(e) == match spec_match_positional("at", position_items(), e) {
            Ok(ms) => Ok(
                Position {
                    x: spec_mm_to_nm(float_of(ms[0])),
                    y: spec_mm_to_nm(float_of(ms[1])),
                    angle: opt_float_of(ms[2]),
                },
            ),
            Err(err) => Err::<Position, ParseError>(err),
        },
        spec_match_positional("at", position_items(), e) matches Ok(ms) ==> ms.len() == 3,
{
    reveal_with_fuel(spec_match_from, 4);
}

proof fn lemma_xy_positions(e: SExpr)
    ensures
        spec_xy(e) == match spec_match_positional("xy", pair_items(), e) {
            Ok(ms) => Ok(
                Position {
                    x: spec_mm_to_nm(float_of(ms[0])),
                    y: spec_mm_to_nm(float_of(ms[1])),
                    angle: None,
                },
            ),
            Err(err) => Err::<Position, ParseError>(err),
        },
        spec_match_positional("xy", pair_items(), e) matches Ok(ms) ==> ms.len() == 2,
{
    reveal_with_fuel(spec_match_from, 3);
}

proof fn lemma_size_positions(e: SExpr)
    ensures
        spec_size(e) == match spec_match_positional("size", pair_items(), e) {
            Ok(ms) => spec_size_from_mm(float_of(ms[1]), float_of(ms[0])),
            Err(err) => Err::<Size, ParseError>(err),
        },
        spec_match_positional("size", pair_items(), e) matches Ok(ms) ==> ms.len() == 2,
{
    reveal_with_fuel(spec_match_from, 3);
}

/// The values `<x> <y> [<angle>]` of an encoded position, the coordinates in millimetres.
pub open spec fn spec_encode_xy(p: Position) -> SExpr {
    SExpr::Cons(
        Box::new(SExpr::Number(spec_nm_to_mm(p.x))),
        Box::new(
            SExpr::Cons(
                Box::new(SExpr::Number(spec_nm_to_mm(p.y))),
                Box::new(
                    match p.angle {
                        Some(a) => SExpr::Cons(Box::new(SExpr::Number(a)), Box::new(SExpr::Null)),
                        None => SExpr::Null,
                    },
                ),
            ),
        ),
    )
}

impl Position {
    /// Encodes this position as `(at <x> <y> [<angle>])`, the coordinates in millimetres.
    pub fn to_sexpr(&self) -> (r: SExpr)
        ensures
            r matches SExpr::Cons(h, t) && is_symbol(*h, "at") && *t == spec_encode_xy(*self),
    {
        let angle = match self.angle {
            Some(a) => SExpr::Cons(Box::new(SExpr::Number(a)), Box::new(SExpr::Null)),
            None => SExpr::Null,
        };
        let y = SExpr::Cons(Box::new(SExpr::Number(nm_to_mm(self.y))), Box::new(angle));
        let x = SExpr::Cons(Box::new(SExpr::Number(nm_to_mm(self.x))), Box::new(y));
        SExpr::Cons(Box::new(SExpr::symbol("at")), Box::new(x))
    }
}

/// Round trip of a position: re-encoding a decoded position and decoding it again gives the
/// same position, so the trip is exact in nanometres; each coordinate is written back as
/// `nm / 10^6` millimetres, the value read truncated to whole nanometres.
pub proof fn lemma_position_round_trip(e: SExpr, head: SExpr)
    requires
        spec_position(e) is Ok,
        is_symbol(head, "at"),
    ensures
        spec_position(SExpr::Cons(Box::new(head), Box::new(spec_encode_xy(spec_position(e)->Ok_0))))
            == spec_position(e),
        spec_encode_xy(spec_position(e)->Ok_0) matches SExpr::Cons(x, _) && *x == SExpr::Number(
            spec_nm_to_mm(spec_position(e)->Ok_0.x),
        ),
{
    let p = spec_position(e)->Ok_0;
    lemma_nm_decodes_to_itself(p.x);
    lemma_nm_decodes_to_itself(p.y);
}

proof fn lemma_nm_decodes_to_itself(nm: i64)
    ensures
        spec_mm_to_nm(spec_nm_to_mm(nm)) == nm,
{
    let d = spec_nm_to_mm(nm);
    assert(pow10((d.scale - 6) as nat) == 1) by {
        assert((d.scale - 6) as nat == 0);
    }
    assert(spec_shift_mm(d) == nm as int);
}

/// Whether `e` is a list headed by the symbol `name`.
pub fn is_headed_by(e: &SExpr, name: &str) -> (r: bool)
    ensures
        r == headed_by(*e, name),
{
    match e {
        SExpr::Cons(h, _) => symbol_is(&**h, name),
        _ => false,
    }
}

/// Whether the first element of the list `v` is a list headed by the symbol `name`.
pub fn first_headed_by(v: &SExpr, name: &str) -> (r: bool)
    ensures
        r == (*v matches SExpr::Cons(h, _) && headed_by(*h, name)),
{
    match v {
        SExpr::Cons(h, _) => is_headed_by(&**h, name),
        _ => false,
    }
}

/// Reads the `(xy ...)` points at the start of the list `v`, and gives the rest after them.
pub fn xy_prefix(v: &SExpr) -> (r: Result<(Vec<Position>, &SExpr), ParseError>)
    ensures
        match spec_xy_prefix(*v) {
            Ok((ps, end)) => r matches Ok((w, t)) && w@ == ps && *t == end,
            Err(err) => r matches Err(e2) && e2 == err,
        },
{
    let mut rest = v;
    let mut points: Vec<Position> = Vec::new();
    proof {
        match spec_xy_prefix(*v) {
            Ok((ps, end)) => assert(points@.add(ps) =~= ps),
            Err(_) => {},
        }
    }
    while first_headed_by(rest, "xy")
        invariant
            spec_xy_prefix(*v) == match spec_xy_prefix(*rest) {
                Ok((ps, end)) => Ok((points@.add(ps), end)),
                Err(err) => Err::<(Seq<Position>, SExpr), ParseError>(err),
            },
        decreases list_len(*rest),
    {
        match rest {
            SExpr::Cons(h, t) => {
                let p = match Position::try_from_xy(&**h) {
                    Ok(p) => p,
                    Err(err) => {
                        return Err(err);
                    },
                };
                let ghost before = points@;
                points.push(p);
                proof {
                    match spec_xy_prefix(**t) {
                        Ok((ps, end)) => {
                            assert(before.add(seq![p].add(ps)) =~= points@.add(ps));
                        },
                        Err(_) => {},
                    }
                }
                rest = &**t;
            },
            _ => {},
        }
    }
    assert(points@.add(Seq::empty()) =~= points@);
    Ok((points, rest))
}

impl Points {
    /// Decodes `(pts (xy <x> <y>)...)`: zero or more points, in input order, and then the end
    /// of the list.
    pub fn try_from(e: &SExpr) -> (r: Result<Points, ParseError>)
        ensures
            match spec_points(*e) {
                Ok(ps) => r matches Ok(p) && p.points@ == ps,
                Err(err) => r == Err::<Points, ParseError>(err),
            },
    {
        let rest = expect_named_head(e, "pts")?;
        let (points, end) = xy_prefix(rest)?;
        match end {
            SExpr::Null => Ok(Points { points }),
            _ => Err(ParseError::ExpectedNil(end.copy())),
        }
    }
}

impl Size {
    /// A size of `width` by `height` nanometres.
    pub fn new(width: u64, height: u64) -> (r: Size)
        ensures
            r == (Size { width, height }),
    {
        Size { width, height }
    }

    /// A size from millimetres; a negative side is refused.
    pub fn from_mm(width: Decimal, height: Decimal) -> (r: Result<Size, ParseError>)
        ensures
            r == spec_size_from_mm(width, height),
    {
        if width.mantissa < 0 {
            return Err(ParseError::InvalidWidth(width));
        }
        if height.mantissa < 0 {
            return Err(ParseError::InvalidHeight(height));
        }
        let w = mm_to_unsigned_nm(width);
        let h = mm_to_unsigned_nm(height);
        match (w, h) {
            (Some(w), Some(h)) => Ok(Size { width: w, height: h }),
            _ => Err(ParseError::InvalidWidth(width)),
        }
    }

    /// Decodes the sides `<height> <width>` that close a list.
    pub fn try_from_hw_cons(v: &SExpr) -> (r: Result<Size, ParseError>)
        ensures
            r == spec_hw_rest(*v),
    {
        let (height, v) = expect_float_head(v)?;
        let (width, v) = expect_float_head(v)?;
        expect_null(v)?;
        Size::from_mm(width, height)
    }

    /// Decodes `(size <height> <width>)`.
    pub fn try_from(e: &SExpr) -> (r: Result<Size, ParseError>)
        ensures
            r == spec_size(*e),
    {
        proof {
            lemma_size_positions(*e);
        }
        let items = pair_items_exec();
        let ms = match_positional("size", &items, e)?;
        Size::from_mm(matched_float(&ms[1]), matched_float(&ms[0]))
    }
}

} // verus!
