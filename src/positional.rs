//! The positional discipline: a small record whose values follow its head in a fixed order.
//!
//! A schema lists the positions in declared order. Each position is matched against the next
//! element: a leaf must be there and coerce to its category; an optional leaf is read when the
//! list has not ended; a flag is set when the next element is its bare symbol. After the last
//! position the list must end: no trailing content is tolerated.
use crate::coerce::{coerce, spec_coerce, LeafValue, TypeCategory};
use crate::error::ParseError;
use crate::expect::{
    expect_named_head, expect_null, is_symbol, spec_expect_null, spec_named_head, symbol_is,
};
use crate::sexpr::{Decimal, SExpr};
use vstd::prelude::*;

verus! {

/// One position of a positional record.
#[derive(Clone, Copy, Debug)]
pub enum Positional {
    /// An atom of the category, required.
    Leaf(TypeCategory),
    /// An atom of the category when the list has not ended; nothing otherwise.
    Optional(TypeCategory),
    /// A bare symbol that sets a flag when it stands next.
    Flag(&'static str),
}

/// What one position matched.
#[derive(Clone, Debug, PartialEq)]
pub enum Matched {
    /// The value of a leaf, or of an optional leaf that was present.
    Value(LeafValue),
    /// An optional leaf that was absent.
    Absent,
    /// Whether a flag was present.
    Flag(bool),
}

/// Whether every leaf of the schema has a leaf category.
pub open spec fn well_formed(items: Seq<Positional>) -> bool {
    forall|i: int|
        0 <= i < items.len() ==> match #[trigger] items[i] {
            Positional::Leaf(c) => c.is_leaf(),
            Positional::Optional(c) => c.is_leaf(),
            Positional::Flag(_) => true,
        }
}

/// Matches one position against the list `cur`: what it matched and the rest of the list.
pub open spec fn spec_step(item: Positional, cur: SExpr) -> Result<(Matched, SExpr), ParseError> {
    match item {
        Positional::Leaf(c) => match cur {
            SExpr::Cons(h, t) => match spec_coerce(*h, c) {
                Ok(v) => Ok((Matched::Value(v), *t)),
                Err(e) => Err(e),
            },
            _ => Err(ParseError::ExpectedList(cur)),
        },
        Positional::Optional(c) => match cur {
            SExpr::Null => Ok((Matched::Absent, cur)),
            SExpr::Cons(h, t) => match spec_coerce(*h, c) {
                Ok(v) => Ok((Matched::Value(v), *t)),
                Err(e) => Err(e),
            },
            _ => Err(ParseError::ExpectedList(cur)),
        },
        Positional::Flag(name) => match cur {
            SExpr::Cons(h, t) => if is_symbol(*h, name) {
                Ok((Matched::Flag(true), *t))
            } else {
                Ok((Matched::Flag(false), cur))
            },
            _ => Ok((Matched::Flag(false), cur)),
        },
    }
}

/// Matches the positions from `i` on, in order, against the list `cur`.
pub open spec fn spec_match_from(items: Seq<Positional>, i: int, cur: SExpr) -> Result<
    (Seq<Matched>, SExpr),
    ParseError,
>
    decreases items.len() - i,
{
    if i < 0 || i >= items.len() {
        Ok((Seq::empty(), cur))
    } else {
        match spec_step(items[i], cur) {
            Err(e) => Err(e),
            Ok((m, rest)) => match spec_match_from(items, i + 1, rest) {
                Err(e) => Err(e),
                Ok((ms, end)) => Ok((seq![m].add(ms), end)),
            },
        }
    }
}

/// The decoding of a positional record `(<head> ...)`.
pub open spec fn spec_match_positional(head: &'static str, items: Seq<Positional>, e: SExpr) -> Result<
    Seq<Matched>,
    ParseError,
> {
    match spec_named_head(e, head) {
        Err(err) => Err(err),
        Ok(rest) => match spec_match_from(items, 0, rest) {
            Err(err) => Err(err),
            Ok((ms, end)) => match spec_expect_null(end) {
                Err(err) => Err(err),
                Ok(_) => Ok(ms),
            },
        },
    }
}

fn step<'a>(item: Positional, cur: &'a SExpr) -> (r: Result<(Matched, &'a SExpr), ParseError>)
    requires
        match item {
            Positional::Leaf(c) => c.is_leaf(),
            Positional::Optional(c) => c.is_leaf(),
            Positional::Flag(_) => true,
        },
    ensures
        match spec_step(item, *cur) {
            Ok((m, t)) => r matches Ok((m2, t2)) && m2 == m && *t2 == t,
            Err(e) => r matches Err(e2) && e2 == e,
        },
{
    match item {
        Positional::Leaf(c) => match cur {
            SExpr::Cons(h, t) => {
                let v = coerce(&**h, c)?;
                Ok((Matched::Value(v), &**t))
            },
            _ => Err(ParseError::ExpectedList(cur.copy())),
        },
        Positional::Optional(c) => match cur {
            SExpr::Null => Ok((Matched::Absent, cur)),
            SExpr::Cons(h, t) => {
                let v = coerce(&**h, c)?;
                Ok((Matched::Value(v), &**t))
            },
            _ => Err(ParseError::ExpectedList(cur.copy())),
        },
        Positional::Flag(name) => match cur {
            SExpr::Cons(h, t) => {
                if symbol_is(&**h, name) {
                    Ok((Matched::Flag(true), &**t))
                } else {
                    Ok((Matched::Flag(false), cur))
                }
            },
            _ => Ok((Matched::Flag(false), cur)),
        },
    }
}

/// Matches the positional record `e`, headed by `head`, against the positions `items`.
pub fn match_positional(head: &'static str, items: &Vec<Positional>, e: &SExpr) -> (r: Result<
    Vec<Matched>,
    ParseError,
>)
    requires
        well_formed(items@),
    ensures
        match spec_match_positional(head, items@, *e) {
            Ok(ms) => r matches Ok(v) && v@ == ms,
            Err(err) => r matches Err(e2) && e2 == err,
        },
{
    let rest = expect_named_head(e, head)?;
    let mut cur = rest;
    let mut out: Vec<Matched> = Vec::new();
    let mut i: usize = 0;
    proof {
        match spec_match_from(items@, 0, *rest) {
            Ok((ms, end)) => assert(out@.add(ms) =~= ms),
            Err(_) => {},
        }
    }
    while i < items.len()
        invariant
            well_formed(items@),
            i <= items@.len(),
            spec_match_positional(head, items@, *e) == match spec_match_from(items@, 0, *rest) {
                Err(err) => Err(err),
                Ok((ms, end)) => match spec_expect_null(end) {
                    Err(err) => Err(err),
                    Ok(_) => Ok::<Seq<Matched>, ParseError>(ms),
                },
            },
            spec_match_from(items@, 0, *rest) == match spec_match_from(items@, i as int, *cur) {
                Ok((ms, end)) => Ok((out@.add(ms), end)),
                Err(err) => Err::<(Seq<Matched>, SExpr), ParseError>(err),
            },
        decreases items@.len() - i,
    {
        let item = items[i];
        assert(match items@[i as int] {
            Positional::Leaf(c) => c.is_leaf(),
            Positional::Optional(c) => c.is_leaf(),
            Positional::Flag(_) => true,
        });
        let (m, next) = match step(item, cur) {
            Ok(p) => p,
            Err(err) => {
                return Err(err);
            },
        };
        let ghost before = out@;
        out.push(m);
        proof {
            match spec_match_from(items@, i + 1, *next) {
                Ok((ms, end)) => assert(before.add(seq![m].add(ms)) =~= out@.add(ms)),
                Err(_) => {},
            }
        }
        cur = next;
        i = i + 1;
    }
    proof {
        assert(out@.add(Seq::empty()) =~= out@);
    }
    expect_null(cur)?;
    Ok(out)
}

} // verus!

verus! {

/// The number that a position matched.
pub open spec fn float_of(m: Matched) -> Decimal {
    match m {
        Matched::Value(LeafValue::Float(d)) => d,
        _ => Decimal { mantissa: 0, scale: 0 },
    }
}

/// The number that an optional position matched, if present.
pub open spec fn opt_float_of(m: Matched) -> Option<Decimal> {
    match m {
        Matched::Value(LeafValue::Float(d)) => Some(d),
        _ => None,
    }
}

/// The number that the position `m` matched.
pub fn matched_float(m: &Matched) -> (r: Decimal)
    ensures
        r == float_of(*m),
{
    match m {
        Matched::Value(LeafValue::Float(d)) => *d,
        _ => Decimal { mantissa: 0, scale: 0 },
    }
}

/// The number that the optional position `m` matched, if present.
pub fn matched_opt_float(m: &Matched) -> (r: Option<Decimal>)
    ensures
        r == opt_float_of(*m),
{
    match m {
        Matched::Value(LeafValue::Float(d)) => Some(*d),
        _ => None,
    }
}

} // verus!
