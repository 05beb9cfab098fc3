use vstd::prelude::*;

verus! {

/// A decimal number `mantissa / 10^scale`, kept exactly as it was written.
#[derive(Clone, Copy, Debug, PartialEq, Eq, Structural)]
pub struct Decimal {
    pub mantissa: i64,
    pub scale: u32,
}

impl Decimal {
    /// The number `mantissa / 10^scale`.
    pub fn new(mantissa: i64, scale: u32) -> (r: Decimal)
        ensures
            r.mantissa == mantissa,
            r.scale == scale,
    {
        Decimal { mantissa, scale }
    }

    /// The integer `value`, written without a fractional part.
    pub fn from_int(value: i64) -> (r: Decimal)
        ensures
            r.mantissa == value,
            r.scale == 0,
    {
        Decimal { mantissa: value, scale: 0 }
    }
}

/// A node of a symbolic-expression tree: an atom, a pair, or the empty list.
///
/// A proper list is a chain of `Cons` pairs that ends in `Null`.
#[derive(Debug, PartialEq)]
pub enum SExpr {
    Null,
    Bool(bool),
    Number(Decimal),
    Str(String),
    Symbol(String),
    Cons(Box<SExpr>, Box<SExpr>),
}

/// The elements of a proper list, or `None` when `e` is not one.
pub open spec fn list_items(e: SExpr) -> Option<Seq<SExpr>>
    decreases e,
{
    match e {
        SExpr::Null => Some(Seq::empty()),
        SExpr::Cons(h, t) => match list_items(*t) {
            Some(rest) => Some(seq![*h].add(rest)),
            None => None,
        },
        _ => None,
    }
}

/// The number of pairs in the chain that starts at `e`.
pub open spec fn list_len(e: SExpr) -> nat
    decreases e,
{
    match e {
        SExpr::Cons(_, t) => 1 + list_len(*t),
        _ => 0,
    }
}

impl SExpr {
    /// The empty list.
    pub fn null() -> (r: SExpr)
        ensures
            r == SExpr::Null,
    {
        SExpr::Null
    }

    /// A symbol atom.
    pub fn symbol(name: &str) -> (r: SExpr)
        ensures
            r matches SExpr::Symbol(s) && s@ == name@,
    {
        SExpr::Symbol(name.to_owned())
    }

    /// A string atom.
    pub fn string(text: &str) -> (r: SExpr)
        ensures
            r matches SExpr::Str(s) && s@ == text@,
    {
        SExpr::Str(text.to_owned())
    }

    /// A numeric atom.
    pub fn number(value: Decimal) -> (r: SExpr)
        ensures
            r == SExpr::Number(value),
    {
        SExpr::Number(value)
    }

    /// A boolean atom.
    pub fn boolean(value: bool) -> (r: SExpr)
        ensures
            r == SExpr::Bool(value),
    {
        SExpr::Bool(value)
    }

    /// The pair `(head . tail)`.
    pub fn cons(head: SExpr, tail: SExpr) -> (r: SExpr)
        ensures
            r == SExpr::Cons(Box::new(head), Box::new(tail)),
    {
        SExpr::Cons(Box::new(head), Box::new(tail))
    }

    /// The proper list holding `items` in order.
    pub fn list(items: Vec<SExpr>) -> (r: SExpr)
        ensures
            list_items(r) == Some(items@),
    {
        let mut items = items;
        let ghost all = items@;
        let mut r = SExpr::Null;
        while items.len() > 0
            invariant
                all.len() >= items@.len(),
                items@ == all.subrange(0, items@.len() as int),
                list_items(r) == Some(all.subrange(items@.len() as int, all.len() as int)),
            decreases items@.len(),
        {
            let ghost before = items@;
            let last = items.pop().unwrap();
            proof {
                assert(last == all[items@.len() as int]);
                assert(all.subrange(items@.len() as int, all.len() as int) =~= seq![last].add(
                    all.subrange(items@.len() + 1int, all.len() as int),
                ));
            }
            r = SExpr::Cons(Box::new(last), Box::new(r));
        }
        assert(all.subrange(0, all.len() as int) =~= all);
        r
    }

    /// A copy of this tree, equal to it.
    pub fn copy(&self) -> (r: SExpr)
        ensures
            r == *self,
        decreases self,
    {
        match self {
            SExpr::Null => SExpr::Null,
            SExpr::Bool(b) => SExpr::Bool(*b),
            SExpr::Number(d) => SExpr::Number(*d),
            SExpr::Str(s) => SExpr::Str(s.clone()),
            SExpr::Symbol(s) => SExpr::Symbol(s.clone()),
            SExpr::Cons(h, t) => {
                let h2 = (**h).copy();
                let t2 = (**t).copy();
                SExpr::Cons(Box::new(h2), Box::new(t2))
            },
        }
    }
}

} // verus!
