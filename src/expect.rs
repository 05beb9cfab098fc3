//! Expectations on the next element of a list: the positional matching steps that every record
//! decoder is built from. Each one either yields the typed value and the rest of the list, or the
//! error that names the offending sub-expression.
use crate::error::ParseError;
use crate::sexpr::{Decimal, SExpr};
use vstd::prelude::*;

verus! {

/// Whether the text `s` is `lit`.
pub fn text_is(s: &String, lit: &str) -> (r: bool)
    ensures
        r == (s@ == lit@),
{
    let t = lit.to_owned();
    s.eq(&t)
}

/// Whether `r`, holding a borrowed rest of a list, is the result `s`.
pub open spec fn same_rest<T>(r: Result<(T, &SExpr), ParseError>, s: Result<(T, SExpr), ParseError>) -> bool {
    match s {
        Ok((v, t)) => r matches Ok((v2, t2)) && v2 == v && *t2 == t,
        Err(e) => r matches Err(e2) && e2 == e,
    }
}

/// Whether `r`, holding a borrowed expression, is the result `s`.
pub open spec fn same_expr(r: Result<&SExpr, ParseError>, s: Result<SExpr, ParseError>) -> bool {
    match s {
        Ok(t) => r matches Ok(t2) && *t2 == t,
        Err(e) => r matches Err(e2) && e2 == e,
    }
}

/// The head and tail of a pair.
pub open spec fn spec_expect_cons(v: SExpr) -> Result<(SExpr, SExpr), ParseError> {
    match v {
        SExpr::Cons(h, t) => Ok((*h, *t)),
        _ => Err(ParseError::ExpectedList(v)),
    }
}

/// The head and tail of `v`, which must be a pair.
pub fn expect_cons(v: &SExpr) -> (r: Result<(&SExpr, &SExpr), ParseError>)
    ensures
        match spec_expect_cons(*v) {
            Ok((h, t)) => r matches Ok((h2, t2)) && *h2 == h && *t2 == t,
            Err(e) => r matches Err(e2) && e2 == e,
        },
{
    match v {
        SExpr::Cons(h, t) => Ok((&**h, &**t)),
        _ => Err(ParseError::ExpectedList(v.copy())),
    }
}

/// The end of a list.
pub open spec fn spec_expect_null(v: SExpr) -> Result<(), ParseError> {
    match v {
        SExpr::Null => Ok(()),
        _ => Err(ParseError::ExpectedNil(v)),
    }
}

/// Requires `v` to be the end of a list: no trailing content is tolerated.
pub fn expect_null(v: &SExpr) -> (r: Result<(), ParseError>)
    ensures
        r == spec_expect_null(*v),
{
    match v {
        SExpr::Null => Ok(()),
        _ => Err(ParseError::ExpectedNil(v.copy())),
    }
}

/// Whether `v` is the symbol `name`.
pub open spec fn is_symbol(v: SExpr, name: &str) -> bool {
    v matches SExpr::Symbol(s) && s@ == name@
}

/// Whether `v` is the symbol `name`.
pub fn symbol_is(v: &SExpr, name: &str) -> (r: bool)
    ensures
        r == is_symbol(*v, name),
{
    match v {
        SExpr::Symbol(s) => text_is(s, name),
        _ => false,
    }
}

/// The symbol `name` itself.
pub open spec fn spec_expect_symbol(v: SExpr, name: &'static str) -> Result<(), ParseError> {
    if is_symbol(v, name) {
        Ok(())
    } else {
        Err(ParseError::ExpectedNamedSym(v, name))
    }
}

/// Requires `v` to be the symbol `name`.
pub fn expect_symbol(v: &SExpr, name: &'static str) -> (r: Result<(), ParseError>)
    ensures
        r == spec_expect_symbol(*v, name),
{
    if symbol_is(v, name) {
        Ok(())
    } else {
        Err(ParseError::ExpectedNamedSym(v.copy(), name))
    }
}

/// The rest of a list headed by the symbol `name`.
pub open spec fn spec_named_head(v: SExpr, name: &'static str) -> Result<SExpr, ParseError> {
    match v {
        SExpr::Cons(h, t) => if is_symbol(*h, name) {
            Ok(*t)
        } else {
            Err(ParseError::ExpectedNamedSym(*h, name))
        },
        _ => Err(ParseError::ExpectedList(v)),
    }
}

/// Requires `v` to be a list headed by the symbol `name`, and gives the rest of it.
pub fn expect_named_head<'a>(v: &'a SExpr, name: &'static str) -> (r: Result<&'a SExpr, ParseError>)
    ensures
        same_expr(r, spec_named_head(*v, name)),
{
    match v {
        SExpr::Cons(h, t) => {
            if symbol_is(&**h, name) {
                Ok(&**t)
            } else {
                Err(ParseError::ExpectedNamedSym((**h).copy(), name))
            }
        },
        _ => Err(ParseError::ExpectedList(v.copy())),
    }
}

/// A number at the head of a list, and the rest of it.
pub open spec fn spec_float_head(v: SExpr) -> Result<(Decimal, SExpr), ParseError> {
    match v {
        SExpr::Cons(h, t) => match *h {
            SExpr::Number(d) => Ok((d, *t)),
            _ => Err(ParseError::ExpectedFloat(*h)),
        },
        _ => Err(ParseError::ExpectedList(v)),
    }
}

/// Reads a number at the head of the list `v`.
pub fn expect_float_head(v: &SExpr) -> (r: Result<(Decimal, &SExpr), ParseError>)
    ensures
        same_rest(r, spec_float_head(*v)),
{
    match v {
        SExpr::Cons(h, t) => match &**h {
            SExpr::Number(d) => Ok((*d, &**t)),
            _ => Err(ParseError::ExpectedFloat((**h).copy())),
        },
        _ => Err(ParseError::ExpectedList(v.copy())),
    }
}

/// The integer that `mantissa / 10^scale` equals, if it is one.
pub open spec fn spec_integral(mantissa: int, scale: nat) -> Option<int>
    decreases scale,
{
    if scale == 0 {
        Some(mantissa)
    } else if mantissa % 10 == 0 {
        spec_integral(mantissa / 10, (scale - 1) as nat)
    } else {
        None
    }
}

/// The integer value of `d`, if it has no fractional part.
pub fn decimal_to_int(d: Decimal) -> (r: Option<i64>)
    ensures
        r matches Some(i) ==> spec_integral(d.mantissa as int, d.scale as nat) == Some(i as int),
        r is None ==> spec_integral(d.mantissa as int, d.scale as nat) is None,
{
    let mut m: i64 = d.mantissa;
    let mut s: u32 = d.scale;
    while s > 0
        invariant
            spec_integral(d.mantissa as int, d.scale as nat) == spec_integral(m as int, s as nat),
        decreases s,
    {
        if m % 10 != 0 {
            return None;
        }
        if m == 0 {
            proof {
                lemma_integral_zero(s as nat);
            }
            return Some(0);
        }
        let ghost before = m;
        m = m / 10;
        s = s - 1;
        proof {
            assert(before % 10 == 0);
        }
    }
    Some(m)
}

proof fn lemma_integral_zero(scale: nat)
    ensures
        spec_integral(0, scale) == Some(0int),
    decreases scale,
{
    if scale > 0 {
        lemma_integral_zero((scale - 1) as nat);
    }
}

/// An integral number at the head of a list, and the rest of it.
pub open spec fn spec_int_head(v: SExpr) -> Result<(i64, SExpr), ParseError> {
    match v {
        SExpr::Cons(h, t) => match *h {
            SExpr::Number(d) => match spec_integral(d.mantissa as int, d.scale as nat) {
                Some(i) => Ok((i as i64, *t)),
                None => Err(ParseError::ExpectedInt(*h)),
            },
            _ => Err(ParseError::ExpectedInt(*h)),
        },
        _ => Err(ParseError::ExpectedList(v)),
    }
}

/// Reads an integral number at the head of the list `v`.
pub fn expect_int_head(v: &SExpr) -> (r: Result<(i64, &SExpr), ParseError>)
    ensures
        same_rest(r, spec_int_head(*v)),
{
    match v {
        SExpr::Cons(h, t) => match &**h {
            SExpr::Number(d) => match decimal_to_int(*d) {
                Some(i) => Ok((i, &**t)),
                None => Err(ParseError::ExpectedInt((**h).copy())),
            },
            _ => Err(ParseError::ExpectedInt((**h).copy())),
        },
        _ => Err(ParseError::ExpectedList(v.copy())),
    }
}

/// A string (or symbol) at the head of a list, and the rest of it.
pub open spec fn spec_str_head(v: SExpr) -> Result<(String, SExpr), ParseError> {
    match v {
        SExpr::Cons(h, t) => match *h {
            SExpr::Str(s) => Ok((s, *t)),
            SExpr::Symbol(s) => Ok((s, *t)),
            _ => Err(ParseError::ExpectedStr(*h)),
        },
        _ => Err(ParseError::ExpectedList(v)),
    }
}

/// Reads a string, or the text of a symbol, at the head of the list `v`.
pub fn expect_str_head(v: &SExpr) -> (r: Result<(String, &SExpr), ParseError>)
    ensures
        same_rest(r, spec_str_head(*v)),
{
    match v {
        SExpr::Cons(h, t) => match &**h {
            SExpr::Str(s) => Ok((s.clone(), &**t)),
            SExpr::Symbol(s) => Ok((s.clone(), &**t)),
            _ => Err(ParseError::ExpectedStr((**h).copy())),
        },
        _ => Err(ParseError::ExpectedList(v.copy())),
    }
}

/// A symbol at the head of a list, and the rest of it.
pub open spec fn spec_symbol_head(v: SExpr) -> Result<(String, SExpr), ParseError> {
    match v {
        SExpr::Cons(h, t) => match *h {
            SExpr::Symbol(s) => Ok((s, *t)),
            _ => Err(ParseError::ExpectedSym(*h)),
        },
        _ => Err(ParseError::ExpectedList(v)),
    }
}

/// Reads a symbol at the head of the list `v`.
pub fn expect_symbol_head(v: &SExpr) -> (r: Result<(String, &SExpr), ParseError>)
    ensures
        same_rest(r, spec_symbol_head(*v)),
{
    match v {
        SExpr::Cons(h, t) => match &**h {
            SExpr::Symbol(s) => Ok((s.clone(), &**t)),
            _ => Err(ParseError::ExpectedSym((**h).copy())),
        },
        _ => Err(ParseError::ExpectedList(v.copy())),
    }
}

/// The truth value of an atom: the symbols `yes`, `y`, `true`, `t` and `no`, `n`, `false`, `f`,
/// a boolean atom, or the empty list for false.
pub open spec fn spec_bool(v: SExpr) -> Result<bool, ParseError> {
    match v {
        SExpr::Symbol(s) => if s@ == "yes"@ || s@ == "y"@ || s@ == "true"@ || s@ == "t"@ {
            Ok(true)
        } else if s@ == "no"@ || s@ == "n"@ || s@ == "false"@ || s@ == "f"@ {
            Ok(false)
        } else {
            Err(ParseError::Unexpected(v))
        },
        SExpr::Bool(b) => Ok(b),
        SExpr::Null => Ok(false),
        _ => Err(ParseError::Unexpected(v)),
    }
}

/// Reads the truth value of the atom `v`.
pub fn expect_bool(v: &SExpr) -> (r: Result<bool, ParseError>)
    ensures
        r == spec_bool(*v),
{
    match v {
        SExpr::Symbol(s) => {
            if text_is(s, "yes") || text_is(s, "y") || text_is(s, "true") || text_is(s, "t") {
                Ok(true)
            } else if text_is(s, "no") || text_is(s, "n") || text_is(s, "false") || text_is(
                s,
                "f",
            ) {
                Ok(false)
            } else {
                Err(ParseError::Unexpected(v.copy()))
            }
        },
        SExpr::Bool(b) => Ok(*b),
        SExpr::Null => Ok(false),
        _ => Err(ParseError::Unexpected(v.copy())),
    }
}

} // verus!

verus! {

/// An optional last number of a list: absent when the list has ended, otherwise one number
/// followed by the end of the list.
pub open spec fn spec_opt_float_end(v: SExpr) -> Result<Option<Decimal>, ParseError> {
    match v {
        SExpr::Null => Ok(None),
        _ => match spec_float_head(v) {
            Err(e) => Err(e),
            Ok((d, t)) => match spec_expect_null(t) {
                Err(e) => Err(e),
                Ok(_) => Ok(Some(d)),
            },
        },
    }
}

/// Reads an optional last number of the list `v`, with one token of lookahead.
pub fn expect_opt_float_end(v: &SExpr) -> (r: Result<Option<Decimal>, ParseError>)
    ensures
        r == spec_opt_float_end(*v),
{
    match v {
        SExpr::Null => Ok(None),
        _ => {
            let (d, t) = expect_float_head(v)?;
            expect_null(t)?;
            Ok(Some(d))
        },
    }
}

/// A single number closing a list, as in `(thickness 0.15)` after its key.
pub open spec fn spec_float_end(v: SExpr) -> Result<Decimal, ParseError> {
    match spec_float_head(v) {
        Err(e) => Err(e),
        Ok((d, t)) => match spec_expect_null(t) {
            Err(e) => Err(e),
            Ok(_) => Ok(d),
        },
    }
}

/// Reads the single number that closes the list `v`.
pub fn expect_float_end(v: &SExpr) -> (r: Result<Decimal, ParseError>)
    ensures
        r == spec_float_end(*v),
{
    let (d, t) = expect_float_head(v)?;
    expect_null(t)?;
    Ok(d)
}

/// A single string closing a list, as in `(face "Arial")` after its key.
pub open spec fn spec_str_end(v: SExpr) -> Result<String, ParseError> {
    match spec_str_head(v) {
        Err(e) => Err(e),
        Ok((s, t)) => match spec_expect_null(t) {
            Err(e) => Err(e),
            Ok(_) => Ok(s),
        },
    }
}

/// Reads the single string that closes the list `v`.
pub fn expect_str_end(v: &SExpr) -> (r: Result<String, ParseError>)
    ensures
        r == spec_str_end(*v),
{
    let (s, t) = expect_str_head(v)?;
    expect_null(t)?;
    Ok(s)
}

/// A single integer closing a list, as in `(id 3)` after its key.
pub open spec fn spec_int_end(v: SExpr) -> Result<i64, ParseError> {
    match spec_int_head(v) {
        Err(e) => Err(e),
        Ok((i, t)) => match spec_expect_null(t) {
            Err(e) => Err(e),
            Ok(_) => Ok(i),
        },
    }
}

/// Reads the single integer that closes the list `v`.
pub fn expect_int_end(v: &SExpr) -> (r: Result<i64, ParseError>)
    ensures
        r == spec_int_end(*v),
{
    let (i, t) = expect_int_head(v)?;
    expect_null(t)?;
    Ok(i)
}

/// A single symbol closing a list, as in `(generator eeschema)` after its key.
pub open spec fn spec_symbol_end(v: SExpr) -> Result<String, ParseError> {
    match spec_symbol_head(v) {
        Err(e) => Err(e),
        Ok((s, t)) => match spec_expect_null(t) {
            Err(e) => Err(e),
            Ok(_) => Ok(s),
        },
    }
}

/// Reads the single symbol that closes the list `v`.
pub fn expect_symbol_end(v: &SExpr) -> (r: Result<String, ParseError>)
    ensures
        r == spec_symbol_end(*v),
{
    let (s, t) = expect_symbol_head(v)?;
    expect_null(t)?;
    Ok(s)
}

} // verus!
