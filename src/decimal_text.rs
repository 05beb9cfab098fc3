//! Reading a decimal number from its text: an optional minus sign, digits, and optionally a
//! point followed by digits, as in `-12.345`.
use crate::sexpr::Decimal;
use vstd::prelude::*;

verus! {

/// Whether `c` is an ASCII digit.
pub open spec fn is_digit(c: char) -> bool {
    '0' <= c && c <= '9'
}

/// Whether every character of `s` is a digit.
pub open spec fn all_digits(s: Seq<char>) -> bool {
    forall|i: int| 0 <= i < s.len() ==> is_digit(#[trigger] s[i])
}

/// The number that the digits `s` denote.
pub open spec fn digits_value(s: Seq<char>) -> int
    decreases s.len(),
{
    if s.len() == 0 {
        0
    } else {
        10 * digits_value(s.drop_last()) + (s.last() as int - '0' as int)
    }
}

/// The number of characters before the first point of `b`, or its length.
pub open spec fn point_at(b: Seq<char>) -> int
    decreases b.len(),
{
    if b.len() == 0 || b[0] == '.' {
        0
    } else {
        1 + point_at(b.subrange(1, b.len() as int))
    }
}

/// The decimal that the text `s` denotes, if it is one that fits.
pub open spec fn spec_parse_decimal(s: Seq<char>) -> Option<Decimal> {
    let neg = s.len() > 0 && s[0] == '-';
    let b = if neg {
        s.subrange(1, s.len() as int)
    } else {
        s
    };
    let p = point_at(b);
    let whole = b.take(p);
    let frac = if p < b.len() {
        b.skip(p + 1)
    } else {
        Seq::empty()
    };
    let magnitude = digits_value(whole + frac);
    let m = if neg {
        -magnitude
    } else {
        magnitude
    };
    if whole.len() > 0 && all_digits(whole) && (p == b.len() || (frac.len() > 0 && all_digits(
        frac,
    ))) && i64::MIN <= m <= i64::MAX && frac.len() <= u32::MAX {
        Some(Decimal { mantissa: m as i64, scale: frac.len() as u32 })
    } else {
        None
    }
}

proof fn lemma_digits_nonneg(s: Seq<char>)
    requires
        all_digits(s),
    ensures
        digits_value(s) >= 0,
    decreases s.len(),
{
    if s.len() > 0 {
        lemma_digits_nonneg(s.drop_last());
    }
}

proof fn lemma_digits_grow(x: Seq<char>, y: Seq<char>)
    requires
        all_digits(x),
        all_digits(y),
    ensures
        digits_value(x + y) >= digits_value(x),
    decreases y.len(),
{
    if y.len() > 0 {
        assert((x + y).drop_last() =~= x + y.drop_last());
        assert((x + y).last() == y.last());
        lemma_digits_grow(x, y.drop_last());
        assert(all_digits(x + y.drop_last()));
        lemma_digits_nonneg(x + y.drop_last());
    }
}

proof fn lemma_point_at(b: Seq<char>, k: int)
    requires
        0 <= k <= b.len(),
        forall|i: int| 0 <= i < k ==> b[i] != '.',
        k == b.len() || b[k] == '.',
    ensures
        point_at(b) == k,
    decreases k,
{
    if k > 0 {
        let t = b.subrange(1, b.len() as int);
        assert forall|i: int| 0 <= i < k - 1 implies t[i] != '.' by {
            assert(t[i] == b[i + 1]);
        }
        if k < b.len() {
            assert(t[k - 1] == b[k]);
        }
        lemma_point_at(t, k - 1);
    }
}

/// The largest magnitude a mantissa may have: that of `i64::MIN`.
const MAGNITUDE_LIMIT: u64 = 9_223_372_036_854_775_808;

/// The position of the first point of `text` at or after `from`, or its length.
fn find_point(text: &str, from: usize, n: usize) -> (r: usize)
    requires
        n == text@.len(),
        from <= n,
    ensures
        from <= r <= n,
        r == from + point_at(text@.subrange(from as int, n as int)),
{
    let ghost b = text@.subrange(from as int, n as int);
    let mut i = from;
    while i < n && text.get_char(i) != '.'
        invariant
            n == text@.len(),
            from <= i <= n,
            b == text@.subrange(from as int, n as int),
            forall|k: int| 0 <= k < i - from ==> b[k] != '.',
        decreases n - i,
    {
        i = i + 1;
    }
    proof {
        lemma_point_at(b, (i - from) as int);
    }
    i
}

/// Appends the digits of `text` between `from` and `to` to the number `acc`, whose digits are
/// `pre`; `None` when one of them is not a digit or the number grows past the limit.
fn accumulate_digits(text: &str, from: usize, to: usize, acc: u64, Ghost(pre): Ghost<Seq<char>>) -> (r:
    Option<u64>)
    requires
        from <= to <= text@.len(),
        all_digits(pre),
        acc == digits_value(pre),
        acc <= MAGNITUDE_LIMIT,
    ensures
        r matches Some(v) ==> all_digits(text@.subrange(from as int, to as int)) && v
            == digits_value(pre + text@.subrange(from as int, to as int)) && v <= MAGNITUDE_LIMIT,
        r is None ==> !all_digits(text@.subrange(from as int, to as int)) || digits_value(
            pre + text@.subrange(from as int, to as int),
        ) > MAGNITUDE_LIMIT,
{
    let mut mag = acc;
    let mut i = from;
    while i < to
        invariant
            from <= i <= to <= text@.len(),
            all_digits(pre),
            all_digits(text@.subrange(from as int, i as int)),
            mag == digits_value(pre + text@.subrange(from as int, i as int)),
            mag <= MAGNITUDE_LIMIT,
        decreases to - i,
    {
        let c = text.get_char(i);
        let ghost done = pre + text@.subrange(from as int, i as int);
        proof {
            assert(pre + text@.subrange(from as int, i + 1) =~= done.push(c));
            assert(text@.subrange(from as int, i + 1) =~= text@.subrange(from as int, i as int).push(c));
        }
        if !('0' <= c && c <= '9') {
            proof {
                assert(text@.subrange(from as int, to as int)[i - from] == c);
            }
            return None;
        }
        let d = (c as u64) - ('0' as u64);
        if mag > (MAGNITUDE_LIMIT - d) / 10 {
            proof {
                let now = done.push(c);
                assert(now.drop_last() =~= done);
                let m = mag as int;
                let dd = d as int;
                assert(10 * m + dd > MAGNITUDE_LIMIT) by (nonlinear_arith)
                    requires
                        m > (MAGNITUDE_LIMIT - dd) / 10,
                        0 <= dd <= 9,
                ;
                assert(digits_value(now) > MAGNITUDE_LIMIT);
                let later = text@.subrange(i + 1, to as int);
                if all_digits(text@.subrange(from as int, to as int)) {
                    assert forall|k: int| 0 <= k < later.len() implies is_digit(#[trigger] later[k]) by {
                        assert(later[k] == text@.subrange(from as int, to as int)[k + i + 1 - from]);
                    }
                    assert forall|k: int| 0 <= k < now.len() implies is_digit(#[trigger] now[k]) by {
                        if k < pre.len() {
                        } else {
                            assert(now[k] == text@.subrange(from as int, to as int)[k - pre.len()]);
                        }
                    }
                    assert(now + later =~= pre + text@.subrange(from as int, to as int));
                    lemma_digits_grow(now, later);
                }
            }
            return None;
        }
        proof {
            let now = done.push(c);
            assert(now.drop_last() =~= done);
            let m = mag as int;
            let dd = d as int;
            assert(10 * m + dd <= MAGNITUDE_LIMIT) by (nonlinear_arith)
                requires
                    m <= (MAGNITUDE_LIMIT - dd) / 10,
                    0 <= dd <= 9,
            ;
            assert forall|k: int| 0 <= k < i + 1 - from implies is_digit(
                #[trigger] text@.subrange(from as int, i + 1)[k],
            ) by {
                if k < i - from {
                    assert(text@.subrange(from as int, i + 1)[k] == text@.subrange(
                        from as int,
                        i as int,
                    )[k]);
                }
            }
        }
        mag = mag * 10 + d;
        i = i + 1;
    }
    Some(mag)
}

impl Decimal {
    /// Reads the decimal written as `text`: an optional minus sign, digits, and optionally a
    /// point followed by digits. Anything else, or a value whose digits do not fit in an `i64`,
    /// gives `None`.
    pub fn parse(text: &str) -> (r: Option<Decimal>)
        ensures
            r == spec_parse_decimal(text@),
    {
        let ghost s = text@;
        let n = text.unicode_len();
        let neg = n > 0 && text.get_char(0) == '-';
        let start: usize = if neg {
            1
        } else {
            0
        };
        let ghost b = s.subrange(start as int, n as int);
        proof {
            if !neg {
                assert(s.subrange(0, s.len() as int) =~= s);
            }
        }
        let p = find_point(text, start, n);
        let ghost whole = b.take(p - start);
        proof {
            assert(whole =~= s.subrange(start as int, p as int));
        }
        if p == start {
            return None;
        }
        let mag = match accumulate_digits(text, start, p, 0, Ghost(Seq::empty())) {
            Some(m) => m,
            None => {
                proof {
                    assert(Seq::<char>::empty() + whole =~= whole);
                    if all_digits(whole) && p < n {
                        let frac = b.skip(p - start + 1);
                        if frac.len() > 0 && all_digits(frac) {
                            lemma_digits_grow(whole, frac);
                        }
                    } else if all_digits(whole) {
                        assert(whole + Seq::<char>::empty() =~= whole);
                    }
                }
                return None;
            },
        };
        proof {
            assert(Seq::<char>::empty() + whole =~= whole);
        }
        let mut scale: u32 = 0;
        let mut total = mag;
        if p < n {
            let ghost frac = b.skip(p - start + 1);
            proof {
                assert(frac =~= s.subrange(p + 1, n as int));
            }
            if p + 1 == n {
                return None;
            }
            if n - (p + 1) > u32::MAX as usize {
                return None;
            }
            total = match accumulate_digits(text, p + 1, n, mag, Ghost(whole)) {
                Some(m) => m,
                None => {
                    return None;
                },
            };
            scale = (n - (p + 1)) as u32;
        } else {
            proof {
                assert(whole + Seq::<char>::empty() =~= whole);
            }
        }
        if neg {
            Some(Decimal { mantissa: (-(total as i128)) as i64, scale })
        } else if total == MAGNITUDE_LIMIT {
            None
        } else {
            Some(Decimal { mantissa: total as i64, scale })
        }
    }
}


} // verus!
