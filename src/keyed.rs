//! The keyed discipline: a record whose sub-elements carry their own key, in any order.
//!
//! A schema lists the record's fields with their multiplicity. Scanning a list assigns each
//! element to the field its key names, refusing malformed elements, unknown keys and a second
//! occurrence of a singular field; the decoder then reads each field's elements in declaration
//! order, and finally requires every required field to be present, checked in declaration
//! order. The first failure of these three steps is the one reported.
use crate::error::ParseError;
use crate::expect::text_is;
use crate::sexpr::SExpr;
use vstd::prelude::*;

verus! {

/// How often a field of a keyed record may occur.
#[derive(Clone, Copy, Debug, PartialEq, Eq, Structural)]
pub enum Multiplicity {
    /// Exactly once.
    Required,
    /// At most once.
    Optional,
    /// Any number of times, kept in input order.
    Repeated,
    /// A bare symbol that sets a boolean.
    Flag,
}

/// One field of a keyed record: the key that selects it, the name errors report it by, and how
/// often it may occur.
#[derive(Clone, Copy, Debug)]
pub struct FieldRule {
    pub key: &'static str,
    pub name: &'static str,
    pub multiplicity: Multiplicity,
}

/// The field rule for `key`, reported as `name`, with multiplicity `m`.
pub open spec fn rule(key: &'static str, name: &'static str, m: Multiplicity) -> FieldRule {
    FieldRule { key, name, multiplicity: m }
}

/// Whether a field of multiplicity `m` may occur at most once.
pub open spec fn singular(m: Multiplicity) -> bool {
    m == Multiplicity::Required || m == Multiplicity::Optional
}

/// The first rule at or after `i` whose key is `key`, among the flags when `flag` holds and
/// among the other fields otherwise.
pub open spec fn find_rule(rules: Seq<FieldRule>, key: Seq<char>, flag: bool, i: int) -> Option<int>
    decreases rules.len() - i,
{
    if i < 0 || i >= rules.len() {
        None
    } else if rules[i].key@ == key && (rules[i].multiplicity == Multiplicity::Flag) == flag {
        Some(i)
    } else {
        find_rule(rules, key, flag, i + 1)
    }
}

/// The field that the element `el` belongs to: a list names it by its leading symbol, a bare
/// symbol names a flag. Anything else, or a key outside the schema, is refused.
pub open spec fn classify(rules: Seq<FieldRule>, el: SExpr) -> Result<int, ParseError> {
    match el {
        SExpr::Cons(h, _) => match *h {
            SExpr::Symbol(k) => match find_rule(rules, k@, false, 0) {
                Some(i) => Ok(i),
                None => Err(ParseError::Unexpected(el)),
            },
            _ => Err(ParseError::ExpectedSym(*h)),
        },
        SExpr::Symbol(k) => match find_rule(rules, k@, true, 0) {
            Some(i) => Ok(i),
            None => Err(ParseError::Unexpected(el)),
        },
        _ => Err(ParseError::Unexpected(el)),
    }
}

/// The elements assigned to field `i`, in input order.
pub open spec fn elements_of(entries: Seq<(int, SExpr)>, i: int) -> Seq<SExpr>
    decreases entries.len(),
{
    if entries.len() == 0 {
        Seq::empty()
    } else {
        let before = elements_of(entries.drop_last(), i);
        if entries.last().0 == i {
            before.push(entries.last().1)
        } else {
            before
        }
    }
}

/// The element of a singular field `i`, if it occurred.
pub open spec fn slot(entries: Seq<(int, SExpr)>, i: int) -> Option<SExpr> {
    if elements_of(entries, i).len() > 0 {
        Some(elements_of(entries, i)[0])
    } else {
        None
    }
}

/// Scans the rest of a keyed record, after the entries `done`, from left to right.
pub open spec fn scan_from(
    record: &'static str,
    rules: Seq<FieldRule>,
    rest: SExpr,
    done: Seq<(int, SExpr)>,
) -> Result<Seq<(int, SExpr)>, ParseError>
    decreases rest,
{
    match rest {
        SExpr::Null => Ok(done),
        SExpr::Cons(h, t) => match classify(rules, *h) {
            Err(e) => Err(e),
            Ok(i) => if singular(rules[i].multiplicity) && elements_of(done, i).len() > 0 {
                Err(ParseError::DuplicateField(record, rules[i].name, *h))
            } else {
                scan_from(record, rules, *t, done.push((i, *h)))
            },
        },
        _ => Err(ParseError::ExpectedList(rest)),
    }
}

/// The entries of a keyed record's elements `rest`: each element with its field.
pub open spec fn scan(record: &'static str, rules: Seq<FieldRule>, rest: SExpr) -> Result<
    Seq<(int, SExpr)>,
    ParseError,
> {
    scan_from(record, rules, rest, Seq::empty())
}

/// The first required field at or after `j` without an element.
pub open spec fn first_missing(rules: Seq<FieldRule>, entries: Seq<(int, SExpr)>, j: int) -> Option<
    int,
>
    decreases rules.len() - j,
{
    if j < 0 || j >= rules.len() {
        None
    } else if rules[j].multiplicity == Multiplicity::Required && elements_of(entries, j).len()
        == 0 {
        Some(j)
    } else {
        first_missing(rules, entries, j + 1)
    }
}

/// The check that every required field is present, in declaration order.
pub open spec fn spec_required(
    record: &'static str,
    rules: Seq<FieldRule>,
    entries: Seq<(int, SExpr)>,
    whole: SExpr,
) -> Result<(), ParseError> {
    match first_missing(rules, entries, 0) {
        Some(j) => Err(ParseError::MissingField(record, rules[j].name, whole)),
        None => Ok(()),
    }
}

/// The entries as values.
pub open spec fn entries_view(v: Seq<(usize, &SExpr)>) -> Seq<(int, SExpr)> {
    v.map_values(|p: (usize, &SExpr)| (p.0 as int, *p.1))
}

/// The rest of a list element after its key; any other element stands for itself.
pub open spec fn tail_of(el: SExpr) -> SExpr {
    match el {
        SExpr::Cons(_, t) => *t,
        _ => el,
    }
}

/// The rest of the list element `el` after its key.
pub fn tail(el: &SExpr) -> (r: &SExpr)
    ensures
        *r == tail_of(*el),
{
    match el {
        SExpr::Cons(_, t) => &**t,
        _ => el,
    }
}

/// The index of the rule for `key`, among the flags when `flag` holds.
pub fn find_rule_index(rules: &Vec<FieldRule>, key: &String, flag: bool) -> (r: Option<usize>)
    ensures
        r matches Some(i) ==> find_rule(rules@, key@, flag, 0) == Some(i as int),
        r is None ==> find_rule(rules@, key@, flag, 0) is None,
{
    let mut i: usize = 0;
    while i < rules.len()
        invariant
            i <= rules@.len(),
            find_rule(rules@, key@, flag, 0) == find_rule(rules@, key@, flag, i as int),
        decreases rules@.len() - i,
    {
        let is_flag = match rules[i].multiplicity {
            Multiplicity::Flag => true,
            _ => false,
        };
        if text_is(key, rules[i].key) && is_flag == flag {
            return Some(i);
        }
        i = i + 1;
    }
    None
}

/// The field of the element `el`.
pub fn classify_element(rules: &Vec<FieldRule>, el: &SExpr) -> (r: Result<usize, ParseError>)
    ensures
        r matches Ok(j) ==> classify(rules@, *el) == Ok::<int, ParseError>(j as int) && j
            < rules@.len(),
        r matches Err(e) ==> classify(rules@, *el) == Err::<int, ParseError>(e),
{
    proof {
        lemma_find_rule_in_range(rules@, el);
    }
    match el {
        SExpr::Cons(h, _) => match &**h {
            SExpr::Symbol(k) => match find_rule_index(rules, k, false) {
                Some(i) => Ok(i),
                None => Err(ParseError::Unexpected(el.copy())),
            },
            _ => Err(ParseError::ExpectedSym((**h).copy())),
        },
        SExpr::Symbol(k) => match find_rule_index(rules, k, true) {
            Some(i) => Ok(i),
            None => Err(ParseError::Unexpected(el.copy())),
        },
        _ => Err(ParseError::Unexpected(el.copy())),
    }
}

proof fn lemma_find_rule_bounds(rules: Seq<FieldRule>, key: Seq<char>, flag: bool, i: int)
    ensures
        find_rule(rules, key, flag, i) matches Some(j) ==> 0 <= j < rules.len(),
    decreases rules.len() - i,
{
    if 0 <= i < rules.len() {
        lemma_find_rule_bounds(rules, key, flag, i + 1);
    }
}

proof fn lemma_find_rule_in_range(rules: Seq<FieldRule>, el: &SExpr)
    ensures
        classify(rules, *el) matches Ok(i) ==> 0 <= i < rules.len(),
{
    match *el {
        SExpr::Cons(h, _) => match *h {
            SExpr::Symbol(k) => lemma_find_rule_bounds(rules, k@, false, 0),
            _ => {},
        },
        SExpr::Symbol(k) => lemma_find_rule_bounds(rules, k@, true, 0),
        _ => {},
    }
}

proof fn lemma_elements_take_step(entries: Seq<(usize, &SExpr)>, k: int, i: int)
    requires
        0 <= k < entries.len(),
    ensures
        elements_of(entries_view(entries.take(k + 1)), i) == if entries[k].0 as int == i {
            elements_of(entries_view(entries.take(k)), i).push(*entries[k].1)
        } else {
            elements_of(entries_view(entries.take(k)), i)
        },
{
    let a = entries_view(entries.take(k + 1));
    assert(a =~= entries_view(entries.take(k)).push((entries[k].0 as int, *entries[k].1)));
    lemma_elements_push(entries_view(entries.take(k)), (entries[k].0 as int, *entries[k].1), i);
}

proof fn lemma_elements_push(entries: Seq<(int, SExpr)>, e: (int, SExpr), i: int)
    ensures
        elements_of(entries.push(e), i) == if e.0 == i {
            elements_of(entries, i).push(e.1)
        } else {
            elements_of(entries, i)
        },
{
    assert(entries.push(e).drop_last() =~= entries);
}

/// Whether some entry belongs to field `i`.
fn has_entry(entries: &Vec<(usize, &SExpr)>, i: usize) -> (r: bool)
    ensures
        r == (elements_of(entries_view(entries@), i as int).len() > 0),
{
    let mut k: usize = 0;
    while k < entries.len()
        invariant
            k <= entries@.len(),
            elements_of(entries_view(entries@.take(k as int)), i as int).len() == 0,
        decreases entries@.len() - k,
    {
        proof {
            lemma_elements_take_step(entries@, k as int, i as int);
        }
        if entries[k].0 == i {
            proof {
                lemma_first_element(entries@, k as int, i as int);
            }
            return true;
        }
        k = k + 1;
    }
    assert(entries@.take(k as int) =~= entries@);
    false
}

proof fn lemma_first_element(entries: Seq<(usize, &SExpr)>, k: int, i: int)
    requires
        0 <= k < entries.len(),
        entries[k].0 as int == i,
        elements_of(entries_view(entries.take(k)), i).len() == 0,
    ensures
        elements_of(entries_view(entries), i).len() > 0,
        elements_of(entries_view(entries), i)[0] == *entries[k].1,
{
    lemma_elements_take_step(entries, k, i);
    let all = entries_view(entries);
    lemma_elements_prefix(all, k + 1, i);
    assert(all.take(k + 1) =~= entries_view(entries.take(k + 1)));
    let pre = elements_of(entries_view(entries.take(k + 1)), i);
    assert(pre.len() == 1);
    assert(pre[0] == *entries[k].1);
    assert(elements_of(all, i).take(1)[0] == elements_of(all, i)[0]);
}

/// The elements of a prefix come first among the elements of the whole.
proof fn lemma_elements_prefix(entries: Seq<(int, SExpr)>, n: int, i: int)
    requires
        0 <= n <= entries.len(),
    ensures
        elements_of(entries.take(n), i).len() <= elements_of(entries, i).len(),
        elements_of(entries.take(n), i) =~= elements_of(entries, i).take(
            elements_of(entries.take(n), i).len() as int,
        ),
    decreases entries.len() - n,
{
    if n < entries.len() {
        lemma_elements_prefix(entries, n + 1, i);
        assert(entries.take(n + 1).drop_last() =~= entries.take(n));
    } else {
        assert(entries.take(n) =~= entries);
    }
}

/// Scans the elements `rest` of a keyed record against the rules of its fields.
pub fn scan_keyed<'a>(record: &'static str, rules: &Vec<FieldRule>, rest: &'a SExpr) -> (r:
    Result<Vec<(usize, &'a SExpr)>, ParseError>)
    ensures
        match scan(record, rules@, *rest) {
            Ok(es) => r matches Ok(v) && entries_view(v@) == es,
            Err(e) => r matches Err(e2) && e2 == e,
        },
        r matches Ok(v) ==> forall|k: int| 0 <= k < v@.len() ==> v@[k].0 < rules@.len(),
{
    let mut entries: Vec<(usize, &'a SExpr)> = Vec::new();
    let mut cur = rest;
    assert(entries_view(entries@) =~= Seq::<(int, SExpr)>::empty());
    while !matches!(cur, SExpr::Null)
        invariant
            scan(record, rules@, *rest) == scan_from(record, rules@, *cur, entries_view(entries@)),
            forall|k: int| 0 <= k < entries@.len() ==> entries@[k].0 < rules@.len(),
        decreases cur,
    {
        match cur {
            SExpr::Cons(h, t) => {
                let i = classify_element(rules, &**h)?;
                if matches!(rules[i].multiplicity, Multiplicity::Required | Multiplicity::Optional)
                    && has_entry(&entries, i) {
                    let err = ParseError::DuplicateField(record, rules[i].name, (**h).copy());
                    proof {
                        assert(classify(rules@, **h) == Ok::<int, ParseError>(i as int));
                        assert(scan_from(record, rules@, *cur, entries_view(entries@)) == Err::<
                            Seq<(int, SExpr)>,
                            ParseError,
                        >(err));
                    }
                    return Err(err);
                }
                let ghost before = entries@;
                entries.push((i, &**h));
                proof {
                    assert(entries_view(entries@) =~= entries_view(before).push(
                        (i as int, **h),
                    ));
                }
                cur = &**t;
            },
            _ => {
                return Err(ParseError::ExpectedList(cur.copy()));
            },
        }
    }
    Ok(entries)
}

/// The element of the singular field `i`, if it occurred.
pub fn slot_of<'a>(entries: &Vec<(usize, &'a SExpr)>, i: usize) -> (r: Option<&'a SExpr>)
    ensures
        match slot(entries_view(entries@), i as int) {
            Some(el) => r matches Some(x) && *x == el,
            None => r is None,
        },
{
    let mut k: usize = 0;
    while k < entries.len()
        invariant
            k <= entries@.len(),
            elements_of(entries_view(entries@.take(k as int)), i as int).len() == 0,
        decreases entries@.len() - k,
    {
        proof {
            lemma_elements_take_step(entries@, k as int, i as int);
        }
        if entries[k].0 == i {
            proof {
                lemma_first_element(entries@, k as int, i as int);
            }
            return Some(entries[k].1);
        }
        k = k + 1;
    }
    assert(entries@.take(k as int) =~= entries@);
    None
}

/// The elements of field `i`, in input order.
pub fn elements<'a>(entries: &Vec<(usize, &'a SExpr)>, i: usize) -> (r: Vec<&'a SExpr>)
    ensures
        r@.map_values(|x: &SExpr| *x) == elements_of(entries_view(entries@), i as int),
{
    let mut out: Vec<&'a SExpr> = Vec::new();
    let mut k: usize = 0;
    while k < entries.len()
        invariant
            k <= entries@.len(),
            out@.map_values(|x: &SExpr| *x) == elements_of(
                entries_view(entries@.take(k as int)),
                i as int,
            ),
        decreases entries@.len() - k,
    {
        proof {
            lemma_elements_take_step(entries@, k as int, i as int);
        }
        let ghost before = out@;
        if entries[k].0 == i {
            out.push(entries[k].1);
            assert(out@.map_values(|x: &SExpr| *x) =~= before.map_values(|x: &SExpr| *x).push(
                *entries@[k as int].1,
            ));
        }
        k = k + 1;
    }
    assert(entries@.take(k as int) =~= entries@);
    out
}

/// Requires every required field to be present; the first absent one, in declaration order,
/// is reported.
pub fn check_required(
    record: &'static str,
    rules: &Vec<FieldRule>,
    entries: &Vec<(usize, &SExpr)>,
    whole: &SExpr,
) -> (r: Result<(), ParseError>)
    ensures
        r == spec_required(record, rules@, entries_view(entries@), *whole),
{
    let mut j: usize = 0;
    while j < rules.len()
        invariant
            j <= rules@.len(),
            first_missing(rules@, entries_view(entries@), 0) == first_missing(
                rules@,
                entries_view(entries@),
                j as int,
            ),
        decreases rules@.len() - j,
    {
        if matches!(rules[j].multiplicity, Multiplicity::Required) && !has_entry(entries, j) {
            return Err(ParseError::MissingField(record, rules[j].name, whole.copy()));
        }
        j = j + 1;
    }
    Ok(())
}

} // verus!

verus! {

/// Decodes an optional field's element with `f`, when it occurred.
pub open spec fn convert_opt<T>(o: Option<SExpr>, f: spec_fn(SExpr) -> Result<T, ParseError>) -> Result<
    Option<T>,
    ParseError,
> {
    match o {
        None => Ok(None),
        Some(el) => match f(el) {
            Ok(v) => Ok(Some(v)),
            Err(e) => Err(e),
        },
    }
}

/// Decodes each element with `f`, in order; the first error stops it.
pub open spec fn convert_all<T>(els: Seq<SExpr>, f: spec_fn(SExpr) -> Result<T, ParseError>) -> Result<
    Seq<T>,
    ParseError,
>
    decreases els.len(),
{
    if els.len() == 0 {
        Ok(Seq::empty())
    } else {
        match convert_all(els.drop_last(), f) {
            Err(e) => Err(e),
            Ok(vs) => match f(els.last()) {
                Err(e) => Err(e),
                Ok(v) => Ok(vs.push(v)),
            },
        }
    }
}

/// Whether the flag field `i` occurred.
pub open spec fn flag_set(entries: Seq<(int, SExpr)>, i: int) -> bool {
    elements_of(entries, i).len() > 0
}

/// Whether the flag field `i` occurred.
pub fn has_flag(entries: &Vec<(usize, &SExpr)>, i: usize) -> (r: bool)
    ensures
        r == flag_set(entries_view(entries@), i as int),
{
    slot_of(entries, i).is_some()
}

} // verus!

verus! {

/// When no required field is missing, each required field has an element.
pub proof fn lemma_required_present(rules: Seq<FieldRule>, entries: Seq<(int, SExpr)>, k: int)
    requires
        first_missing(rules, entries, 0) is None,
        0 <= k < rules.len(),
        rules[k].multiplicity == Multiplicity::Required,
    ensures
        slot(entries, k) is Some,
{
    lemma_required_present_from(rules, entries, 0, k);
}

proof fn lemma_required_present_from(rules: Seq<FieldRule>, entries: Seq<(int, SExpr)>, j: int, k: int)
    requires
        first_missing(rules, entries, j) is None,
        0 <= j <= k < rules.len(),
        rules[k].multiplicity == Multiplicity::Required,
    ensures
        elements_of(entries, k).len() > 0,
    decreases k - j,
{
    if j < k {
        lemma_required_present_from(rules, entries, j + 1, k);
    }
}

} // verus!

verus! {

/// One more element decoded after a prefix that decoded without error.
pub proof fn lemma_convert_step<T>(els: Seq<SExpr>, i: int, f: spec_fn(SExpr) -> Result<T, ParseError>)
    requires
        0 <= i < els.len(),
        convert_all(els.take(i), f) is Ok,
    ensures
        convert_all(els.take(i + 1), f) == match f(els[i]) {
            Err(e) => Err(e),
            Ok(v) => Ok(convert_all(els.take(i), f)->Ok_0.push(v)),
        },
{
    assert(els.take(i + 1).drop_last() =~= els.take(i));
    assert(els.take(i + 1).last() == els[i]);
}

/// An error in a prefix is the error of the whole.
pub proof fn lemma_convert_err<T>(els: Seq<SExpr>, i: int, f: spec_fn(SExpr) -> Result<T, ParseError>)
    requires
        0 <= i <= els.len(),
        convert_all(els.take(i), f) is Err,
    ensures
        convert_all(els, f) == convert_all(els.take(i), f),
    decreases els.len() - i,
{
    if i < els.len() {
        assert(els.take(i + 1).drop_last() =~= els.take(i));
        lemma_convert_err(els, i + 1, f);
    } else {
        assert(els.take(i) =~= els);
    }
}

/// The whole list decoded.
pub proof fn lemma_convert_whole<T>(els: Seq<SExpr>, f: spec_fn(SExpr) -> Result<T, ParseError>)
    ensures
        convert_all(els.take(els.len() as int), f) == convert_all(els, f),
        convert_all(els.take(0), f) == Ok::<Seq<T>, ParseError>(Seq::empty()),
{
    assert(els.take(els.len() as int) =~= els);
    assert(els.take(0) =~= Seq::<SExpr>::empty());
}

/// The elements as values.
pub open spec fn deref_all(v: Seq<&SExpr>) -> Seq<SExpr> {
    v.map_values(|x: &SExpr| *x)
}

} // verus!

verus! {

/// A record that decodes from one element.
pub trait Decode: Sized {
    /// What decoding `e` gives.
    spec fn spec_decode(e: SExpr) -> Result<Self, ParseError>;

    /// Decodes `e`.
    fn decode(e: &SExpr) -> (r: Result<Self, ParseError>)
        ensures
            r == Self::spec_decode(*e),
    ;
}

/// Decodes each element, in order; the first error stops it.
pub fn decode_all<T: Decode>(els: &Vec<&SExpr>) -> (r: Result<Vec<T>, ParseError>)
    ensures
        match convert_all(deref_all(els@), |x| T::spec_decode(x)) {
            Ok(v) => r matches Ok(w) && w@ == v,
            Err(err) => r matches Err(e2) && e2 == err,
        },
{
    let ghost all = deref_all(els@);
    let ghost f = |x| T::spec_decode(x);
    proof {
        lemma_convert_whole(all, f);
    }
    let mut out: Vec<T> = Vec::new();
    let mut k: usize = 0;
    while k < els.len()
        invariant
            all == deref_all(els@),
            f == (|x| T::spec_decode(x)),
            k <= els@.len(),
            convert_all(all.take(k as int), f) == Ok::<Seq<T>, ParseError>(out@),
        decreases els@.len() - k,
    {
        proof {
            lemma_convert_step(all, k as int, f);
        }
        match T::decode(els[k]) {
            Ok(p) => out.push(p),
            Err(err) => {
                proof {
                    lemma_convert_err(all, k + 1, f);
                }
                return Err(err);
            },
        }
        k = k + 1;
    }
    proof {
        lemma_convert_whole(all, f);
    }
    Ok(out)
}

} // verus!

verus! {

/// The list holding `items`, ending in `tail`.
pub open spec fn list_of(items: Seq<SExpr>, tail: SExpr) -> SExpr
    decreases items.len(),
{
    if items.len() == 0 {
        tail
    } else {
        SExpr::Cons(Box::new(items[0]), Box::new(list_of(items.subrange(1, items.len() as int), tail)))
    }
}

/// Whether two entry sequences assign the same elements to every field.
pub open spec fn same_fields(a: Seq<(int, SExpr)>, b: Seq<(int, SExpr)>) -> bool {
    forall|k: int| #[trigger] elements_of(a, k) == elements_of(b, k)
}

proof fn lemma_same_fields_push(a: Seq<(int, SExpr)>, b: Seq<(int, SExpr)>, e: (int, SExpr))
    requires
        same_fields(a, b),
    ensures
        same_fields(a.push(e), b.push(e)),
{
    assert forall|k: int| #[trigger] elements_of(a.push(e), k) == elements_of(b.push(e), k) by {
        lemma_elements_push(a, e, k);
        lemma_elements_push(b, e, k);
        assert(elements_of(a, k) == elements_of(b, k));
    }
}

/// Scanning after entries that assign the same elements to every field gives the same
/// outcome.
proof fn lemma_scan_same_fields(
    record: &'static str,
    rules: Seq<FieldRule>,
    rest: SExpr,
    a: Seq<(int, SExpr)>,
    b: Seq<(int, SExpr)>,
)
    requires
        same_fields(a, b),
    ensures
        scan_from(record, rules, rest, a) is Ok <==> scan_from(record, rules, rest, b) is Ok,
        scan_from(record, rules, rest, a) is Err ==> scan_from(record, rules, rest, a)
            == scan_from(record, rules, rest, b),
        scan_from(record, rules, rest, a) is Ok ==> same_fields(
            scan_from(record, rules, rest, a)->Ok_0,
            scan_from(record, rules, rest, b)->Ok_0,
        ),
    decreases rest,
{
    match rest {
        SExpr::Cons(h, t) => match classify(rules, *h) {
            Ok(i) => {
                assert(elements_of(a, i) == elements_of(b, i));
                lemma_same_fields_push(a, b, (i, *h));
                lemma_scan_same_fields(record, rules, *t, a.push((i, *h)), b.push((i, *h)));
            },
            Err(_) => {},
        },
        _ => {},
    }
}

proof fn lemma_list_of_cons(items: Seq<SExpr>, tail: SExpr)
    requires
        items.len() > 0,
    ensures
        list_of(items, tail) == SExpr::Cons(
            Box::new(items[0]),
            Box::new(list_of(items.subrange(1, items.len() as int), tail)),
        ),
{
}

proof fn lemma_swap_from(
    record: &'static str,
    rules: Seq<FieldRule>,
    pre: Seq<SExpr>,
    a: SExpr,
    b: SExpr,
    tail: SExpr,
    done: Seq<(int, SExpr)>,
)
    requires
        classify(rules, a) is Ok,
        classify(rules, b) is Ok,
        classify(rules, a)->Ok_0 != classify(rules, b)->Ok_0,
        scan_from(record, rules, list_of(pre + seq![a, b], tail), done) is Ok,
    ensures
        scan_from(record, rules, list_of(pre + seq![b, a], tail), done) is Ok,
        same_fields(
            scan_from(record, rules, list_of(pre + seq![a, b], tail), done)->Ok_0,
            scan_from(record, rules, list_of(pre + seq![b, a], tail), done)->Ok_0,
        ),
    decreases pre.len(),
{
    let ab = pre + seq![a, b];
    let ba = pre + seq![b, a];
    if pre.len() == 0 {
        let i = classify(rules, a)->Ok_0;
        let j = classify(rules, b)->Ok_0;
        assert(ab =~= seq![a, b]);
        assert(ba =~= seq![b, a]);
        assert(ab.subrange(1, 2) =~= seq![b]);
        assert(ab.subrange(1, 2).subrange(1, 1) =~= Seq::<SExpr>::empty());
        assert(ba.subrange(1, 2) =~= seq![a]);
        assert(ba.subrange(1, 2).subrange(1, 1) =~= Seq::<SExpr>::empty());
        let da = done.push((i, a));
        let dab = da.push((j, b));
        let db = done.push((j, b));
        let dba = db.push((i, a));
        lemma_elements_push(done, (j, b), i);
        lemma_elements_push(done, (i, a), j);
        lemma_list_of_cons(ab, tail);
        lemma_list_of_cons(ab.subrange(1, 2), tail);
        lemma_list_of_cons(ba, tail);
        lemma_list_of_cons(ba.subrange(1, 2), tail);
        let lb = SExpr::Cons(Box::new(b), Box::new(tail));
        let la = SExpr::Cons(Box::new(a), Box::new(tail));
        assert(list_of(ab, tail) == SExpr::Cons(Box::new(a), Box::new(lb)));
        assert(list_of(ba, tail) == SExpr::Cons(Box::new(b), Box::new(la)));
        assert(scan_from(record, rules, list_of(ab, tail), done) == scan_from(record, rules, lb, da));
        assert(scan_from(record, rules, lb, da) == scan_from(record, rules, tail, dab));
        assert(scan_from(record, rules, list_of(ba, tail), done) == scan_from(record, rules, la, db));
        assert(scan_from(record, rules, la, db) == scan_from(record, rules, tail, dba));
        assert forall|k: int| #[trigger] elements_of(dab, k) == elements_of(dba, k) by {
            lemma_elements_push(done, (i, a), k);
            lemma_elements_push(da, (j, b), k);
            lemma_elements_push(done, (j, b), k);
            lemma_elements_push(db, (i, a), k);
        }
        lemma_scan_same_fields(record, rules, tail, dab, dba);
    } else {
        let h = pre[0];
        let pre2 = pre.subrange(1, pre.len() as int);
        assert(ab.subrange(1, ab.len() as int) =~= pre2 + seq![a, b]);
        assert(ba.subrange(1, ba.len() as int) =~= pre2 + seq![b, a]);
        assert(ab[0] == h);
        assert(ba[0] == h);
        let i = classify(rules, h)->Ok_0;
        lemma_list_of_cons(ab, tail);
        lemma_list_of_cons(ba, tail);
        lemma_swap_from(record, rules, pre2, a, b, tail, done.push((i, h)));
    }
}

/// Keyed order independence: exchanging two neighbouring elements that belong to different
/// fields leaves the scan successful, with the same elements assigned to every field, so the
/// record assembled from it is the same.
pub proof fn lemma_keyed_order_independent(
    record: &'static str,
    rules: Seq<FieldRule>,
    pre: Seq<SExpr>,
    a: SExpr,
    b: SExpr,
    tail: SExpr,
)
    requires
        classify(rules, a) is Ok,
        classify(rules, b) is Ok,
        classify(rules, a)->Ok_0 != classify(rules, b)->Ok_0,
        scan(record, rules, list_of(pre + seq![a, b], tail)) is Ok,
    ensures
        scan(record, rules, list_of(pre + seq![b, a], tail)) is Ok,
        same_fields(
            scan(record, rules, list_of(pre + seq![a, b], tail))->Ok_0,
            scan(record, rules, list_of(pre + seq![b, a], tail))->Ok_0,
        ),
{
    lemma_swap_from(record, rules, pre, a, b, tail, Seq::empty());
}

/// The field that a classified element belongs to.
pub open spec fn field_of(rules: Seq<FieldRule>, el: SExpr) -> int {
    classify(rules, el)->Ok_0
}

/// Whether the element at `k` repeats a singular field already seen in `done` or earlier in
/// `items`.
pub open spec fn repeats_before(
    rules: Seq<FieldRule>,
    items: Seq<SExpr>,
    done: Seq<(int, SExpr)>,
    k: int,
) -> bool {
    singular(rules[field_of(rules, items[k])].multiplicity) && (elements_of(
        done,
        field_of(rules, items[k]),
    ).len() > 0 || exists|p: int| 0 <= p < k && field_of(rules, items[p]) == field_of(rules, items[k]))
}

proof fn lemma_duplicate_from(
    record: &'static str,
    rules: Seq<FieldRule>,
    items: Seq<SExpr>,
    tail: SExpr,
    done: Seq<(int, SExpr)>,
    q: int,
)
    requires
        forall|k: int| 0 <= k < items.len() ==> (#[trigger] classify(rules, items[k])) is Ok,
        forall|k: int| 0 <= k < items.len() ==> 0 <= #[trigger] field_of(rules, items[k]) < rules.len(),
        0 <= q < items.len(),
        repeats_before(rules, items, done, q),
        forall|k: int| 0 <= k < q ==> !#[trigger] repeats_before(rules, items, done, k),
    ensures
        scan_from(record, rules, list_of(items, tail), done) == Err::<Seq<(int, SExpr)>, ParseError>(
            ParseError::DuplicateField(record, rules[field_of(rules, items[q])].name, items[q]),
        ),
    decreases items.len(),
{
    let h = items[0];
    let rest = items.subrange(1, items.len() as int);
    let i = field_of(rules, h);
    lemma_list_of_cons(items, tail);
    if q == 0 {
    } else {
        assert(!repeats_before(rules, items, done, 0));
        let d2 = done.push((i, h));
        assert forall|k: int| 0 <= k < rest.len() implies (#[trigger] classify(rules, rest[k])) is Ok
            && 0 <= field_of(rules, rest[k]) < rules.len() by {
            assert(rest[k] == items[k + 1]);
        }
        assert forall|k: int| 0 <= k < rest.len() implies #[trigger] repeats_before(rules, rest, d2, k)
            == repeats_before(rules, items, done, k + 1) by {
            assert(rest[k] == items[k + 1]);
            let f = field_of(rules, items[k + 1]);
            lemma_elements_push(done, (i, h), f);
            if exists|p: int| 0 <= p < k && field_of(rules, rest[p]) == f {
                let p = choose|p: int| 0 <= p < k && field_of(rules, rest[p]) == f;
                assert(rest[p] == items[p + 1]);
            }
            if exists|p: int| 0 <= p < k + 1 && field_of(rules, items[p]) == f {
                let p = choose|p: int| 0 <= p < k + 1 && field_of(rules, items[p]) == f;
                if p > 0 {
                    assert(rest[p - 1] == items[p]);
                }
            }
        }
        assert forall|k: int| 0 <= k < q - 1 implies !#[trigger] repeats_before(rules, rest, d2, k) by {
            assert(repeats_before(rules, rest, d2, k) == repeats_before(rules, items, done, k + 1));
        }
        assert(repeats_before(rules, rest, d2, q - 1) == repeats_before(rules, items, done, q));
        assert(rest[q - 1] == items[q]);
        lemma_duplicate_from(record, rules, rest, tail, d2, q - 1);
    }
}

/// Duplicate rejection: when every element belongs to a field of the schema, and the element
/// at `q` is the first to repeat a singular field (the earlier occurrence at `p`), the scan
/// fails with `DuplicateField` naming the record, that field, and the repeating element.
pub proof fn lemma_duplicate_rejected(
    record: &'static str,
    rules: Seq<FieldRule>,
    items: Seq<SExpr>,
    tail: SExpr,
    p: int,
    q: int,
)
    requires
        forall|k: int| 0 <= k < items.len() ==> (#[trigger] classify(rules, items[k])) is Ok,
        0 <= p < q < items.len(),
        classify(rules, items[p]) == classify(rules, items[q]),
        singular(rules[field_of(rules, items[q])].multiplicity),
        forall|a: int, b: int|
            0 <= a < b < q ==> !(#[trigger] field_of(rules, items[a]) == #[trigger] field_of(
                rules,
                items[b],
            ) && singular(rules[field_of(rules, items[b])].multiplicity)),
    ensures
        scan(record, rules, list_of(items, tail)) == Err::<Seq<(int, SExpr)>, ParseError>(
            ParseError::DuplicateField(record, rules[field_of(rules, items[q])].name, items[q]),
        ),
{
    assert forall|k: int| 0 <= k < items.len() implies 0 <= #[trigger] field_of(
        rules,
        items[k],
    ) < rules.len() by {
        lemma_classify_in_range(rules, items[k]);
    }
    let empty = Seq::<(int, SExpr)>::empty();
    assert forall|k: int| 0 <= k < q implies !#[trigger] repeats_before(rules, items, empty, k) by {
        if repeats_before(rules, items, empty, k) {
            let a = choose|a: int| 0 <= a < k && field_of(rules, items[a]) == field_of(rules, items[k]);
            assert(field_of(rules, items[a]) == field_of(rules, items[k]));
        }
    }
    assert(field_of(rules, items[p]) == field_of(rules, items[q]));
    assert(repeats_before(rules, items, empty, q));
    lemma_duplicate_from(record, rules, items, tail, empty, q);
}

pub(crate) proof fn lemma_classify_in_range(rules: Seq<FieldRule>, el: SExpr)
    ensures
        classify(rules, el) matches Ok(i) ==> 0 <= i < rules.len(),
{
    lemma_find_rule_in_range(rules, &el);
}

proof fn lemma_unknown_from(
    record: &'static str,
    rules: Seq<FieldRule>,
    items: Seq<SExpr>,
    tail: SExpr,
    done: Seq<(int, SExpr)>,
    q: int,
)
    requires
        0 <= q < items.len(),
        classify(rules, items[q]) is Err,
    ensures
        scan_from(record, rules, list_of(items, tail), done) is Err,
    decreases items.len(),
{
    lemma_list_of_cons(items, tail);
    let h = items[0];
    let rest = items.subrange(1, items.len() as int);
    if q > 0 {
        match classify(rules, h) {
            Ok(i) => {
                assert(rest[q - 1] == items[q]);
                lemma_unknown_from(record, rules, rest, tail, done.push((i, h)), q - 1);
            },
            Err(_) => {},
        }
    }
}

/// Unknown key rejection: a list element whose key is not in the schema makes the scan fail;
/// when nothing before it fails, the error is `Unexpected` with that element.
pub proof fn lemma_unknown_key_rejected(
    record: &'static str,
    rules: Seq<FieldRule>,
    items: Seq<SExpr>,
    tail: SExpr,
    q: int,
    key: String,
    value: SExpr,
)
    requires
        0 <= q < items.len(),
        items[q] == SExpr::Cons(Box::new(SExpr::Symbol(key)), Box::new(value)),
        find_rule(rules, key@, false, 0) is None,
    ensures
        scan(record, rules, list_of(items, tail)) is Err,
        scan(record, rules, list_of(items.take(q), SExpr::Null)) is Ok ==> scan(
            record,
            rules,
            list_of(items, tail),
        ) == Err::<Seq<(int, SExpr)>, ParseError>(ParseError::Unexpected(items[q])),
{
    lemma_unknown_from(record, rules, items, tail, Seq::empty(), q);
    if scan(record, rules, list_of(items.take(q), SExpr::Null)) is Ok {
        lemma_unknown_after(record, rules, items, tail, Seq::empty(), q);
    }
}

proof fn lemma_unknown_after(
    record: &'static str,
    rules: Seq<FieldRule>,
    items: Seq<SExpr>,
    tail: SExpr,
    done: Seq<(int, SExpr)>,
    q: int,
)
    requires
        0 <= q < items.len(),
        classify(rules, items[q]) == Err::<int, ParseError>(ParseError::Unexpected(items[q])),
        scan_from(record, rules, list_of(items.take(q), SExpr::Null), done) is Ok,
    ensures
        scan_from(record, rules, list_of(items, tail), done) == Err::<
            Seq<(int, SExpr)>,
            ParseError,
        >(ParseError::Unexpected(items[q])),
    decreases q,
{
    lemma_list_of_cons(items, tail);
    if q > 0 {
        let h = items[0];
        let rest = items.subrange(1, items.len() as int);
        let pre = items.take(q);
        lemma_list_of_cons(pre, SExpr::Null);
        assert(pre[0] == h);
        assert(pre.subrange(1, pre.len() as int) =~= rest.take(q - 1));
        let i = classify(rules, h)->Ok_0;
        assert(rest[q - 1] == items[q]);
        lemma_unknown_after(record, rules, rest, tail, done.push((i, h)), q - 1);
    }
}

/// Missing required field: when the first required field without an element, in declaration
/// order, is `j`, the check reports `MissingField` naming the record and that field.
pub proof fn lemma_missing_reported(
    record: &'static str,
    rules: Seq<FieldRule>,
    entries: Seq<(int, SExpr)>,
    whole: SExpr,
    j: int,
)
    requires
        0 <= j < rules.len(),
        rules[j].multiplicity == Multiplicity::Required,
        elements_of(entries, j).len() == 0,
        forall|k: int|
            0 <= k < j && rules[k].multiplicity == Multiplicity::Required ==> elements_of(
                entries,
                k,
            ).len() > 0,
    ensures
        spec_required(record, rules, entries, whole) == Err::<(), ParseError>(
            ParseError::MissingField(record, rules[j].name, whole),
        ),
{
    lemma_first_missing_is(rules, entries, 0, j);
}

proof fn lemma_first_missing_is(rules: Seq<FieldRule>, entries: Seq<(int, SExpr)>, m: int, j: int)
    requires
        0 <= m <= j < rules.len(),
        rules[j].multiplicity == Multiplicity::Required,
        elements_of(entries, j).len() == 0,
        forall|k: int|
            0 <= k < j && rules[k].multiplicity == Multiplicity::Required ==> elements_of(
                entries,
                k,
            ).len() > 0,
    ensures
        first_missing(rules, entries, m) == Some(j),
    decreases j - m,
{
    if m < j {
        lemma_first_missing_is(rules, entries, m + 1, j);
    }
}

} // verus!
