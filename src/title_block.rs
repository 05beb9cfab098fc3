//! The title block of a drawing sheet.
use crate::error::ParseError;
use crate::expect::{
    expect_int_head, expect_named_head, expect_null, expect_str_head, spec_expect_null,
    spec_int_head, spec_named_head, spec_str_head,
};
use crate::keyed::{
    convert_all, convert_opt, deref_all, elements, elements_of, entries_view, lemma_convert_err,
    lemma_convert_step, lemma_convert_whole, rule, scan, scan_keyed, slot, slot_of, tail, tail_of,
    FieldRule, Multiplicity,
};
use crate::sexpr::SExpr;
use crate::text::{key_str, spec_key_str};
use std::collections::BTreeMap;
use vstd::prelude::*;

verus! {

/// A title block `(title_block [(title "...")] [(date "...")] [(rev "...")] [(company "...")]
/// (comment <n> "...")...)`. Absent texts are empty.
#[derive(Clone, Debug, PartialEq)]
pub struct TitleBlock {
    /// Title.
    pub title: String,
    /// Date, as the user wrote it.
    pub date: String,
    /// Revision.
    pub rev: String,
    /// Company name.
    pub company: String,
    /// Numbered comments; a later comment replaces an earlier one of the same number.
    pub comments: BTreeMap<i64, String>,
}

/// What a decoded title block holds.
pub struct TitleBlockView {
    pub title: Seq<char>,
    pub date: Seq<char>,
    pub rev: Seq<char>,
    pub company: Seq<char>,
    pub comments: Map<i64, String>,
}

/// The text of an optional string field; empty when absent.
pub open spec fn text_or_empty(s: Option<String>) -> Seq<char> {
    match s {
        Some(s) => s@,
        None => Seq::empty(),
    }
}

/// The decoding of `(comment <n> "<text>")`.
pub open spec fn spec_comment(el: SExpr) -> Result<(i64, String), ParseError> {
    match spec_int_head(tail_of(el)) {
        Err(err) => Err(err),
        Ok((n, rest)) => match spec_str_head(rest) {
            Err(err) => Err(err),
            Ok((text, rest)) => match spec_expect_null(rest) {
                Err(err) => Err(err),
                Ok(_) => Ok((n, text)),
            },
        },
    }
}

/// The map that inserting `pairs` in order builds.
pub open spec fn insert_all(pairs: Seq<(i64, String)>) -> Map<i64, String>
    decreases pairs.len(),
{
    if pairs.len() == 0 {
        Map::empty()
    } else {
        insert_all(pairs.drop_last()).insert(pairs.last().0, pairs.last().1)
    }
}

/// The fields of a title block.
pub open spec fn title_block_rules() -> Seq<FieldRule> {
    seq![
        rule("title", "title", Multiplicity::Optional),
        rule("date", "date", Multiplicity::Optional),
        rule("rev", "rev", Multiplicity::Optional),
        rule("company", "company", Multiplicity::Optional),
        rule("comment", "comment", Multiplicity::Repeated),
    ]
}

fn title_block_rules_exec() -> (r: Vec<FieldRule>)
    ensures
        r@ == title_block_rules(),
{
    let r = vec![
        FieldRule { key: "title", name: "title", multiplicity: Multiplicity::Optional },
        FieldRule { key: "date", name: "date", multiplicity: Multiplicity::Optional },
        FieldRule { key: "rev", name: "rev", multiplicity: Multiplicity::Optional },
        FieldRule { key: "company", name: "company", multiplicity: Multiplicity::Optional },
        FieldRule { key: "comment", name: "comment", multiplicity: Multiplicity::Repeated },
    ];
    assert(r@ =~= title_block_rules());
    r
}

/// The decoding of a title block.
pub open spec fn spec_title_block(e: SExpr) -> Result<TitleBlockView, ParseError> {
    match spec_named_head(e, "title_block") {
        Err(err) => Err(err),
        Ok(rest) => match scan("title_block", title_block_rules(), rest) {
            Err(err) => Err(err),
            Ok(es) => match convert_opt(slot(es, 0), |x| spec_key_str(x)) {
                Err(err) => Err(err),
                Ok(title) => match convert_opt(slot(es, 1), |x| spec_key_str(x)) {
                    Err(err) => Err(err),
                    Ok(date) => match convert_opt(slot(es, 2), |x| spec_key_str(x)) {
                        Err(err) => Err(err),
                        Ok(rev) => match convert_opt(slot(es, 3), |x| spec_key_str(x)) {
                            Err(err) => Err(err),
                            Ok(company) => match convert_all(
                                elements_of(es, 4),
                                |x| spec_comment(x),
                            ) {
                                Err(err) => Err(err),
                                Ok(comments) => Ok(
                                    TitleBlockView {
                                        title: text_or_empty(title),
                                        date: text_or_empty(date),
                                        rev: text_or_empty(rev),
                                        company: text_or_empty(company),
                                        comments: insert_all(comments),
                                    },
                                ),
                            },
                        },
                    },
                },
            },
        },
    }
}

/// Whether `t` holds what `v` describes.
pub open spec fn title_block_is(t: TitleBlock, v: TitleBlockView) -> bool {
    &&& t.title@ == v.title
    &&& t.date@ == v.date
    &&& t.rev@ == v.rev
    &&& t.company@ == v.company
    &&& t.comments@ == v.comments
}

/// Reads `(comment <n> "<text>")`.
fn comment(el: &SExpr) -> (r: Result<(i64, String), ParseError>)
    ensures
        r == spec_comment(*el),
{
    let (n, rest) = expect_int_head(tail(el))?;
    let (text, rest) = expect_str_head(rest)?;
    expect_null(rest)?;
    Ok((n, text))
}

/// The text of an optional string field; empty when absent.
pub(crate) fn optional_text(el: Option<&SExpr>) -> (r: Result<String, ParseError>)
    ensures
        match convert_opt(
            match el {
                Some(x) => Some(*x),
                None => None,
            },
            |x| spec_key_str(x),
        ) {
            Ok(s) => r matches Ok(t) && t@ == text_or_empty(s),
            Err(err) => r == Err::<String, ParseError>(err),
        },
{
    match el {
        Some(x) => key_str(x),
        None => Ok(String::new()),
    }
}

impl TitleBlock {
    /// Decodes a title block.
    pub fn try_from(e: &SExpr) -> (r: Result<TitleBlock, ParseError>)
        ensures
            match spec_title_block(*e) {
                Ok(v) => r matches Ok(t) && title_block_is(t, v),
                Err(err) => r matches Err(e2) && e2 == err,
            },
    {
        broadcast use vstd::laws_cmp::group_laws_cmp;

        let rest = expect_named_head(e, "title_block")?;
        let rules = title_block_rules_exec();
        let entries = scan_keyed("title_block", &rules, rest)?;
        let title = optional_text(slot_of(&entries, 0))?;
        let date = optional_text(slot_of(&entries, 1))?;
        let rev = optional_text(slot_of(&entries, 2))?;
        let company = optional_text(slot_of(&entries, 3))?;
        let els = elements(&entries, 4);
        let ghost all = deref_all(els@);
        let ghost f = |x| spec_comment(x);
        proof {
            lemma_convert_whole(all, f);
        }
        let mut comments: BTreeMap<i64, String> = BTreeMap::new();
        let mut k: usize = 0;
        while k < els.len()
            invariant
                all == deref_all(els@),
                all == elements_of(entries_view(entries@), 4),
                f == (|x| spec_comment(x)),
                k <= els@.len(),
                convert_all(all.take(k as int), f) is Ok,
                comments@ == insert_all(convert_all(all.take(k as int), f)->Ok_0),
                spec_title_block(*e) == match convert_all(all, f) {
                    Err(err) => Err(err),
                    Ok(cs) => Ok(
                        TitleBlockView {
                            title: title@,
                            date: date@,
                            rev: rev@,
                            company: company@,
                            comments: insert_all(cs),
                        },
                    ),
                },
            decreases els@.len() - k,
        {
            proof {
                lemma_convert_step(all, k as int, f);
            }
            match comment(els[k]) {
                Ok((n, text)) => {
                    let ghost prev = convert_all(all.take(k as int), f)->Ok_0;
                    comments.insert(n, text);
                    proof {
                        let now = prev.push((n, text));
                        assert(now.drop_last() =~= prev);
                    }
                },
                Err(err) => {
                    proof {
                        lemma_convert_err(all, k + 1, f);
                    }
                    return Err(err);
                },
            }
            k = k + 1;
        }
        Ok(TitleBlock { title, date, rev, company, comments })
    }
}

} // verus!
