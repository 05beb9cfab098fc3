use kanga_kicad::{coerce, Decimal, LeafValue, ParseError, SExpr, TypeCategory, Uuid};

fn path(parts: &[&str]) -> Vec<String> {
    parts.iter().map(|p| p.to_string()).collect()
}

#[test]
fn type_categories() {
    assert_eq!(TypeCategory::of_path(&path(&["f64"])), TypeCategory::Float);
    assert_eq!(TypeCategory::of_path(&path(&["i64"])), TypeCategory::Int);
    assert_eq!(TypeCategory::of_path(&path(&["String"])), TypeCategory::String);
    assert_eq!(TypeCategory::of_path(&path(&["std", "string", "String"])), TypeCategory::String);
    assert_eq!(TypeCategory::of_path(&path(&["Uuid"])), TypeCategory::Uuid);
    assert_eq!(TypeCategory::of_path(&path(&["uuid", "Uuid"])), TypeCategory::Uuid);
    assert_eq!(TypeCategory::of_path(&path(&["Color"])), TypeCategory::General);
    assert_eq!(TypeCategory::of_path(&path(&["crate", "Color"])), TypeCategory::General);
    assert_eq!(TypeCategory::of_path(&path(&[])), TypeCategory::Unsupported);
}

#[test]
fn leaf_coercion() {
    let n = SExpr::number(Decimal::new(25, 1));
    assert_eq!(coerce(&n, TypeCategory::Float), Ok(LeafValue::Float(Decimal::new(25, 1))));
    assert_eq!(coerce(&n, TypeCategory::Int), Err(ParseError::ExpectedInt(SExpr::number(Decimal::new(25, 1)))));
    assert_eq!(coerce(&SExpr::number(Decimal::new(-400, 2)), TypeCategory::Int), Ok(LeafValue::Int(-4)));
    assert_eq!(coerce(&n, TypeCategory::String), Err(ParseError::ExpectedStr(SExpr::number(Decimal::new(25, 1)))));
    assert_eq!(coerce(&SExpr::string("x"), TypeCategory::Float), Err(ParseError::ExpectedFloat(SExpr::string("x"))));
    assert_eq!(coerce(&SExpr::symbol("abc"), TypeCategory::String), Ok(LeafValue::Str("abc".to_string())));
}

#[test]
fn identifier_coercion() {
    let id = SExpr::string("{a1a2a3a4-b1b2-c1c2-d1d2-d3d4d5d6d7d8}");
    assert_eq!(coerce(&id, TypeCategory::Uuid), Ok(LeafValue::Uuid(Uuid { value: 0xa1a2a3a4b1b2c1c2d1d2d3d4d5d6d7d8 })));
    let simple = SExpr::string("a1a2a3a4b1b2c1c2d1d2d3d4d5d6d7d8");
    assert_eq!(coerce(&simple, TypeCategory::Uuid), Ok(LeafValue::Uuid(Uuid { value: 0xa1a2a3a4b1b2c1c2d1d2d3d4d5d6d7d8 })));
    let bad = SExpr::string("a1a2a3a4");
    assert_eq!(coerce(&bad, TypeCategory::Uuid), Err(ParseError::InvalidUuid("a1a2a3a4".to_string())));
}

use kanga_kicad::{match_positional, Matched, Positional};

fn foo_items() -> Vec<Positional> {
    vec![
        Positional::Leaf(TypeCategory::Int),
        Positional::Flag("bold"),
        Positional::Optional(TypeCategory::String),
    ]
}

#[test]
fn positional_schema_with_flag_and_optional() {
    let e = SExpr::list(vec![SExpr::symbol("foo"), SExpr::number(Decimal::new(3, 0)), SExpr::symbol("bold"), SExpr::string("x")]);
    let ms = match_positional("foo", &foo_items(), &e).unwrap();
    assert_eq!(ms, vec![Matched::Value(LeafValue::Int(3)), Matched::Flag(true), Matched::Value(LeafValue::Str("x".to_string()))]);

    let e = SExpr::list(vec![SExpr::symbol("foo"), SExpr::number(Decimal::new(3, 0))]);
    let ms = match_positional("foo", &foo_items(), &e).unwrap();
    assert_eq!(ms, vec![Matched::Value(LeafValue::Int(3)), Matched::Flag(false), Matched::Absent]);
}

#[test]
fn positional_schema_is_strict() {
    let e = SExpr::list(vec![SExpr::symbol("foo"), SExpr::string("x"), SExpr::number(Decimal::new(3, 0))]);
    assert_eq!(match_positional("foo", &foo_items(), &e), Err(ParseError::ExpectedInt(SExpr::string("x"))));
    let e = SExpr::list(vec![SExpr::symbol("foo"), SExpr::number(Decimal::new(3, 0)), SExpr::string("x"), SExpr::string("y")]);
    assert_eq!(match_positional("foo", &foo_items(), &e), Err(ParseError::ExpectedNil(SExpr::list(vec![SExpr::string("y")]))));
    let e = SExpr::list(vec![SExpr::symbol("bar"), SExpr::number(Decimal::new(3, 0))]);
    assert_eq!(match_positional("foo", &foo_items(), &e), Err(ParseError::ExpectedNamedSym(SExpr::symbol("bar"), "foo")));
    let e = SExpr::list(vec![SExpr::symbol("foo")]);
    assert_eq!(match_positional("foo", &foo_items(), &e), Err(ParseError::ExpectedList(SExpr::null())));
}
