use kanga_kicad::{
    Decimal, ParseError, SExpr, Schematic, SchematicJunction, SchematicLabel, SchematicNoConnect,
    Uuid,
};

fn sym(s: &str) -> SExpr {
    SExpr::symbol(s)
}

fn text(s: &str) -> SExpr {
    SExpr::string(s)
}

fn num(mantissa: i64, scale: u32) -> SExpr {
    SExpr::number(Decimal::new(mantissa, scale))
}

fn list(items: Vec<SExpr>) -> SExpr {
    SExpr::list(items)
}

const ID: &str = "a1a2a3a4-b1b2-c1c2-d1d2-d3d4d5d6d7d8";

fn junction(uuid: &str) -> SExpr {
    list(vec![
        sym("junction"),
        list(vec![sym("at"), num(1016, 2), num(2032, 2)]),
        list(vec![sym("diameter"), num(0, 0)]),
        list(vec![sym("color"), num(0, 0), num(0, 0), num(0, 0), num(0, 0)]),
        list(vec![sym("uuid"), text(uuid)]),
    ])
}

#[test]
fn junction_with_identifier() {
    let j = SchematicJunction::try_from(&junction(ID)).unwrap();
    assert_eq!(j.uuid, Uuid { value: 0xa1a2a3a4b1b2c1c2d1d2d3d4d5d6d7d8 });
    assert_eq!(j.position.x, 10_160_000);
    assert_eq!(j.diameter, 0);
}

#[test]
fn malformed_identifier_is_refused() {
    let err = SchematicJunction::try_from(&junction("not-a-uuid")).unwrap_err();
    assert_eq!(err, ParseError::InvalidUuid("not-a-uuid".to_string()));
    assert_eq!(Uuid::parse(&String::new()), Err(ParseError::InvalidUuid(String::new())));
    assert_eq!(Uuid::from_parsed(&"x".to_string(), Some(7)), Ok(Uuid { value: 7 }));
}

#[test]
fn schematic_file() {
    let e = list(vec![
        sym("kicad_sch"),
        list(vec![sym("version"), num(20231120, 0)]),
        list(vec![sym("generator"), sym("eeschema")]),
        list(vec![sym("uuid"), text(ID)]),
        list(vec![sym("paper"), text("A4")]),
        list(vec![sym("lib_symbols"), list(vec![sym("symbol"), text("Device:R")])]),
        junction(ID),
        list(vec![sym("no_connect"), list(vec![sym("at"), num(1, 0), num(2, 0)]), list(vec![sym("uuid"), text(ID)])]),
        list(vec![
            sym("label"),
            text("NET"),
            list(vec![sym("at"), num(1, 0), num(2, 0), num(0, 0)]),
            list(vec![sym("effects"), list(vec![sym("font"), list(vec![sym("size"), num(127, 2), num(127, 2)])])]),
            list(vec![sym("uuid"), text(ID)]),
        ]),
    ]);
    let s = Schematic::try_from(&e).unwrap();
    assert_eq!(s.version, Some(20231120));
    assert_eq!(s.generator, "eeschema");
    assert_eq!(s.generator_version, "");
    assert_eq!(s.lib_symbols.len(), 1);
    assert_eq!(s.lib_symbols[0].id, "Device:R");
    assert_eq!(s.junctions.len(), 1);
    assert_eq!(s.no_connects, vec![SchematicNoConnect { position: s.no_connects[0].position, uuid: Uuid { value: 0xa1a2a3a4b1b2c1c2d1d2d3d4d5d6d7d8 } }]);
    let label: &SchematicLabel = &s.labels[0];
    assert_eq!(label.text, "NET");
    assert!(s.wires.is_empty());
}
