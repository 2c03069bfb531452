use ibkr_flex_mcp::flex::rows::parse_rows;
use ibkr_flex_mcp::flex::FlexError;

/// An attribute read as a number, `None` if absent or not numeric.
fn num(v: Option<String>) -> Option<f64> {
    v.and_then(|s| s.parse::<f64>().ok())
}

#[test]
fn scans_matching_elements_only() {
    let xml = r#"<Root><Trade symbol="AAPL"/><OpenPosition symbol="MSFT"/><Trade symbol="SAP"></Trade></Root>"#;
    let symbols = parse_rows(xml, "Trade", |a| a.text("symbol").unwrap_or_default()).unwrap();
    assert_eq!(symbols, vec!["AAPL", "SAP"]);
}

#[test]
fn unescapes_text_and_parses_numbers() {
    let xml = r#"<Root><Trade description="AT&amp;T INC" quantity="-15.5" price="n/a"/></Root>"#;
    let rows = parse_rows(xml, "Trade", |a| {
        (a.text("description"), num(a.text("quantity")), num(a.text("price")))
    })
    .unwrap();
    assert_eq!(rows, vec![(Some("AT&T INC".to_string()), Some(-15.5), None)]);
}

#[test]
fn malformed_xml_is_a_parse_error() {
    let err = parse_rows("<Root><Trade symbol=", "Trade", |_| ()).unwrap_err();
    assert!(matches!(err, FlexError::Parse(_)), "got {err:?}");
}

#[test]
fn parse_error_names_the_tag() {
    let err = parse_rows("<Root><Trade symbol=", "Trade", |_| ()).unwrap_err();
    match err {
        FlexError::Parse(m) => assert!(m.starts_with("Trade XML: "), "got {m}"),
        other => panic!("unexpected {other:?}"),
    }
}

#[test]
fn duplicated_attribute_is_a_parse_error() {
    let err = parse_rows(r#"<Root><Trade a="1" a="2"/></Root>"#, "Trade", |_| ()).unwrap_err();
    match err {
        FlexError::Parse(m) => assert!(m.starts_with("Trade attribute: "), "got {m}"),
        other => panic!("unexpected {other:?}"),
    }
}

#[test]
fn unknown_entity_in_value_is_a_parse_error() {
    let err = parse_rows(r#"<Root><Trade a="&bogus;"/></Root>"#, "Trade", |_| ()).unwrap_err();
    match err {
        FlexError::Parse(m) => assert!(m.starts_with("Trade attribute value: "), "got {m}"),
        other => panic!("unexpected {other:?}"),
    }
}

#[test]
fn attribute_values_are_normalised() {
    let xml = "<Root><Trade note=\"a\tb&lt;c\"/></Root>";
    let rows = parse_rows(xml, "Trade", |a| a.text("note")).unwrap();
    assert_eq!(rows, vec![Some("a b<c".to_string())]);
}

#[test]
fn mismatched_end_tag_is_a_parse_error_even_after_rows() {
    let err = parse_rows(r#"<Root><Trade a="1"/></Wrong>"#, "Trade", |_| ()).unwrap_err();
    assert!(matches!(err, FlexError::Parse(_)), "got {err:?}");
}

#[test]
fn names_match_exactly() {
    let xml = r#"<Root><trade a="1"/><Trades a="2"/><Trade a="3"/></Root>"#;
    let rows = parse_rows(xml, "Trade", |a| a.text("a")).unwrap();
    assert_eq!(rows, vec![Some("3".to_string())]);
}
