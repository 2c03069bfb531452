use ibkr_flex_mcp::flex::positions::parse_positions;

const WITH_POSITIONS: &str = r#"<FlexQueryResponse queryName="Q" type="AF"><FlexStatements count="1"><FlexStatement accountId="U1"><OpenPositions>
        <OpenPosition accountId="U1" currency="USD" symbol="AAPL" description="APPLE INC" assetCategory="STK" position="100" markPrice="185.00" positionValue="18500.00" costBasisPrice="150.00" costBasisMoney="15000.00" fifoPnlUnrealized="3500.00" />
        <OpenPosition accountId="U1" currency="EUR" symbol="SAP" description="SAP SE" assetCategory="STK" position="-50" markPrice="120.00" positionValue="-6000.00" />
    </OpenPositions></FlexStatement></FlexStatements></FlexQueryResponse>"#;

/// An amount read as a number, `None` if absent or not numeric.
fn num(v: &Option<String>) -> Option<f64> {
    v.as_deref().and_then(|s| s.parse::<f64>().ok())
}

#[test]
fn parses_each_open_position_with_available_fields() {
    let positions = parse_positions(WITH_POSITIONS).unwrap();
    assert_eq!(positions.len(), 2);

    let aapl = &positions[0];
    assert_eq!(aapl.symbol, "AAPL");
    assert_eq!(aapl.description.as_deref(), Some("APPLE INC"));
    assert_eq!(aapl.currency.as_deref(), Some("USD"));
    assert_eq!(num(&aapl.quantity), Some(100.0));
    assert_eq!(num(&aapl.mark_price), Some(185.0));
    assert_eq!(num(&aapl.position_value), Some(18500.0));
    assert_eq!(num(&aapl.cost_basis_price), Some(150.0)); // average cost per share
    assert_eq!(num(&aapl.cost_basis), Some(15000.0));
    assert_eq!(num(&aapl.unrealized_pnl), Some(3500.0));
}

#[test]
fn positions_leaves_unselected_fields_as_none() {
    let positions = parse_positions(WITH_POSITIONS).unwrap();
    let sap = &positions[1];
    assert_eq!(sap.symbol, "SAP");
    assert_eq!(num(&sap.quantity), Some(-50.0)); // shorts parse as negative
    assert_eq!(num(&sap.mark_price), Some(120.0));
    assert_eq!(num(&sap.cost_basis_price), None);
    assert_eq!(num(&sap.cost_basis), None);
    assert_eq!(num(&sap.unrealized_pnl), None);
}

#[test]
fn returns_empty_when_no_open_positions_section() {
    let xml = r#"<FlexQueryResponse><FlexStatements count="1"><FlexStatement accountId="U1"><AccountInformation accountId="U1" name="Jane Doe"/></FlexStatement></FlexStatements></FlexQueryResponse>"#;
    assert_eq!(parse_positions(xml).unwrap(), vec![]);
}

#[test]
fn position_without_symbol_has_empty_symbol() {
    let positions = parse_positions(r#"<R><OpenPosition position="5"/></R>"#).unwrap();
    assert_eq!(positions[0].symbol, "");
    assert_eq!(positions[0].quantity.as_deref(), Some("5"));
}

#[test]
fn position_quantity_is_read_from_the_position_attribute() {
    let positions = parse_positions(r#"<R><OpenPosition symbol="X" quantity="1" position="2"/></R>"#).unwrap();
    assert_eq!(positions[0].quantity.as_deref(), Some("2"));
}
