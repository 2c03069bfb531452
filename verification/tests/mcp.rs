use ibkr_flex_mcp::flex::{FlexError, FlexStatement, TradeFilter};
use ibkr_flex_mcp::mcp::{cash_reply, positions_reply, statement_reply, trades_reply};

fn statement(raw_xml: &str) -> FlexStatement {
    FlexStatement {
        query_id: "Q1".into(),
        reference_code: "REF".into(),
        raw_xml: raw_xml.into(),
    }
}

#[test]
fn ok_statement_maps_to_success_with_raw_xml() {
    let result = statement_reply(Ok(statement("<FlexQueryResponse/>")));
    assert_eq!(result, Ok("<FlexQueryResponse/>".to_string()));
}

#[test]
fn error_maps_to_tool_error_with_message() {
    let result = statement_reply(Err(FlexError::NotReady(3)));
    let text = result.unwrap_err();
    assert!(text.contains("not ready after 3"), "text: {text}");
    assert_eq!(text, "Flex query failed: statement not ready after 3 attempts");
}

#[test]
fn positions_map_to_structured_json() {
    let xml = r#"<FlexQueryResponse><FlexStatements><FlexStatement><OpenPositions><OpenPosition symbol="AAPL" position="100" currency="USD" /></OpenPositions></FlexStatement></FlexStatements></FlexQueryResponse>"#;
    let rows = positions_reply(Ok(statement(xml))).unwrap();
    assert_eq!(rows.len(), 1);
    assert_eq!(rows[0].symbol, "AAPL");
    assert_eq!(rows[0].quantity.as_deref(), Some("100"));
}

#[test]
fn no_positions_section_yields_empty_list_not_error() {
    let xml = r#"<FlexQueryResponse><FlexStatements><FlexStatement><AccountInformation name="x"/></FlexStatement></FlexStatements></FlexQueryResponse>"#;
    assert_eq!(positions_reply(Ok(statement(xml))).unwrap(), vec![]);
}

#[test]
fn fetch_error_maps_to_tool_error() {
    let result = positions_reply(Err(FlexError::NotReady(2)));
    assert!(result.is_err());
}

const TWO_TRADES: &str = r#"<FlexQueryResponse><FlexStatements><FlexStatement><Trades>
        <Trade symbol="AAPL" tradeDate="20260115" buySell="BUY" quantity="15" tradePrice="150.00" />
        <Trade symbol="MSFT" tradeDate="20260220" buySell="BUY" quantity="7" />
    </Trades></FlexStatement></FlexStatements></FlexQueryResponse>"#;

#[test]
fn trades_map_to_structured_json() {
    let selection = trades_reply(Ok(statement(TWO_TRADES)), &TradeFilter::default()).unwrap();
    assert_eq!(selection.trades[0].symbol, "AAPL");
    assert_eq!(selection.trades[0].quantity.as_deref(), Some("15"));
}

#[test]
fn trades_filter_narrows_the_response_and_reports_both_counts() {
    let filter = TradeFilter {
        symbol: Some("msft".into()),
        ..Default::default()
    };
    let selection = trades_reply(Ok(statement(TWO_TRADES)), &filter).unwrap();
    assert!(selection.trades.iter().all(|t| t.symbol != "AAPL"), "filtered symbol leaked");
    assert_eq!(selection.trades[0].symbol, "MSFT");
    assert_eq!(selection.matched, 1);
    assert_eq!(selection.returned, 1);
}

#[test]
fn no_trades_section_yields_empty_list_not_error() {
    let xml = r#"<FlexQueryResponse><FlexStatements><FlexStatement><OpenPositions/></FlexStatement></FlexStatements></FlexQueryResponse>"#;
    let selection = trades_reply(Ok(statement(xml)), &TradeFilter::default()).unwrap();
    assert!(selection.trades.is_empty());
    assert_eq!(selection.matched, 0);
}

#[test]
fn trades_fetch_error_maps_to_tool_error() {
    let result = trades_reply(Err(FlexError::NotReady(2)), &TradeFilter::default());
    assert!(result.is_err());
}

#[test]
fn cash_maps_to_structured_json() {
    let xml = r#"<FlexQueryResponse><FlexStatements><FlexStatement>
            <AccountInformation accountId="U1" currency="CHF" />
            <CashReport><CashReportCurrency currency="USD" endingCash="7100.25" endingSettledCash="7000.00" /></CashReport>
        </FlexStatement></FlexStatements></FlexQueryResponse>"#;
    let summary = cash_reply(Ok(statement(xml))).unwrap();
    assert_eq!(summary.cash[0].ending_cash.as_deref(), Some("7100.25"));
    assert_eq!(summary.account.unwrap().base_currency.as_deref(), Some("CHF"));
}

#[test]
fn no_cash_section_yields_empty_list_not_error() {
    let xml = r#"<FlexQueryResponse><FlexStatements><FlexStatement><OpenPositions/></FlexStatement></FlexStatements></FlexQueryResponse>"#;
    let summary = cash_reply(Ok(statement(xml))).unwrap();
    assert!(summary.cash.is_empty());
}

#[test]
fn cash_fetch_error_maps_to_tool_error() {
    let result = cash_reply(Err(FlexError::NotReady(2)));
    assert!(result.is_err());
}

#[test]
fn unparsable_statement_is_a_section_error() {
    let text = trades_reply(Ok(statement("<R><Trade a=")), &TradeFilter::default()).unwrap_err();
    assert!(text.starts_with("parsing trades failed: Flex response malformed: Trade XML: "), "text: {text}");
    let text = positions_reply(Ok(statement("<R><OpenPosition a="))).unwrap_err();
    assert!(text.starts_with("parsing positions failed: "), "text: {text}");
    let text = cash_reply(Ok(statement("<R><CashReportCurrency a="))).unwrap_err();
    assert!(text.starts_with("parsing cash failed: "), "text: {text}");
}
