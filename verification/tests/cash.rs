use ibkr_flex_mcp::flex::cash::parse_cash_summary;

const WITH_CASH: &str = r#"<FlexQueryResponse queryName="Q" type="AF"><FlexStatements count="1"><FlexStatement accountId="U1">
        <AccountInformation accountId="U1" name="Jane Doe" currency="CHF" />
        <CashReport>
            <CashReportCurrency accountId="U1" currency="BASE_SUMMARY" levelOfDetail="BaseCurrency" fromDate="20250801" toDate="20260731" startingCash="10000.00" endingCash="12345.67" endingSettledCash="12000.00" />
            <CashReportCurrency accountId="U1" currency="CHF" levelOfDetail="Currency" fromDate="20250801" toDate="20260731" startingCash="5000.00" endingCash="6000.50" endingSettledCash="6000.50" />
            <CashReportCurrency accountId="U1" currency="USD" levelOfDetail="Currency" endingCash="7100.25" />
        </CashReport>
    </FlexStatement></FlexStatements></FlexQueryResponse>"#;

/// An amount read as a number, `None` if absent or not numeric.
fn num(v: &Option<String>) -> Option<f64> {
    v.as_deref().and_then(|s| s.parse::<f64>().ok())
}

#[test]
fn parses_each_currency_row_with_available_fields() {
    let summary = parse_cash_summary(WITH_CASH).unwrap();
    assert_eq!(summary.cash.len(), 3);

    let base = &summary.cash[0];
    assert_eq!(base.currency, "BASE_SUMMARY");
    assert_eq!(base.level_of_detail.as_deref(), Some("BaseCurrency"));
    assert_eq!(base.from_date.as_deref(), Some("20250801"));
    assert_eq!(base.to_date.as_deref(), Some("20260731"));
    assert_eq!(num(&base.starting_cash), Some(10000.0));
    assert_eq!(num(&base.ending_cash), Some(12345.67));
    assert_eq!(num(&base.ending_settled_cash), Some(12000.0));
}

#[test]
fn cash_leaves_unselected_fields_as_none() {
    let summary = parse_cash_summary(WITH_CASH).unwrap();
    let usd = &summary.cash[2];
    assert_eq!(usd.currency, "USD");
    assert_eq!(num(&usd.ending_cash), Some(7100.25));
    assert_eq!(num(&usd.starting_cash), None);
    assert_eq!(num(&usd.ending_settled_cash), None);
}

#[test]
fn parses_the_account_information_row() {
    let summary = parse_cash_summary(WITH_CASH).unwrap();
    let account = summary.account.expect("account row should parse");
    assert_eq!(account.account_id.as_deref(), Some("U1"));
    assert_eq!(account.name.as_deref(), Some("Jane Doe"));
    assert_eq!(account.base_currency.as_deref(), Some("CHF"));
}

#[test]
fn missing_sections_yield_empty_summary_not_error() {
    let xml = r#"<FlexQueryResponse><FlexStatements count="1"><FlexStatement accountId="U1"><OpenPositions/></FlexStatement></FlexStatements></FlexQueryResponse>"#;
    let summary = parse_cash_summary(xml).unwrap();
    assert_eq!(summary.account, None);
    assert_eq!(summary.cash, vec![]);
}

#[test]
fn cash_amounts_keep_the_statement_text() {
    let summary = parse_cash_summary(WITH_CASH).unwrap();
    assert_eq!(summary.cash[1].ending_cash.as_deref(), Some("6000.50"));
    assert_eq!(summary.cash[1].currency, "CHF");
}

#[test]
fn only_the_first_account_row_is_kept() {
    let xml = r#"<R><AccountInformation accountId="U1"/><AccountInformation accountId="U2"/></R>"#;
    let summary = parse_cash_summary(xml).unwrap();
    assert_eq!(summary.account.unwrap().account_id.as_deref(), Some("U1"));
}

#[test]
fn malformed_cash_document_is_a_parse_error() {
    let err = parse_cash_summary("<R><CashReportCurrency currency=").unwrap_err();
    assert!(matches!(err, ibkr_flex_mcp::flex::FlexError::Parse(_)), "got {err:?}");
}
