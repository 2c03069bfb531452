use ibkr_flex_mcp::flex::trades::{parse_trades, select_trades, TradeFilter, TradeSelection};

const WITH_TRADES: &str = r#"<FlexQueryResponse queryName="Q" type="AF"><FlexStatements count="1"><FlexStatement accountId="U1"><Trades>
        <Trade accountId="U1" currency="USD" symbol="AAPL" description="APPLE INC" assetCategory="STK" tradeID="7788" tradeDate="20260115" dateTime="20260115;103005" settleDateTarget="20260117" levelOfDetail="EXECUTION" buySell="BUY" openCloseIndicator="O" quantity="15" tradePrice="150.00" tradeMoney="2250.00" proceeds="-2250.00" ibCommission="-1.00" netCash="-2251.00" cost="2251.00" fifoPnlRealized="0" exchange="NASDAQ" notes="P" />
        <Trade accountId="U1" currency="USD" symbol="AAPL" assetCategory="STK" tradeDate="20260220" buySell="SELL" openCloseIndicator="C" quantity="-5" tradePrice="180.00" fifoPnlRealized="149.50" />
    </Trades></FlexStatement></FlexStatements></FlexQueryResponse>"#;

/// An amount read as a number, `None` if absent or not numeric.
fn num(v: &Option<String>) -> Option<f64> {
    v.as_deref().and_then(|s| s.parse::<f64>().ok())
}

#[test]
fn parses_each_trade_with_available_fields() {
    let trades = parse_trades(WITH_TRADES).unwrap();
    assert_eq!(trades.len(), 2);

    let buy = &trades[0];
    assert_eq!(buy.symbol, "AAPL");
    assert_eq!(buy.description.as_deref(), Some("APPLE INC"));
    assert_eq!(buy.currency.as_deref(), Some("USD"));
    assert_eq!(buy.trade_id.as_deref(), Some("7788"));
    assert_eq!(buy.trade_date.as_deref(), Some("20260115"));
    assert_eq!(buy.date_time.as_deref(), Some("20260115;103005"));
    assert_eq!(buy.settle_date.as_deref(), Some("20260117"));
    assert_eq!(buy.level_of_detail.as_deref(), Some("EXECUTION"));
    assert_eq!(buy.buy_sell.as_deref(), Some("BUY"));
    assert_eq!(buy.open_close.as_deref(), Some("O"));
    assert_eq!(num(&buy.quantity), Some(15.0));
    assert_eq!(num(&buy.trade_price), Some(150.0));
    assert_eq!(num(&buy.trade_money), Some(2250.0));
    assert_eq!(num(&buy.proceeds), Some(-2250.0));
    assert_eq!(num(&buy.commission), Some(-1.0));
    assert_eq!(num(&buy.net_cash), Some(-2251.0));
    assert_eq!(num(&buy.cost), Some(2251.0));
    assert_eq!(num(&buy.realized_pnl), Some(0.0));
    assert_eq!(buy.exchange.as_deref(), Some("NASDAQ"));
    assert_eq!(buy.notes.as_deref(), Some("P"));
}

#[test]
fn leaves_unselected_fields_as_none_and_signs_sells_negative() {
    let trades = parse_trades(WITH_TRADES).unwrap();
    let sell = &trades[1];
    assert_eq!(num(&sell.quantity), Some(-5.0));
    assert_eq!(sell.open_close.as_deref(), Some("C"));
    assert_eq!(num(&sell.realized_pnl), Some(149.5));
    assert_eq!(sell.description, None);
    assert_eq!(sell.commission, None);
    assert_eq!(sell.trade_id, None);
}

#[test]
fn returns_empty_when_no_trades_section() {
    let xml = r#"<FlexQueryResponse><FlexStatements count="1"><FlexStatement accountId="U1"><OpenPositions/></FlexStatement></FlexStatements></FlexQueryResponse>"#;
    assert_eq!(parse_trades(xml).unwrap(), vec![]);
}

/// Deliberately out of date order: IBKR does not emit trades chronologically.
const MIXED: &str = r#"<FlexQueryResponse><FlexStatements><FlexStatement><Trades>
        <Trade symbol="NHY" tradeDate="20260301" levelOfDetail="EXECUTION" quantity="10" />
        <Trade symbol="NHY" tradeDate="20260101" levelOfDetail="EXECUTION" quantity="20" />
        <Trade symbol="NHYo" tradeDate="20260201" levelOfDetail="EXECUTION" quantity="30" />
        <Trade symbol="nhy" tradeDate="20260601" levelOfDetail="SYMBOL_SUMMARY" quantity="40" />
        <Trade symbol="MSFT" quantity="50" />
    </Trades></FlexStatement></FlexStatements></FlexQueryResponse>"#;

fn select(filter: TradeFilter) -> TradeSelection {
    select_trades(MIXED, &filter).unwrap()
}

fn quantities(sel: &TradeSelection) -> Vec<f64> {
    sel.trades.iter().filter_map(|t| num(&t.quantity)).collect()
}

#[test]
fn no_filter_returns_everything_sorted_by_trade_date() {
    let sel = select(TradeFilter::default());
    assert_eq!(sel.matched, 5);
    assert_eq!(sel.returned, 5);
    // The undated row sorts first, then ascending by date — not statement order.
    assert_eq!(quantities(&sel), vec![50.0, 20.0, 30.0, 10.0, 40.0]);
}

#[test]
fn symbol_matches_case_insensitively_but_exactly() {
    let sel = select(TradeFilter {
        symbol: Some("nhy".into()),
        ..Default::default()
    });
    // "nhy" matches "NHY" and "nhy", but never the separately listed "NHYo".
    assert_eq!(quantities(&sel), vec![20.0, 10.0, 40.0]);
}

#[test]
fn date_bounds_are_inclusive_and_exclude_undated_rows() {
    let sel = select(TradeFilter {
        since: Some("20260101".into()),
        until: Some("20260301".into()),
        ..Default::default()
    });
    // MSFT has no tradeDate, so it cannot be shown to fall in range.
    assert_eq!(quantities(&sel), vec![20.0, 30.0, 10.0]);
}

#[test]
fn level_of_detail_filters_out_aggregate_rows() {
    let sel = select(TradeFilter {
        level_of_detail: Some("execution".into()),
        ..Default::default()
    });
    assert_eq!(quantities(&sel), vec![20.0, 30.0, 10.0]);
}

#[test]
fn limit_keeps_the_most_recent_and_reports_the_full_count() {
    let sel = select(TradeFilter {
        level_of_detail: Some("EXECUTION".into()),
        limit: Some(2),
        ..Default::default()
    });
    assert_eq!(quantities(&sel), vec![30.0, 10.0]); // newest two, not the last two in the file
    assert_eq!(sel.matched, 3, "matched must reveal the truncation");
    assert_eq!(sel.returned, 2);
}

#[test]
fn limit_larger_than_the_result_changes_nothing() {
    let sel = select(TradeFilter {
        limit: Some(99),
        ..Default::default()
    });
    assert_eq!(sel.matched, 5);
    assert_eq!(sel.returned, 5);
}

#[test]
fn filters_combine_and_can_match_nothing() {
    let sel = select(TradeFilter {
        symbol: Some("NHY".into()),
        since: Some("20270101".into()),
        ..Default::default()
    });
    assert_eq!(sel.matched, 0);
    assert!(sel.trades.is_empty());
}

const SAME_DAY: &str = r#"<R>
        <Trade symbol="A" tradeDate="20260105" quantity="1" />
        <Trade symbol="B" tradeDate="20260102" quantity="2" />
        <Trade symbol="C" tradeDate="20260105" quantity="3" />
        <Trade symbol="D" quantity="4" />
        <Trade symbol="E" tradeDate="20260105" quantity="5" />
        <Trade symbol="F" quantity="6" />
    </R>"#;

#[test]
fn rows_sharing_a_date_keep_statement_order() {
    let sel = select_trades(SAME_DAY, &TradeFilter::default()).unwrap();
    let symbols: Vec<&str> = sel.trades.iter().map(|t| t.symbol.as_str()).collect();
    assert_eq!(symbols, vec!["D", "F", "B", "A", "C", "E"]);
}

#[test]
fn limit_zero_returns_nothing_but_counts_all() {
    let sel = select_trades(SAME_DAY, &TradeFilter { limit: Some(0), ..Default::default() }).unwrap();
    assert_eq!(sel.matched, 6);
    assert_eq!(sel.returned, 0);
    assert!(sel.trades.is_empty());
}

#[test]
fn limit_drops_only_older_trades() {
    let sel = select_trades(SAME_DAY, &TradeFilter { limit: Some(3), ..Default::default() }).unwrap();
    let symbols: Vec<&str> = sel.trades.iter().map(|t| t.symbol.as_str()).collect();
    assert_eq!(symbols, vec!["A", "C", "E"]);
    assert_eq!(sel.matched, 6);
}

#[test]
fn since_alone_excludes_undated_rows() {
    let sel = select_trades(SAME_DAY, &TradeFilter { since: Some("20260103".into()), ..Default::default() }).unwrap();
    let symbols: Vec<&str> = sel.trades.iter().map(|t| t.symbol.as_str()).collect();
    assert_eq!(symbols, vec!["A", "C", "E"]);
}

#[test]
fn until_is_inclusive() {
    let sel = select_trades(SAME_DAY, &TradeFilter { until: Some("20260102".into()), ..Default::default() }).unwrap();
    let symbols: Vec<&str> = sel.trades.iter().map(|t| t.symbol.as_str()).collect();
    assert_eq!(symbols, vec!["B"]);
}

#[test]
fn filter_matches_trade_directly() {
    let trades = parse_trades(MIXED).unwrap();
    let f = TradeFilter { symbol: Some("NhY".into()), ..Default::default() };
    let hits: Vec<bool> = trades.iter().map(|t| f.matches(t)).collect();
    assert_eq!(hits, vec![true, true, false, true, false]);
}

#[test]
fn select_reports_parse_errors() {
    let err = select_trades("<R><Trade a='1' a='2'/></R>", &TradeFilter::default()).unwrap_err();
    assert!(matches!(err, ibkr_flex_mcp::flex::FlexError::Parse(_)), "got {err:?}");
}
