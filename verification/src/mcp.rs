//! What the read-only MCP tools answer.
//!
//! Each tool fetches the configured statement, then answers with the raw XML
//! (`flex_run_query`), the open positions (`flex_positions`), the selected
//! trades (`flex_trades`) or the cash summary (`flex_cash`). A failure is a
//! tool-level error whose text the model sees. There is deliberately no
//! order-placement tool — the Flex Web Service cannot trade.
//!
//! Here stand the decisions: which payload or which error text each tool
//! answers with. Encoding the payload as the protocol's JSON is the server's part.

use vstd::prelude::*;
use vstd::string::StringExecFns;

use crate::flex::cash::{cash_summary_of, parse_cash_summary, CashSummary, CashSummaryView};
use crate::flex::parse::{error_text, FlexError, FlexErrorView};
use crate::flex::positions::{parse_positions, position_of, views, Position, PositionView};
use crate::flex::rows::scan_rows;
use crate::flex::trades::{select_trades, selection_of, trade_of, TradeFilter, TradeSelection, TradeSelectionView};
use crate::flex::{FlexStatement, FlexStatementView};

verus! {

/// The text of a tool error for a failed fetch.
pub open spec fn fetch_failure(e: FlexErrorView) -> Seq<char> {
    "Flex query failed: "@ + error_text(e)
}

/// The text of a tool error for a statement whose `section` did not parse.
pub open spec fn parse_failure(section: Seq<char>, e: FlexErrorView) -> Seq<char> {
    "parsing "@ + section + " failed: "@ + error_text(e)
}

fn fetch_failure_text(e: &FlexError) -> (m: String)
    ensures
        m@ == fetch_failure(e@),
{
    let mut m = String::from_str("Flex query failed: ");
    let shown = e.message();
    m.append(shown.as_str());
    m
}

/// `flex_run_query`: the raw statement XML, or the fetch error's text.
pub fn statement_reply(result: Result<FlexStatement, FlexError>) -> (r: Result<String, String>)
    ensures
        match result {
            Ok(s) => r is Ok && r->Ok_0@ == s.raw_xml@,
            Err(e) => r is Err && r->Err_0@ == fetch_failure(e@),
        },
{
    match result {
        Ok(statement) => Ok(statement.raw_xml),
        Err(err) => Err(fetch_failure_text(&err)),
    }
}

/// `flex_positions`: the statement's open positions, or the error's text.
pub fn positions_reply(result: Result<FlexStatement, FlexError>) -> (r: Result<Vec<Position>, String>)
    ensures
        match result {
            Err(e) => r is Err && r->Err_0@ == fetch_failure(e@),
            Ok(s) => match scan_rows(s.raw_xml@, "OpenPosition"@) {
                Ok(maps) => r is Ok && views(r->Ok_0@) == maps.map_values(|m| position_of(m)),
                Err(msg) => r is Err && r->Err_0@ == parse_failure("positions"@, FlexErrorView::Parse(msg)),
            },
        },
{
    let statement = match result {
        Ok(statement) => statement,
        Err(err) => return Err(fetch_failure_text(&err)),
    };
    match parse_positions(statement.raw_xml.as_str()) {
        Ok(rows) => Ok(rows),
        Err(err) => {
            let mut m = String::from_str("parsing ");
            m.append("positions");
            m.append(" failed: ");
            let shown = err.message();
            m.append(shown.as_str());
            Err(m)
        },
    }
}

/// `flex_trades`: the trades `filter` selects from the statement, or the error's text.
pub fn trades_reply(result: Result<FlexStatement, FlexError>, filter: &TradeFilter) -> (r: Result<TradeSelection, String>)
    ensures
        match result {
            Err(e) => r is Err && r->Err_0@ == fetch_failure(e@),
            Ok(s) => match scan_rows(s.raw_xml@, "Trade"@) {
                Ok(maps) => r is Ok && r->Ok_0@ == selection_of(maps.map_values(|m| trade_of(m)), filter@),
                Err(msg) => r is Err && r->Err_0@ == parse_failure("trades"@, FlexErrorView::Parse(msg)),
            },
        },
{
    let statement = match result {
        Ok(statement) => statement,
        Err(err) => return Err(fetch_failure_text(&err)),
    };
    match select_trades(statement.raw_xml.as_str(), filter) {
        Ok(selection) => Ok(selection),
        Err(err) => {
            let mut m = String::from_str("parsing ");
            m.append("trades");
            m.append(" failed: ");
            let shown = err.message();
            m.append(shown.as_str());
            Err(m)
        },
    }
}

/// `flex_cash`: the statement's cash summary, or the error's text.
pub fn cash_reply(result: Result<FlexStatement, FlexError>) -> (r: Result<CashSummary, String>)
    ensures
        match result {
            Err(e) => r is Err && r->Err_0@ == fetch_failure(e@),
            Ok(s) => match cash_summary_of(scan_rows(s.raw_xml@, "AccountInformation"@), scan_rows(s.raw_xml@, "CashReportCurrency"@)) {
                Ok(summary) => r is Ok && r->Ok_0@ == summary,
                Err(e) => r is Err && r->Err_0@ == parse_failure("cash"@, e),
            },
        },
{
    let statement = match result {
        Ok(statement) => statement,
        Err(err) => return Err(fetch_failure_text(&err)),
    };
    match parse_cash_summary(statement.raw_xml.as_str()) {
        Ok(summary) => Ok(summary),
        Err(err) => {
            let mut m = String::from_str("parsing ");
            m.append("cash");
            m.append(" failed: ");
            let shown = err.message();
            m.append(shown.as_str());
            Err(m)
        },
    }
}

} // verus!
