//! Parse cash balances out of a Flex statement (`<CashReportCurrency>` rows), plus the
//! `<AccountInformation>` row that names the base currency.
//!
//! The Cash Report section emits one row per currency, and — when the query breaks out
//! currencies — a `BASE_SUMMARY` row totalling everything in the base currency
//! (`levelOfDetail="BaseCurrency"`). As elsewhere, a Flex query only emits the fields it is
//! configured to include, so every field beyond `currency` is optional. Amounts keep the
//! attribute's text; reading it as a number is left to the caller.

use vstd::prelude::*;

use super::parse::{FlexError, FlexErrorView};
use super::positions::{text_or_default, text_or_empty, views};
use super::rows::{is_attribute, is_attribute_text, lookup, made_from, parse_rows, scan_rows, Attrs};

verus! {

/// One currency's cash balances from a Flex statement.
#[derive(Debug, Clone, PartialEq)]
pub struct CashBalance {
    /// ISO currency, or `BASE_SUMMARY` for the base-currency total row.
    pub currency: String,
    /// `Currency` or `BaseCurrency` — tells the per-currency rows from the base-currency total.
    pub level_of_detail: Option<String>,
    pub from_date: Option<String>,
    pub to_date: Option<String>,
    pub starting_cash: Option<String>,
    /// Total cash at period end (IBKR `endingCash`).
    pub ending_cash: Option<String>,
    /// Settled portion of `ending_cash` (IBKR `endingSettledCash`).
    pub ending_settled_cash: Option<String>,
}

pub struct CashBalanceView {
    pub currency: Seq<char>,
    pub level_of_detail: Option<Seq<char>>,
    pub from_date: Option<Seq<char>>,
    pub to_date: Option<Seq<char>>,
    pub starting_cash: Option<Seq<char>>,
    pub ending_cash: Option<Seq<char>>,
    pub ending_settled_cash: Option<Seq<char>>,
}

impl View for CashBalance {
    type V = CashBalanceView;

    open spec fn view(&self) -> CashBalanceView {
        CashBalanceView {
            currency: self.currency@,
            level_of_detail: self.level_of_detail.deep_view(),
            from_date: self.from_date.deep_view(),
            to_date: self.to_date.deep_view(),
            starting_cash: self.starting_cash.deep_view(),
            ending_cash: self.ending_cash.deep_view(),
            ending_settled_cash: self.ending_settled_cash.deep_view(),
        }
    }
}

/// The account identity row (`<AccountInformation>`), chiefly for the base currency.
#[derive(Debug, Clone, PartialEq)]
pub struct AccountInfo {
    pub account_id: Option<String>,
    pub name: Option<String>,
    /// The account's base currency (IBKR `currency`), which `BASE_SUMMARY` rows are stated in.
    pub base_currency: Option<String>,
}

pub struct AccountInfoView {
    pub account_id: Option<Seq<char>>,
    pub name: Option<Seq<char>>,
    pub base_currency: Option<Seq<char>>,
}

impl View for AccountInfo {
    type V = AccountInfoView;

    open spec fn view(&self) -> AccountInfoView {
        AccountInfoView {
            account_id: self.account_id.deep_view(),
            name: self.name.deep_view(),
            base_currency: self.base_currency.deep_view(),
        }
    }
}

/// Cash balances plus the account row, as one bounded payload.
#[derive(Debug, PartialEq)]
pub struct CashSummary {
    pub account: Option<AccountInfo>,
    pub cash: Vec<CashBalance>,
}

pub struct CashSummaryView {
    pub account: Option<AccountInfoView>,
    pub cash: Seq<CashBalanceView>,
}

impl View for CashSummary {
    type V = CashSummaryView;

    open spec fn view(&self) -> CashSummaryView {
        CashSummaryView {
            account: match self.account {
                Some(a) => Some(a@),
                None => None,
            },
            cash: views(self.cash@),
        }
    }
}

/// The balances that a `<CashReportCurrency>` row with attribute map `m` states.
pub open spec fn balance_of(m: Map<Seq<char>, Seq<char>>) -> CashBalanceView {
    CashBalanceView {
        currency: text_or_empty(m, "currency"@),
        level_of_detail: lookup(m, "levelOfDetail"@),
        from_date: lookup(m, "fromDate"@),
        to_date: lookup(m, "toDate"@),
        starting_cash: lookup(m, "startingCash"@),
        ending_cash: lookup(m, "endingCash"@),
        ending_settled_cash: lookup(m, "endingSettledCash"@),
    }
}

/// The account that an `<AccountInformation>` row with attribute map `m` names.
pub open spec fn account_of(m: Map<Seq<char>, Seq<char>>) -> AccountInfoView {
    AccountInfoView {
        account_id: lookup(m, "accountId"@),
        name: lookup(m, "name"@),
        base_currency: lookup(m, "currency"@),
    }
}

/// Each field of a cash row is the IBKR attribute of the `<CashReportCurrency>`
/// row of its own name, verbatim, for every row whatever its currency or level
/// of detail: `currency` (empty when absent), `levelOfDetail`, `fromDate`,
/// `toDate`, `startingCash`, `endingCash` and `endingSettledCash`.
pub proof fn lemma_balance_fields_read_their_attributes(m: Map<Seq<char>, Seq<char>>)
    ensures
        is_attribute_text(balance_of(m).currency, m, "currency"@),
        is_attribute(balance_of(m).level_of_detail, m, "levelOfDetail"@),
        is_attribute(balance_of(m).from_date, m, "fromDate"@),
        is_attribute(balance_of(m).to_date, m, "toDate"@),
        is_attribute(balance_of(m).starting_cash, m, "startingCash"@),
        is_attribute(balance_of(m).ending_cash, m, "endingCash"@),
        is_attribute(balance_of(m).ending_settled_cash, m, "endingSettledCash"@),
{
}

/// The account of a statement is read from its `<AccountInformation>` row:
/// `account_id` from `accountId`, `name` from `name`, and `base_currency` from
/// `currency`, each verbatim.
pub proof fn lemma_account_fields_read_their_attributes(m: Map<Seq<char>, Seq<char>>)
    ensures
        is_attribute(account_of(m).account_id, m, "accountId"@),
        is_attribute(account_of(m).name, m, "name"@),
        is_attribute(account_of(m).base_currency, m, "currency"@),
{
}

/// The summary of a statement whose `<AccountInformation>` rows scan to
/// `accounts` and whose `<CashReportCurrency>` rows scan to `cash`: the first
/// account row, if any, and every balance row in document order. The account
/// rows are scanned first, so their error is the one reported.
pub open spec fn cash_summary_of(
    accounts: Result<Seq<Map<Seq<char>, Seq<char>>>, Seq<char>>,
    cash: Result<Seq<Map<Seq<char>, Seq<char>>>, Seq<char>>,
) -> Result<CashSummaryView, FlexErrorView> {
    match accounts {
        Err(m) => Err(FlexErrorView::Parse(m)),
        Ok(acc) => match cash {
            Err(m) => Err(FlexErrorView::Parse(m)),
            Ok(rows) => Ok(
                CashSummaryView {
                    account: if acc.len() > 0 {
                        Some(account_of(acc[0]))
                    } else {
                        None
                    },
                    cash: rows.map_values(|m| balance_of(m)),
                },
            ),
        },
    }
}

/// The balances that one `<CashReportCurrency>` row states.
pub fn balance_from(a: &Attrs) -> (b: CashBalance)
    ensures
        b@ == balance_of(a@),
{
    CashBalance {
        currency: text_or_default(a, "currency"),
        level_of_detail: a.text("levelOfDetail"),
        from_date: a.text("fromDate"),
        to_date: a.text("toDate"),
        starting_cash: a.text("startingCash"),
        ending_cash: a.text("endingCash"),
        ending_settled_cash: a.text("endingSettledCash"),
    }
}

/// The account that one `<AccountInformation>` row names.
pub fn account_from(a: &Attrs) -> (acc: AccountInfo)
    ensures
        acc@ == account_of(a@),
{
    AccountInfo {
        account_id: a.text("accountId"),
        name: a.text("name"),
        base_currency: a.text("currency"),
    }
}

/// Parse the Cash Report and Account Information sections from a Flex statement XML document.
pub fn parse_cash_summary(xml: &str) -> (r: Result<CashSummary, FlexError>)
    ensures
        match r {
            Ok(s) => cash_summary_of(scan_rows(xml@, "AccountInformation"@), scan_rows(xml@, "CashReportCurrency"@))
                == Ok::<CashSummaryView, FlexErrorView>(s@),
            Err(e) => cash_summary_of(scan_rows(xml@, "AccountInformation"@), scan_rows(xml@, "CashReportCurrency"@))
                == Err::<CashSummaryView, FlexErrorView>(e@),
        },
{
    let mut accounts = parse_rows(xml, "AccountInformation", account_from)?;
    let ghost acc_maps = scan_rows(xml@, "AccountInformation"@)->Ok_0;
    let account = if accounts.len() > 0 {
        let first = accounts.remove(0);
        proof {
            assert(made_from(account_from, acc_maps[0], first));
            let a = choose|a: Attrs| a@ == acc_maps[0] && account_from.ensures((&a,), first);
        }
        Some(first)
    } else {
        None
    };
    let cash = parse_rows(xml, "CashReportCurrency", balance_from)?;
    proof {
        let maps = scan_rows(xml@, "CashReportCurrency"@)->Ok_0;
        let rows = cash@;
        assert forall|i: int| 0 <= i < maps.len() implies rows[i]@ == balance_of(maps[i]) by {
            assert(made_from(balance_from, maps[i], rows[i]));
            let a = choose|a: Attrs| a@ == maps[i] && balance_from.ensures((&a,), rows[i]);
        }
        assert(views(rows) =~= maps.map_values(|m| balance_of(m)));
    }
    Ok(CashSummary { account, cash })
}

} // verus!
