//! Parse open positions out of a Flex statement (`<OpenPosition>` rows).
//!
//! Flex queries only emit the fields the query is configured to include, so every field beyond
//! `symbol` is optional. Parsing is tolerant: unknown/missing attributes are simply absent.
//! Numeric fields keep the attribute's text exactly as the statement gives it; reading it as
//! a number is left to the caller.

use vstd::prelude::*;

use super::parse::{FlexError, FlexErrorView};
use super::rows::{is_attribute, is_attribute_text, lookup, made_from, parse_rows, scan_rows, Attrs};

verus! {

/// A single open position from a Flex statement.
#[derive(Debug, Clone, PartialEq)]
pub struct Position {
    pub symbol: String,
    pub description: Option<String>,
    pub asset_category: Option<String>,
    pub currency: Option<String>,
    /// Signed position size (IBKR `position`), as text.
    pub quantity: Option<String>,
    pub mark_price: Option<String>,
    pub position_value: Option<String>,
    /// Average cost per share (IBKR `costBasisPrice`).
    pub cost_basis_price: Option<String>,
    /// Total cost basis (IBKR `costBasisMoney`).
    pub cost_basis: Option<String>,
    pub unrealized_pnl: Option<String>,
}

/// The mathematical value of a [`Position`].
pub struct PositionView {
    pub symbol: Seq<char>,
    pub description: Option<Seq<char>>,
    pub asset_category: Option<Seq<char>>,
    pub currency: Option<Seq<char>>,
    pub quantity: Option<Seq<char>>,
    pub mark_price: Option<Seq<char>>,
    pub position_value: Option<Seq<char>>,
    pub cost_basis_price: Option<Seq<char>>,
    pub cost_basis: Option<Seq<char>>,
    pub unrealized_pnl: Option<Seq<char>>,
}

impl View for Position {
    type V = PositionView;

    open spec fn view(&self) -> PositionView {
        PositionView {
            symbol: self.symbol@,
            description: self.description.deep_view(),
            asset_category: self.asset_category.deep_view(),
            currency: self.currency.deep_view(),
            quantity: self.quantity.deep_view(),
            mark_price: self.mark_price.deep_view(),
            position_value: self.position_value.deep_view(),
            cost_basis_price: self.cost_basis_price.deep_view(),
            cost_basis: self.cost_basis.deep_view(),
            unrealized_pnl: self.unrealized_pnl.deep_view(),
        }
    }
}

/// The text of attribute `key`, the empty text when it is absent.
pub open spec fn text_or_empty(m: Map<Seq<char>, Seq<char>>, key: Seq<char>) -> Seq<char> {
    match lookup(m, key) {
        Some(v) => v,
        None => Seq::empty(),
    }
}

/// The position that an `<OpenPosition>` row with attribute map `m` describes.
pub open spec fn position_of(m: Map<Seq<char>, Seq<char>>) -> PositionView {
    PositionView {
        symbol: text_or_empty(m, "symbol"@),
        description: lookup(m, "description"@),
        asset_category: lookup(m, "assetCategory"@),
        currency: lookup(m, "currency"@),
        quantity: lookup(m, "position"@),
        mark_price: lookup(m, "markPrice"@),
        position_value: lookup(m, "positionValue"@),
        cost_basis_price: lookup(m, "costBasisPrice"@),
        cost_basis: lookup(m, "costBasisMoney"@),
        unrealized_pnl: lookup(m, "fifoPnlUnrealized"@),
    }
}

/// Each field of a parsed position is the IBKR attribute of the
/// `<OpenPosition>` row that its documentation names, verbatim: `symbol` from
/// `symbol` (empty when absent), `asset_category` from `assetCategory`,
/// `quantity` from `position`, `cost_basis` from `costBasisMoney`,
/// `unrealized_pnl` from `fifoPnlUnrealized`, and each other field from the
/// attribute of its own name.
pub proof fn lemma_position_fields_read_their_attributes(m: Map<Seq<char>, Seq<char>>)
    ensures
        is_attribute_text(position_of(m).symbol, m, "symbol"@),
        is_attribute(position_of(m).description, m, "description"@),
        is_attribute(position_of(m).asset_category, m, "assetCategory"@),
        is_attribute(position_of(m).currency, m, "currency"@),
        is_attribute(position_of(m).quantity, m, "position"@),
        is_attribute(position_of(m).mark_price, m, "markPrice"@),
        is_attribute(position_of(m).position_value, m, "positionValue"@),
        is_attribute(position_of(m).cost_basis_price, m, "costBasisPrice"@),
        is_attribute(position_of(m).cost_basis, m, "costBasisMoney"@),
        is_attribute(position_of(m).unrealized_pnl, m, "fifoPnlUnrealized"@),
{
}

/// The text of attribute `key`, the empty string when it is absent.
pub fn text_or_default(a: &Attrs, key: &str) -> (s: String)
    ensures
        s@ == text_or_empty(a@, key@),
{
    match a.text(key) {
        Some(v) => v,
        None => String::new(),
    }
}

/// The open position that one `<OpenPosition>` row describes.
pub fn position_from(a: &Attrs) -> (p: Position)
    ensures
        p@ == position_of(a@),
{
    Position {
        symbol: text_or_default(a, "symbol"),
        description: a.text("description"),
        asset_category: a.text("assetCategory"),
        currency: a.text("currency"),
        quantity: a.text("position"),
        mark_price: a.text("markPrice"),
        position_value: a.text("positionValue"),
        cost_basis_price: a.text("costBasisPrice"),
        cost_basis: a.text("costBasisMoney"),
        unrealized_pnl: a.text("fifoPnlUnrealized"),
    }
}

/// The views of `v`'s items.
pub open spec fn views<T: View>(v: Seq<T>) -> Seq<T::V> {
    v.map_values(|x: T| x@)
}

/// Parse all `<OpenPosition>` rows from a Flex statement XML document, in document order.
pub fn parse_positions(xml: &str) -> (r: Result<Vec<Position>, FlexError>)
    ensures
        match scan_rows(xml@, "OpenPosition"@) {
            Ok(maps) => r is Ok && views(r->Ok_0@) == maps.map_values(|m| position_of(m)),
            Err(msg) => r is Err && r->Err_0@ == FlexErrorView::Parse(msg),
        },
{
    let r = parse_rows(xml, "OpenPosition", position_from);
    proof {
        if let Ok(maps) = scan_rows(xml@, "OpenPosition"@) {
            let rows = r->Ok_0@;
            assert forall|i: int| 0 <= i < maps.len() implies rows[i]@ == position_of(maps[i]) by {
                assert(made_from(position_from, maps[i], rows[i]));
                let a = choose|a: Attrs| a@ == maps[i] && position_from.ensures((&a,), rows[i]);
            }
            assert(views(rows) =~= maps.map_values(|m| position_of(m)));
        }
    }
    r
}

} // verus!
