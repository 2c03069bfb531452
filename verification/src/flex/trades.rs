//! Parse executed trades out of a Flex statement (`<Trade>` rows), and select among them.
//!
//! The Trades section is the authoritative lot history: every execution, with the quantity,
//! price, commission and open/close indicator IBKR used to compute cost basis. As with
//! positions, a Flex query only emits the fields it is configured to include, so every field
//! beyond `symbol` is optional. Amounts keep the attribute's text.
//!
//! A Trades section can be configured at several levels of detail (execution, order, symbol
//! summary). All of them arrive as `<Trade>` rows distinguished by `levelOfDetail`, which is
//! exposed verbatim so callers can avoid double counting.

use vstd::prelude::*;

use super::parse::{FlexError, FlexErrorView};
use super::positions::{text_or_default, text_or_empty, views};
use super::rows::{is_attribute, is_attribute_text, lookup, made_from, parse_rows, scan_rows, Attrs};
use super::text::{
    chars_of, eq_ignore_ascii_case, lemma_same_ignoring_ascii_case, lemma_text_le_reflexive, lemma_text_le_total,
    lemma_text_le_transitive, same_ignoring_ascii_case, same_letter_or_char, text_le, text_le_chars, text_le_exec,
};


verus! {

/// A single trade row from a Flex statement.
#[derive(Debug, Clone, PartialEq)]
pub struct Trade {
    pub symbol: String,
    pub description: Option<String>,
    pub asset_category: Option<String>,
    pub currency: Option<String>,
    /// IBKR execution id (`tradeID`); absent on aggregated rows.
    pub trade_id: Option<String>,
    pub trade_date: Option<String>,
    /// Execution timestamp (`dateTime`), in the query's configured date/time format.
    pub date_time: Option<String>,
    /// Target settlement date (`settleDateTarget`).
    pub settle_date: Option<String>,
    /// `EXECUTION`, `ORDER`, `SYMBOL_SUMMARY`, ... — rows at different levels overlap.
    pub level_of_detail: Option<String>,
    /// `BUY` or `SELL`.
    pub buy_sell: Option<String>,
    /// `O` (opening) or `C` (closing) — which lots this trade created or consumed.
    pub open_close: Option<String>,
    /// Signed quantity: positive for buys, negative for sells.
    pub quantity: Option<String>,
    pub trade_price: Option<String>,
    /// Quantity x price x multiplier (IBKR `tradeMoney`).
    pub trade_money: Option<String>,
    pub proceeds: Option<String>,
    /// Commission charged (IBKR `ibCommission`; negative = paid).
    pub commission: Option<String>,
    /// Proceeds net of commission and taxes (IBKR `netCash`).
    pub net_cash: Option<String>,
    /// Basis added by (or removed from) the position by this trade (IBKR `cost`).
    pub cost: Option<String>,
    /// Realized P&L on closing trades (IBKR `fifoPnlRealized`).
    pub realized_pnl: Option<String>,
    pub exchange: Option<String>,
    /// IBKR note codes (e.g. `A` assignment, `Ex` exercise, `P` partial execution).
    pub notes: Option<String>,
}

/// The mathematical value of a [`Trade`].
pub struct TradeView {
    pub symbol: Seq<char>,
    pub description: Option<Seq<char>>,
    pub asset_category: Option<Seq<char>>,
    pub currency: Option<Seq<char>>,
    pub trade_id: Option<Seq<char>>,
    pub trade_date: Option<Seq<char>>,
    pub date_time: Option<Seq<char>>,
    pub settle_date: Option<Seq<char>>,
    pub level_of_detail: Option<Seq<char>>,
    pub buy_sell: Option<Seq<char>>,
    pub open_close: Option<Seq<char>>,
    pub quantity: Option<Seq<char>>,
    pub trade_price: Option<Seq<char>>,
    pub trade_money: Option<Seq<char>>,
    pub proceeds: Option<Seq<char>>,
    pub commission: Option<Seq<char>>,
    pub net_cash: Option<Seq<char>>,
    pub cost: Option<Seq<char>>,
    pub realized_pnl: Option<Seq<char>>,
    pub exchange: Option<Seq<char>>,
    pub notes: Option<Seq<char>>,
}

impl View for Trade {
    type V = TradeView;

    open spec fn view(&self) -> TradeView {
        TradeView {
            symbol: self.symbol@,
            description: self.description.deep_view(),
            asset_category: self.asset_category.deep_view(),
            currency: self.currency.deep_view(),
            trade_id: self.trade_id.deep_view(),
            trade_date: self.trade_date.deep_view(),
            date_time: self.date_time.deep_view(),
            settle_date: self.settle_date.deep_view(),
            level_of_detail: self.level_of_detail.deep_view(),
            buy_sell: self.buy_sell.deep_view(),
            open_close: self.open_close.deep_view(),
            quantity: self.quantity.deep_view(),
            trade_price: self.trade_price.deep_view(),
            trade_money: self.trade_money.deep_view(),
            proceeds: self.proceeds.deep_view(),
            commission: self.commission.deep_view(),
            net_cash: self.net_cash.deep_view(),
            cost: self.cost.deep_view(),
            realized_pnl: self.realized_pnl.deep_view(),
            exchange: self.exchange.deep_view(),
            notes: self.notes.deep_view(),
        }
    }
}

/// The trade that a `<Trade>` row with attribute map `m` describes.
pub open spec fn trade_of(m: Map<Seq<char>, Seq<char>>) -> TradeView {
    TradeView {
        symbol: text_or_empty(m, "symbol"@),
        description: lookup(m, "description"@),
        asset_category: lookup(m, "assetCategory"@),
        currency: lookup(m, "currency"@),
        trade_id: lookup(m, "tradeID"@),
        trade_date: lookup(m, "tradeDate"@),
        date_time: lookup(m, "dateTime"@),
        settle_date: lookup(m, "settleDateTarget"@),
        level_of_detail: lookup(m, "levelOfDetail"@),
        buy_sell: lookup(m, "buySell"@),
        open_close: lookup(m, "openCloseIndicator"@),
        quantity: lookup(m, "quantity"@),
        trade_price: lookup(m, "tradePrice"@),
        trade_money: lookup(m, "tradeMoney"@),
        proceeds: lookup(m, "proceeds"@),
        commission: lookup(m, "ibCommission"@),
        net_cash: lookup(m, "netCash"@),
        cost: lookup(m, "cost"@),
        realized_pnl: lookup(m, "fifoPnlRealized"@),
        exchange: lookup(m, "exchange"@),
        notes: lookup(m, "notes"@),
    }
}

/// Each field of a parsed trade is the IBKR attribute of the `<Trade>` row that
/// its documentation names, verbatim: `symbol` from `symbol` (empty when
/// absent), `asset_category` from `assetCategory`, `trade_date` from
/// `tradeDate`, `settle_date` from `settleDateTarget`, `open_close` from
/// `openCloseIndicator`, `commission` from `ibCommission`, `realized_pnl` from
/// `fifoPnlRealized`, and each other field from the attribute of its own name.
pub proof fn lemma_trade_fields_read_their_attributes(m: Map<Seq<char>, Seq<char>>)
    ensures
        is_attribute_text(trade_of(m).symbol, m, "symbol"@),
        is_attribute(trade_of(m).description, m, "description"@),
        is_attribute(trade_of(m).asset_category, m, "assetCategory"@),
        is_attribute(trade_of(m).currency, m, "currency"@),
        is_attribute(trade_of(m).trade_id, m, "tradeID"@),
        is_attribute(trade_of(m).trade_date, m, "tradeDate"@),
        is_attribute(trade_of(m).date_time, m, "dateTime"@),
        is_attribute(trade_of(m).settle_date, m, "settleDateTarget"@),
        is_attribute(trade_of(m).level_of_detail, m, "levelOfDetail"@),
        is_attribute(trade_of(m).buy_sell, m, "buySell"@),
        is_attribute(trade_of(m).open_close, m, "openCloseIndicator"@),
        is_attribute(trade_of(m).quantity, m, "quantity"@),
        is_attribute(trade_of(m).trade_price, m, "tradePrice"@),
        is_attribute(trade_of(m).trade_money, m, "tradeMoney"@),
        is_attribute(trade_of(m).proceeds, m, "proceeds"@),
        is_attribute(trade_of(m).commission, m, "ibCommission"@),
        is_attribute(trade_of(m).net_cash, m, "netCash"@),
        is_attribute(trade_of(m).cost, m, "cost"@),
        is_attribute(trade_of(m).realized_pnl, m, "fifoPnlRealized"@),
        is_attribute(trade_of(m).exchange, m, "exchange"@),
        is_attribute(trade_of(m).notes, m, "notes"@),
{
}

/// Which trades to return. Every field is optional; an absent field narrows nothing.
///
/// A whole year of executions is a large payload, and a caller that only wants one holding's
/// lot history should not have to receive — or truncate — the rest.
#[derive(Debug, Clone)]
pub struct TradeFilter {
    /// Only trades in this symbol, matched case-insensitively and exactly. `NHY` therefore
    /// excludes the separately listed `NHYo`.
    pub symbol: Option<String>,
    /// Earliest trade date to include, as `YYYYMMDD`, inclusive.
    pub since: Option<String>,
    /// Latest trade date to include, as `YYYYMMDD`, inclusive.
    pub until: Option<String>,
    /// Only rows at this level of detail, e.g. `EXECUTION`. Matched case-insensitively.
    pub level_of_detail: Option<String>,
    /// Return at most this many trades, keeping the most recent. `matched` still reports how
    /// many there were, so a capped result is never mistaken for a complete one.
    pub limit: Option<usize>,
}

/// The mathematical value of a [`TradeFilter`].
pub struct TradeFilterView {
    pub symbol: Option<Seq<char>>,
    pub since: Option<Seq<char>>,
    pub until: Option<Seq<char>>,
    pub level_of_detail: Option<Seq<char>>,
    pub limit: Option<usize>,
}

impl View for TradeFilter {
    type V = TradeFilterView;

    open spec fn view(&self) -> TradeFilterView {
        TradeFilterView {
            symbol: self.symbol.deep_view(),
            since: self.since.deep_view(),
            until: self.until.deep_view(),
            level_of_detail: self.level_of_detail.deep_view(),
            limit: self.limit,
        }
    }
}

impl Default for TradeFilter {
    /// The filter that narrows nothing.
    fn default() -> (f: TradeFilter)
        ensures
            f.symbol is None,
            f.since is None,
            f.until is None,
            f.level_of_detail is None,
            f.limit is None,
    {
        TradeFilter { symbol: None, since: None, until: None, level_of_detail: None, limit: None }
    }
}

/// Whether trade `t` passes filter `f`. A date bound excludes a trade with no
/// trade date: absence is not proof of being in range.
pub open spec fn trade_matches(f: TradeFilterView, t: TradeView) -> bool {
    &&& (f.symbol matches Some(s) ==> same_ignoring_ascii_case(t.symbol, s))
    &&& (f.level_of_detail matches Some(want) ==> (t.level_of_detail matches Some(got)
        && same_ignoring_ascii_case(got, want)))
    &&& (f.since matches Some(s) ==> (t.trade_date matches Some(d) && text_le(s, d)))
    &&& (f.until matches Some(u) ==> (t.trade_date matches Some(d) && text_le(d, u)))
}

impl TradeFilter {
    /// Whether `trade` passes this filter.
    pub fn matches(&self, trade: &Trade) -> (r: bool)
        ensures
            r == trade_matches(self@, trade@),
    {
        let symbol_ok = match &self.symbol {
            None => true,
            Some(s) => eq_ignore_ascii_case(trade.symbol.as_str(), s.as_str()),
        };
        let level_ok = match &self.level_of_detail {
            None => true,
            Some(want) => match &trade.level_of_detail {
                Some(got) => eq_ignore_ascii_case(got.as_str(), want.as_str()),
                None => false,
            },
        };
        let since_ok = match &self.since {
            None => true,
            Some(s) => match &trade.trade_date {
                Some(d) => text_le_exec(s.as_str(), d.as_str()),
                None => false,
            },
        };
        let until_ok = match &self.until {
            None => true,
            Some(u) => match &trade.trade_date {
                Some(d) => text_le_exec(d.as_str(), u.as_str()),
                None => false,
            },
        };
        symbol_ok && level_ok && since_ok && until_ok
    }
}

/// Trades selected from a statement, plus the counts needed to detect a capped result.
#[derive(Debug, PartialEq)]
pub struct TradeSelection {
    pub trades: Vec<Trade>,
    /// How many trades matched the filter, before `limit`.
    pub matched: usize,
    /// How many are in `trades`. Less than `matched` means `limit` truncated the result.
    pub returned: usize,
}

/// The mathematical value of a [`TradeSelection`].
pub struct TradeSelectionView {
    pub trades: Seq<TradeView>,
    pub matched: int,
    pub returned: int,
}

impl View for TradeSelection {
    type V = TradeSelectionView;

    open spec fn view(&self) -> TradeSelectionView {
        TradeSelectionView { trades: views(self.trades@), matched: self.matched as int, returned: self.returned as int }
    }
}

/// Trade date `a` sorts no later than trade date `b`: an absent date first,
/// then dates in the order of strings (the order of `Option<String>`).
pub open spec fn date_le(a: Option<Seq<char>>, b: Option<Seq<char>>) -> bool {
    match a {
        None => true,
        Some(x) => match b {
            None => false,
            Some(y) => text_le(x, y),
        },
    }
}

/// The order of trade dates is that of `Option<String>`: a trade without a date
/// sorts before every dated one, and two dates compare as texts, where the
/// first differing character decides (see [`super::text::lemma_text_le_first_difference`]).
pub proof fn lemma_date_order(a: Option<Seq<char>>, b: Option<Seq<char>>)
    ensures
        a is None ==> date_le(a, b),
        a is Some && b is None ==> !date_le(a, b),
        a is Some && b is Some ==> (date_le(a, b) <==> text_le(a->0, b->0)),
{
}

/// The date bounds let through exactly the dated trades inside them, both
/// bounds included: asked for no symbol and no level of detail, a trade
/// matches when no bound is given, and otherwise exactly when it has a trade
/// date `d` that is no earlier than `since` and no later than `until`, for the
/// bounds given.
pub proof fn lemma_date_window(f: TradeFilterView, t: TradeView)
    requires
        f.symbol is None,
        f.level_of_detail is None,
    ensures
        trade_matches(f, t) <==> match (f.since, f.until) {
            (None, None) => true,
            _ => match t.trade_date {
                None => false,
                Some(d) => (match f.since {
                    Some(s) => text_le(s, d),
                    None => true,
                }) && (match f.until {
                    Some(u) => text_le(d, u),
                    None => true,
                }),
            },
        },
{
}

/// Asked for a symbol and nothing else, a trade matches exactly when its symbol
/// equals the one asked for up to ASCII case: equally long, and at each
/// position the same character or the same ASCII letter in the other case.
pub proof fn lemma_symbol_filter(f: TradeFilterView, t: TradeView)
    requires
        f.symbol is Some,
        f.level_of_detail is None,
        f.since is None,
        f.until is None,
    ensures
        trade_matches(f, t) <==> (t.symbol.len() == f.symbol->0.len() && forall|i: int|
            0 <= i < t.symbol.len() ==> #[trigger] same_letter_or_char(t.symbol[i], f.symbol->0[i])),
{
    lemma_same_ignoring_ascii_case(t.symbol, f.symbol->0);
}

/// `t` inserted into `s` after every trailing trade that does not sort after it.
pub open spec fn insert_by_date(s: Seq<TradeView>, t: TradeView) -> Seq<TradeView>
    decreases s.len(),
{
    if s.len() == 0 {
        seq![t]
    } else if date_le(s.last().trade_date, t.trade_date) {
        s.push(t)
    } else {
        insert_by_date(s.drop_last(), t).push(s.last())
    }
}

/// `s` stably sorted by trade date: each trade in turn inserted after all
/// earlier trades that do not sort after it.
pub open spec fn sort_by_date(s: Seq<TradeView>) -> Seq<TradeView>
    decreases s.len(),
{
    if s.len() == 0 {
        s
    } else {
        insert_by_date(sort_by_date(s.drop_last()), s.last())
    }
}

/// The trades of `s` that pass `f`, in order.
pub open spec fn matching(s: Seq<TradeView>, f: TradeFilterView) -> Seq<TradeView>
    decreases s.len(),
{
    if s.len() == 0 {
        s
    } else if trade_matches(f, s.last()) {
        matching(s.drop_last(), f).push(s.last())
    } else {
        matching(s.drop_last(), f)
    }
}

/// The trades of `s` with trade date `d`, in order.
pub open spec fn with_date(s: Seq<TradeView>, d: Option<Seq<char>>) -> Seq<TradeView>
    decreases s.len(),
{
    if s.len() == 0 {
        s
    } else if s.last().trade_date == d {
        with_date(s.drop_last(), d).push(s.last())
    } else {
        with_date(s.drop_last(), d)
    }
}

/// How many trades a selection keeps of `matched` matching trades.
pub open spec fn kept_count(matched: int, limit: Option<usize>) -> int {
    match limit {
        Some(l) => if matched > l { l as int } else { matched },
        None => matched,
    }
}

/// The selection that filter `f` makes of `trades`: the matching trades sorted
/// by trade date (stably), the most recent `limit` of them, and the counts.
pub open spec fn selection_of(trades: Seq<TradeView>, f: TradeFilterView) -> TradeSelectionView {
    let sorted = sort_by_date(matching(trades, f));
    let kept = kept_count(sorted.len() as int, f.limit);
    TradeSelectionView { trades: sorted.skip(sorted.len() - kept), matched: sorted.len() as int, returned: kept }
}

proof fn lemma_date_le_reflexive(a: Option<Seq<char>>)
    ensures
        date_le(a, a),
{
    if let Some(x) = a {
        lemma_text_le_reflexive(x);
    }
}

proof fn lemma_date_le_total(a: Option<Seq<char>>, b: Option<Seq<char>>)
    ensures
        date_le(a, b) || date_le(b, a),
{
    if let (Some(x), Some(y)) = (a, b) {
        lemma_text_le_total(x, y);
    }
}

proof fn lemma_date_le_transitive(a: Option<Seq<char>>, b: Option<Seq<char>>, c: Option<Seq<char>>)
    requires
        date_le(a, b),
        date_le(b, c),
    ensures
        date_le(a, c),
{
    if let (Some(x), Some(y), Some(z)) = (a, b, c) {
        lemma_text_le_transitive(x, y, z);
    }
}

/// Inserting at `pos`, where every trade from `pos` on sorts after `t` and the
/// trade before `pos` (if any) does not, is what [`insert_by_date`] does.
proof fn lemma_insert_at(s: Seq<TradeView>, t: TradeView, pos: int)
    requires
        0 <= pos <= s.len(),
        forall|j: int| pos <= j < s.len() ==> !date_le(#[trigger] s[j].trade_date, t.trade_date),
        pos > 0 ==> date_le(s[pos - 1].trade_date, t.trade_date),
    ensures
        insert_by_date(s, t) == s.take(pos) + seq![t] + s.skip(pos),
    decreases s.len() - pos,
{
    if pos == s.len() {
        assert(s.take(pos) =~= s);
        assert(s.skip(pos) =~= Seq::<TradeView>::empty());
        if s.len() == 0 {
            assert(seq![t] =~= s.take(pos) + seq![t] + s.skip(pos));
        } else {
            assert(s.push(t) =~= s.take(pos) + seq![t] + s.skip(pos));
        }
    } else {
        let d = s.drop_last();
        assert(!date_le(s[s.len() - 1].trade_date, t.trade_date));
        assert forall|j: int| pos <= j < d.len() implies !date_le(#[trigger] d[j].trade_date, t.trade_date) by {
            assert(d[j] == s[j]);
        }
        lemma_insert_at(d, t, pos);
        assert(d.take(pos) + seq![t] + d.skip(pos) + seq![s.last()] =~= s.take(pos) + seq![t] + s.skip(pos));
    }
}

/// Sorting by trade date keeps every trade, and adds none: the sorted trades
/// are a permutation of the input.
pub proof fn lemma_sort_by_date_permutation(s: Seq<TradeView>)
    ensures
        sort_by_date(s).to_multiset() == s.to_multiset(),
    decreases s.len(),
{
    broadcast use vstd::seq_lib::group_to_multiset_ensures;

    if s.len() > 0 {
        lemma_sort_by_date_permutation(s.drop_last());
        lemma_insert_multiset(sort_by_date(s.drop_last()), s.last());
        assert(s =~= s.drop_last().push(s.last()));
    }
}

proof fn lemma_insert_multiset(s: Seq<TradeView>, t: TradeView)
    ensures
        insert_by_date(s, t).to_multiset() == s.to_multiset().insert(t),
    decreases s.len(),
{
    broadcast use vstd::seq_lib::group_to_multiset_ensures;

    if s.len() == 0 {
        assert(seq![t] =~= s.push(t));
    } else if !date_le(s.last().trade_date, t.trade_date) {
        lemma_insert_multiset(s.drop_last(), t);
        assert(s =~= s.drop_last().push(s.last()));
        assert(s.drop_last().to_multiset().insert(t).insert(s.last()) =~= s.drop_last().to_multiset().insert(
            s.last(),
        ).insert(t));
    }
}

/// Sorting by trade date is stable: the trades that share a trade date come out
/// in the order in which they stood.
pub proof fn lemma_sort_by_date_stable(s: Seq<TradeView>, d: Option<Seq<char>>)
    ensures
        with_date(sort_by_date(s), d) == with_date(s, d),
    decreases s.len(),
{
    if s.len() > 0 {
        lemma_sort_by_date_stable(s.drop_last(), d);
        lemma_insert_with_date(sort_by_date(s.drop_last()), s.last(), d);
    }
}

proof fn lemma_insert_with_date(s: Seq<TradeView>, t: TradeView, d: Option<Seq<char>>)
    ensures
        with_date(insert_by_date(s, t), d) == if t.trade_date == d {
            with_date(s, d).push(t)
        } else {
            with_date(s, d)
        },
    decreases s.len(),
{
    if s.len() == 0 {
        assert(seq![t].drop_last() =~= s);
    } else if date_le(s.last().trade_date, t.trade_date) {
        assert(s.push(t).drop_last() =~= s);
    } else {
        lemma_date_le_reflexive(t.trade_date);
        lemma_insert_with_date(s.drop_last(), t, d);
        let r = insert_by_date(s.drop_last(), t);
        assert(r.push(s.last()).drop_last() =~= r);
    }
}

/// Every trade of `insert_by_date(s, t)` is `t` or a trade of `s`.
proof fn lemma_insert_members(s: Seq<TradeView>, t: TradeView, i: int)
    requires
        0 <= i < s.len() + 1,
    ensures
        insert_by_date(s, t)[i] == t || s.contains(insert_by_date(s, t)[i]),
        insert_by_date(s, t).len() == s.len() + 1,
    decreases s.len(),
{
    if s.len() > 0 && !date_le(s.last().trade_date, t.trade_date) {
        let r = insert_by_date(s.drop_last(), t);
        if i < s.len() {
            lemma_insert_members(s.drop_last(), t, i);
            if r[i] != t {
                let k = choose|k: int| 0 <= k < s.drop_last().len() && s.drop_last()[k] == r[i];
                assert(s[k] == r[i]);
            }
        } else {
            lemma_insert_members(s.drop_last(), t, 0);
            assert(insert_by_date(s, t)[i] == s[s.len() - 1]);
        }
    } else if s.len() > 0 {
        if i < s.len() {
            assert(s.push(t)[i] == s[i]);
        }
    }
}

/// Sorted by trade date: no trade sorts after a later one.
pub open spec fn date_sorted(s: Seq<TradeView>) -> bool {
    forall|i: int, j: int| 0 <= i < j < s.len() ==> date_le(#[trigger] s[i].trade_date, #[trigger] s[j].trade_date)
}

proof fn lemma_insert_sorted(s: Seq<TradeView>, t: TradeView)
    requires
        date_sorted(s),
    ensures
        date_sorted(insert_by_date(s, t)),
    decreases s.len(),
{
    if s.len() == 0 {
    } else if date_le(s.last().trade_date, t.trade_date) {
        let r = s.push(t);
        assert forall|i: int, j: int| 0 <= i < j < r.len() implies date_le(#[trigger] r[i].trade_date, #[trigger] r[j].trade_date) by {
            if j == s.len() {
                if i < s.len() - 1 {
                    lemma_date_le_transitive(s[i].trade_date, s.last().trade_date, t.trade_date);
                }
            }
        }
    } else {
        let d = s.drop_last();
        lemma_date_le_total(s.last().trade_date, t.trade_date);
        lemma_insert_sorted(d, t);
        let r0 = insert_by_date(d, t);
        lemma_insert_members(d, t, 0);
        let r = r0.push(s.last());
        assert forall|i: int, j: int| 0 <= i < j < r.len() implies date_le(#[trigger] r[i].trade_date, #[trigger] r[j].trade_date) by {
            if j == r0.len() {
                lemma_insert_members(d, t, i);
                if r0[i] != t {
                    let k = choose|k: int| 0 <= k < d.len() && d[k] == r0[i];
                    assert(s[k] == d[k]);
                }
            }
        }
    }
}

/// Sorting by trade date puts the trades in trade-date order, undated ones first.
pub proof fn lemma_sort_by_date_sorted(s: Seq<TradeView>)
    ensures
        date_sorted(sort_by_date(s)),
    decreases s.len(),
{
    if s.len() > 0 {
        lemma_sort_by_date_sorted(s.drop_last());
        lemma_insert_sorted(sort_by_date(s.drop_last()), s.last());
    }
}

proof fn lemma_sort_len(s: Seq<TradeView>)
    ensures
        sort_by_date(s).len() == s.len(),
    decreases s.len(),
{
    if s.len() > 0 {
        lemma_sort_len(s.drop_last());
        lemma_insert_members(sort_by_date(s.drop_last()), s.last(), 0);
    }
}

/// Every trade that `matching` keeps passes the filter.
/// The trades that match a filter are exactly those of the statement that pass
/// it, in statement order: every passing trade is kept, no other is.
pub proof fn lemma_matching_keeps_exactly_the_passing(s: Seq<TradeView>, f: TradeFilterView)
    ensures
        matching(s, f) == s.filter(|t: TradeView| trade_matches(f, t)),
    decreases s.len(),
{
    reveal(Seq::filter);
    if s.len() > 0 {
        lemma_matching_keeps_exactly_the_passing(s.drop_last(), f);
    }
}

proof fn lemma_matching_members(s: Seq<TradeView>, f: TradeFilterView)
    ensures
        forall|i: int| 0 <= i < matching(s, f).len() ==> trade_matches(f, #[trigger] matching(s, f)[i]),
        matching(s, f).len() <= s.len(),
    decreases s.len(),
{
    if s.len() > 0 {
        lemma_matching_members(s.drop_last(), f);
    }
}

/// A filter that narrows nothing keeps every trade.
proof fn lemma_matching_all(s: Seq<TradeView>, f: TradeFilterView)
    requires
        f.symbol is None,
        f.since is None,
        f.until is None,
        f.level_of_detail is None,
    ensures
        matching(s, f) == s,
    decreases s.len(),
{
    if s.len() > 0 {
        lemma_matching_all(s.drop_last(), f);
        assert(s.drop_last().push(s.last()) =~= s);
    }
}

/// Every trade of the sorted result stands in the input.
proof fn lemma_sorted_member(s: Seq<TradeView>, i: int)
    requires
        0 <= i < sort_by_date(s).len(),
    ensures
        s.contains(sort_by_date(s)[i]),
{
    broadcast use vstd::seq_lib::group_to_multiset_ensures;

    lemma_sort_by_date_permutation(s);
    let r = sort_by_date(s);
    assert(r.contains(r[i]));
    assert(r.to_multiset().count(r[i]) > 0);
}

/// The counts of a selection: `matched` is how many trades pass the filter,
/// `returned` how many the selection holds, which is all of them unless
/// `limit` is smaller, and then `limit`.
pub proof fn lemma_selection_counts(trades: Seq<TradeView>, f: TradeFilterView)
    ensures
        selection_of(trades, f).matched == matching(trades, f).len(),
        selection_of(trades, f).returned == selection_of(trades, f).trades.len(),
        selection_of(trades, f).returned <= selection_of(trades, f).matched,
        selection_of(trades, f).matched <= trades.len(),
        f.limit is None ==> selection_of(trades, f).returned == selection_of(trades, f).matched,
        f.limit matches Some(l) ==> selection_of(trades, f).returned == if selection_of(trades, f).matched
            <= l {
            selection_of(trades, f).matched
        } else {
            l as int
        },
{
    broadcast use vstd::seq_lib::group_to_multiset_ensures;

    lemma_sort_len(matching(trades, f));
    lemma_matching_members(trades, f);
}

/// Every selected trade passes the filter, and the selection is in trade-date
/// order (undated trades first).
pub proof fn lemma_selection_filtered_and_sorted(trades: Seq<TradeView>, f: TradeFilterView)
    ensures
        forall|i: int|
            0 <= i < selection_of(trades, f).trades.len() ==> trade_matches(f, #[trigger] selection_of(trades, f).trades[i]),
        date_sorted(selection_of(trades, f).trades),
{
    let m = matching(trades, f);
    let sorted = sort_by_date(m);
    lemma_selection_counts(trades, f);
    lemma_sort_by_date_sorted(m);
    lemma_matching_members(trades, f);
    let sel = selection_of(trades, f);
    let start = sorted.len() - sel.returned;
    assert forall|i: int| 0 <= i < sel.trades.len() implies trade_matches(f, #[trigger] sel.trades[i]) by {
        assert(sel.trades[i] == sorted[start + i]);
        lemma_sorted_member(m, start + i);
        let k = choose|k: int| 0 <= k < m.len() && m[k] == sorted[start + i];
    }
    assert forall|i: int, j: int| 0 <= i < j < sel.trades.len() implies date_le(
        #[trigger] sel.trades[i].trade_date,
        #[trigger] sel.trades[j].trade_date,
    ) by {
        assert(sel.trades[i] == sorted[start + i]);
        assert(sel.trades[j] == sorted[start + j]);
    }
}

/// `limit` keeps the most recent trades: every matching trade left out sorts
/// no later than every trade kept.
pub proof fn lemma_limit_keeps_most_recent(trades: Seq<TradeView>, f: TradeFilterView)
    ensures
        forall|i: int, j: int|
            0 <= i < selection_of(trades, f).matched - selection_of(trades, f).returned && 0 <= j
                < selection_of(trades, f).returned ==> date_le(
                #[trigger] sort_by_date(matching(trades, f))[i].trade_date,
                #[trigger] selection_of(trades, f).trades[j].trade_date,
            ),
{
    let m = matching(trades, f);
    let sorted = sort_by_date(m);
    lemma_selection_counts(trades, f);
    lemma_sort_by_date_sorted(m);
    let sel = selection_of(trades, f);
    let start = sorted.len() - sel.returned;
    assert forall|i: int, j: int| 0 <= i < sel.matched - sel.returned && 0 <= j < sel.returned implies date_le(
        #[trigger] sorted[i].trade_date,
        #[trigger] sel.trades[j].trade_date,
    ) by {
        assert(sel.trades[j] == sorted[start + j]);
    }
}

/// A date bound leaves out every trade without a trade date: absence is not
/// proof of being in range. The bounds are inclusive.
pub proof fn lemma_date_bounds(trades: Seq<TradeView>, f: TradeFilterView)
    ensures
        forall|i: int| 0 <= i < selection_of(trades, f).trades.len() ==> {
            let t = #[trigger] selection_of(trades, f).trades[i];
            &&& (f.since is Some || f.until is Some) ==> t.trade_date is Some
            &&& f.since matches Some(s) ==> text_le(s, t.trade_date->0)
            &&& f.until matches Some(u) ==> text_le(t.trade_date->0, u)
        },
{
    lemma_selection_filtered_and_sorted(trades, f);
}

/// A filter whose fields are all absent narrows nothing: every trade is
/// selected, in trade-date order.
pub proof fn lemma_empty_filter_selects_all(trades: Seq<TradeView>, f: TradeFilterView)
    requires
        f.symbol is None,
        f.since is None,
        f.until is None,
        f.level_of_detail is None,
        f.limit is None,
    ensures
        selection_of(trades, f).trades == sort_by_date(trades),
        selection_of(trades, f).matched == trades.len(),
        selection_of(trades, f).returned == trades.len(),
{
    broadcast use vstd::seq_lib::group_to_multiset_ensures;

    lemma_matching_all(trades, f);
    lemma_sort_len(trades);
    assert(sort_by_date(trades).skip(0) =~= sort_by_date(trades));
}

/// The symbol and level-of-detail filters match whole values, ignoring only
/// ASCII case: a trade that passes has a symbol (and level) exactly as long as
/// the one asked for, so `NHY` never selects `NHYo`.
pub proof fn lemma_symbol_and_level_match_whole_values(f: TradeFilterView, t: TradeView)
    requires
        trade_matches(f, t),
    ensures
        f.symbol matches Some(s) ==> t.symbol.len() == s.len(),
        f.level_of_detail matches Some(l) ==> t.level_of_detail matches Some(got) && got.len() == l.len(),
{
}

/// The trade-date key of a trade, as characters.
pub open spec fn key_view(k: Option<Vec<char>>) -> Option<Seq<char>> {
    match k {
        Some(v) => Some(v@),
        None => None,
    }
}

fn date_key(t: &Trade) -> (k: Option<Vec<char>>)
    ensures
        key_view(k) == t@.trade_date,
{
    match &t.trade_date {
        Some(d) => Some(chars_of(d.as_str())),
        None => None,
    }
}

fn date_le_exec(a: &Option<Vec<char>>, b: &Option<Vec<char>>) -> (r: bool)
    ensures
        r == date_le(key_view(*a), key_view(*b)),
{
    match a {
        None => true,
        Some(x) => match b {
            None => false,
            Some(y) => text_le_chars(x, y),
        },
    }
}

/// The items of `v` in reverse order.
fn reversed<T>(v: Vec<T>) -> (r: Vec<T>)
    ensures
        r@ == v@.reverse(),
{
    let ghost orig = v@;
    let mut v = v;
    let mut r: Vec<T> = Vec::new();
    assert(orig.skip(orig.len() as int) =~= Seq::<T>::empty());
    while v.len() > 0
        invariant
            v@ == orig.take(v.len() as int),
            r@ == orig.skip(v.len() as int).reverse(),
            v.len() <= orig.len(),
        decreases v.len(),
    {
        let x = v.pop().unwrap();
        r.push(x);
        assert(v@ =~= orig.take(v.len() as int));
        assert(r@ =~= orig.skip(v.len() as int).reverse());
    }
    assert(orig.skip(0) =~= orig);
    r
}

/// The trades stably sorted by trade date (undated first), as
/// [`sort_by_date`] orders them.
pub fn sort_trades_by_date(trades: Vec<Trade>) -> (out: Vec<Trade>)
    ensures
        views(out@) == sort_by_date(views(trades@)),
{
    let ghost s = views(trades@);
    let ghost orig = trades@;
    let n = trades.len();
    let mut rest = reversed(trades);
    let mut out: Vec<Trade> = Vec::new();
    let mut keys: Vec<Option<Vec<char>>> = Vec::new();
    let mut i: usize = 0;
    assert(s.take(0) =~= Seq::<TradeView>::empty());
    assert(views(out@) =~= Seq::<TradeView>::empty());
    while i < n
        invariant
            n == orig.len(),
            s == views(orig),
            i <= n,
            rest@ == orig.skip(i as int).reverse(),
            views(out@) == sort_by_date(s.take(i as int)),
            keys.len() == out.len(),
            forall|j: int| 0 <= j < keys.len() ==> key_view(#[trigger] keys@[j]) == out@[j]@.trade_date,
        decreases n - i,
    {
        let t = rest.pop().unwrap();
        assert(t == orig[i as int]);
        assert(rest@ =~= orig.skip(i + 1).reverse());
        let k = date_key(&t);
        let mut pos = out.len();
        while pos > 0 && !date_le_exec(&keys[pos - 1], &k)
            invariant
                pos <= out.len(),
                keys.len() == out.len(),
                forall|j: int| 0 <= j < keys.len() ==> key_view(#[trigger] keys@[j]) == out@[j]@.trade_date,
                forall|j: int| pos <= j < out.len() ==> !date_le(#[trigger] out@[j]@.trade_date, key_view(k)),
            decreases pos,
        {
            pos -= 1;
        }
        let ghost before = views(out@);
        let ghost keys_before = keys@;
        proof {
            assert forall|j: int| pos <= j < before.len() implies !date_le(#[trigger] before[j].trade_date, t@.trade_date) by {
                assert(before[j] == out@[j]@);
            }
            if pos > 0 {
                assert(key_view(keys@[pos - 1]) == before[pos - 1].trade_date);
            }
            lemma_insert_at(before, t@, pos as int);
            assert(s.take(i + 1).drop_last() =~= s.take(i as int));
        }
        out.insert(pos, t);
        keys.insert(pos, k);
        proof {
            assert(views(out@) =~= before.take(pos as int) + seq![orig[i as int]@] + before.skip(pos as int));
            assert forall|j: int| 0 <= j < keys.len() implies key_view(#[trigger] keys@[j]) == out@[j]@.trade_date by {
                if j < pos {
                } else if j > pos {
                    assert(keys@[j] == keys_before[j - 1]);
                }
            }
        }
        i += 1;
    }
    assert(s.take(n as int) =~= s);
    out
}

/// The trade that one `<Trade>` row describes.
pub fn trade_from(a: &Attrs) -> (t: Trade)
    ensures
        t@ == trade_of(a@),
{
    Trade {
        symbol: text_or_default(a, "symbol"),
        description: a.text("description"),
        asset_category: a.text("assetCategory"),
        currency: a.text("currency"),
        trade_id: a.text("tradeID"),
        trade_date: a.text("tradeDate"),
        date_time: a.text("dateTime"),
        settle_date: a.text("settleDateTarget"),
        level_of_detail: a.text("levelOfDetail"),
        buy_sell: a.text("buySell"),
        open_close: a.text("openCloseIndicator"),
        quantity: a.text("quantity"),
        trade_price: a.text("tradePrice"),
        trade_money: a.text("tradeMoney"),
        proceeds: a.text("proceeds"),
        commission: a.text("ibCommission"),
        net_cash: a.text("netCash"),
        cost: a.text("cost"),
        realized_pnl: a.text("fifoPnlRealized"),
        exchange: a.text("exchange"),
        notes: a.text("notes"),
    }
}

/// Parse all `<Trade>` rows from a Flex statement XML document, in document order.
pub fn parse_trades(xml: &str) -> (r: Result<Vec<Trade>, FlexError>)
    ensures
        match scan_rows(xml@, "Trade"@) {
            Ok(maps) => r is Ok && views(r->Ok_0@) == maps.map_values(|m| trade_of(m)),
            Err(msg) => r is Err && r->Err_0@ == FlexErrorView::Parse(msg),
        },
{
    let r = parse_rows(xml, "Trade", trade_from);
    proof {
        if let Ok(maps) = scan_rows(xml@, "Trade"@) {
            let rows = r->Ok_0@;
            assert forall|i: int| 0 <= i < maps.len() implies rows[i]@ == trade_of(maps[i]) by {
                assert(made_from(trade_from, maps[i], rows[i]));
                let a = choose|a: Attrs| a@ == maps[i] && trade_from.ensures((&a,), rows[i]);
            }
            assert(views(rows) =~= maps.map_values(|m| trade_of(m)));
        }
    }
    r
}

/// The trades of `trades` that pass `filter`, in order.
fn keep_matching(trades: Vec<Trade>, filter: &TradeFilter) -> (out: Vec<Trade>)
    ensures
        views(out@) == matching(views(trades@), filter@),
{
    let ghost s = views(trades@);
    let ghost orig = trades@;
    let n = trades.len();
    let mut rest = reversed(trades);
    let mut out: Vec<Trade> = Vec::new();
    let mut i: usize = 0;
    assert(s.take(0) =~= Seq::<TradeView>::empty());
    assert(views(out@) =~= Seq::<TradeView>::empty());
    while i < n
        invariant
            n == orig.len(),
            s == views(orig),
            i <= n,
            rest@ == orig.skip(i as int).reverse(),
            views(out@) == matching(s.take(i as int), filter@),
        decreases n - i,
    {
        let t = rest.pop().unwrap();
        assert(t == orig[i as int]);
        assert(rest@ =~= orig.skip(i + 1).reverse());
        assert(s.take(i + 1).drop_last() =~= s.take(i as int));
        let ghost before = views(out@);
        if filter.matches(&t) {
            out.push(t);
            assert(views(out@) =~= before.push(orig[i as int]@));
        }
        i += 1;
    }
    assert(s.take(n as int) =~= s);
    out
}

/// Parse and narrow a statement's trades.
///
/// Results are ordered by trade date ascending. IBKR does *not* emit `<Trade>` rows in date
/// order, so sorting is what makes `limit` mean "the most recent" rather than "whichever
/// happened to be last in the file".
pub fn select_trades(xml: &str, filter: &TradeFilter) -> (r: Result<TradeSelection, FlexError>)
    ensures
        match scan_rows(xml@, "Trade"@) {
            Ok(maps) => r is Ok && r->Ok_0@ == selection_of(maps.map_values(|m| trade_of(m)), filter@),
            Err(msg) => r is Err && r->Err_0@ == FlexErrorView::Parse(msg),
        },
{
    let parsed = parse_trades(xml)?;
    let matching_trades = keep_matching(parsed, filter);
    let mut trades = sort_trades_by_date(matching_trades);
    let matched = trades.len();
    let ghost sorted = views(trades@);
    if let Some(limit) = filter.limit {
        if matched > limit {
            trades = trades.split_off(matched - limit);
        }
    }
    assert(views(trades@) =~= sorted.skip(sorted.len() - kept_count(matched as int, filter@.limit)));
    let returned = trades.len();
    Ok(TradeSelection { returned, matched, trades })
}

} // verus!
