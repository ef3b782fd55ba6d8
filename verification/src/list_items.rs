//! The items of a new list and of a preview, line by line: each parsed line
//! with the type its name resolved to, and (for a new list) the cheapest
//! cached best-sell price among the list's markets and the list's total.

use vstd::prelude::*;

use crate::decimal::Dec;
use crate::domain::ResolvedType;
use crate::errors::{ApiError, ApiErrorView};
use crate::lists::{cheapest_pick, estimate_total, estimate_total_spec, msg_unknown_item, pick_cheapest, preview_line_error};
use crate::multibuy::{name_key_of, ParsedLine, ParsedLineView};
use crate::type_resolution::{lookup_resolved, resolved_for, resolved_views};

verus! {

/// The cached best sell of a type at a market, from `(market id, type id,
/// best sell)` rows; a later row for the same pair replaces an earlier one.
pub open spec fn price_at(prices: Seq<(u128, i64, Option<Dec>)>, market_id: u128, type_id: i64) -> Option<Dec>
    decreases prices.len(),
{
    if prices.len() == 0 {
        None
    } else if prices.last().0 == market_id && prices.last().1 == type_id {
        prices.last().2
    } else {
        price_at(prices.drop_last(), market_id, type_id)
    }
}

/// Every price in the rows is a well-formed decimal.
pub open spec fn prices_wf(prices: Seq<(u128, i64, Option<Dec>)>) -> bool {
    forall|i: int| 0 <= i < prices.len() && (#[trigger] prices[i]).2 is Some ==> prices[i].2->0.wf()
}

/// The `(market id, best sell)` candidates of a type, in the list's market
/// order.
pub open spec fn candidates_for(markets: Seq<u128>, prices: Seq<(u128, i64, Option<Dec>)>, type_id: i64) -> Seq<
    (u128, Option<Dec>),
> {
    markets.map_values(|m: u128| (m, price_at(prices, m, type_id)))
}

/// The best sell of `type_id` at `market_id`.
pub fn price_lookup(prices: &Vec<(u128, i64, Option<Dec>)>, market_id: u128, type_id: i64) -> (r: Option<Dec>)
    ensures
        r == price_at(prices@, market_id, type_id),
{
    let mut i: usize = prices.len();
    assert(prices@.take(i as int) =~= prices@);
    while i > 0
        invariant
            i <= prices@.len(),
            price_at(prices@, market_id, type_id) == price_at(prices@.take(i as int), market_id, type_id),
        decreases i,
    {
        assert(prices@.take(i as int).drop_last() =~= prices@.take(i - 1));
        let (m, t, p) = prices[i - 1];
        if m == market_id && t == type_id {
            return p;
        }
        i = i - 1;
    }
    None
}

/// The candidates for pricing one type across the list's markets.
pub fn price_candidates(markets: &Vec<u128>, prices: &Vec<(u128, i64, Option<Dec>)>, type_id: i64) -> (r: Vec<
    (u128, Option<Dec>),
>)
    ensures
        r@ == candidates_for(markets@, prices@, type_id),
{
    let mut out: Vec<(u128, Option<Dec>)> = Vec::new();
    let mut i: usize = 0;
    while i < markets.len()
        invariant
            i <= markets@.len(),
            out@ == candidates_for(markets@.take(i as int), prices@, type_id),
        decreases markets@.len() - i,
    {
        let m = markets[i];
        let p = price_lookup(prices, m, type_id);
        out.push((m, p));
        assert(markets@.take(i + 1) =~= markets@.take(i as int).push(m));
        i = i + 1;
    }
    assert(markets@.take(markets@.len() as int) =~= markets@);
    out
}

/// One item of a new list.
#[derive(Debug, Clone)]
pub struct ItemRow {
    pub type_id: i64,
    pub resolved_name: String,
    pub qty: i64,
    /// The first input line that named the item, or 0.
    pub line_no: i32,
    /// The cheapest best sell among the list's markets, if any prices it.
    pub est_unit: Option<Dec>,
    /// The market with that price.
    pub est_market: Option<u128>,
}

/// The items of a new list and its estimated total.
#[derive(Debug, Clone)]
pub struct ItemPlan {
    pub rows: Vec<ItemRow>,
    /// The sum over items of estimate times quantity; `None` where the
    /// decimal arithmetic overflows.
    pub total: Option<Dec>,
}

/// The first line number of a parsed line, or 0.
pub open spec fn first_line_no(l: ParsedLineView) -> i32 {
    if l.line_nos.len() > 0 {
        l.line_nos[0] as i32
    } else {
        0i32
    }
}

/// `row` is the item for parsed line `l`: the type its name resolved to,
/// its quantity and first line, and its cheapest price.
pub open spec fn row_for(
    l: ParsedLineView,
    resolved: Seq<(Seq<char>, i64, Seq<char>)>,
    markets: Seq<u128>,
    prices: Seq<(u128, i64, Option<Dec>)>,
    row: ItemRow,
) -> bool {
    &&& resolved_for(resolved, name_key_of(l.name)) == Some((row.type_id, row.resolved_name@))
    &&& row.qty == l.qty
    &&& row.line_no == first_line_no(l)
    &&& cheapest_pick(candidates_for(markets, prices, row.type_id), (row.est_unit, row.est_market))
}

/// The `(estimate, quantity)` of each item.
pub open spec fn row_estimates(rows: Seq<ItemRow>) -> Seq<(Option<Dec>, i64)> {
    rows.map_values(|r: ItemRow| (r.est_unit, r.qty))
}

/// Every parsed line's name resolved.
pub open spec fn all_lines_resolved(lines: Seq<ParsedLine>, resolved: Seq<(Seq<char>, i64, Seq<char>)>) -> bool {
    forall|i: int| 0 <= i < lines.len() ==> (#[trigger] resolved_for(resolved, name_key_of(lines[i].name@))) is Some
}

/// Plans a new list's items from its parsed lines, the resolved types, the
/// list's markets in order and the cached best sells. A line whose name did
/// not resolve is an internal error naming the first such line.
pub fn plan_list_items(
    lines: &Vec<ParsedLine>,
    resolved: &Vec<(String, ResolvedType)>,
    markets: &Vec<u128>,
    prices: &Vec<(u128, i64, Option<Dec>)>,
) -> (r: Result<ItemPlan, ApiError>)
    requires
        prices_wf(prices@),
    ensures
        r is Ok <==> all_lines_resolved(lines@, resolved_views(resolved@)),
        r matches Ok(plan) ==> {
            &&& plan.rows@.len() == lines@.len()
            &&& forall|i: int|
                0 <= i < lines@.len() ==> row_for(
                    lines@[i]@,
                    resolved_views(resolved@),
                    markets@,
                    prices@,
                    #[trigger] plan.rows@[i],
                )
            &&& plan.total == estimate_total_spec(row_estimates(plan.rows@))
        },
        r matches Err(e) ==> exists|i: int|
            0 <= i < lines@.len() && resolved_for(resolved_views(resolved@), name_key_of(lines@[i].name@))
                is None && (forall|j: int|
                0 <= j < i ==> (#[trigger] resolved_for(
                    resolved_views(resolved@),
                    name_key_of(lines@[j].name@),
                )) is Some) && e@ == ApiErrorView::Internal("resolved missing for "@ + lines@[i].name@),
{
    let ghost rv = resolved_views(resolved@);
    let mut rows: Vec<ItemRow> = Vec::new();
    let mut estimates: Vec<(Option<Dec>, i64)> = Vec::new();
    let mut i: usize = 0;
    while i < lines.len()
        invariant
            i <= lines@.len(),
            rv == resolved_views(resolved@),
            prices_wf(prices@),
            rows@.len() == i,
            estimates@ == row_estimates(rows@),
            forall|k: int| 0 <= k < i ==> (#[trigger] resolved_for(rv, name_key_of(lines@[k].name@))) is Some,
            forall|k: int| 0 <= k < i ==> row_for(lines@[k]@, rv, markets@, prices@, #[trigger] rows@[k]),
            forall|k: int|
                0 <= k < i && (#[trigger] estimates@[k]).0 is Some ==> estimates@[k].0->0.wf(),
        decreases lines@.len() - i,
    {
        let line = &lines[i];
        let t = match lookup_resolved(resolved, line.name.as_str()) {
            Ok(t) => t,
            Err(e) => {
                proof {
                    assert(resolved_for(rv, name_key_of(lines@[i as int].name@)) is None);
                    assert(!all_lines_resolved(lines@, rv));
                }
                return Err(e);
            },
        };
        let cands = price_candidates(markets, prices, t.type_id);
        proof {
            assert forall|k: int|
                0 <= k < cands@.len() && (#[trigger] cands@[k]).1 is Some implies cands@[k].1->0.wf() by {
                lemma_price_at_wf(prices@, markets@[k], t.type_id);
            }
        }
        let (est_unit, est_market) = pick_cheapest(&cands);
        proof {
            if est_unit is Some {
                let p = est_unit->0;
                let j = choose|j: int|
                    0 <= j < cands@.len() && cands@[j] == (est_market->0, Some(p)) && (forall|x: int|
                        0 <= x < cands@.len() && cands@[x].1 is Some ==> !cands@[x].1->0.lt(p)) && (forall|
                        x: int,
                    | 0 <= x < j && cands@[x].1 is Some ==> p.lt(cands@[x].1->0));
                assert(cands@[j].1 is Some);
            }
        }
        let line_no: i32 = if line.line_nos.len() > 0 {
            line.line_nos[0] as i32
        } else {
            0i32
        };
        let row = ItemRow {
            type_id: t.type_id,
            resolved_name: t.name,
            qty: line.qty,
            line_no,
            est_unit,
            est_market,
        };
        let ghost old_rows = rows@;
        estimates.push((est_unit, line.qty));
        rows.push(row);
        proof {
            assert(rows@ == old_rows.push(row));
            assert(row_estimates(rows@) =~= row_estimates(old_rows).push((est_unit, line.qty)));
        }
        i = i + 1;
    }
    proof {
        assert(all_lines_resolved(lines@, rv));
    }
    let total = estimate_total(&estimates);
    Ok(ItemPlan { rows, total })
}

/// A price looked up from well-formed rows is well formed.
proof fn lemma_price_at_wf(prices: Seq<(u128, i64, Option<Dec>)>, market_id: u128, type_id: i64)
    requires
        prices_wf(prices),
    ensures
        price_at(prices, market_id, type_id) matches Some(p) ==> p.wf(),
    decreases prices.len(),
{
    if prices.len() > 0 {
        let rest = prices.drop_last();
        assert(prices.last() == prices[prices.len() - 1]);
        assert forall|i: int| 0 <= i < rest.len() && (#[trigger] rest[i]).2 is Some implies rest[i].2->0.wf() by {
            assert(rest[i] == prices[i]);
        }
        lemma_price_at_wf(rest, market_id, type_id);
    }
}

/// One line of a preview, without its prices.
#[derive(Debug, Clone)]
pub struct PreviewItem {
    pub line_nos: Vec<u32>,
    pub name: String,
    pub type_id: Option<i64>,
    pub resolved_name: Option<String>,
    pub qty: i64,
    /// "unknown item: {name}" where the name did not resolve.
    pub error: Option<String>,
}

/// `item` is the preview of parsed line `l`.
pub open spec fn preview_for(l: ParsedLineView, resolved: Seq<(Seq<char>, i64, Seq<char>)>, item: PreviewItem) -> bool {
    &&& item.line_nos@ == l.line_nos
    &&& item.name@ == l.name
    &&& item.qty == l.qty
    &&& match resolved_for(resolved, name_key_of(l.name)) {
        Some((id, tn)) => item.type_id == Some(id) && (item.resolved_name matches Some(n) && n@ == tn)
            && item.error is None,
        None => item.type_id is None && item.resolved_name is None && (item.error matches Some(m) && m@
            == msg_unknown_item(l.name)),
    }
}

/// The preview of one parsed line: the type its name resolved to, or the
/// error that it did not.
pub fn preview_item(line: &ParsedLine, resolved: &Vec<(String, ResolvedType)>) -> (r: PreviewItem)
    ensures
        preview_for(line@, resolved_views(resolved@), r),
{
    let found = lookup_resolved(resolved, line.name.as_str());
    let mut line_nos: Vec<u32> = Vec::new();
    let mut k: usize = 0;
    while k < line.line_nos.len()
        invariant
            k <= line.line_nos@.len(),
            line_nos@ == line.line_nos@.take(k as int),
        decreases line.line_nos@.len() - k,
    {
        line_nos.push(line.line_nos[k]);
        assert(line.line_nos@.take(k + 1) =~= line.line_nos@.take(k as int).push(line.line_nos@[k as int]));
        k = k + 1;
    }
    assert(line.line_nos@.take(line.line_nos@.len() as int) =~= line.line_nos@);
    match found {
        Ok(t) => PreviewItem {
            line_nos,
            name: line.name.clone(),
            type_id: Some(t.type_id),
            resolved_name: Some(t.name),
            qty: line.qty,
            error: preview_line_error(line.name.as_str(), true),
        },
        Err(_) => PreviewItem {
            line_nos,
            name: line.name.clone(),
            type_id: None,
            resolved_name: None,
            qty: line.qty,
            error: preview_line_error(line.name.as_str(), false),
        },
    }
}

/// The preview of every parsed line, in order.
pub fn preview_items(lines: &Vec<ParsedLine>, resolved: &Vec<(String, ResolvedType)>) -> (r: Vec<PreviewItem>)
    ensures
        r@.len() == lines@.len(),
        forall|i: int| 0 <= i < lines@.len() ==> preview_for(lines@[i]@, resolved_views(resolved@), #[trigger] r@[i]),
{
    let mut out: Vec<PreviewItem> = Vec::new();
    let mut i: usize = 0;
    while i < lines.len()
        invariant
            i <= lines@.len(),
            out@.len() == i,
            forall|k: int| 0 <= k < i ==> preview_for(lines@[k]@, resolved_views(resolved@), #[trigger] out@[k]),
        decreases lines@.len() - i,
    {
        let item = preview_item(&lines[i], resolved);
        out.push(item);
        i = i + 1;
    }
    out
}

} // verus!
