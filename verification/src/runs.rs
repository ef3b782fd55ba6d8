//! The runs board: the group's open lists with their item counts and the
//! markets each accepts, put together from the rows the database returns.

use vstd::prelude::*;

use crate::corps::opt_str_view;
use crate::decimal::Dec;
use crate::domain::ListStatus;

verus! {

/// A market a run accepts.
#[derive(Debug, Clone)]
pub struct RunMarketRef {
    pub market_id: u128,
    pub short_label: Option<String>,
    pub is_primary: bool,
}

/// An open list with its counts per item status, newest first.
#[derive(Debug, Clone)]
pub struct RunRow {
    pub id: u128,
    pub destination_label: Option<String>,
    pub status: ListStatus,
    pub created_at: i64,
    pub total_estimate_isk: Dec,
    pub items_open: i64,
    pub items_claimed: i64,
    pub items_bought: i64,
    pub items_delivered: i64,
    pub items_settled: i64,
    pub claimed_by_me: bool,
    pub my_active_claim_id: Option<u128>,
}

/// A market of one of the lists, primary first within each list.
#[derive(Debug, Clone)]
pub struct RunMarketRow {
    pub list_id: u128,
    pub market_id: u128,
    pub short_label: Option<String>,
    pub is_primary: bool,
}

/// A run as the board shows it.
#[derive(Debug, Clone)]
pub struct RunSummary {
    pub list_id: u128,
    pub destination_label: Option<String>,
    pub status: ListStatus,
    pub created_at: i64,
    pub accepted_markets: Vec<RunMarketRef>,
    pub items_open: i64,
    pub items_claimed: i64,
    pub items_bought: i64,
    pub items_delivered: i64,
    pub items_settled: i64,
    pub total_estimate_isk: Dec,
    pub claimed_by_me: bool,
    pub my_active_claim_id: Option<u128>,
}

pub open spec fn market_ref_view(m: RunMarketRef) -> (u128, Option<Seq<char>>, bool) {
    (m.market_id, opt_str_view(m.short_label), m.is_primary)
}

pub open spec fn market_ref_views(s: Seq<RunMarketRef>) -> Seq<(u128, Option<Seq<char>>, bool)> {
    s.map_values(|m: RunMarketRef| market_ref_view(m))
}

/// The markets of list `id`, in row order.
pub open spec fn markets_of(rows: Seq<RunMarketRow>, id: u128) -> Seq<(u128, Option<Seq<char>>, bool)>
    decreases rows.len(),
{
    if rows.len() == 0 {
        Seq::<(u128, Option<Seq<char>>, bool)>::empty()
    } else if rows.last().list_id == id {
        let m = rows.last();
        markets_of(rows.drop_last(), id).push((m.market_id, opt_str_view(m.short_label), m.is_primary))
    } else {
        markets_of(rows.drop_last(), id)
    }
}

/// Row `i` is the first with its list id; a later row of the same list
/// gets no markets.
pub open spec fn first_of_list(rows: Seq<RunRow>, i: int) -> bool {
    forall|j: int| 0 <= j < i ==> #[trigger] rows[j].id != rows[i].id
}

/// What the board shows of run row `i`.
pub open spec fn run_shown(s: RunSummary, rows: Seq<RunRow>, i: int, markets: Seq<RunMarketRow>) -> bool {
    let r = rows[i];
    &&& s.list_id == r.id
    &&& opt_str_view(s.destination_label) == opt_str_view(r.destination_label)
    &&& s.status == r.status
    &&& s.created_at == r.created_at
    &&& s.items_open == r.items_open
    &&& s.items_claimed == r.items_claimed
    &&& s.items_bought == r.items_bought
    &&& s.items_delivered == r.items_delivered
    &&& s.items_settled == r.items_settled
    &&& s.total_estimate_isk == r.total_estimate_isk
    &&& s.claimed_by_me == r.claimed_by_me
    &&& s.my_active_claim_id == r.my_active_claim_id
    &&& market_ref_views(s.accepted_markets@) == (if first_of_list(rows, i) {
        markets_of(markets, r.id)
    } else {
        Seq::<(u128, Option<Seq<char>>, bool)>::empty()
    })
}

fn copy_label(o: &Option<String>) -> (r: Option<String>)
    ensures
        opt_str_view(r) == opt_str_view(*o),
{
    match o {
        Some(s) => Some(s.clone()),
        None => None,
    }
}

fn markets_for(rows: &Vec<RunMarketRow>, id: u128) -> (r: Vec<RunMarketRef>)
    ensures
        market_ref_views(r@) == markets_of(rows@, id),
{
    let mut out: Vec<RunMarketRef> = Vec::new();
    let mut i: usize = 0;
    while i < rows.len()
        invariant
            i <= rows@.len(),
            market_ref_views(out@) == markets_of(rows@.take(i as int), id),
        decreases rows@.len() - i,
    {
        assert(rows@.take(i + 1).drop_last() =~= rows@.take(i as int));
        if rows[i].list_id == id {
            let ghost before = market_ref_views(out@);
            let m = RunMarketRef {
                market_id: rows[i].market_id,
                short_label: copy_label(&rows[i].short_label),
                is_primary: rows[i].is_primary,
            };
            out.push(m);
            assert(market_ref_views(out@) =~= before.push(market_ref_view(m)));
        }
        i = i + 1;
    }
    assert(rows@.take(rows@.len() as int) =~= rows@);
    out
}

fn first_of_list_at(rows: &Vec<RunRow>, i: usize) -> (r: bool)
    requires
        i < rows@.len(),
    ensures
        r == first_of_list(rows@, i as int),
{
    let mut j: usize = 0;
    while j < i
        invariant
            i < rows@.len(),
            j <= i,
            forall|k: int| 0 <= k < j ==> #[trigger] rows@[k].id != rows@[i as int].id,
        decreases i - j,
    {
        if rows[j].id == rows[i].id {
            return false;
        }
        j = j + 1;
    }
    true
}

/// The board from its rows: every run in order, with the markets of its
/// list.
pub fn assemble_runs(rows: &Vec<RunRow>, markets: &Vec<RunMarketRow>) -> (r: Vec<RunSummary>)
    ensures
        r@.len() == rows@.len(),
        forall|i: int| 0 <= i < rows@.len() ==> run_shown(#[trigger] r@[i], rows@, i, markets@),
{
    let mut out: Vec<RunSummary> = Vec::new();
    let mut i: usize = 0;
    while i < rows.len()
        invariant
            i <= rows@.len(),
            out@.len() == i,
            forall|k: int| 0 <= k < i ==> run_shown(#[trigger] out@[k], rows@, k, markets@),
        decreases rows@.len() - i,
    {
        let row = &rows[i];
        let accepted = if first_of_list_at(rows, i) {
            markets_for(markets, row.id)
        } else {
            let none: Vec<RunMarketRef> = Vec::new();
            assert(market_ref_views(none@) =~= Seq::<(u128, Option<Seq<char>>, bool)>::empty());
            none
        };
        let s = RunSummary {
            list_id: row.id,
            destination_label: copy_label(&row.destination_label),
            status: row.status,
            created_at: row.created_at,
            accepted_markets: accepted,
            items_open: row.items_open,
            items_claimed: row.items_claimed,
            items_bought: row.items_bought,
            items_delivered: row.items_delivered,
            items_settled: row.items_settled,
            total_estimate_isk: row.total_estimate_isk,
            claimed_by_me: row.claimed_by_me,
            my_active_claim_id: row.my_active_claim_id,
        };
        assert(run_shown(s, rows@, i as int, markets@));
        out.push(s);
        i = i + 1;
    }
    out
}

} // verus!
