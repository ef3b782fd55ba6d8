//! Market rows and market order books: how a stored market row becomes a
//! market, how ESI orders are counted into per-type aggregates, and which
//! cached prices are stale.
//!
//! Prices are floating point in ESI's answers; choosing the best one stays
//! with the caller. This module decides which orders count and sums their
//! volumes.

use vstd::prelude::*;

use crate::domain::{Market, MarketKind};
use crate::text::{int_text, push_i64};

verus! {

/// Where a market's orders come from.
#[derive(Debug, Clone, Copy, PartialEq, Eq, Structural)]
pub enum MarketSource {
    NpcHub { region_id: i64, location_id: i64 },
    Citadel { structure_id: i64 },
}

/// The markets endpoints fail only internally.
#[derive(Debug, Clone, PartialEq, Eq)]
pub enum MarketError {
    /// An unexpected failure, by its message.
    Internal(String),
}

impl MarketError {
    pub fn status(&self) -> (r: u16)
        ensures
            r == 500,
    {
        500
    }

    pub fn body(&self) -> (r: String)
        ensures
            r@ == "internal error"@,
    {
        String::from_str("internal error")
    }
}

/// A stored market row, its kind still text.
#[derive(Debug, Clone)]
pub struct MarketRow {
    pub id: u128,
    pub kind: String,
    pub esi_location_id: i64,
    pub region_id: Option<i64>,
    pub name: Option<String>,
    pub short_label: Option<String>,
    pub is_hub: bool,
    pub is_public: bool,
}

impl MarketRow {
    /// The market, if its stored kind is known.
    pub fn into_market(self) -> (r: Result<Market, String>)
        ensures
            match MarketKind::parse_spec(self.kind@) {
                None => r matches Err(e) && e@ == "unknown market kind: "@ + self.kind@,
                Some(k) => r matches Ok(m) && m.id == self.id && m.kind == k && m.esi_location_id
                    == self.esi_location_id && m.region_id == self.region_id && m.name
                    == self.name && m.short_label == self.short_label && m.is_hub == self.is_hub
                    && m.is_public == self.is_public,
            },
    {
        match MarketKind::parse(self.kind.as_str()) {
            None => {
                let mut e = String::from_str("unknown market kind: ");
                e.append(self.kind.as_str());
                Err(e)
            },
            Some(kind) => Ok(
                Market {
                    id: self.id,
                    kind,
                    esi_location_id: self.esi_location_id,
                    region_id: self.region_id,
                    name: self.name,
                    short_label: self.short_label,
                    is_hub: self.is_hub,
                    is_public: self.is_public,
                },
            ),
        }
    }
}

/// A market as a group sees it: when its orders were last pulled, until
/// when it is marked untrackable, and which character can access it.
#[derive(Debug, Clone)]
pub struct GroupMarket {
    pub market: Market,
    pub last_orders_synced_at: Option<i64>,
    pub untrackable_until: Option<i64>,
    pub accessing_character_id: Option<u128>,
    pub accessing_character_name: Option<String>,
}

/// A group's market row, its kind still text.
#[derive(Debug, Clone)]
pub struct GroupMarketRow {
    pub row: MarketRow,
    pub last_orders_synced_at: Option<i64>,
    pub untrackable_until: Option<i64>,
    pub accessing_character_id: Option<u128>,
    pub accessing_character_name: Option<String>,
}

impl GroupMarketRow {
    /// The group's view of the market, if its stored kind is known.
    pub fn into_group_market(self) -> (r: Result<GroupMarket, String>)
        ensures
            match MarketKind::parse_spec(self.row.kind@) {
                None => r matches Err(e) && e@ == "unknown market kind: "@ + self.row.kind@,
                Some(k) => r matches Ok(g) && g.market.id == self.row.id && g.market.kind == k
                    && g.market.esi_location_id == self.row.esi_location_id && g.market.region_id
                    == self.row.region_id && g.market.name == self.row.name && g.market.short_label
                    == self.row.short_label && g.market.is_hub == self.row.is_hub
                    && g.market.is_public == self.row.is_public && g.last_orders_synced_at
                    == self.last_orders_synced_at && g.untrackable_until == self.untrackable_until
                    && g.accessing_character_id == self.accessing_character_id
                    && g.accessing_character_name == self.accessing_character_name,
            },
    {
        match self.row.into_market() {
            Err(e) => Err(e),
            Ok(market) => Ok(
                GroupMarket {
                    market,
                    last_orders_synced_at: self.last_orders_synced_at,
                    untrackable_until: self.untrackable_until,
                    accessing_character_id: self.accessing_character_id,
                    accessing_character_name: self.accessing_character_name,
                },
            ),
        }
    }
}

/// The fields of an ESI market order that aggregation reads.
#[derive(Debug, Clone, Copy, PartialEq, Eq, Structural)]
pub struct OrderFacts {
    pub order_id: i64,
    pub type_id: i64,
    pub location_id: i64,
    pub is_buy_order: bool,
    pub volume_remain: i64,
}

/// The orders counted for one type: the indices of its sell and buy
/// orders, in order, and their summed remaining volumes.
#[derive(Debug, Clone)]
pub struct TypeOrders {
    pub type_id: i64,
    pub sell_orders: Vec<usize>,
    pub buy_orders: Vec<usize>,
    pub sell_volume: i64,
    pub buy_volume: i64,
}

/// Whether an order of a regional book counts for a market at
/// `location_id` on the given side.
pub open spec fn counted_at(o: OrderFacts, location_id: i64, buy: bool) -> bool {
    o.location_id == location_id && o.is_buy_order == buy
}

/// The indices of the orders that count, in order.
pub open spec fn selected_at(orders: Seq<OrderFacts>, location_id: i64, buy: bool) -> Seq<usize>
    decreases orders.len(),
{
    if orders.len() == 0 {
        Seq::<usize>::empty()
    } else if counted_at(orders.last(), location_id, buy) {
        selected_at(orders.drop_last(), location_id, buy).push((orders.len() - 1) as usize)
    } else {
        selected_at(orders.drop_last(), location_id, buy)
    }
}

/// The summed remaining volume of the orders that count.
pub open spec fn volume_at(orders: Seq<OrderFacts>, location_id: i64, buy: bool) -> int
    decreases orders.len(),
{
    if orders.len() == 0 {
        0
    } else if counted_at(orders.last(), location_id, buy) {
        volume_at(orders.drop_last(), location_id, buy) + orders.last().volume_remain
    } else {
        volume_at(orders.drop_last(), location_id, buy)
    }
}

/// Every running volume sum fits in an `i64`: the sums are kept in `i64`
/// and must not overflow.
pub open spec fn volumes_fit(orders: Seq<OrderFacts>, location_id: i64) -> bool {
    forall|n: int|
        0 <= n <= orders.len() ==> i64::MIN <= #[trigger] volume_at(orders.take(n), location_id, false)
            <= i64::MAX && i64::MIN <= volume_at(orders.take(n), location_id, true) <= i64::MAX
}

/// Sums a regional book (the orders of one type) for the market at
/// `location_id`.
pub fn aggregate_region_orders(orders: &Vec<OrderFacts>, type_id: i64, location_id: i64) -> (r:
    TypeOrders)
    requires
        volumes_fit(orders@, location_id),
    ensures
        r.type_id == type_id,
        r.sell_orders@ == selected_at(orders@, location_id, false),
        r.buy_orders@ == selected_at(orders@, location_id, true),
        r.sell_volume == volume_at(orders@, location_id, false),
        r.buy_volume == volume_at(orders@, location_id, true),
{
    let mut sells: Vec<usize> = Vec::new();
    let mut buys: Vec<usize> = Vec::new();
    let mut sv: i64 = 0;
    let mut bv: i64 = 0;
    let mut i: usize = 0;
    while i < orders.len()
        invariant
            i <= orders@.len(),
            volumes_fit(orders@, location_id),
            sells@ == selected_at(orders@.take(i as int), location_id, false),
            buys@ == selected_at(orders@.take(i as int), location_id, true),
            sv == volume_at(orders@.take(i as int), location_id, false),
            bv == volume_at(orders@.take(i as int), location_id, true),
        decreases orders@.len() - i,
    {
        proof {
            assert(orders@.take(i + 1).drop_last() =~= orders@.take(i as int));
            assert(orders@.take(i + 1).last() == orders@[i as int]);
            assert(i64::MIN <= volume_at(orders@.take(i + 1), location_id, false) <= i64::MAX);
            assert(i64::MIN <= volume_at(orders@.take(i + 1), location_id, true) <= i64::MAX);
        }
        let o = orders[i];
        if o.location_id == location_id {
            if o.is_buy_order {
                bv = bv + o.volume_remain;
                buys.push(i);
            } else {
                sv = sv + o.volume_remain;
                sells.push(i);
            }
        }
        i = i + 1;
    }
    assert(orders@.take(orders@.len() as int) =~= orders@);
    TypeOrders { type_id, sell_orders: sells, buy_orders: buys, sell_volume: sv, buy_volume: bv }
}

/// The summed remaining volume of the orders at the given indices.
pub open spec fn volume_of(orders: Seq<OrderFacts>, idx: Seq<usize>) -> int
    decreases idx.len(),
{
    if idx.len() == 0 {
        0
    } else {
        volume_of(orders, idx.drop_last()) + orders[idx.last() as int].volume_remain
    }
}

/// Indices below `n` only: dropping later orders leaves their volume as is.
proof fn lemma_volume_of_prefix(orders: Seq<OrderFacts>, idx: Seq<usize>, n: int)
    requires
        0 <= n <= orders.len(),
        forall|j: int| 0 <= j < idx.len() ==> (#[trigger] idx[j]) < n,
    ensures
        volume_of(orders, idx) == volume_of(orders.take(n), idx),
    decreases idx.len(),
{
    if idx.len() > 0 {
        let rest = idx.drop_last();
        assert forall|j: int| 0 <= j < rest.len() implies (#[trigger] rest[j]) < n by {
            assert(rest[j] == idx[j]);
        }
        lemma_volume_of_prefix(orders, rest, n);
        assert(idx.last() == idx[idx.len() - 1]);
    }
}

/// A regional book is counted for a market only at the market's station:
/// the sell (or buy) side of the aggregate lists, in increasing order,
/// exactly the orders of that side whose location is the market's
/// location, buy orders as much as sell orders, and its volume is the sum
/// of their remaining volumes.
pub proof fn lemma_region_orders_at_location(orders: Seq<OrderFacts>, location_id: i64, buy: bool)
    requires
        orders.len() <= usize::MAX,
    ensures
        ({
            let sel = selected_at(orders, location_id, buy);
            &&& forall|j: int|
                0 <= j < sel.len() ==> (#[trigger] sel[j]) < orders.len() && orders[sel[j] as int].location_id
                    == location_id && orders[sel[j] as int].is_buy_order == buy
            &&& forall|k: int|
                0 <= k < orders.len() && (#[trigger] orders[k]).location_id == location_id
                    && orders[k].is_buy_order == buy ==> exists|j: int| 0 <= j < sel.len() && sel[j] == k
            &&& forall|j1: int, j2: int| 0 <= j1 < j2 < sel.len() ==> sel[j1] < sel[j2]
            &&& volume_at(orders, location_id, buy) == volume_of(orders, sel)
        }),
    decreases orders.len(),
{
    if orders.len() > 0 {
        let rest = orders.drop_last();
        let n = orders.len() - 1;
        lemma_region_orders_at_location(rest, location_id, buy);
        let sr = selected_at(rest, location_id, buy);
        let sel = selected_at(orders, location_id, buy);
        assert(orders.last() == orders[n]);
        assert forall|k: int| 0 <= k < n implies #[trigger] rest[k] == orders[k] by {}
        assert forall|j: int| 0 <= j < sr.len() implies (#[trigger] sr[j]) < n by {}
        lemma_volume_of_prefix(orders, sr, n);
        assert(orders.take(n) =~= rest);
        if counted_at(orders[n], location_id, buy) {
            assert(sel == sr.push(n as usize));
            assert forall|k: int|
                0 <= k < orders.len() && (#[trigger] orders[k]).location_id == location_id
                    && orders[k].is_buy_order == buy implies exists|j: int| 0 <= j < sel.len() && sel[j] == k by {
                if k == n {
                    assert(sel[sr.len() as int] == k);
                } else {
                    assert(rest[k] == orders[k]);
                    let j = choose|j: int| 0 <= j < sr.len() && sr[j] == k;
                    assert(sel[j] == sr[j]);
                }
            }
            assert(sel.drop_last() =~= sr);
        } else {
            assert(sel == sr);
            assert forall|k: int|
                0 <= k < orders.len() && (#[trigger] orders[k]).location_id == location_id
                    && orders[k].is_buy_order == buy implies exists|j: int| 0 <= j < sel.len() && sel[j] == k by {
                assert(k != n);
                assert(rest[k] == orders[k]);
            }
        }
    }
}

/// In a structure's book, an order counts for `type_id` on the given side
/// when it is of that type and side and no earlier order has its id
/// (paginated walks can repeat orders).
pub open spec fn book_counts(orders: Seq<OrderFacts>, k: int, type_id: i64, buy: bool) -> bool {
    &&& forall|j: int| 0 <= j < k ==> orders[j].order_id != orders[k].order_id
    &&& orders[k].type_id == type_id
    &&& orders[k].is_buy_order == buy
}

/// The counted orders among the first `n`, in order.
pub open spec fn book_selected(orders: Seq<OrderFacts>, type_id: i64, buy: bool, n: nat) -> Seq<usize>
    decreases n,
{
    if n == 0 {
        Seq::<usize>::empty()
    } else if book_counts(orders, n - 1, type_id, buy) {
        book_selected(orders, type_id, buy, (n - 1) as nat).push((n - 1) as usize)
    } else {
        book_selected(orders, type_id, buy, (n - 1) as nat)
    }
}

/// The summed remaining volume of the counted orders among the first `n`.
pub open spec fn book_volume(orders: Seq<OrderFacts>, type_id: i64, buy: bool, n: nat) -> int
    decreases n,
{
    if n == 0 {
        0
    } else if book_counts(orders, n - 1, type_id, buy) {
        book_volume(orders, type_id, buy, (n - 1) as nat) + orders[n - 1].volume_remain
    } else {
        book_volume(orders, type_id, buy, (n - 1) as nat)
    }
}

/// A structure's book is counted per type with repeats dropped: among the
/// first `n` orders, the sell (or buy) side of a type's aggregate lists, in
/// increasing order, exactly the orders of that type and side that are the
/// first with their order id, and its volume is the sum of their remaining
/// volumes.
pub proof fn lemma_structure_orders_counted(orders: Seq<OrderFacts>, type_id: i64, buy: bool, n: nat)
    requires
        n <= orders.len(),
        orders.len() <= usize::MAX,
    ensures
        ({
            let sel = book_selected(orders, type_id, buy, n);
            &&& forall|j: int|
                0 <= j < sel.len() ==> (#[trigger] sel[j]) < n && orders[sel[j] as int].type_id == type_id
                    && orders[sel[j] as int].is_buy_order == buy && forall|m: int|
                    0 <= m < sel[j] ==> (#[trigger] orders[m]).order_id != orders[sel[j] as int].order_id
            &&& forall|k: int|
                0 <= k < n && (#[trigger] orders[k]).type_id == type_id && orders[k].is_buy_order == buy
                    && (forall|m: int| 0 <= m < k ==> orders[m].order_id != orders[k].order_id) ==> exists|
                    j: int,
                | 0 <= j < sel.len() && sel[j] == k
            &&& forall|j1: int, j2: int| 0 <= j1 < j2 < sel.len() ==> sel[j1] < sel[j2]
            &&& book_volume(orders, type_id, buy, n) == volume_of(orders, sel)
        }),
    decreases n,
{
    if n > 0 {
        let p = (n - 1) as nat;
        lemma_structure_orders_counted(orders, type_id, buy, p);
        let sr = book_selected(orders, type_id, buy, p);
        let sel = book_selected(orders, type_id, buy, n);
        if book_counts(orders, p as int, type_id, buy) {
            assert(sel == sr.push(p as usize));
            assert(sel.drop_last() =~= sr);
            assert forall|k: int|
                0 <= k < n && (#[trigger] orders[k]).type_id == type_id && orders[k].is_buy_order == buy
                    && (forall|m: int| 0 <= m < k ==> orders[m].order_id != orders[k].order_id) implies exists|
                    j: int,
                | 0 <= j < sel.len() && sel[j] == k by {
                if k == p {
                    assert(sel[sr.len() as int] == k);
                } else {
                    let j = choose|j: int| 0 <= j < sr.len() && sr[j] == k;
                    assert(sel[j] == sr[j]);
                }
            }
            assert forall|j: int| 0 <= j < sel.len() implies (#[trigger] sel[j]) < n && orders[sel[j] as int].type_id
                == type_id && orders[sel[j] as int].is_buy_order == buy && forall|m: int|
                0 <= m < sel[j] ==> (#[trigger] orders[m]).order_id != orders[sel[j] as int].order_id by {
                if j < sr.len() {
                    assert(sel[j] == sr[j]);
                }
            }
        } else {
            assert(sel == sr);
            assert forall|k: int|
                0 <= k < n && (#[trigger] orders[k]).type_id == type_id && orders[k].is_buy_order == buy
                    && (forall|m: int| 0 <= m < k ==> orders[m].order_id != orders[k].order_id) implies exists|
                    j: int,
                | 0 <= j < sel.len() && sel[j] == k by {
                if k == p {
                    assert(book_counts(orders, p as int, type_id, buy));
                }
            }
        }
    }
}

/// Every running volume sum of `type_id` fits in an `i64`.
pub open spec fn book_volumes_fit(orders: Seq<OrderFacts>, type_id: i64) -> bool {
    forall|n: nat|
        n <= orders.len() ==> i64::MIN <= #[trigger] book_volume(orders, type_id, false, n)
            <= i64::MAX && i64::MIN <= book_volume(orders, type_id, true, n) <= i64::MAX
}

/// Which orders are the first with their id.
fn first_of_ids(orders: &Vec<OrderFacts>) -> (r: Vec<bool>)
    ensures
        r@.len() == orders@.len(),
        forall|k: int|
            0 <= k < orders@.len() ==> #[trigger] r@[k] == (forall|j: int|
                0 <= j < k ==> orders@[j].order_id != orders@[k].order_id),
{
    broadcast use vstd::std_specs::hash::group_hash_axioms;

    let mut seen: std::collections::HashSet<i64> = std::collections::HashSet::new();
    let mut out: Vec<bool> = Vec::new();
    let mut k: usize = 0;
    while k < orders.len()
        invariant
            k <= orders@.len(),
            out@.len() == k,
            forall|x: i64|
                #[trigger] seen@.contains(x) <==> exists|j: int| 0 <= j < k && orders@[j].order_id == x,
            forall|m: int|
                0 <= m < k ==> #[trigger] out@[m] == (forall|j: int|
                    0 <= j < m ==> orders@[j].order_id != orders@[m].order_id),
        decreases orders@.len() - k,
    {
        let id = orders[k].order_id;
        let fresh = seen.insert(id);
        proof {
            if !fresh {
                let j = choose|j: int| 0 <= j < k && orders@[j].order_id == id;
                assert(orders@[j].order_id == orders@[k as int].order_id);
            }
        }
        out.push(fresh);
        proof {
            assert forall|x: i64| #[trigger] seen@.contains(x) <==> exists|j: int|
                0 <= j < k + 1 && orders@[j].order_id == x by {
                if x == id {
                    assert(orders@[k as int].order_id == x);
                } else if seen@.contains(x) {
                    let j = choose|j: int| 0 <= j < k && orders@[j].order_id == x;
                    assert(0 <= j < k + 1 && orders@[j].order_id == x);
                }
            }
        }
        k = k + 1;
    }
    out
}

/// Sums a structure's whole book for each requested type, in the order the
/// types are given (a type given twice is summed twice).
pub fn aggregate_structure_orders(orders: &Vec<OrderFacts>, type_ids: &Vec<i64>) -> (r: Vec<TypeOrders>)
    requires
        forall|t: int| 0 <= t < type_ids@.len() ==> book_volumes_fit(orders@, #[trigger] type_ids@[t]),
    ensures
        r@.len() == type_ids@.len(),
        forall|t: int|
            0 <= t < type_ids@.len() ==> {
                let a = #[trigger] r@[t];
                let ty = type_ids@[t];
                &&& a.type_id == ty
                &&& a.sell_orders@ == book_selected(orders@, ty, false, orders@.len())
                &&& a.buy_orders@ == book_selected(orders@, ty, true, orders@.len())
                &&& a.sell_volume == book_volume(orders@, ty, false, orders@.len())
                &&& a.buy_volume == book_volume(orders@, ty, true, orders@.len())
            },
{
    let first = first_of_ids(orders);
    let mut out: Vec<TypeOrders> = Vec::new();
    let mut t: usize = 0;
    while t < type_ids.len()
        invariant
            t <= type_ids@.len(),
            out@.len() == t,
            first@.len() == orders@.len(),
            forall|k: int|
                0 <= k < orders@.len() ==> #[trigger] first@[k] == (forall|j: int|
                    0 <= j < k ==> orders@[j].order_id != orders@[k].order_id),
            forall|u: int| 0 <= u < type_ids@.len() ==> book_volumes_fit(orders@, #[trigger] type_ids@[u]),
            forall|u: int|
                0 <= u < t ==> {
                    let a = #[trigger] out@[u];
                    let ty = type_ids@[u];
                    &&& a.type_id == ty
                    &&& a.sell_orders@ == book_selected(orders@, ty, false, orders@.len())
                    &&& a.buy_orders@ == book_selected(orders@, ty, true, orders@.len())
                    &&& a.sell_volume == book_volume(orders@, ty, false, orders@.len())
                    &&& a.buy_volume == book_volume(orders@, ty, true, orders@.len())
                },
        decreases type_ids@.len() - t,
    {
        let ty = type_ids[t];
        assert(book_volumes_fit(orders@, type_ids@[t as int]));
        let mut sells: Vec<usize> = Vec::new();
        let mut buys: Vec<usize> = Vec::new();
        let mut sv: i64 = 0;
        let mut bv: i64 = 0;
        let mut k: usize = 0;
        while k < orders.len()
            invariant
                k <= orders@.len(),
                ty == type_ids@[t as int],
                t < type_ids@.len(),
                first@.len() == orders@.len(),
                forall|m: int|
                    0 <= m < orders@.len() ==> #[trigger] first@[m] == (forall|j: int|
                        0 <= j < m ==> orders@[j].order_id != orders@[m].order_id),
                book_volumes_fit(orders@, ty),
                sells@ == book_selected(orders@, ty, false, k as nat),
                buys@ == book_selected(orders@, ty, true, k as nat),
                sv == book_volume(orders@, ty, false, k as nat),
                bv == book_volume(orders@, ty, true, k as nat),
            decreases orders@.len() - k,
        {
            assert(i64::MIN <= book_volume(orders@, ty, false, (k + 1) as nat) <= i64::MAX);
            let o = orders[k];
            let f = first[k];
            if f && o.type_id == ty {
                if o.is_buy_order {
                    bv = bv + o.volume_remain;
                    buys.push(k);
                } else {
                    sv = sv + o.volume_remain;
                    sells.push(k);
                }
            }
            k = k + 1;
        }
        out.push(
            TypeOrders { type_id: ty, sell_orders: sells, buy_orders: buys, sell_volume: sv, buy_volume: bv },
        );
        t = t + 1;
    }
    out
}

/// The ids of `type_ids` that have no fresh cached row, in order.
pub fn stale_type_ids(type_ids: &Vec<i64>, fresh: &Vec<i64>) -> (r: Vec<i64>)
    ensures
        r@ == type_ids@.filter(|t: i64| !fresh@.contains(t)),
{
    let ghost pred = |t: i64| !fresh@.contains(t);
    let mut out: Vec<i64> = Vec::new();
    let mut i: usize = 0;
    while i < type_ids.len()
        invariant
            i <= type_ids@.len(),
            pred == (|t: i64| !fresh@.contains(t)),
            out@ == type_ids@.take(i as int).filter(pred),
        decreases type_ids@.len() - i,
    {
        let t = type_ids[i];
        let mut seen = false;
        let mut j: usize = 0;
        while j < fresh.len()
            invariant
                j <= fresh@.len(),
                seen == fresh@.take(j as int).contains(t),
            decreases fresh@.len() - j,
        {
            if fresh[j] == t {
                assert(fresh@.take(j + 1)[j as int] == t);
                seen = true;
            } else {
                assert(fresh@.take(j + 1) =~= fresh@.take(j as int).push(fresh[j as int]));
            }
            proof {
                if seen {
                    if fresh@.take(j as int).contains(t) {
                        let w = choose|w: int| 0 <= w < j && fresh@.take(j as int)[w] == t;
                        assert(fresh@.take(j + 1)[w] == t);
                    }
                }
            }
            j = j + 1;
        }
        assert(fresh@.take(fresh@.len() as int) =~= fresh@);
        proof {
            reveal(Seq::filter);
            assert(type_ids@.take(i + 1).drop_last() =~= type_ids@.take(i as int));
        }
        if !seen {
            out.push(t);
        }
        i = i + 1;
    }
    assert(type_ids@.take(type_ids@.len() as int) =~= type_ids@);
    out
}

/// The ESI ids a regional refresh needs: the market's region and the type,
/// both as `i32`.
pub open spec fn refresh_params_spec(region_id: Option<i64>, type_id: i64) -> Result<(i32, i32), Seq<char>> {
    match region_id {
        None => Err("refresh_one called on market without region_id"@),
        Some(r) => if r < i32::MIN || r > i32::MAX {
            Err("region_id "@ + int_text(r as int) + " does not fit in i32"@)
        } else if type_id < i32::MIN || type_id > i32::MAX {
            Err("type_id "@ + int_text(type_id as int) + " does not fit in i32"@)
        } else {
            Ok((r as i32, type_id as i32))
        },
    }
}

pub fn refresh_params(region_id: Option<i64>, type_id: i64) -> (r: Result<(i32, i32), String>)
    ensures
        match r {
            Ok(p) => refresh_params_spec(region_id, type_id) == Ok::<(i32, i32), Seq<char>>(p),
            Err(e) => refresh_params_spec(region_id, type_id) == Err::<(i32, i32), Seq<char>>(e@),
        },
{
    match region_id {
        None => Err(String::from_str("refresh_one called on market without region_id")),
        Some(r) => {
            if r < (i32::MIN as i64) || r > (i32::MAX as i64) {
                let mut m = String::from_str("region_id ");
                push_i64(&mut m, r);
                m.append(" does not fit in i32");
                return Err(m);
            }
            if type_id < (i32::MIN as i64) || type_id > (i32::MAX as i64) {
                let mut m = String::from_str("type_id ");
                push_i64(&mut m, type_id);
                m.append(" does not fit in i32");
                return Err(m);
            }
            Ok((r as i32, type_id as i32))
        },
    }
}

} // verus!
