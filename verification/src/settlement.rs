//! Settlement decisions shared by the manual path and the contract path,
//! and the audit arithmetic that checks a contract against the corp wallet.
//!
//! The manual path requires items to be `delivered`; the contract path also
//! accepts `bought`, a finished contract being proof of delivery.

use vstd::prelude::*;

use crate::decimal::{
    checked_add, checked_div, checked_mul, checked_sub, dec_add, dec_div, dec_mul, dec_round_dp, dec_sub,
    lemma_pow10_positive, lt, pow10, round_dp, round_mantissa, Dec, MAX_MANTISSA,
};
use crate::errors::{ApiError, ApiErrorView};
use crate::text::{int_text, push_i64, str_eq};

verus! {

#[derive(Debug, Clone, PartialEq, Eq)]
pub enum SettlementError {
    NotFound,
    NotPending(String),
    NotDelivered { count: i64 },
    /// A database failure, by its message.
    Db(String),
}

pub enum SettlementErrorView {
    NotFound,
    NotPending(Seq<char>),
    NotDelivered { count: i64 },
    Db(Seq<char>),
}

impl View for SettlementError {
    type V = SettlementErrorView;

    open spec fn view(&self) -> SettlementErrorView {
        match self {
            SettlementError::NotFound => SettlementErrorView::NotFound,
            SettlementError::NotPending(s) => SettlementErrorView::NotPending(s@),
            SettlementError::NotDelivered { count } => SettlementErrorView::NotDelivered {
                count: *count,
            },
            SettlementError::Db(m) => SettlementErrorView::Db(m@),
        }
    }
}

pub open spec fn settlement_text(e: SettlementErrorView) -> Seq<char> {
    match e {
        SettlementErrorView::NotFound => "settlement target not found"@,
        SettlementErrorView::NotPending(s) => "not in pending state: "@ + s,
        SettlementErrorView::NotDelivered { count } => "items still owe delivery: "@ + int_text(
            count as int,
        ),
        SettlementErrorView::Db(m) => "database error: "@ + m,
    }
}

/// How a settlement error reads to a user of the manual path.
pub open spec fn settlement_api_error(e: SettlementErrorView) -> ApiErrorView {
    match e {
        SettlementErrorView::NotFound => ApiErrorView::NotFound("not found"@),
        SettlementErrorView::NotPending(s) => ApiErrorView::Conflict(
            "reimbursement is already "@ + s,
        ),
        SettlementErrorView::NotDelivered { count } => ApiErrorView::Conflict(
            int_text(count as int) + " item(s) must be fully bought and delivered before settling"@,
        ),
        SettlementErrorView::Db(m) => ApiErrorView::Internal(m),
    }
}

impl SettlementError {
    /// The error's text.
    pub fn text(&self) -> (r: String)
        ensures
            r@ == settlement_text(self@),
    {
        match self {
            SettlementError::NotFound => String::from_str("settlement target not found"),
            SettlementError::NotPending(s) => {
                let mut m = String::from_str("not in pending state: ");
                m.append(s.as_str());
                m
            },
            SettlementError::NotDelivered { count } => {
                let mut m = String::from_str("items still owe delivery: ");
                push_i64(&mut m, *count);
                m
            },
            SettlementError::Db(d) => {
                let mut m = String::from_str("database error: ");
                m.append(d.as_str());
                m
            },
        }
    }

    /// The API error a manual settle answers with.
    pub fn into_api_error(self) -> (r: ApiError)
        ensures
            r@ == settlement_api_error(self@),
    {
        match self {
            SettlementError::NotFound => ApiError::not_found(),
            SettlementError::NotPending(s) => {
                let mut m = String::from_str("reimbursement is already ");
                m.append(s.as_str());
                ApiError::Conflict(m)
            },
            SettlementError::NotDelivered { count } => {
                let mut m = String::new();
                push_i64(&mut m, count);
                m.append(" item(s) must be fully bought and delivered before settling");
                ApiError::Conflict(m)
            },
            SettlementError::Db(d) => ApiError::Internal(d),
        }
    }
}

/// Which items a manual settle covers.
#[derive(Debug, Clone, Copy, PartialEq, Eq, Structural)]
pub enum SettleScope {
    /// Corp-funded: every item on the list the hauler fulfilled.
    CorpFunded,
    /// Personal: the items this requester asked for.
    Personal { requester_user_id: u128 },
}

/// The first step of a manual settle, from the locked reimbursement row
/// (status, corp funding, requester): it must exist and be pending, and a
/// personal one needs its requester.
pub open spec fn manual_settle_scope(row: Option<(Seq<char>, bool, Option<u128>)>) -> Result<
    SettleScope,
    SettlementErrorView,
> {
    match row {
        None => Err(SettlementErrorView::NotFound),
        Some((status, is_corp_funded, requester)) => if status != "pending"@ {
            Err(SettlementErrorView::NotPending(status))
        } else if is_corp_funded {
            Ok(SettleScope::CorpFunded)
        } else {
            match requester {
                Some(u) => Ok(SettleScope::Personal { requester_user_id: u }),
                None => Err(SettlementErrorView::NotFound),
            }
        },
    }
}

pub open spec fn scope_result_view(r: Result<SettleScope, SettlementError>) -> Result<
    SettleScope,
    SettlementErrorView,
> {
    match r {
        Ok(s) => Ok(s),
        Err(e) => Err(e@),
    }
}

/// Decides which items a manual settle counts, or why it cannot start.
pub fn plan_manual_settle(row: Option<(String, bool, Option<u128>)>) -> (r: Result<
    SettleScope,
    SettlementError,
>)
    ensures
        scope_result_view(r) == manual_settle_scope(
            match row {
                Some((s, c, q)) => Some((s@, c, q)),
                None => None,
            },
        ),
{
    match row {
        None => Err(SettlementError::NotFound),
        Some((status, is_corp_funded, requester)) => {
            if !str_eq(status.as_str(), "pending") {
                return Err(SettlementError::NotPending(status));
            }
            if is_corp_funded {
                Ok(SettleScope::CorpFunded)
            } else {
                match requester {
                    Some(u) => Ok(SettleScope::Personal { requester_user_id: u }),
                    None => Err(SettlementError::NotFound),
                }
            }
        },
    }
}

/// Every covered item must be delivered (or already settled) first.
pub fn check_all_delivered(not_delivered: i64) -> (r: Result<(), SettlementError>)
    ensures
        not_delivered > 0 ==> r == Err::<(), SettlementError>(
            SettlementError::NotDelivered { count: not_delivered },
        ),
        not_delivered <= 0 ==> r is Ok,
{
    if not_delivered > 0 {
        return Err(SettlementError::NotDelivered { count: not_delivered });
    }
    Ok(())
}

/// The SQL condition on an item's status when settling: the contract path
/// also accepts `bought`.
pub fn settle_status_filter(accept_bought: bool) -> (r: &'static str)
    ensures
        accept_bought ==> r@ == "li.status IN ('bought', 'delivered')"@,
        !accept_bought ==> r@ == "li.status = 'delivered'"@,
{
    if accept_bought {
        "li.status IN ('bought', 'delivered')"
    } else {
        "li.status = 'delivered'"
    }
}

/// What the caller learns of a contract upsert.
#[derive(Debug, Clone)]
pub struct ContractUpsertOutcome {
    pub contract_id: u128,
    /// The stored status before the upsert, if the contract was known.
    pub prior_status: Option<String>,
    /// The status stored now.
    pub current_status: String,
    /// The contract's items have not been fetched yet.
    pub needs_items: bool,
}

impl ContractUpsertOutcome {
    /// The upsert moved the contract to a new status (a new contract counts).
    pub fn status_changed(&self) -> (r: bool)
        ensures
            r == match self.prior_status {
                Some(p) => p@ != self.current_status@,
                None => true,
            },
    {
        match &self.prior_status {
            Some(p) => !str_eq(p.as_str(), self.current_status.as_str()),
            None => true,
        }
    }

    /// The outcome of an upsert: an update of a known contract (its prior
    /// status, and whether its items were synced), or an insert.
    pub fn new(
        contract_id: u128,
        prior: Option<(String, bool)>,
        current_status: String,
    ) -> (r: ContractUpsertOutcome)
        ensures
            r.contract_id == contract_id,
            r.current_status == current_status,
            match prior {
                Some((s, synced)) => r.prior_status == Some(s) && r.needs_items == !synced,
                None => r.prior_status is None && r.needs_items,
            },
    {
        match prior {
            Some((s, synced)) => ContractUpsertOutcome {
                contract_id,
                prior_status: Some(s),
                current_status,
                needs_items: !synced,
            },
            None => ContractUpsertOutcome {
                contract_id,
                prior_status: None,
                current_status,
                needs_items: true,
            },
        }
    }
}

/// A reimbursement just settled by a finished contract, for the webhook
/// sent after commit.
#[derive(Debug, Clone)]
pub struct ContractSettledReimbursement {
    pub group_id: u128,
    pub list_destination: String,
    pub requester_name: String,
    pub hauler_name: String,
    pub total_isk: Dec,
}

impl ContractSettledReimbursement {
    /// Fills in the display defaults: an unnamed list, a corp requester.
    pub fn new(
        group_id: u128,
        destination: Option<String>,
        requester_name: Option<String>,
        hauler_name: String,
        total_isk: Dec,
    ) -> (r: ContractSettledReimbursement)
        ensures
            r.group_id == group_id,
            r.list_destination@ == match destination {
                Some(d) => d@,
                None => "(unnamed)"@,
            },
            r.requester_name@ == match requester_name {
                Some(n) => n@,
                None => "Corp"@,
            },
            r.hauler_name == hauler_name,
            r.total_isk == total_isk,
    {
        ContractSettledReimbursement {
            group_id,
            list_destination: match destination {
                Some(d) => d,
                None => String::from_str("(unnamed)"),
            },
            requester_name: match requester_name {
                Some(n) => n,
                None => String::from_str("Corp"),
            },
            hauler_name,
            total_isk,
        }
    }
}

/// The journal payout to verify against: present and positive, else the
/// contract stays unverified for now.
pub fn payout_to_verify(payout_sum: Option<Dec>) -> (r: Option<Dec>)
    requires
        payout_sum matches Some(v) ==> v.wf(),
    ensures
        r == match payout_sum {
            Some(v) => if (Dec { mantissa: 0, scale: 0 }).lt(v) {
                Some(v)
            } else {
                None
            },
            None => None,
        },
{
    match payout_sum {
        Some(v) => {
            if lt(Dec::zero(), v) {
                Some(v)
            } else {
                None
            }
        },
        None => None,
    }
}

/// `Sum` over decimals: added left to right from zero; `None` where an
/// addition overflows.
pub open spec fn dec_sum(ts: Seq<Dec>) -> Option<Dec>
    decreases ts.len(),
{
    if ts.len() == 0 {
        Some(Dec { mantissa: 0, scale: 0 })
    } else {
        match dec_sum(ts.drop_last()) {
            Some(s) => dec_add(s, ts.last()),
            None => None,
        }
    }
}

/// A reimbursement's wallet delta: its share of the payout (in proportion
/// to its total, or nothing when the totals sum to zero or less), rounded
/// to cents, minus its total.
pub open spec fn share_delta(payout: Dec, total: Dec, sum: Dec) -> Option<Dec> {
    let share = if (Dec { mantissa: 0, scale: 0 }).lt(sum) {
        match dec_mul(payout, total) {
            Some(p) => dec_div(p, sum),
            None => None,
        }
    } else {
        Some(Dec { mantissa: 0, scale: 0 })
    };
    match share {
        Some(s) => dec_sub(dec_round_dp(s, 2), total),
        None => None,
    }
}

/// The deltas of all reimbursements bound to a contract, in order; `None`
/// where a step of the decimal arithmetic overflows.
pub open spec fn wallet_deltas_spec(payout: Dec, totals: Seq<Dec>) -> Option<Seq<Dec>> {
    match dec_sum(totals) {
        None => None,
        Some(sum) => if forall|i: int| 0 <= i < totals.len() ==> (#[trigger] share_delta(
            payout,
            totals[i],
            sum,
        )) is Some {
            Some(Seq::new(totals.len(), |i: int| share_delta(payout, totals[i], sum)->0))
        } else {
            None
        },
    }
}

/// One delta, by the steps of [`share_delta`].
fn one_delta(payout: Dec, total: Dec, sum: Dec) -> (r: Option<Dec>)
    requires
        payout.wf(),
        total.wf(),
        sum.wf(),
    ensures
        r == share_delta(payout, total, sum),
        r matches Some(d) ==> d.wf(),
{
    let share = if lt(Dec::zero(), sum) {
        match checked_mul(payout, total) {
            Some(p) => checked_div(p, sum),
            None => None,
        }
    } else {
        Some(Dec::zero())
    };
    match share {
        Some(s) => checked_sub(round_dp(s, 2), total),
        None => None,
    }
}

/// Splits a verified wallet payout over the reimbursements of a contract in
/// proportion to their totals and returns each one's difference to what it
/// was owed.
pub fn wallet_deltas(payout: Dec, totals: &Vec<Dec>) -> (r: Option<Vec<Dec>>)
    requires
        payout.wf(),
        forall|i: int| 0 <= i < totals@.len() ==> (#[trigger] totals@[i]).wf(),
    ensures
        match r {
            Some(v) => wallet_deltas_spec(payout, totals@) == Some(v@),
            None => wallet_deltas_spec(payout, totals@) is None,
        },
{
    let mut sum = Dec::zero();
    let mut i: usize = 0;
    while i < totals.len()
        invariant
            i <= totals@.len(),
            sum.wf(),
            dec_sum(totals@.take(i as int)) == Some(sum),
            forall|k: int| 0 <= k < totals@.len() ==> (#[trigger] totals@[k]).wf(),
        decreases totals@.len() - i,
    {
        assert(totals@.take(i + 1).drop_last() =~= totals@.take(i as int));
        match checked_add(sum, totals[i]) {
            Some(s) => {
                sum = s;
            },
            None => {
                proof {
                    lemma_dec_sum_none_extends(totals@, i as int + 1);
                }
                return None;
            },
        }
        i = i + 1;
    }
    assert(totals@.take(totals@.len() as int) =~= totals@);
    let mut out: Vec<Dec> = Vec::new();
    let mut j: usize = 0;
    while j < totals.len()
        invariant
            j <= totals@.len(),
            out@.len() == j,
            sum.wf(),
            payout.wf(),
            dec_sum(totals@) == Some(sum),
            forall|k: int| 0 <= k < totals@.len() ==> (#[trigger] totals@[k]).wf(),
            forall|k: int| 0 <= k < j ==> share_delta(payout, totals@[k], sum) == Some(#[trigger] out@[k]),
        decreases totals@.len() - j,
    {
        match one_delta(payout, totals[j], sum) {
            Some(d) => {
                out.push(d);
            },
            None => {
                assert(!(share_delta(payout, totals@[j as int], sum) is Some));
                return None;
            },
        }
        j = j + 1;
    }
    assert forall|k: int| 0 <= k < totals@.len() implies (#[trigger] share_delta(
        payout,
        totals@[k],
        sum,
    )) is Some by {
        assert(share_delta(payout, totals@[k], sum) == Some(out@[k]));
    }
    assert(Seq::new(totals@.len(), |k: int| share_delta(payout, totals@[k], sum)->0) =~= out@);
    Some(out)
}

/// The sum of the mantissas.
pub open spec fn mantissa_sum(ts: Seq<Dec>) -> int
    decreases ts.len(),
{
    if ts.len() == 0 {
        0
    } else {
        mantissa_sum(ts.drop_last()) + ts.last().mantissa
    }
}

/// Amounts in cents: scale 2, not negative.
pub open spec fn cent_amounts(ts: Seq<Dec>) -> bool {
    forall|i: int| 0 <= i < ts.len() ==> (#[trigger] ts[i]).wf() && ts[i].scale == 2 && ts[i].mantissa >= 0
}

/// Non-negative amounts in cents whose total fits add up exactly.
proof fn lemma_dec_sum_cents(ts: Seq<Dec>)
    requires
        ts.len() > 0,
        cent_amounts(ts),
        mantissa_sum(ts) <= MAX_MANTISSA,
    ensures
        dec_sum(ts) == Some(Dec { mantissa: mantissa_sum(ts) as i128, scale: 2 }),
        mantissa_sum(ts) >= 0,
    decreases ts.len(),
{
    let rest = ts.drop_last();
    let last = ts.last();
    assert(last == ts[ts.len() - 1]);
    assert(last.wf() && last.scale == 2 && last.mantissa >= 0);
    if ts.len() == 1 {
        assert(rest =~= Seq::<Dec>::empty());
        assert(dec_sum(rest) == Some(Dec { mantissa: 0, scale: 0 }));
    } else {
        assert forall|i: int| 0 <= i < rest.len() implies (#[trigger] rest[i]).wf() && rest[i].scale == 2
            && rest[i].mantissa >= 0 by {
            assert(rest[i] == ts[i]);
        }
        lemma_dec_sum_cents(rest);
    }
}

proof fn lemma_round_zero(k: nat)
    ensures
        round_mantissa(0, k) == 0,
{
    lemma_pow10_positive(k);
}

proof fn lemma_round_exact(x: int)
    ensures
        round_mantissa(x, 0) == x,
{
    assert(pow10(0) == 1);
}

/// A reimbursement's share of the payout, in cents: `payout * total / sum`
/// (at the payout's scale) rounded half to even to cents.
pub open spec fn cents_share(payout: Dec, total: Dec, total_sum: int) -> int {
    round_mantissa(payout.mantissa * total.mantissa / total_sum, (payout.scale - 2) as nat)
}

/// A verified wallet payout is split in proportion to the totals: for
/// reimbursement totals in cents (scale 2, not negative, not all zero) and
/// a payout with at least two places, where each `payout * total` is a
/// whole multiple of the sum of the totals, the delta of each
/// reimbursement is exactly its share `payout * total / sum`, rounded half
/// to even to cents, minus its total, in cents: the deltas depend on the
/// payout and the totals as amounts only.
pub proof fn lemma_wallet_deltas_in_cents(payout: Dec, totals: Seq<Dec>)
    requires
        payout.wf(),
        2 <= payout.scale <= 26,
        totals.len() > 0,
        cent_amounts(totals),
        0 < mantissa_sum(totals) <= MAX_MANTISSA,
        forall|i: int|
            0 <= i < totals.len() ==> -MAX_MANTISSA <= payout.mantissa * (#[trigger] totals[i]).mantissa
                <= MAX_MANTISSA && (payout.mantissa * totals[i].mantissa) % mantissa_sum(totals) == 0
                && -MAX_MANTISSA <= cents_share(payout, totals[i], mantissa_sum(totals))
                - totals[i].mantissa <= MAX_MANTISSA,
    ensures
        wallet_deltas_spec(payout, totals) matches Some(ds) && ds.len() == totals.len() && forall|i: int|
            0 <= i < totals.len() ==> #[trigger] ds[i] == (Dec {
                mantissa: (cents_share(payout, totals[i], mantissa_sum(totals)) - totals[i].mantissa) as i128,
                scale: 2,
            }),
{
    let total_sum = mantissa_sum(totals);
    lemma_dec_sum_cents(totals);
    let sum = Dec { mantissa: total_sum as i128, scale: 2 };
    assert(pow10(0) == 1);
    assert(pow10(1) == 10);
    assert(pow10(2) == 100);
    assert((Dec { mantissa: 0, scale: 0 }).lt(sum));
    assert forall|i: int| 0 <= i < totals.len() implies #[trigger] share_delta(payout, totals[i], sum) == Some(
        Dec { mantissa: (cents_share(payout, totals[i], total_sum) - totals[i].mantissa) as i128, scale: 2 },
    ) by {
        let t = totals[i];
        assert(t.wf() && t.scale == 2 && t.mantissa >= 0);
        let pm = payout.mantissa * t.mantissa;
        let k = (payout.scale - 2) as nat;
        if pm == 0 {
            assert(dec_mul(payout, t) == Some(Dec { mantissa: 0, scale: 0 }));
            assert(dec_div(Dec { mantissa: 0, scale: 0 }, sum) == Some(Dec { mantissa: 0, scale: 0 }));
            assert(0int / total_sum == 0);
            lemma_round_zero(k);
        } else {
            let p = Dec { mantissa: pm as i128, scale: (payout.scale + 2) as u32 };
            assert(dec_mul(payout, t) == Some(p));
            let q = pm / total_sum;
            assert(dec_div(p, sum) == Some(Dec { mantissa: q as i128, scale: payout.scale }));
            if payout.scale == 2 {
                lemma_round_exact(q);
            }
            assert(q != 0) by (nonlinear_arith)
                requires
                    pm != 0,
                    pm % total_sum == 0,
                    q == pm / total_sum,
                    total_sum > 0,
            ;
            assert(t.mantissa != 0) by (nonlinear_arith)
                requires
                    pm == payout.mantissa * t.mantissa,
                    pm != 0,
            ;
            vstd::arithmetic::div_mod::lemma_fundamental_div_mod(pm, total_sum);
            assert(-MAX_MANTISSA <= q <= MAX_MANTISSA) by (nonlinear_arith)
                requires
                    pm == total_sum * q,
                    total_sum >= 1,
                    -MAX_MANTISSA <= pm <= MAX_MANTISSA,
            ;
            let sh = Dec { mantissa: q as i128, scale: payout.scale };
            let c = cents_share(payout, t, total_sum);
            let rd = dec_round_dp(sh, 2);
            assert(rd == Dec { mantissa: c as i128, scale: 2 });
            if c != 0 {
                assert(dec_sub(rd, t) == Some(Dec { mantissa: (c - t.mantissa) as i128, scale: 2 }));
            }
        }
    }
}

/// The sum of each amount's share `p * t / sum`.
pub open spec fn share_sum(p: int, ts: Seq<Dec>, total_sum: int) -> int
    decreases ts.len(),
{
    if ts.len() == 0 {
        0
    } else {
        share_sum(p, ts.drop_last(), total_sum) + p * ts.last().mantissa / total_sum
    }
}

proof fn lemma_share_sum_times_sum(p: int, ts: Seq<Dec>, total_sum: int)
    requires
        total_sum > 0,
        forall|i: int| 0 <= i < ts.len() ==> (p * (#[trigger] ts[i]).mantissa) % total_sum == 0,
    ensures
        share_sum(p, ts, total_sum) * total_sum == p * mantissa_sum(ts),
    decreases ts.len(),
{
    if ts.len() > 0 {
        let rest = ts.drop_last();
        assert forall|i: int| 0 <= i < rest.len() implies (p * (#[trigger] rest[i]).mantissa) % total_sum == 0 by {
            assert(rest[i] == ts[i]);
        }
        lemma_share_sum_times_sum(p, rest, total_sum);
        let m = ts.last().mantissa;
        assert(ts.last() == ts[ts.len() - 1]);
        let x = p * m;
        vstd::arithmetic::div_mod::lemma_fundamental_div_mod(x, total_sum);
        assert((p * m / total_sum) * total_sum == p * m) by (nonlinear_arith)
            requires
                x == p * m,
                x % total_sum == 0,
                x == total_sum * (x / total_sum) + x % total_sum,
        ;
        let a = share_sum(p, rest, total_sum);
        let b = mantissa_sum(rest);
        assert((a + p * m / total_sum) * total_sum == p * (b + m)) by (nonlinear_arith)
            requires
                a * total_sum == p * b,
                (p * m / total_sum) * total_sum == p * m,
        ;
    }
}

proof fn lemma_delta_sum(p: int, ts: Seq<Dec>, ds: Seq<Dec>, total_sum: int)
    requires
        ds.len() == ts.len(),
        forall|i: int| 0 <= i < ts.len() ==> (#[trigger] ds[i]).mantissa == p * ts[i].mantissa / total_sum - ts[i].mantissa,
    ensures
        mantissa_sum(ds) == share_sum(p, ts, total_sum) - mantissa_sum(ts),
    decreases ts.len(),
{
    if ts.len() > 0 {
        let rt = ts.drop_last();
        let rd = ds.drop_last();
        assert forall|i: int| 0 <= i < rt.len() implies (#[trigger] rd[i]).mantissa == p * rt[i].mantissa / total_sum
            - rt[i].mantissa by {
            assert(rd[i] == ds[i] && rt[i] == ts[i]);
        }
        lemma_delta_sum(p, rt, rd, total_sum);
        assert(ds.last() == ds[ds.len() - 1] && ts.last() == ts[ts.len() - 1]);
    }
}

/// The shares of a split payout add up to the payout: under the conditions
/// of [`lemma_wallet_deltas_in_cents`], the deltas plus the totals sum to
/// the payout, in cents.
pub proof fn lemma_wallet_shares_cover_payout(payout: Dec, totals: Seq<Dec>)
    requires
        payout.wf(),
        payout.scale == 2,
        totals.len() > 0,
        cent_amounts(totals),
        0 < mantissa_sum(totals) <= MAX_MANTISSA,
        forall|i: int|
            0 <= i < totals.len() ==> -MAX_MANTISSA <= payout.mantissa * (#[trigger] totals[i]).mantissa
                <= MAX_MANTISSA && (payout.mantissa * totals[i].mantissa) % mantissa_sum(totals) == 0
                && -MAX_MANTISSA <= payout.mantissa * totals[i].mantissa / mantissa_sum(totals)
                - totals[i].mantissa <= MAX_MANTISSA,
    ensures
        wallet_deltas_spec(payout, totals) matches Some(ds) && mantissa_sum(ds) + mantissa_sum(totals)
            == payout.mantissa,
{
    assert forall|i: int| 0 <= i < totals.len() implies #[trigger] cents_share(payout, totals[i], mantissa_sum(totals))
        == payout.mantissa * totals[i].mantissa / mantissa_sum(totals) by {
        lemma_round_exact(payout.mantissa * totals[i].mantissa / mantissa_sum(totals));
    }
    lemma_wallet_deltas_in_cents(payout, totals);
    let ds = wallet_deltas_spec(payout, totals)->0;
    let total_sum = mantissa_sum(totals);
    let p = payout.mantissa as int;
    assert forall|i: int| 0 <= i < totals.len() implies (#[trigger] ds[i]).mantissa == p * totals[i].mantissa
        / total_sum - totals[i].mantissa by {
        lemma_round_exact(payout.mantissa * totals[i].mantissa / total_sum);
        assert(ds[i] == (Dec {
            mantissa: (cents_share(payout, totals[i], total_sum) - totals[i].mantissa) as i128,
            scale: 2,
        }));
    }
    lemma_delta_sum(p, totals, ds, total_sum);
    assert forall|i: int| 0 <= i < totals.len() implies (p * (#[trigger] totals[i]).mantissa) % total_sum == 0 by {
        assert(-MAX_MANTISSA <= payout.mantissa * totals[i].mantissa <= MAX_MANTISSA);
    }
    lemma_share_sum_times_sum(p, totals, total_sum);
    let q = share_sum(p, totals, total_sum);
    assert(q == p) by (nonlinear_arith)
        requires
            q * total_sum == p * total_sum,
            total_sum > 0,
    ;
}

/// Once a prefix's sum overflows, every longer prefix's does.
proof fn lemma_dec_sum_none_extends(ts: Seq<Dec>, n: int)
    requires
        0 <= n <= ts.len(),
        dec_sum(ts.take(n)) is None,
    ensures
        dec_sum(ts) is None,
    decreases ts.len() - n,
{
    if n < ts.len() {
        assert(ts.take(n + 1).drop_last() =~= ts.take(n));
        lemma_dec_sum_none_extends(ts, n + 1);
    } else {
        assert(ts.take(n) =~= ts);
    }
}

} // verus!
