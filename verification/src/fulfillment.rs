//! Claims, fulfillments, deliveries and reimbursements: the item status
//! machine and every check a handler makes before it writes.
//!
//! Items move `open -> claimed -> bought -> delivered -> settled`. A status
//! is recomputed from the item's counts after each change; `settled` never
//! moves, and `delivered` only moves back when a reversal allows it.

use vstd::prelude::*;

use crate::decimal::{lt, Dec};
use crate::domain::{ClaimStatus, GroupRole, ListItemStatus, ListStatus, ReimbursementStatus};
use crate::errors::{msg_forbidden, result_view, ApiError, ApiErrorView};
use crate::extract::{archived_error, msg_archived};
use crate::text::{int_text, push_i64, trim, trimmed};

verus! {

/// Whether a recompute may move a `delivered` item back.
#[derive(Debug, Clone, Copy, PartialEq, Eq, Structural)]
pub enum DeliveredDemotion {
    Forbid,
    Allow,
}

/// The status an item's counts call for, before `delivered` is considered.
pub open spec fn base_status(qty_requested: i64, qty_fulfilled: i64, has_active_claim: bool) -> ListItemStatus {
    if qty_fulfilled >= qty_requested {
        ListItemStatus::Bought
    } else if has_active_claim {
        ListItemStatus::Claimed
    } else {
        ListItemStatus::Open
    }
}

/// Whether a recompute leaves `current` alone without looking at the counts.
pub open spec fn frozen(current: ListItemStatus, demotion: DeliveredDemotion) -> bool {
    current == ListItemStatus::Settled || (current == ListItemStatus::Delivered && demotion
        == DeliveredDemotion::Forbid)
}

/// The status after a recompute.
pub open spec fn next_status(
    current: ListItemStatus,
    demotion: DeliveredDemotion,
    qty_requested: i64,
    qty_fulfilled: i64,
    has_active_claim: bool,
) -> ListItemStatus {
    if frozen(current, demotion) {
        current
    } else {
        let base = base_status(qty_requested, qty_fulfilled, has_active_claim);
        if current == ListItemStatus::Delivered && base == ListItemStatus::Bought {
            ListItemStatus::Delivered
        } else {
            base
        }
    }
}

/// Does a recompute of an item in `current` stop without reading counts?
pub fn is_frozen(current: ListItemStatus, demotion: DeliveredDemotion) -> (r: bool)
    ensures
        r == frozen(current, demotion),
{
    current == ListItemStatus::Settled || (current == ListItemStatus::Delivered && demotion
        == DeliveredDemotion::Forbid)
}

/// The status an item moves to after its fulfillments or claims changed.
pub fn recompute_item_status(
    current: ListItemStatus,
    demotion: DeliveredDemotion,
    qty_requested: i64,
    qty_fulfilled: i64,
    has_active_claim: bool,
) -> (r: ListItemStatus)
    ensures
        r == next_status(current, demotion, qty_requested, qty_fulfilled, has_active_claim),
{
    if is_frozen(current, demotion) {
        return current;
    }
    let base = if qty_fulfilled >= qty_requested {
        ListItemStatus::Bought
    } else if has_active_claim {
        ListItemStatus::Claimed
    } else {
        ListItemStatus::Open
    };
    if current == ListItemStatus::Delivered && base == ListItemStatus::Bought {
        ListItemStatus::Delivered
    } else {
        base
    }
}

/// A settled item never changes status.
pub proof fn lemma_settled_is_final(
    demotion: DeliveredDemotion,
    qty_requested: i64,
    qty_fulfilled: i64,
    has_active_claim: bool,
)
    ensures
        next_status(ListItemStatus::Settled, demotion, qty_requested, qty_fulfilled, has_active_claim)
            == ListItemStatus::Settled,
{
}

/// Without permission to demote, a delivered item stays delivered.
pub proof fn lemma_delivered_kept_without_demotion(
    qty_requested: i64,
    qty_fulfilled: i64,
    has_active_claim: bool,
)
    ensures
        next_status(
            ListItemStatus::Delivered,
            DeliveredDemotion::Forbid,
            qty_requested,
            qty_fulfilled,
            has_active_claim,
        ) == ListItemStatus::Delivered,
{
}

/// A delivered item that is still fully fulfilled stays delivered, whatever
/// the demotion setting.
pub proof fn lemma_delivered_kept_while_fulfilled(
    demotion: DeliveredDemotion,
    qty_requested: i64,
    qty_fulfilled: i64,
    has_active_claim: bool,
)
    requires
        qty_fulfilled >= qty_requested,
    ensures
        next_status(ListItemStatus::Delivered, demotion, qty_requested, qty_fulfilled, has_active_claim)
            == ListItemStatus::Delivered,
{
}

/// Recomputing twice from the same counts gives what recomputing once gave.
pub proof fn lemma_recompute_idempotent(
    current: ListItemStatus,
    demotion: DeliveredDemotion,
    qty_requested: i64,
    qty_fulfilled: i64,
    has_active_claim: bool,
)
    ensures
        ({
            let once = next_status(current, demotion, qty_requested, qty_fulfilled, has_active_claim);
            next_status(once, demotion, qty_requested, qty_fulfilled, has_active_claim) == once
        }),
{
}

/// Outside the frozen cases, an item counts as bought (or delivered)
/// exactly when its fulfilled quantity reaches the requested one, and is
/// claimed exactly when short of it with an active claim.
pub proof fn lemma_recompute_follows_counts(
    current: ListItemStatus,
    demotion: DeliveredDemotion,
    qty_requested: i64,
    qty_fulfilled: i64,
    has_active_claim: bool,
)
    requires
        !frozen(current, demotion),
    ensures
        ({
            let s = next_status(current, demotion, qty_requested, qty_fulfilled, has_active_claim);
            &&& (s == ListItemStatus::Bought || s == ListItemStatus::Delivered) <==> qty_fulfilled
                >= qty_requested
            &&& s == ListItemStatus::Claimed <==> (qty_fulfilled < qty_requested && has_active_claim)
            &&& s != ListItemStatus::Settled
        }),
{
}

/// The message for a claim that is not active.
pub open spec fn msg_claim_not_active(status: ClaimStatus) -> Seq<char> {
    "claim is "@ + status.spelling() + ", not active"@
}

/// Who may change a claim, and when.
pub open spec fn claim_writable(
    user_id: u128,
    hauler_user_id: u128,
    role: GroupRole,
    status: ClaimStatus,
) -> Result<(), ApiErrorView> {
    if user_id != hauler_user_id && role != GroupRole::Owner {
        Err(ApiErrorView::Forbidden(msg_forbidden()))
    } else if status != ClaimStatus::Active {
        Err(ApiErrorView::Conflict(msg_claim_not_active(status)))
    } else {
        Ok(())
    }
}

/// A claim may be changed by its hauler or a group owner, and only while it
/// is active.
pub fn ensure_claim_writable(
    user_id: u128,
    hauler_user_id: u128,
    role: GroupRole,
    status: ClaimStatus,
) -> (r: Result<(), ApiError>)
    ensures
        result_view(r) == claim_writable(user_id, hauler_user_id, role, status),
{
    if user_id != hauler_user_id && role != GroupRole::Owner {
        return Err(ApiError::forbidden());
    }
    if status != ClaimStatus::Active {
        let mut m = String::from_str("claim is ");
        m.append(status.as_str());
        m.append(", not active");
        return Err(ApiError::Conflict(m));
    }
    Ok(())
}

/// The check on a tip percentage: a fraction between 0 and 1.
pub open spec fn tip_pct_check(v: Dec) -> Result<(), ApiErrorView> {
    if v.lt(Dec { mantissa: 0, scale: 0 }) || (Dec { mantissa: 1, scale: 0 }).lt(v) {
        Err(ApiErrorView::BadRequest("tip_pct must be between 0 and 1"@))
    } else {
        Ok(())
    }
}

/// A tip percentage must lie in `[0, 1]`.
pub fn validate_tip_pct(v: Dec) -> (r: Result<(), ApiError>)
    requires
        v.wf(),
    ensures
        result_view(r) == tip_pct_check(v),
{
    if lt(v, Dec::zero()) || lt(Dec::one(), v) {
        return Err(ApiError::BadRequest(String::from_str("tip_pct must be between 0 and 1")));
    }
    Ok(())
}

/// Who may set a list's tip: its creator or a group owner; the creator alone
/// (not an owner) loses the right once a live fulfillment exists.
pub open spec fn tip_edit_check(
    is_creator: bool,
    is_owner: bool,
    has_fulfillments: bool,
) -> Result<(), ApiErrorView> {
    if !is_creator && !is_owner {
        Err(ApiErrorView::Forbidden(msg_forbidden()))
    } else if is_creator && !is_owner && has_fulfillments {
        Err(ApiErrorView::Forbidden(msg_forbidden()))
    } else {
        Ok(())
    }
}

/// Whether the list's live fulfillments must be looked up before a tip
/// change: only when a creator who is not an owner asks.
pub fn tip_edit_needs_fulfillment_check(is_creator: bool, is_owner: bool) -> (r: bool)
    ensures
        r == (is_creator && !is_owner),
{
    is_creator && !is_owner
}

/// Decides a tip change; `has_fulfillments` is only consulted where
/// [`tip_edit_needs_fulfillment_check`] says so.
pub fn check_tip_edit(is_creator: bool, is_owner: bool, has_fulfillments: bool) -> (r: Result<
    (),
    ApiError,
>)
    ensures
        result_view(r) == tip_edit_check(is_creator, is_owner, has_fulfillments),
{
    if !is_creator && !is_owner {
        return Err(ApiError::forbidden());
    }
    if is_creator && !is_owner && has_fulfillments {
        return Err(ApiError::forbidden());
    }
    Ok(())
}

/// The checks on a fulfillment's own fields, in the order they are made.
pub open spec fn fulfillment_body_check(
    qty: i64,
    unit_price_isk: Dec,
    bought_at_market_id: Option<u128>,
    bought_at_note: Option<Seq<char>>,
) -> Result<(), ApiErrorView> {
    if qty <= 0 {
        Err(ApiErrorView::BadRequest("qty must be positive"@))
    } else if unit_price_isk.lt(Dec { mantissa: 0, scale: 0 }) {
        Err(ApiErrorView::BadRequest("unit_price_isk must be >= 0"@))
    } else if bought_at_market_id is None {
        match bought_at_note {
            None => Err(
                ApiErrorView::BadRequest("bought_at_note is required when no market is specified"@),
            ),
            Some(n) => if trim(n).len() == 0 {
                Err(ApiErrorView::BadRequest("bought_at_note must not be blank"@))
            } else {
                Ok(())
            },
        }
    } else {
        Ok(())
    }
}

pub open spec fn opt_view(o: Option<String>) -> Option<Seq<char>> {
    match o {
        Some(s) => Some(s@),
        None => None,
    }
}

/// A fulfillment needs a positive quantity, a price of at least zero, and a
/// market or a non-blank note saying where it was bought.
pub fn check_fulfillment_body(
    qty: i64,
    unit_price_isk: Dec,
    bought_at_market_id: Option<u128>,
    bought_at_note: &Option<String>,
) -> (r: Result<(), ApiError>)
    requires
        unit_price_isk.wf(),
    ensures
        result_view(r) == fulfillment_body_check(
            qty,
            unit_price_isk,
            bought_at_market_id,
            opt_view(*bought_at_note),
        ),
{
    if qty <= 0 {
        return Err(ApiError::BadRequest(String::from_str("qty must be positive")));
    }
    if lt(unit_price_isk, Dec::zero()) {
        return Err(ApiError::BadRequest(String::from_str("unit_price_isk must be >= 0")));
    }
    if bought_at_market_id.is_none() {
        match bought_at_note {
            None => {
                return Err(
                    ApiError::BadRequest(
                        String::from_str("bought_at_note is required when no market is specified"),
                    ),
                );
            },
            Some(n) => {
                let t = trimmed(n.as_str());
                if t.as_str().is_empty() {
                    return Err(
                        ApiError::BadRequest(String::from_str("bought_at_note must not be blank")),
                    );
                }
            },
        }
    }
    Ok(())
}

pub open spec fn msg_qty_exceeds(qty: i64, qty_requested: i64, qty_fulfilled: i64) -> Seq<char> {
    "fulfillment qty "@ + int_text(qty as int) + " would exceed requested "@ + int_text(
        qty_requested as int,
    ) + " (already fulfilled: "@ + int_text(qty_fulfilled as int) + ")"@
}

/// A fulfillment may not push the item past its requested quantity.
pub fn check_fulfillment_qty(qty: i64, qty_requested: i64, qty_fulfilled: i64) -> (r: Result<
    (),
    ApiError,
>)
    requires
        i64::MIN <= qty + qty_fulfilled <= i64::MAX,
    ensures
        result_view(r) == (if qty + qty_fulfilled > qty_requested {
            Err(ApiErrorView::Conflict(msg_qty_exceeds(qty, qty_requested, qty_fulfilled)))
        } else {
            Ok::<(), ApiErrorView>(())
        }),
{
    if qty + qty_fulfilled > qty_requested {
        let mut m = String::from_str("fulfillment qty ");
        push_i64(&mut m, qty);
        m.append(" would exceed requested ");
        push_i64(&mut m, qty_requested);
        m.append(" (already fulfilled: ");
        push_i64(&mut m, qty_fulfilled);
        m.append(")");
        return Err(ApiError::Conflict(m));
    }
    Ok(())
}

/// New fulfillments attach only to a pending reimbursement, if one exists.
pub fn check_reimbursement_accepts_fulfillment(existing: Option<ReimbursementStatus>) -> (r: Result<
    (),
    ApiError,
>)
    ensures
        result_view(r) == (match existing {
            Some(s) => if s != ReimbursementStatus::Pending {
                Err(
                    ApiErrorView::Conflict(
                        "reimbursement for this requester is already "@ + s.spelling()
                            + "; cannot record additional fulfillments"@,
                    ),
                )
            } else {
                Ok(())
            },
            None => Ok(()),
        }),
{
    if let Some(s) = existing {
        if s != ReimbursementStatus::Pending {
            let mut m = String::from_str("reimbursement for this requester is already ");
            m.append(s.as_str());
            m.append("; cannot record additional fulfillments");
            return Err(ApiError::Conflict(m));
        }
    }
    Ok(())
}

/// The market named must exist and the hauler character must be the
/// caller's.
pub fn check_market_and_character(market_exists: bool, character_owned: bool) -> (r: Result<
    (),
    ApiError,
>)
    ensures
        result_view(r) == (if !market_exists {
            Err(ApiErrorView::BadRequest("bought_at_market_id does not exist"@))
        } else if !character_owned {
            Err(ApiErrorView::BadRequest("hauler_character_id does not belong to you"@))
        } else {
            Ok::<(), ApiErrorView>(())
        }),
{
    if !market_exists {
        return Err(ApiError::BadRequest(String::from_str("bought_at_market_id does not exist")));
    }
    if !character_owned {
        return Err(
            ApiError::BadRequest(String::from_str("hauler_character_id does not belong to you")),
        );
    }
    Ok(())
}

/// The claim a new fulfillment attaches to.
pub open spec fn fulfillment_claim(
    active_claim: Option<(u128, u128)>,
    user_id: u128,
    role: GroupRole,
    requested_claim_id: Option<u128>,
) -> Result<Option<u128>, ApiErrorView> {
    match active_claim {
        None => Ok(None),
        Some((claim_id, hauler_user_id)) => if user_id != hauler_user_id && role
            != GroupRole::Owner {
            Err(ApiErrorView::Forbidden(msg_forbidden()))
        } else if requested_claim_id is Some && requested_claim_id != Some(claim_id) {
            Err(ApiErrorView::BadRequest("claim_id does not match the active claim for this item"@))
        } else {
            Ok(Some(claim_id))
        },
    }
}

/// With an active claim on the item only its hauler (or an owner) may
/// fulfil it, and a claim id sent along must be that claim; the fulfillment
/// attaches to the active claim, or to none.
pub fn resolve_fulfillment_claim(
    active_claim: Option<(u128, u128)>,
    user_id: u128,
    role: GroupRole,
    requested_claim_id: Option<u128>,
) -> (r: Result<Option<u128>, ApiError>)
    ensures
        result_view(r) == fulfillment_claim(active_claim, user_id, role, requested_claim_id),
{
    match active_claim {
        None => Ok(None),
        Some((claim_id, hauler_user_id)) => {
            if user_id != hauler_user_id && role != GroupRole::Owner {
                return Err(ApiError::forbidden());
            }
            if let Some(explicit) = requested_claim_id {
                if explicit != claim_id {
                    return Err(
                        ApiError::BadRequest(
                            String::from_str("claim_id does not match the active claim for this item"),
                        ),
                    );
                }
            }
            Ok(Some(claim_id))
        },
    }
}

/// A fulfillment attaches to the item's active claim, never to the claim
/// id the request names: whenever the check passes, the claim attached is
/// the active claim's id (or none without an active claim), whatever claim
/// id, if any, the request carried. The check passes exactly when there is
/// no active claim, or the caller is its hauler or an owner and any claim
/// id sent is that claim's; leaving the claim id out never changes whether
/// it passes or what it attaches to, for the claim's hauler or an owner.
pub proof fn lemma_fulfillment_attaches_to_active_claim(
    active_claim: Option<(u128, u128)>,
    user_id: u128,
    role: GroupRole,
    requested_claim_id: Option<u128>,
)
    ensures
        fulfillment_claim(active_claim, user_id, role, requested_claim_id) matches Ok(c) ==> c == (
        match active_claim {
            Some((id, _)) => Some(id),
            None => None::<u128>,
        }),
        fulfillment_claim(active_claim, user_id, role, requested_claim_id) is Ok <==> (match active_claim {
            None => true,
            Some((id, hauler)) => (user_id == hauler || role == GroupRole::Owner) && (requested_claim_id is None
                || requested_claim_id == Some(id)),
        }),
        fulfillment_claim(active_claim, user_id, role, requested_claim_id) is Ok ==> fulfillment_claim(
            active_claim,
            user_id,
            role,
            None,
        ) == fulfillment_claim(active_claim, user_id, role, requested_claim_id),
{
}

/// After a fulfillment, the claim is checked for completion when the item
/// ended up bought or settled.
pub fn claim_may_complete(new_status: ListItemStatus) -> (r: bool)
    ensures
        r == (new_status == ListItemStatus::Bought || new_status == ListItemStatus::Settled),
{
    new_status == ListItemStatus::Bought || new_status == ListItemStatus::Settled
}

/// The checks before a fulfillment is reversed, in order; the caller's role
/// comes back.
pub open spec fn reversal_check(
    list_status: ListStatus,
    already_reversed: bool,
    role: Option<GroupRole>,
    user_id: u128,
    hauler_user_id: u128,
) -> Result<GroupRole, ApiErrorView> {
    if list_status == ListStatus::Archived {
        Err(ApiErrorView::Conflict(msg_archived()))
    } else if already_reversed {
        Err(ApiErrorView::BadRequest("fulfillment is already reversed"@))
    } else {
        match role {
            None => Err(ApiErrorView::Forbidden(msg_forbidden())),
            Some(g) => if user_id != hauler_user_id && g != GroupRole::Owner {
                Err(ApiErrorView::Forbidden(msg_forbidden()))
            } else {
                Ok(g)
            },
        }
    }
}

/// A fulfillment may be reversed once, on a list that is not archived, by
/// its hauler or a group owner.
pub fn check_reversal(
    list_status: ListStatus,
    already_reversed: bool,
    role: Option<GroupRole>,
    user_id: u128,
    hauler_user_id: u128,
) -> (r: Result<GroupRole, ApiError>)
    ensures
        result_view(r) == reversal_check(list_status, already_reversed, role, user_id, hauler_user_id),
{
    if list_status == ListStatus::Archived {
        return Err(archived_error());
    }
    if already_reversed {
        return Err(ApiError::BadRequest(String::from_str("fulfillment is already reversed")));
    }
    match role {
        None => Err(ApiError::forbidden()),
        Some(g) => {
            if user_id != hauler_user_id && g != GroupRole::Owner {
                Err(ApiError::forbidden())
            } else {
                Ok(g)
            }
        },
    }
}

/// A fulfillment whose reimbursement is no longer pending stays.
pub fn check_reimbursement_reversible(status: Option<ReimbursementStatus>) -> (r: Result<
    (),
    ApiError,
>)
    ensures
        result_view(r) == (if status is Some && status != Some(ReimbursementStatus::Pending) {
            Err(
                ApiErrorView::Conflict(
                    "cannot reverse a fulfillment whose reimbursement is already settled"@,
                ),
            )
        } else {
            Ok::<(), ApiErrorView>(())
        }),
{
    if let Some(s) = status {
        if s != ReimbursementStatus::Pending {
            return Err(
                ApiError::Conflict(
                    String::from_str(
                        "cannot reverse a fulfillment whose reimbursement is already settled",
                    ),
                ),
            );
        }
    }
    Ok(())
}

/// An item is marked delivered from `bought`, by the hauler of its latest
/// live fulfillment (the nil id when there is none) or a group owner.
pub open spec fn mark_delivered_check(
    status: ListItemStatus,
    status_text: Seq<char>,
    last_hauler: Option<u128>,
    user_id: u128,
    role: GroupRole,
) -> Result<(), ApiErrorView> {
    if status != ListItemStatus::Bought {
        Err(
            ApiErrorView::BadRequest(
                "item must be in 'bought' status to mark delivered (currently: "@ + status_text
                    + ")"@,
            ),
        )
    } else if user_id != (match last_hauler {
        Some(h) => h,
        None => 0u128,
    }) && role != GroupRole::Owner {
        Err(ApiErrorView::Forbidden(msg_forbidden()))
    } else {
        Ok(())
    }
}

/// Decides a mark-delivered request; `status_text` is the status as stored.
pub fn check_mark_delivered(
    status: ListItemStatus,
    status_text: &str,
    last_hauler: Option<u128>,
    user_id: u128,
    role: GroupRole,
) -> (r: Result<(), ApiError>)
    ensures
        result_view(r) == mark_delivered_check(status, status_text@, last_hauler, user_id, role),
{
    if status != ListItemStatus::Bought {
        let mut m = String::from_str("item must be in 'bought' status to mark delivered (currently: ");
        m.append(status_text);
        m.append(")");
        return Err(ApiError::BadRequest(m));
    }
    let last = match last_hauler {
        Some(h) => h,
        None => 0u128,
    };
    if user_id != last && role != GroupRole::Owner {
        return Err(ApiError::forbidden());
    }
    Ok(())
}

/// The checks before a manual settle: the reimbursement is pending and not
/// bound to a contract, and the caller is its requester or a group owner.
pub open spec fn manual_settle_check(
    status: ReimbursementStatus,
    bound_to_contract: bool,
    role: Option<GroupRole>,
    requester_user_id: Option<u128>,
    user_id: u128,
) -> Result<GroupRole, ApiErrorView> {
    if status != ReimbursementStatus::Pending {
        Err(ApiErrorView::Conflict("reimbursement is already "@ + status.spelling()))
    } else if bound_to_contract {
        Err(
            ApiErrorView::Conflict(
                "this reimbursement is bound to a contract; unlink it before settling manually"@,
            ),
        )
    } else {
        match role {
            None => Err(ApiErrorView::Forbidden(msg_forbidden())),
            Some(g) => if requester_user_id != Some(user_id) && g != GroupRole::Owner {
                Err(ApiErrorView::Forbidden(msg_forbidden()))
            } else {
                Ok(g)
            },
        }
    }
}

/// Decides a manual settle request; the caller's role comes back.
pub fn check_manual_settle(
    status: ReimbursementStatus,
    bound_to_contract: bool,
    role: Option<GroupRole>,
    requester_user_id: Option<u128>,
    user_id: u128,
) -> (r: Result<GroupRole, ApiError>)
    ensures
        result_view(r) == manual_settle_check(
            status,
            bound_to_contract,
            role,
            requester_user_id,
            user_id,
        ),
{
    if status != ReimbursementStatus::Pending {
        let mut m = String::from_str("reimbursement is already ");
        m.append(status.as_str());
        return Err(ApiError::Conflict(m));
    }
    if bound_to_contract {
        return Err(
            ApiError::Conflict(
                String::from_str(
                    "this reimbursement is bound to a contract; unlink it before settling manually",
                ),
            ),
        );
    }
    match role {
        None => Err(ApiError::forbidden()),
        Some(g) => {
            let is_requester = match requester_user_id {
                Some(u) => u == user_id,
                None => false,
            };
            if !is_requester && g != GroupRole::Owner {
                Err(ApiError::forbidden())
            } else {
                Ok(g)
            }
        },
    }
}

pub open spec fn msg_claim_needs_open(status: ListStatus) -> Seq<char> {
    "list is "@ + status.spelling() + "; claims can only be created on open lists"@
}

/// A new claim needs an open list and at least one item.
pub fn check_new_claim(list_status: ListStatus, item_count: usize) -> (r: Result<(), ApiError>)
    ensures
        result_view(r) == (if list_status != ListStatus::Open {
            Err(ApiErrorView::Conflict(msg_claim_needs_open(list_status)))
        } else if item_count == 0 {
            Err(ApiErrorView::BadRequest("item_ids must not be empty"@))
        } else {
            Ok::<(), ApiErrorView>(())
        }),
{
    if list_status != ListStatus::Open {
        let mut m = String::from_str("list is ");
        m.append(list_status.as_str());
        m.append("; claims can only be created on open lists");
        return Err(ApiError::Conflict(m));
    }
    if item_count == 0 {
        return Err(ApiError::BadRequest(String::from_str("item_ids must not be empty")));
    }
    Ok(())
}

/// The first stored status that is not `open`, if any.
pub open spec fn first_not_open(statuses: Seq<Seq<char>>) -> Option<int> {
    if exists|i: int| 0 <= i < statuses.len() && statuses[i] != "open"@ {
        Some(choose|i: int| 0 <= i < statuses.len() && statuses[i] != "open"@ && forall|j: int|
            0 <= j < i ==> statuses[j] == "open"@)
    } else {
        None
    }
}

/// Items may be claimed only if all of them belong to the list (as many
/// rows came back as ids were sent) and all are still open.
pub fn check_claimable_items(found_statuses: &Vec<String>, requested_count: usize) -> (r: Result<
    (),
    ApiError,
>)
    ensures
        found_statuses@.len() != requested_count ==> result_view(r) == Err::<(), ApiErrorView>(
            ApiErrorView::BadRequest("one or more item_ids do not belong to this list"@),
        ),
        found_statuses@.len() == requested_count ==> match first_not_open(
            crate::auth::views(found_statuses@),
        ) {
            Some(i) => result_view(r) == Err::<(), ApiErrorView>(
                ApiErrorView::Conflict(
                    "cannot claim item with status '"@ + found_statuses@[i]@
                        + "'; only open items may be claimed"@,
                ),
            ),
            None => r is Ok,
        },
{
    if found_statuses.len() != requested_count {
        return Err(
            ApiError::BadRequest(
                String::from_str("one or more item_ids do not belong to this list"),
            ),
        );
    }
    let ghost ss = crate::auth::views(found_statuses@);
    let mut i: usize = 0;
    while i < found_statuses.len()
        invariant
            i <= found_statuses@.len(),
            found_statuses@.len() == requested_count,
            ss == crate::auth::views(found_statuses@),
            forall|j: int| 0 <= j < i ==> ss[j] == "open"@,
        decreases found_statuses@.len() - i,
    {
        if !crate::text::str_eq(found_statuses[i].as_str(), "open") {
            let mut m = String::from_str("cannot claim item with status '");
            m.append(found_statuses[i].as_str());
            m.append("'; only open items may be claimed");
            proof {
                assert(ss[i as int] != "open"@);
                let k = choose|k: int| 0 <= k < ss.len() && ss[k] != "open"@ && forall|j: int|
                    0 <= j < k ==> ss[j] == "open"@;
                assert(ss[i as int] != "open"@ && forall|j: int| 0 <= j < i ==> ss[j] == "open"@);
                if k < i {
                } else if k > i {
                }
                assert(k == i);
            }
            return Err(ApiError::Conflict(m));
        }
        i = i + 1;
    }
    Ok(())
}

/// The unique index that allows one active claim per item.
pub const CLAIM_ITEMS_ONE_ACTIVE: &'static str = "claim_items_one_active";

/// Whether a database error names the one-active-claim index.
pub fn is_claim_conflict(constraint: Option<&str>) -> (r: bool)
    ensures
        r == (constraint matches Some(c) && c@ == CLAIM_ITEMS_ONE_ACTIVE@),
{
    match constraint {
        Some(c) => crate::text::str_eq(c, CLAIM_ITEMS_ONE_ACTIVE),
        None => false,
    }
}

/// What a failed insert of claim items answers: an item already claimed
/// elsewhere is a conflict, anything else an internal error.
pub fn claim_insert_error(constraint: Option<&str>, detail: String) -> (r: ApiError)
    ensures
        r@ == (if constraint matches Some(c) && c@ == CLAIM_ITEMS_ONE_ACTIVE@ {
            ApiErrorView::Conflict("one or more items are already claimed"@)
        } else {
            ApiErrorView::Internal(detail@)
        }),
{
    if is_claim_conflict(constraint) {
        ApiError::Conflict(String::from_str("one or more items are already claimed"))
    } else {
        ApiError::Internal(detail)
    }
}

} // verus!
