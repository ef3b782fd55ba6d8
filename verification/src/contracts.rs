//! Linking in-game contracts to reimbursements: who may confirm, reject or
//! unlink a match, and when a link settles at once.

use vstd::prelude::*;

use crate::domain::{ContractMatchState, ContractStatus, ContractType, ReimbursementStatus};
use crate::errors::{msg_forbidden, result_view, ApiError, ApiErrorView};
use crate::text::str_eq;

verus! {

/// The answer to a confirm, reject, manual link or unlink.
#[derive(Debug, Clone)]
pub struct SuggestionDecision {
    pub suggestion_id: u128,
    pub state: String,
    pub settled: bool,
}

impl SuggestionDecision {
    pub fn confirmed(suggestion_id: u128, settled: bool) -> (r: SuggestionDecision)
        ensures
            r.suggestion_id == suggestion_id,
            r.state@ == "confirmed"@,
            r.settled == settled,
    {
        SuggestionDecision { suggestion_id, state: String::from_str("confirmed"), settled }
    }

    pub fn rejected(suggestion_id: u128) -> (r: SuggestionDecision)
        ensures
            r.suggestion_id == suggestion_id,
            r.state@ == "rejected"@,
            !r.settled,
    {
        SuggestionDecision { suggestion_id, state: String::from_str("rejected"), settled: false }
    }

    pub fn unlinked(contract_id: u128) -> (r: SuggestionDecision)
        ensures
            r.suggestion_id == contract_id,
            r.state@ == "unlinked"@,
            !r.settled,
    {
        SuggestionDecision { suggestion_id: contract_id, state: String::from_str("unlinked"), settled: false }
    }
}

/// A suggestion can be decided once, while pending. The manual-link path
/// has no suggestion state, which reads as unknown.
pub fn check_suggestion_pending(state: Option<ContractMatchState>) -> (r: Result<(), ApiError>)
    ensures
        result_view(r) == (match state {
            Some(ContractMatchState::Pending) => Ok::<(), ApiErrorView>(()),
            Some(s) => Err(ApiErrorView::Conflict("suggestion is already "@ + s.spelling())),
            None => Err(ApiErrorView::Conflict("suggestion is already (unknown)"@)),
        }),
{
    match state {
        Some(ContractMatchState::Pending) => Ok(()),
        Some(s) => {
            let mut m = String::from_str("suggestion is already ");
            m.append(s.as_str());
            Err(ApiError::Conflict(m))
        },
        None => Err(ApiError::Conflict(String::from_str("suggestion is already (unknown)"))),
    }
}

/// The locked contract and reimbursement a link is about.
#[derive(Debug, Clone, Copy)]
pub struct LinkContext {
    pub contract_id: u128,
    pub contract_type: ContractType,
    pub contract_status: ContractStatus,
    /// `None` for corp-issued contracts.
    pub issuer_user_id: Option<u128>,
    pub assignee_principal_id: Option<u128>,
    pub reimbursement_id: u128,
    pub reimbursement_status: ReimbursementStatus,
    pub reimbursement_contract_id: Option<u128>,
    pub hauler_user_id: u128,
    pub requester_principal_id: u128,
    pub group_id: u128,
}

/// The checks of a link, in order: an item exchange; a reimbursement still
/// pending and unbound; the caller is its hauler; the caller issued the
/// contract (unless a corp did); the assignee, if any, is the requester.
pub open spec fn link_check(ctx: LinkContext, user_id: u128) -> Result<(), ApiErrorView> {
    if ctx.contract_type != ContractType::ItemExchange {
        Err(ApiErrorView::Conflict("contract is not item_exchange"@))
    } else if ctx.reimbursement_status != ReimbursementStatus::Pending
        || ctx.reimbursement_contract_id is Some {
        Err(ApiErrorView::Conflict("reimbursement is no longer eligible"@))
    } else if ctx.hauler_user_id != user_id {
        Err(ApiErrorView::Forbidden(msg_forbidden()))
    } else if ctx.issuer_user_id is Some && ctx.issuer_user_id != Some(user_id) {
        Err(ApiErrorView::Forbidden(msg_forbidden()))
    } else if ctx.assignee_principal_id is Some && ctx.assignee_principal_id != Some(
        ctx.requester_principal_id,
    ) {
        Err(ApiErrorView::Conflict("contract assignee does not match the reimbursement's requester"@))
    } else {
        Ok(())
    }
}

/// The checks on a link before the caller's membership is looked up.
pub fn validate_link(ctx: &LinkContext, user_id: u128) -> (r: Result<(), ApiError>)
    ensures
        result_view(r) == link_check(*ctx, user_id),
{
    if ctx.contract_type != ContractType::ItemExchange {
        return Err(ApiError::Conflict(String::from_str("contract is not item_exchange")));
    }
    if ctx.reimbursement_status != ReimbursementStatus::Pending
        || ctx.reimbursement_contract_id.is_some() {
        return Err(ApiError::Conflict(String::from_str("reimbursement is no longer eligible")));
    }
    if ctx.hauler_user_id != user_id {
        return Err(ApiError::forbidden());
    }
    if let Some(issuer) = ctx.issuer_user_id {
        if issuer != user_id {
            return Err(ApiError::forbidden());
        }
    }
    if let Some(a) = ctx.assignee_principal_id {
        if a != ctx.requester_principal_id {
            return Err(
                ApiError::Conflict(
                    String::from_str("contract assignee does not match the reimbursement's requester"),
                ),
            );
        }
    }
    Ok(())
}

/// The caller must still belong to the list's group.
pub fn require_member(is_member: bool) -> (r: Result<(), ApiError>)
    ensures
        result_view(r) == (if !is_member {
            Err(ApiErrorView::Forbidden(msg_forbidden()))
        } else {
            Ok::<(), ApiErrorView>(())
        }),
{
    if !is_member {
        return Err(ApiError::forbidden());
    }
    Ok(())
}

/// A link against a contract that already finished settles at once.
pub fn link_settles_now(ctx: &LinkContext) -> (r: bool)
    ensures
        r == ctx.contract_status.terminal_success(),
{
    ctx.contract_status.is_terminal_success()
}

/// Who may reject a suggestion: the issuer of a personal contract, the
/// hauler of a corp-issued one; and only while it is pending.
pub open spec fn reject_check(
    state: ContractMatchState,
    issuer_user_id: Option<u128>,
    hauler_user_id: u128,
    user_id: u128,
) -> Result<(), ApiErrorView> {
    if state != ContractMatchState::Pending {
        Err(ApiErrorView::Conflict("suggestion is already "@ + state.spelling()))
    } else if !(match issuer_user_id {
        Some(i) => i == user_id,
        None => hauler_user_id == user_id,
    }) {
        Err(ApiErrorView::Forbidden(msg_forbidden()))
    } else {
        Ok(())
    }
}

pub fn check_reject(
    state: ContractMatchState,
    issuer_user_id: Option<u128>,
    hauler_user_id: u128,
    user_id: u128,
) -> (r: Result<(), ApiError>)
    ensures
        result_view(r) == reject_check(state, issuer_user_id, hauler_user_id, user_id),
{
    if state != ContractMatchState::Pending {
        let mut m = String::from_str("suggestion is already ");
        m.append(state.as_str());
        return Err(ApiError::Conflict(m));
    }
    let allowed = match issuer_user_id {
        Some(i) => i == user_id,
        None => hauler_user_id == user_id,
    };
    if !allowed {
        return Err(ApiError::forbidden());
    }
    Ok(())
}

/// Only the issuer may unlink a contract, and not once it finished: that
/// would unwind a settlement.
pub open spec fn unlink_check(issuer_user_id: Option<u128>, status: ContractStatus, user_id: u128) -> Result<
    (),
    ApiErrorView,
> {
    if issuer_user_id != Some(user_id) {
        Err(ApiErrorView::Forbidden(msg_forbidden()))
    } else if status.terminal_success() {
        Err(
            ApiErrorView::Conflict(
                "cannot unlink a finished contract; that would unwind a settlement"@,
            ),
        )
    } else {
        Ok(())
    }
}

pub fn check_unlink(issuer_user_id: Option<u128>, status: ContractStatus, user_id: u128) -> (r:
    Result<(), ApiError>)
    ensures
        result_view(r) == unlink_check(issuer_user_id, status, user_id),
{
    let is_issuer = match issuer_user_id {
        Some(i) => i == user_id,
        None => false,
    };
    if !is_issuer {
        return Err(ApiError::forbidden());
    }
    if status.is_terminal_success() {
        return Err(
            ApiError::Conflict(
                String::from_str("cannot unlink a finished contract; that would unwind a settlement"),
            ),
        );
    }
    Ok(())
}

/// The index that keeps one confirmed suggestion per reimbursement.
pub const ONE_CONFIRMED_PER_REIMBURSEMENT: &'static str = "one_confirmed_suggestion_per_reimbursement";

/// A failed confirm: a hit on the one-confirmed index is a conflict, any
/// other database error an internal one.
pub fn map_confirmed_dup(constraint: Option<&str>, detail: String) -> (r: ApiError)
    ensures
        (constraint matches Some(c) && c@ == ONE_CONFIRMED_PER_REIMBURSEMENT@) ==> r@
            == ApiErrorView::Conflict("reimbursement already confirmed against another contract"@),
        !(constraint matches Some(c) && c@ == ONE_CONFIRMED_PER_REIMBURSEMENT@) ==> r@
            == ApiErrorView::Internal(detail@),
{
    let hit = match constraint {
        Some(c) => str_eq(c, ONE_CONFIRMED_PER_REIMBURSEMENT),
        None => false,
    };
    if hit {
        ApiError::Conflict(
            String::from_str("reimbursement already confirmed against another contract"),
        )
    } else {
        ApiError::Internal(detail)
    }
}

/// A contract whose link settled at once (it had finished) can never be
/// unlinked, by anyone.
pub proof fn lemma_settled_links_cannot_be_unlinked(ctx: LinkContext, user_id: u128)
    requires
        ctx.contract_status.terminal_success(),
    ensures
        unlink_check(ctx.issuer_user_id, ctx.contract_status, user_id) is Err,
{
}

} // verus!
