use jitacart::config::{default_auth_burst, default_items_per_list, default_lists_per_group, AbuseLimits, RateLimitConfig};
use jitacart::decimal::Dec;
use jitacart::domain::{ClaimStatus, ContractStatus, ContractType, GroupRole, ListItemStatus, ListStatus, ReimbursementStatus};
use jitacart::errors::ApiError;
use jitacart::extract::{current_group, current_list, CurrentList};
use jitacart::contracts::{validate_link, LinkContext};
use jitacart::fulfillment::{
    check_claimable_items, check_fulfillment_body, check_fulfillment_qty, check_mark_delivered,
    check_new_claim, check_tip_edit, ensure_claim_writable, resolve_fulfillment_claim, validate_tip_pct,
};

fn d(m: i128, s: u32) -> Dec {
    Dec { mantissa: m, scale: s }
}

#[test]
fn fulfillment_body_rules() {
    assert!(matches!(check_fulfillment_body(0, d(1, 0), Some(1), &None), Err(ApiError::BadRequest(m)) if m == "qty must be positive"));
    assert!(matches!(check_fulfillment_body(1, d(-1, 0), Some(1), &None), Err(ApiError::BadRequest(m)) if m == "unit_price_isk must be >= 0"));
    assert!(matches!(check_fulfillment_body(1, d(5, 0), None, &None), Err(ApiError::BadRequest(m)) if m == "bought_at_note is required when no market is specified"));
    assert!(matches!(check_fulfillment_body(1, d(5, 0), None, &Some("   ".into())), Err(ApiError::BadRequest(m)) if m == "bought_at_note must not be blank"));
    assert!(check_fulfillment_body(1, d(5, 0), None, &Some("Jita 4-4".into())).is_ok());
    assert!(check_fulfillment_body(2, d(0, 0), Some(9), &None).is_ok());
}

#[test]
fn fulfillment_quantity_cannot_exceed_request() {
    assert!(matches!(check_fulfillment_qty(5, 10, 6), Err(ApiError::Conflict(m)) if m == "fulfillment qty 5 would exceed requested 10 (already fulfilled: 6)"));
    assert!(check_fulfillment_qty(4, 10, 6).is_ok());
}

#[test]
fn claims_and_delivery() {
    assert!(ensure_claim_writable(1, 1, GroupRole::Member, ClaimStatus::Active).is_ok());
    assert!(matches!(ensure_claim_writable(2, 1, GroupRole::Member, ClaimStatus::Active), Err(ApiError::Forbidden(_))));
    assert!(matches!(ensure_claim_writable(2, 1, GroupRole::Owner, ClaimStatus::Released), Err(ApiError::Conflict(m)) if m == "claim is released, not active"));
    assert!(matches!(check_new_claim(ListStatus::Archived, 1), Err(ApiError::Conflict(m)) if m == "list is archived; claims can only be created on open lists"));
    assert!(matches!(check_new_claim(ListStatus::Open, 0), Err(ApiError::BadRequest(m)) if m == "item_ids must not be empty"));
    assert!(matches!(check_claimable_items(&vec!["open".into()], 2), Err(ApiError::BadRequest(_))));
    assert!(matches!(check_claimable_items(&vec!["open".into(), "bought".into()], 2), Err(ApiError::Conflict(m)) if m == "cannot claim item with status 'bought'; only open items may be claimed"));
    assert!(check_claimable_items(&vec!["open".into(), "open".into()], 2).is_ok());
    assert!(matches!(check_mark_delivered(ListItemStatus::Claimed, "claimed", Some(1), 1, GroupRole::Member), Err(ApiError::BadRequest(m)) if m == "item must be in 'bought' status to mark delivered (currently: claimed)"));
    assert!(check_mark_delivered(ListItemStatus::Bought, "bought", Some(1), 1, GroupRole::Member).is_ok());
    assert!(matches!(check_mark_delivered(ListItemStatus::Bought, "bought", Some(1), 2, GroupRole::Member), Err(ApiError::Forbidden(_))));
    assert_eq!(resolve_fulfillment_claim(None, 1, GroupRole::Member, None).unwrap(), None);
    assert_eq!(resolve_fulfillment_claim(Some((7, 1)), 1, GroupRole::Member, Some(7)).unwrap(), Some(7));
    assert!(matches!(resolve_fulfillment_claim(Some((7, 1)), 1, GroupRole::Member, Some(8)), Err(ApiError::BadRequest(m)) if m == "claim_id does not match the active claim for this item"));
}

#[test]
fn tips() {
    assert!(validate_tip_pct(d(15, 2)).is_ok());
    assert!(validate_tip_pct(d(1, 0)).is_ok());
    assert!(matches!(validate_tip_pct(d(101, 2)), Err(ApiError::BadRequest(m)) if m == "tip_pct must be between 0 and 1"));
    assert!(validate_tip_pct(d(-1, 3)).is_err());
    assert!(check_tip_edit(true, false, false).is_ok());
    assert!(check_tip_edit(true, false, true).is_err());
    assert!(check_tip_edit(false, true, true).is_ok());
    assert!(check_tip_edit(false, false, false).is_err());
}

fn link(issuer: Option<u128>, assignee: Option<u128>) -> LinkContext {
    LinkContext {
        contract_id: 1,
        contract_type: ContractType::ItemExchange,
        contract_status: ContractStatus::Outstanding,
        issuer_user_id: issuer,
        assignee_principal_id: assignee,
        reimbursement_id: 2,
        reimbursement_status: ReimbursementStatus::Pending,
        reimbursement_contract_id: None,
        hauler_user_id: 10,
        requester_principal_id: 20,
        group_id: 3,
    }
}

#[test]
fn contract_links() {
    assert!(validate_link(&link(Some(10), Some(20)), 10).is_ok());
    assert!(validate_link(&link(None, None), 10).is_ok());
    assert!(matches!(validate_link(&link(Some(11), None), 10), Err(ApiError::Forbidden(_))));
    assert!(matches!(validate_link(&link(Some(10), Some(21)), 10), Err(ApiError::Conflict(m)) if m == "contract assignee does not match the reimbursement's requester"));
    let mut courier = link(None, None);
    courier.contract_type = ContractType::Courier;
    assert!(matches!(validate_link(&courier, 10), Err(ApiError::Conflict(m)) if m == "contract is not item_exchange"));
}

#[test]
fn request_context() {
    let g = current_group(1, 2, Some(GroupRole::Owner)).unwrap();
    assert_eq!(g.group_id, 2);
    let rej = current_group(1, 2, None).unwrap_err();
    assert_eq!(rej.status, 403);
    assert_eq!(rej.message, "you are not a member of this group");
    let rej = current_list(1, 5, None).unwrap_err();
    assert_eq!(rej.status, 404);
    let l: CurrentList = current_list(1, 5, Some((2, 1, ListStatus::Archived, Some(GroupRole::Member)))).unwrap();
    assert!(matches!(l.require_mutable(), Err(ApiError::Conflict(m)) if m == "list is archived; no changes can be made"));
}

#[test]
fn config_defaults() {
    assert_eq!(default_items_per_list(), 500);
    assert_eq!(default_lists_per_group(), 200);
    assert_eq!(default_auth_burst(), 5);
    let limits = AbuseLimits::default();
    assert_eq!(limits.groups_per_user, 10);
    assert_eq!(limits.characters_per_user, 12);
    let rl = RateLimitConfig::default();
    assert_eq!(rl.per_ip_burst, 30);
}
