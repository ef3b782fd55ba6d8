use jitacart::domain::ListItemStatus::{Bought, Claimed, Delivered, Open, Settled};
use jitacart::domain::{ContractStatus, ContractType, GroupRole, MarketKind};
use jitacart::errors::ApiError;
use jitacart::fulfillment::{recompute_item_status, DeliveredDemotion};

#[test]
fn contract_type_round_trips_through_its_spelling() {
    for t in [ContractType::ItemExchange, ContractType::Auction, ContractType::Courier, ContractType::Unknown] {
        assert_eq!(ContractType::from_str(t.as_str()).unwrap(), t);
    }
    assert_eq!(ContractType::from_str("loan").unwrap_err(), "unknown contract type: loan");
}

#[test]
fn contract_status_round_trips_through_its_spelling() {
    let all = [
        ContractStatus::Outstanding,
        ContractStatus::InProgress,
        ContractStatus::FinishedIssuer,
        ContractStatus::FinishedContractor,
        ContractStatus::Finished,
        ContractStatus::Cancelled,
        ContractStatus::Rejected,
        ContractStatus::Failed,
        ContractStatus::Deleted,
        ContractStatus::Reversed,
    ];
    for s in all {
        assert_eq!(ContractStatus::from_str(s.as_str()).unwrap(), s);
        assert!(!(s.is_terminal_success() && s.is_terminal_failure()));
    }
    assert!(ContractStatus::Finished.is_terminal_success());
    assert!(ContractStatus::Cancelled.is_terminal_failure());
    assert!(!ContractStatus::Outstanding.is_terminal_success());
    assert_eq!(ContractStatus::from_str("done").unwrap_err(), "unknown contract status: done");
}

#[test]
fn roles_and_market_kinds_parse_their_spellings() {
    assert_eq!(GroupRole::parse("owner"), Some(GroupRole::Owner));
    assert_eq!(GroupRole::parse("member"), Some(GroupRole::Member));
    assert_eq!(GroupRole::parse("Owner"), None);
    assert_eq!(MarketKind::parse("npc_hub"), Some(MarketKind::NpcHub));
    assert_eq!(MarketKind::parse("public_structure"), Some(MarketKind::PublicStructure));
    assert_eq!(MarketKind::parse("citadel"), None);
}

#[test]
fn item_status_follows_counts() {
    let allow = DeliveredDemotion::Allow;
    assert_eq!(recompute_item_status(Open, allow, 10, 10, false), Bought);
    assert_eq!(recompute_item_status(Open, allow, 10, 3, true), Claimed);
    assert_eq!(recompute_item_status(Claimed, allow, 10, 3, false), Open);
    assert_eq!(recompute_item_status(Bought, allow, 10, 12, false), Bought);
}

#[test]
fn settled_and_delivered_items_keep_their_status() {
    assert_eq!(recompute_item_status(Settled, DeliveredDemotion::Allow, 10, 0, false), Settled);
    assert_eq!(recompute_item_status(Delivered, DeliveredDemotion::Forbid, 10, 0, false), Delivered);
    assert_eq!(recompute_item_status(Delivered, DeliveredDemotion::Allow, 10, 10, false), Delivered);
    assert_eq!(recompute_item_status(Delivered, DeliveredDemotion::Allow, 10, 4, true), Claimed);
}

#[test]
fn recompute_is_idempotent() {
    for cur in [Open, Claimed, Bought, Delivered, Settled] {
        for (req, ful, claim) in [(5, 0, false), (5, 2, true), (5, 5, false), (5, 9, true)] {
            let once = recompute_item_status(cur, DeliveredDemotion::Allow, req, ful, claim);
            let twice = recompute_item_status(once, DeliveredDemotion::Allow, req, ful, claim);
            assert_eq!(once, twice);
        }
    }
}

#[test]
fn api_errors_map_to_statuses_and_bodies() {
    assert_eq!(ApiError::BadRequest("bad".into()).status(), 400);
    assert_eq!(ApiError::Unauthorized.status(), 401);
    assert_eq!(ApiError::forbidden().status(), 403);
    assert_eq!(ApiError::not_found().status(), 404);
    assert_eq!(ApiError::Conflict("c".into()).status(), 409);
    assert_eq!(ApiError::QuotaExceeded("q".into()).status(), 422);
    assert_eq!(ApiError::internal("db down".into()).status(), 500);
    assert_eq!(ApiError::internal("db down".into()).body(), "internal error");
    assert_eq!(ApiError::Unauthorized.body(), "not logged in");
    assert_eq!(ApiError::BadRequest("bad".into()).body(), "bad");
    assert_eq!(ApiError::forbidden().body(), "you cannot perform this action");
    assert_eq!(ApiError::not_found().body(), "not found");
}
