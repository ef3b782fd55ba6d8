use jitacart::health::{health_status, metrics_bind, readiness};
use jitacart::decimal::Dec;
use jitacart::detail::{ClaimRow, ReimbursementRow};
use jitacart::domain::{ClaimStatus, ContractStatus, MarketKind, ReimbursementStatus};
use jitacart::markets::{GroupMarketRow, MarketRow};

fn row() -> ReimbursementRow {
    ReimbursementRow {
        id: 1,
        list_id: 2,
        requester_user_id: None,
        hauler_user_id: 3,
        subtotal_isk: Dec { mantissa: 10000, scale: 2 },
        tip_isk: Dec { mantissa: 500, scale: 2 },
        total_isk: Dec { mantissa: 10500, scale: 2 },
        status: ReimbursementStatus::Pending,
        settled_at: None,
        settled_by_user_id: None,
        contract_id: Some(9),
        created_at: 1,
        updated_at: 2,
        requester_display_name: "Corp".into(),
        hauler_display_name: "Bob".into(),
        contract_esi_contract_id: Some(123),
        contract_status: Some(ContractStatus::Outstanding),
        contract_price_isk: Some(Dec { mantissa: 105, scale: 0 }),
        contract_expected_total_isk: None,
        contract_settlement_delta_isk: None,
        contract_date_completed: None,
        requester_principal_id: 4,
        hauler_principal_id: 5,
        is_corp_funded: true,
        verified_by_wallet: false,
        wallet_settlement_delta_isk: None,
    }
}

#[test]
fn reimbursement_carries_its_contract_summary() {
    let r = row().into_reimbursement();
    let c = r.contract.expect("summary");
    assert_eq!(c.esi_contract_id, 123);
    assert_eq!(c.status, ContractStatus::Outstanding);
    assert_eq!(r.hauler_display_name, "Bob");
    assert!(r.is_corp_funded);
    let partial = ReimbursementRow { contract_price_isk: None, ..row() };
    assert!(partial.into_reimbursement().contract.is_none());
}

#[test]
fn claims_without_items_get_an_empty_list() {
    let base = ClaimRow {
        id: 1,
        list_id: 2,
        hauler_user_id: 3,
        hauler_display_name: "Bob".into(),
        status: ClaimStatus::Active,
        note: None,
        item_ids: None,
        created_at: 5,
        released_at: None,
    };
    assert!(base.clone().into_claim().item_ids.is_empty());
    let with = ClaimRow { item_ids: Some(vec![7, 8]), ..base };
    assert_eq!(with.into_claim().item_ids, vec![7, 8]);
}

#[test]
fn group_markets_parse_their_kind() {
    let market = MarketRow {
        id: 1,
        kind: "npc_hub".into(),
        esi_location_id: 60003760,
        region_id: Some(10000002),
        name: Some("Jita IV - Moon 4".into()),
        short_label: Some("Jita".into()),
        is_hub: true,
        is_public: true,
    };
    let g = GroupMarketRow {
        row: market.clone(),
        last_orders_synced_at: Some(42),
        untrackable_until: None,
        accessing_character_id: None,
        accessing_character_name: None,
    }
    .into_group_market()
    .unwrap();
    assert_eq!(g.market.kind, MarketKind::NpcHub);
    assert_eq!(g.last_orders_synced_at, Some(42));
    let bad = GroupMarketRow {
        row: MarketRow { kind: "moon".into(), ..market },
        last_orders_synced_at: None,
        untrackable_until: None,
        accessing_character_id: None,
        accessing_character_name: None,
    };
    assert_eq!(bad.into_group_market().err().unwrap(), "unknown market kind: moon");
}

#[test]
fn health_answers() {
    assert_eq!(health_status(true), "ok");
    assert_eq!(health_status(false), "degraded");
    assert_eq!(readiness(true, 8, 1, 8), (true, 200));
    assert_eq!(readiness(true, 3, 0, 8), (true, 200));
    assert_eq!(readiness(true, 8, 0, 8), (false, 503));
    assert_eq!(readiness(false, 1, 1, 8), (false, 503));
    assert_eq!(metrics_bind("  0.0.0.0:9090 "), Some("0.0.0.0:9090".to_string()));
    assert_eq!(metrics_bind("   "), None);
}
