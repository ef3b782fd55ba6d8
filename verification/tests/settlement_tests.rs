use jitacart::citadels::{check_trackable, check_untracked, search_pattern, CitadelError};
use jitacart::decimal::Dec;
use jitacart::errors::ApiError;
use jitacart::groups::{check_group_quota, check_leave, validate_group_name};
use jitacart::markets::{aggregate_region_orders, aggregate_structure_orders, refresh_params, stale_type_ids, OrderFacts};
use jitacart::settlement::{check_all_delivered, payout_to_verify, plan_manual_settle, wallet_deltas, SettleScope, SettlementError};
use rust_decimal::Decimal;

fn dec(s: &str) -> Dec {
    let d: Decimal = s.parse().unwrap();
    Dec { mantissa: d.mantissa(), scale: d.scale() }
}

fn value(d: Dec) -> Decimal {
    Decimal::from_i128_with_scale(d.mantissa, d.scale)
}

#[test]
fn manual_settle_plan() {
    assert_eq!(plan_manual_settle(None), Err(SettlementError::NotFound));
    assert_eq!(plan_manual_settle(Some(("settled".into(), false, Some(4)))), Err(SettlementError::NotPending("settled".into())));
    assert_eq!(plan_manual_settle(Some(("pending".into(), true, None))), Ok(SettleScope::CorpFunded));
    assert_eq!(plan_manual_settle(Some(("pending".into(), false, Some(4)))), Ok(SettleScope::Personal { requester_user_id: 4 }));
    assert_eq!(plan_manual_settle(Some(("pending".into(), false, None))), Err(SettlementError::NotFound));
    assert_eq!(check_all_delivered(2), Err(SettlementError::NotDelivered { count: 2 }));
    assert!(check_all_delivered(0).is_ok());
}

#[test]
fn settlement_errors_read_as_api_errors() {
    assert!(matches!(SettlementError::NotPending("settled".into()).into_api_error(), ApiError::Conflict(m) if m == "reimbursement is already settled"));
    assert!(matches!(SettlementError::NotDelivered { count: 3 }.into_api_error(), ApiError::Conflict(m) if m == "3 item(s) must be fully bought and delivered before settling"));
    assert_eq!(SettlementError::NotDelivered { count: 3 }.text(), "items still owe delivery: 3");
    assert_eq!(SettlementError::NotFound.text(), "settlement target not found");
}

#[test]
fn wallet_payout_is_split_in_proportion() {
    // 300 + 100 owed, 360 paid: shares 270 and 90.
    let deltas = wallet_deltas(dec("360"), &vec![dec("300"), dec("100")]).unwrap();
    assert_eq!(value(deltas[0]), "-30".parse::<Decimal>().unwrap());
    assert_eq!(value(deltas[1]), "-10".parse::<Decimal>().unwrap());
    // Shares are rounded to cents.
    let thirds = wallet_deltas(dec("100"), &vec![dec("1"), dec("1"), dec("1")]).unwrap();
    assert_eq!(value(thirds[0]), "32.33".parse::<Decimal>().unwrap());
    // Totals summing to zero get no share.
    let zero = wallet_deltas(dec("50"), &vec![dec("0")]).unwrap();
    assert_eq!(value(zero[0]), Decimal::ZERO);
    assert!(payout_to_verify(None).is_none());
    assert!(payout_to_verify(Some(dec("0"))).is_none());
    assert_eq!(value(payout_to_verify(Some(dec("12.5"))).unwrap()), "12.5".parse::<Decimal>().unwrap());
}

fn order(order_id: i64, type_id: i64, location_id: i64, is_buy_order: bool, volume_remain: i64) -> OrderFacts {
    OrderFacts { order_id, type_id, location_id, is_buy_order, volume_remain }
}

#[test]
fn regional_book_counts_the_market_location_only() {
    let orders = vec![order(1, 34, 60003760, false, 100), order(2, 34, 60008494, false, 50), order(3, 34, 60003760, true, 10), order(4, 34, 60003760, false, 5)];
    let agg = aggregate_region_orders(&orders, 34, 60003760);
    assert_eq!(agg.sell_orders, vec![0, 3]);
    assert_eq!(agg.buy_orders, vec![2]);
    assert_eq!(agg.sell_volume, 105);
    assert_eq!(agg.buy_volume, 10);
}

#[test]
fn structure_book_dedupes_orders_and_covers_every_type() {
    let orders = vec![order(1, 34, 1, false, 100), order(1, 34, 1, false, 100), order(2, 35, 1, true, 7)];
    let aggs = aggregate_structure_orders(&orders, &vec![34, 35, 36]);
    assert_eq!(aggs.len(), 3);
    assert_eq!(aggs[0].sell_volume, 100);
    assert_eq!(aggs[0].sell_orders, vec![0]);
    assert_eq!(aggs[1].buy_volume, 7);
    assert_eq!(aggs[2].sell_volume, 0);
    assert!(aggs[2].buy_orders.is_empty());
}

#[test]
fn refresh_inputs() {
    assert_eq!(stale_type_ids(&vec![34, 35, 36], &vec![35]), vec![34, 36]);
    assert_eq!(refresh_params(Some(10000002), 34).unwrap(), (10000002, 34));
    assert_eq!(refresh_params(None, 34).unwrap_err(), "refresh_one called on market without region_id");
    assert_eq!(refresh_params(Some(1 << 40), 34).unwrap_err(), format!("region_id {} does not fit in i32", 1i64 << 40));
}

#[test]
fn group_rules() {
    assert_eq!(validate_group_name("  Haulers  ").unwrap(), "Haulers");
    assert!(matches!(validate_group_name("   "), Err(ApiError::BadRequest(m)) if m == "name must be 1\u{2013}80 characters"));
    assert!(validate_group_name(&"x".repeat(81)).is_err());
    let members = vec![(1u128, "owner".to_string()), (2, "member".to_string())];
    assert!(matches!(check_leave(&members, 1), Err(ApiError::BadRequest(m)) if m == "you are the last owner; delete the group instead"));
    assert!(check_leave(&members, 2).is_ok());
    assert!(matches!(check_leave(&members, 3), Err(ApiError::Forbidden(_))));
    let two_owners = vec![(1u128, "owner".to_string()), (2, "owner".to_string())];
    assert!(check_leave(&two_owners, 1).is_ok());
    assert!(matches!(check_group_quota(3, 3), Err(ApiError::QuotaExceeded(_))));
    assert!(check_group_quota(2, 3).is_ok());
}

#[test]
fn citadel_search_and_tracking() {
    assert_eq!(search_pattern("   ").unwrap(), None);
    assert_eq!(search_pattern(" Perim%e_ter ").unwrap(), Some("%Perimeter%".to_string()));
    assert!(matches!(search_pattern(&"a".repeat(101)), Err(CitadelError::BadRequest(m)) if m == "query too long"));
    assert!(check_trackable(Some(("public_structure".into(), true, true))).is_ok());
    assert!(matches!(check_trackable(Some(("npc_hub".into(), true, true))), Err(CitadelError::BadRequest(_))));
    assert!(matches!(check_trackable(None), Err(CitadelError::NotFound)));
    assert!(matches!(check_trackable(Some(("castle".into(), true, true))), Err(CitadelError::Internal(m)) if m == "bad kind: unknown market kind: castle"));
    assert!(check_untracked(1).is_ok());
    assert!(matches!(check_untracked(0), Err(CitadelError::NotFound)));
}
