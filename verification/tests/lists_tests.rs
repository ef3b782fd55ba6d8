use jitacart::decimal::Dec;
use jitacart::domain::{Market, MarketKind, ResolvedType};
use jitacart::errors::ApiError;
use jitacart::lists::{
    check_all_resolved, check_item_resolved, check_items_cap, check_lists_quota, dedup_type_ids,
    estimate_total, new_item_lines, pick_cheapest, preview_line_error, primary_market_id,
    validate_market_ids_size, validate_markets_for_group, validate_multibuy_size, validate_new_list,
};
use jitacart::type_resolution::{lookup_resolved, merge_resolution, names_to_fetch, requested_names};
use rust_decimal::Decimal;

fn dec(s: &str) -> Dec {
    let d: Decimal = s.parse().unwrap();
    Dec { mantissa: d.mantissa(), scale: d.scale() }
}

fn value(d: Dec) -> Decimal {
    Decimal::from_i128_with_scale(d.mantissa, d.scale)
}

fn bad_request(r: Result<(), ApiError>) -> String {
    match r {
        Err(ApiError::BadRequest(m)) => m,
        other => panic!("expected a bad request, got {other:?}"),
    }
}

#[test]
fn market_id_limits() {
    assert_eq!(bad_request(validate_market_ids_size(&[])), "market_ids must not be empty");
    let nine: Vec<u128> = (1..=9).collect();
    assert_eq!(bad_request(validate_market_ids_size(&nine)), "too many market_ids (9); max 8");
    assert_eq!(bad_request(validate_market_ids_size(&[1, 2, 1])), "market_ids contains duplicates");
    assert!(validate_market_ids_size(&[1, 2, 3]).is_ok());
}

#[test]
fn multibuy_size_limit() {
    let big = "a".repeat(65537);
    assert_eq!(bad_request(validate_multibuy_size(&big)), "multibuy too large (65537 bytes); max 65536");
    assert!(validate_multibuy_size(&"a".repeat(65536)).is_ok());
}

#[test]
fn new_list_requires_primary_among_markets_and_clean_parse() {
    assert_eq!(
        bad_request(validate_new_list("Tritanium\t1", &[1, 2], 3, 100).map(|_| ())),
        "primary_market_id must be in market_ids"
    );
    assert_eq!(
        bad_request(validate_new_list("Tritanium\tlots", &[1], 1, 100).map(|_| ())),
        "1 multibuy line(s) failed to parse"
    );
    assert_eq!(bad_request(validate_new_list("\n\n", &[1], 1, 100).map(|_| ())), "multibuy is empty");
    match validate_new_list("Tritanium\t1\nPyerite\t2", &[1], 1, 1) {
        Err(ApiError::QuotaExceeded(m)) => assert_eq!(m, "list has 2 items; per-list cap is 1"),
        other => panic!("unexpected {other:?}"),
    }
    let p = validate_new_list("Tritanium\t1\nPyerite\t2", &[1], 1, 10).unwrap();
    assert_eq!(p.lines.len(), 2);
}

#[test]
fn add_items_lines_from_paste_or_single_item() {
    let lines = new_item_lines(Some("Tritanium\t5\n\nPyerite\t7".into()), None, None).unwrap();
    assert_eq!(lines, vec![("Tritanium".to_string(), 5, 1), ("Pyerite".to_string(), 7, 3)]);
    let one = new_item_lines(None, Some("Mexallon".into()), Some(3)).unwrap();
    assert_eq!(one, vec![("Mexallon".to_string(), 3, 0)]);
    assert_eq!(bad_request(new_item_lines(None, Some("Mexallon".into()), Some(0)).map(|_| ())), "qty must be positive");
    assert_eq!(
        bad_request(new_item_lines(None, None, Some(3)).map(|_| ())),
        "provide either {multibuy} or {type_name, qty}"
    );
}

#[test]
fn unresolved_names_are_listed() {
    assert!(check_all_resolved(&vec![]).is_ok());
    assert_eq!(
        bad_request(check_all_resolved(&vec!["Foo".into(), "Bar Baz".into()])),
        "unknown item(s): Foo, Bar Baz"
    );
    assert_eq!(bad_request(check_item_resolved("Foo", false)), "unknown item: Foo");
    assert!(check_item_resolved("Foo", true).is_ok());
    assert_eq!(preview_line_error("Foo", false), Some("unknown item: Foo".to_string()));
    assert_eq!(preview_line_error("Foo", true), None);
}

#[test]
fn quotas() {
    match check_lists_quota(5, 5) {
        Err(ApiError::QuotaExceeded(m)) => {
            assert_eq!(m, "this group already has 5 active lists (cap 5); archive some before adding more")
        }
        other => panic!("unexpected {other:?}"),
    }
    assert!(check_lists_quota(4, 5).is_ok());
    match check_items_cap(8, 3, 10) {
        Err(ApiError::QuotaExceeded(m)) => {
            assert_eq!(m, "adding 3 items would push the list past its per-list cap (8 of 10)")
        }
        other => panic!("unexpected {other:?}"),
    }
    assert!(check_items_cap(7, 3, 10).is_ok());
}

fn market(id: u128, kind: MarketKind, label: &str, is_hub: bool, is_public: bool) -> Market {
    Market {
        id,
        kind,
        esi_location_id: 60003760,
        region_id: Some(10000002),
        name: None,
        short_label: Some(label.to_string()),
        is_hub,
        is_public,
    }
}

#[test]
fn markets_must_be_usable_by_the_group() {
    let jita = market(1, MarketKind::NpcHub, "Jita", true, true);
    let citadel = market(2, MarketKind::PublicStructure, "Perimeter TTT", false, true);
    assert!(validate_markets_for_group(&vec![jita.clone(), citadel.clone()], &vec![2]).is_ok());
    assert_eq!(
        bad_request(validate_markets_for_group(&vec![jita.clone(), citadel.clone()], &vec![])),
        "citadel 'Perimeter TTT' is not tracked by this group"
    );
    let private = market(3, MarketKind::NpcHub, "Amarr", true, false);
    assert_eq!(bad_request(validate_markets_for_group(&vec![private], &vec![])), "market Amarr is not public");
    let not_hub = market(4, MarketKind::NpcHub, "Dodixie", false, true);
    assert_eq!(
        bad_request(validate_markets_for_group(&vec![not_hub], &vec![])),
        "market Dodixie is marked as NPC hub but is_hub=false"
    );
}

#[test]
fn primary_market_is_found() {
    assert_eq!(primary_market_id(&vec![(7, false), (9, true)]).unwrap(), 9);
    assert!(matches!(primary_market_id(&vec![(7, false)]), Err(ApiError::Internal(_))));
}

#[test]
fn type_ids_are_deduplicated_and_sorted() {
    assert_eq!(dedup_type_ids(&vec![34, 35, 34, 11, 35]), vec![11, 34, 35]);
    assert_eq!(dedup_type_ids(&vec![]), Vec::<i64>::new());
}

#[test]
fn cheapest_market_wins_and_ties_keep_the_first() {
    let (price, at) = pick_cheapest(&vec![(1, Some(dec("5.50"))), (2, None), (3, Some(dec("4.10"))), (4, Some(dec("4.1")))]);
    assert_eq!(value(price.unwrap()), "4.10".parse::<Decimal>().unwrap());
    assert_eq!(at, Some(3));
    assert_eq!(pick_cheapest(&vec![(1, None)]).1, None);
}

#[test]
fn estimate_sums_unit_times_quantity() {
    let total = estimate_total(&vec![(Some(dec("5.50")), 10), (None, 3), (Some(dec("0.25")), 4)]).unwrap();
    assert_eq!(value(total), "56".parse::<Decimal>().unwrap());
    assert_eq!(value(estimate_total(&vec![]).unwrap()), Decimal::ZERO);
}

#[test]
fn names_resolve_through_cache_then_esi() {
    let names: Vec<String> = vec!["Tritanium".into(), " TRITANIUM ".into(), "Pyerite".into(), "Zydrine".into(), "  ".into()];
    let req = requested_names(&names);
    assert_eq!(req, vec![("tritanium".to_string(), "Tritanium".to_string()), ("pyerite".to_string(), "Pyerite".to_string()), ("zydrine".to_string(), "Zydrine".to_string())]);
    let cached = vec![("tritanium".to_string(), 34i64, "Tritanium".to_string())];
    let to_fetch = names_to_fetch(&req, &vec!["tritanium".to_string()]);
    assert_eq!(to_fetch, vec!["Pyerite".to_string(), "Zydrine".to_string()]);
    let echoed = vec![(35i64, "Pyerite".to_string())];
    let r = merge_resolution(&req, &cached, &echoed);
    let resolved: Vec<(String, i64, String)> = r.resolved.iter().map(|(k, t)| (k.clone(), t.type_id, t.name.clone())).collect();
    assert_eq!(resolved, vec![("tritanium".to_string(), 34, "Tritanium".to_string()), ("pyerite".to_string(), 35, "Pyerite".to_string())]);
    assert_eq!(r.unresolved, vec!["Zydrine".to_string()]);
    assert_eq!(r.to_upsert, vec![("pyerite".to_string(), "Pyerite".to_string(), 35, "Pyerite".to_string())]);
    let t: ResolvedType = lookup_resolved(&r.resolved, "PYERITE").unwrap();
    assert_eq!(t.type_id, 35);
    assert!(matches!(lookup_resolved(&r.resolved, "Zydrine"), Err(ApiError::Internal(m)) if m == "resolved missing for Zydrine"));
}
