use base64::engine::general_purpose::STANDARD as B64;
use base64::Engine;
use jitacart::cipher::{MultiKeyCipher, TokenCipher};
use jitacart::decimal::Dec;
use jitacart::domain::ResolvedType;
use jitacart::errors::ApiError;
use jitacart::groups::check_group_quota;
use jitacart::list_items::{plan_list_items, preview_items, price_candidates, price_lookup};
use jitacart::multibuy::{merge_entry, name_key, parse_multibuy, ParsedLine};
use jitacart::request_tx::current_user_setting;
use jitacart::text::utf8_len_exceeds;
use rust_decimal::Decimal;

fn dec(s: &str) -> Dec {
    let d: Decimal = s.parse().unwrap();
    Dec { mantissa: d.mantissa(), scale: d.scale() }
}

fn value(d: Dec) -> Decimal {
    Decimal::from_i128_with_scale(d.mantissa, d.scale)
}

fn resolved(entries: &[(&str, i64, &str)]) -> Vec<(String, ResolvedType)> {
    entries
        .iter()
        .map(|(k, id, n)| (k.to_string(), ResolvedType { type_id: *id, name: n.to_string() }))
        .collect()
}

#[test]
fn plan_prices_each_line_at_its_cheapest_market() {
    let parsed = parse_multibuy("Tritanium\t100\nPyerite\t3\nTRITANIUM\t20\nZydrine\t1");
    assert!(parsed.errors.is_empty());
    let res = resolved(&[("tritanium", 34, "Tritanium"), ("pyerite", 35, "Pyerite"), ("zydrine", 39, "Zydrine")]);
    let markets = vec![10u128, 20u128];
    let prices = vec![
        (10u128, 34i64, Some(dec("5.50"))),
        (20u128, 34i64, Some(dec("4.25"))),
        (10u128, 35i64, Some(dec("9"))),
        (20u128, 35i64, None),
    ];
    let plan = plan_list_items(&parsed.lines, &res, &markets, &prices).unwrap();
    assert_eq!(plan.rows.len(), 3);
    let t = &plan.rows[0];
    assert_eq!((t.type_id, t.resolved_name.as_str(), t.qty, t.line_no), (34, "Tritanium", 120, 1));
    assert_eq!(value(t.est_unit.unwrap()), Decimal::new(425, 2));
    assert_eq!(t.est_market, Some(20));
    let p = &plan.rows[1];
    assert_eq!((p.type_id, p.qty, p.line_no, p.est_market), (35, 3, 2, Some(10)));
    let z = &plan.rows[2];
    assert_eq!((z.type_id, z.line_no), (39, 4));
    assert!(z.est_unit.is_none() && z.est_market.is_none());
    // 120 * 4.25 + 3 * 9 = 537
    assert_eq!(value(plan.total.unwrap()), Decimal::new(537, 0));
}

#[test]
fn plan_refuses_a_line_without_a_resolved_type() {
    let parsed = parse_multibuy("Tritanium\t1\nMystery Ore\t2\nUnknowium\t3");
    let res = resolved(&[("tritanium", 34, "Tritanium")]);
    match plan_list_items(&parsed.lines, &res, &vec![1u128], &vec![]) {
        Err(ApiError::Internal(m)) => assert_eq!(m, "resolved missing for Mystery Ore"),
        _ => panic!("expected an internal error"),
    }
}

#[test]
fn plan_of_unpriced_items_totals_zero() {
    let parsed = parse_multibuy("Tritanium\t7");
    let res = resolved(&[("tritanium", 34, "Tritanium")]);
    let plan = plan_list_items(&parsed.lines, &res, &vec![1u128, 2u128], &vec![]).unwrap();
    assert_eq!(value(plan.total.unwrap()), Decimal::ZERO);
}

#[test]
fn later_price_rows_replace_earlier_ones() {
    let prices = vec![(1u128, 34i64, Some(dec("3"))), (1u128, 35i64, Some(dec("8"))), (1u128, 34i64, Some(dec("2")))];
    assert_eq!(value(price_lookup(&prices, 1, 34).unwrap()), Decimal::new(2, 0));
    assert!(price_lookup(&prices, 2, 34).is_none());
    let c = price_candidates(&vec![2u128, 1u128], &prices, 35);
    assert_eq!(c.len(), 2);
    assert_eq!(c[0].0, 2);
    assert!(c[0].1.is_none());
    assert_eq!(value(c[1].1.unwrap()), Decimal::new(8, 0));
}

#[test]
fn preview_marks_unknown_items() {
    let parsed = parse_multibuy("Tritanium\t5\nMystery Ore\t2");
    let res = resolved(&[("tritanium", 34, "Tritanium")]);
    let items = preview_items(&parsed.lines, &res);
    assert_eq!(items.len(), 2);
    assert_eq!(items[0].type_id, Some(34));
    assert_eq!(items[0].resolved_name.as_deref(), Some("Tritanium"));
    assert_eq!(items[0].line_nos, vec![1]);
    assert!(items[0].error.is_none());
    assert_eq!(items[1].type_id, None);
    assert_eq!(items[1].name, "Mystery Ore");
    assert_eq!(items[1].qty, 2);
    assert_eq!(items[1].error.as_deref(), Some("unknown item: Mystery Ore"));
}

#[test]
fn merge_entry_adds_to_a_known_key_and_appends_a_new_one() {
    let mut entries: Vec<ParsedLine> = Vec::new();
    let mut keys: Vec<String> = Vec::new();
    merge_entry(&mut entries, &mut keys, "tritanium".into(), "Tritanium".into(), 100, 1);
    merge_entry(&mut entries, &mut keys, "pyerite".into(), "Pyerite".into(), 5, 2);
    merge_entry(&mut entries, &mut keys, "tritanium".into(), "TRITANIUM".into(), 250, 3);
    assert_eq!(keys, vec!["tritanium".to_string(), "pyerite".to_string()]);
    assert_eq!(entries.len(), 2);
    assert_eq!(entries[0].name, "Tritanium");
    assert_eq!(entries[0].qty, 350);
    assert_eq!(entries[0].line_nos, vec![1, 3]);
    assert_eq!(entries[1].qty, 5);
    assert_eq!(entries[1].line_nos, vec![2]);
}

#[test]
fn names_differing_in_case_share_a_key() {
    assert_eq!(name_key("TRITANIUM"), name_key("Tritanium"));
    assert_eq!(name_key("  Pyerite "), "pyerite");
    assert!(!name_key("X").is_empty());
}

#[test]
fn user_setting_is_the_hyphenated_uuid() {
    let id: u128 = 0x0123_4567_89ab_cdef_0123_4567_89ab_cdef;
    assert_eq!(current_user_setting(Some(id)), "01234567-89ab-cdef-0123-456789abcdef");
}

#[test]
fn utf8_length_against_a_limit() {
    assert!(!utf8_len_exceeds("abc", 3));
    assert!(utf8_len_exceeds("abcd", 3));
    // "é" is two bytes in UTF-8
    assert!(utf8_len_exceeds("éé", 3));
    assert!(!utf8_len_exceeds("éé", 4));
    assert!(!utf8_len_exceeds("", 0));
}

#[test]
fn group_quota_message_names_count_and_cap() {
    match check_group_quota(2, 2) {
        Err(ApiError::QuotaExceeded(m)) => {
            assert!(m.contains("already a member of 2"));
            assert!(m.contains("limit 2"));
        }
        _ => panic!("expected the quota refusal"),
    }
    assert!(check_group_quota(1, 5).is_ok());
}

#[test]
fn ciphertext_carries_a_sixteen_byte_tag() {
    let key = B64.encode([7u8; 32]);
    let multi = MultiKeyCipher::from_keys(vec![("v1".to_string(), key.clone())], "v1".to_string()).unwrap();
    let (ct, nonce, kid) = multi.encrypt(b"hello", b"aad").unwrap();
    assert_eq!(ct.len(), 5 + 16);
    assert_eq!(nonce.len(), 12);
    assert_eq!(kid, "v1");
    let single = TokenCipher::from_b64(&key).unwrap();
    let (ct2, nonce2) = single.encrypt(b"").unwrap();
    assert_eq!(ct2.len(), 16);
    assert_eq!(nonce2.len(), 12);
}
