use base64::engine::general_purpose::STANDARD as B64;
use base64::Engine;
use jitacart::auth::{check_callback_state, check_captcha, VerifyResponse};
use jitacart::cipher::TokenCipher;
use jitacart::errors::ApiError;
use jitacart::fulfillment::{claim_insert_error, is_claim_conflict};
use jitacart::jwt::{cached_key, header_kid, jwk_alg, key_in_fetched, EveClaims, ScopesField};
use jitacart::request_tx::{current_user_setting, tx_end_for, TxEnd};
use jitacart::tokens::{open_stored_tokens, reuse_cached_client, rotation_to_persist, StoredTokens};
use jitacart::webhook::{dispatch_target, validate_upsert, Error, WebhookConfig, WebhookEvent};
use jitacart::domain::GroupRole;
use uuid::Uuid;

#[test]
fn captcha_and_callback_gates() {
    let ok = VerifyResponse { success: true, error_codes: vec![] };
    assert!(check_captcha(&ok).is_ok());
    let refused = VerifyResponse { success: false, error_codes: vec!["timeout-or-duplicate".into()] };
    assert!(matches!(check_captcha(&refused), Err(ApiError::Forbidden(m)) if m == "captcha verification required for new accounts"));
    assert!(check_callback_state(Some("abc"), "abc").is_ok());
    assert!(matches!(check_callback_state(Some("abc"), "abd"), Err(ApiError::BadRequest(m)) if m == "state mismatch"));
    assert!(matches!(check_callback_state(None, "abc"), Err(ApiError::BadRequest(m)) if m == "no pending auth in session"));
}

#[test]
fn claims_give_character_and_scopes() {
    let c = EveClaims {
        sub: "CHARACTER:EVE:90000001".into(),
        name: "Pilot".into(),
        owner: "hash".into(),
        scp: ScopesField::One("publicData esi-markets.structure_markets.v1".into()),
    };
    assert_eq!(c.character_id().unwrap(), 90000001);
    assert_eq!(c.scopes(), vec!["publicData".to_string(), "esi-markets.structure_markets.v1".to_string()]);
    let bad = EveClaims { sub: "CHARACTER:EVE:abc".into(), name: "P".into(), owner: "h".into(), scp: ScopesField::default() };
    assert_eq!(bad.character_id().unwrap_err(), "non-numeric character id in sub: CHARACTER:EVE:abc");
    assert!(bad.scopes().is_empty());
    let many = EveClaims { sub: "x:1".into(), name: "P".into(), owner: "h".into(), scp: ScopesField::Many(vec!["a".into(), "b".into()]) };
    assert_eq!(many.scopes(), vec!["a".to_string(), "b".to_string()]);
}

#[test]
fn jwks_key_selection() {
    assert_eq!(header_kid(Some("JWT-Signature-Key".into())).unwrap(), "JWT-Signature-Key");
    assert_eq!(header_kid(None).unwrap_err(), "JWT header missing kid");
    let kids = vec![None, Some("a".to_string()), Some("b".to_string()), Some("b".to_string())];
    assert_eq!(cached_key(&Some(kids.clone()), "b"), Some(2));
    assert_eq!(cached_key(&Some(kids.clone()), "z"), None);
    assert_eq!(cached_key(&None, "b"), None);
    assert_eq!(key_in_fetched(&kids, "a").unwrap(), 1);
    assert_eq!(key_in_fetched(&kids, "z").unwrap_err(), "EVE JWKS has no key with kid z");
    assert_eq!(jwk_alg(Some("RS256".into())).unwrap(), "RS256");
    assert_eq!(jwk_alg(None).unwrap_err(), "JWK missing alg");
}

#[test]
fn request_transaction_decisions() {
    let id = Uuid::new_v4();
    assert_eq!(current_user_setting(Some(id.as_u128())), id.to_string());
    assert_eq!(current_user_setting(None), "");
    assert_eq!(tx_end_for(200), TxEnd::Commit);
    assert_eq!(tx_end_for(204), TxEnd::Commit);
    assert_eq!(tx_end_for(299), TxEnd::Commit);
    assert_eq!(tx_end_for(302), TxEnd::Rollback);
    assert_eq!(tx_end_for(404), TxEnd::Rollback);
    assert_eq!(tx_end_for(500), TxEnd::Rollback);
    assert_eq!(tx_end_for(199), TxEnd::Rollback);
}

#[test]
fn stored_tokens_open_with_the_cipher() {
    let key = B64.encode([9u8; 32]);
    let cipher = TokenCipher::from_b64(&key).unwrap();
    let (rt, rn) = cipher.encrypt(b"refresh-1").unwrap();
    let (at, an) = cipher.encrypt(b"access-1").unwrap();
    let row = StoredTokens {
        refresh_token_ciphertext: rt.clone(),
        refresh_token_nonce: rn.clone(),
        access_token_ciphertext: Some(at),
        access_token_nonce: Some(an),
        access_token_expires_at: Some(123),
    };
    let t = open_stored_tokens(&cipher, &row).unwrap();
    assert_eq!(t.refresh_token, "refresh-1");
    assert_eq!(t.access_token.as_deref(), Some("access-1"));
    assert_eq!(t.access_token_expires_at, Some(123));
    let half = StoredTokens { access_token_nonce: None, ..row.clone() };
    assert_eq!(open_stored_tokens(&cipher, &half).unwrap().access_token, None);
    let (bad, bn) = cipher.encrypt(&[0xff, 0xfe]).unwrap();
    let not_utf8 = StoredTokens { refresh_token_ciphertext: bad, refresh_token_nonce: bn, ..row.clone() };
    assert_eq!(open_stored_tokens(&cipher, &not_utf8).unwrap_err(), "refresh token plaintext is not UTF-8");
    let short_nonce = StoredTokens { refresh_token_nonce: vec![1, 2, 3], ..row };
    assert_eq!(open_stored_tokens(&cipher, &short_nonce).unwrap_err(), "nonce must be 12 bytes, got 3");
    assert!(reuse_cached_client(7, 7));
    assert!(!reuse_cached_client(7, 8));
    assert!(rotation_to_persist(1, 2));
    assert!(!rotation_to_persist(2, 2));
}

#[test]
fn claim_conflicts_are_recognised() {
    assert!(is_claim_conflict(Some("claim_items_one_active")));
    assert!(!is_claim_conflict(Some("other")));
    assert!(!is_claim_conflict(None));
    assert!(matches!(claim_insert_error(Some("claim_items_one_active"), "dup".into()), ApiError::Conflict(m) if m == "one or more items are already claimed"));
    assert!(matches!(claim_insert_error(None, "io".into()), ApiError::Internal(m) if m == "io"));
}

fn cfg(url: &str) -> WebhookConfig {
    WebhookConfig {
        webhook_url: url.to_string(),
        notify_list_created: true,
        notify_list_claimed: false,
        notify_list_delivered: true,
        notify_reimbursement_settled: true,
    }
}

#[test]
fn webhooks_validate_and_dispatch() {
    assert!(validate_upsert(GroupRole::Owner, &cfg("https://discord.com/api/webhooks/1/abc")).is_ok());
    assert!(validate_upsert(GroupRole::Owner, &cfg("https://discordapp.com/api/webhooks/1/abc")).is_ok());
    assert!(matches!(validate_upsert(GroupRole::Member, &cfg("https://discord.com/api/webhooks/1/abc")), Err(Error::Forbidden)));
    assert!(matches!(validate_upsert(GroupRole::Owner, &cfg("https://example.com/hook")), Err(Error::BadRequest(m)) if m == "webhook_url must be a Discord webhook URL"));
    let long = format!("https://discord.com/api/webhooks/{}", "x".repeat(600));
    assert!(matches!(validate_upsert(GroupRole::Owner, &cfg(&long)), Err(Error::BadRequest(m)) if m == "webhook_url is too long"));

    let created = WebhookEvent::ListCreated {
        list_destination: "Home".into(),
        item_count: 3,
        estimate_isk: "1500.00".into(),
        creator_name: "Alice".into(),
    };
    let claimed = WebhookEvent::ListClaimed { list_destination: "Home".into(), hauler_name: "Bob".into(), item_count: 2 };
    let settled = WebhookEvent::ReimbursementSettled {
        list_destination: "Home".into(),
        requester_name: "Alice".into(),
        hauler_name: "Bob".into(),
        total_isk: "1500.00".into(),
    };
    assert_eq!(created.title(), "New list: Home");
    assert_eq!(created.description(), "Alice created a list with 3 items (est. 1500.00 ISK)");
    assert_eq!(created.embed_color(), 0x2f81f7);
    assert_eq!(claimed.title(), "Bob claimed items on Home");
    assert_eq!(claimed.description(), "2 item(s) claimed");
    assert_eq!(settled.description(), "Alice \u{2192} Bob: 1500.00 ISK");
    let c = cfg("https://discord.com/api/webhooks/1/abc");
    assert_eq!(dispatch_target(&created, &Some(c.clone())), Some(c.webhook_url.clone()));
    assert_eq!(dispatch_target(&claimed, &Some(c)), None);
    assert_eq!(dispatch_target(&created, &None), None);
}
