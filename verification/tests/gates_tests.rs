use jitacart::auth::{
    adds_character, character_aad, check_active_character_set, check_characters_quota,
    check_consent_character, choose_target_user, forwarded_client_ip, login_gate, redirect_after_login,
    requested_upgrade_scopes, TargetUser,
};
use jitacart::contracts::{
    check_reject, check_suggestion_pending, check_unlink, link_settles_now, map_confirmed_dup,
    require_member, LinkContext, SuggestionDecision,
};
use jitacart::domain::{ContractMatchState, ContractStatus, ContractType, GroupRole, ListItemStatus, ListStatus, MarketKind, ReimbursementStatus};
use jitacart::errors::ApiError;
use jitacart::extract::CurrentList;
use jitacart::groups::{check_group_deleted, invalid_invite, invite_exhausted, invite_step, is_invite_collision, require_owner_role, InviteInsert, InviteStep};
use jitacart::lists::{
    authorize_list_status_change, check_all_markets_found, check_item_open, check_item_patch,
    check_items_addable, check_list_delete, check_list_patch, citadel_ids, citadel_prices_readable,
    concurrent_modification_error, recompute_step, RecomputeStep,
};
use jitacart::markets::MarketRow;
use jitacart::multibuy::{is_numeric_token, name_key, parse_qty, parse_tab_line, parse_whitespace_line};
use jitacart::domain::Market;

fn sv(v: &[&str]) -> Vec<String> {
    v.iter().map(|s| s.to_string()).collect()
}

#[test]
fn sign_in_gates() {
    assert!(matches!(login_gate(true, false, false, None), Err(ApiError::Unauthorized)));
    assert_eq!(login_gate(true, true, false, None).unwrap(), None);
    assert!(matches!(login_gate(false, false, false, None), Err(ApiError::Forbidden(m)) if m == "captcha verification required for new accounts"));
    assert_eq!(login_gate(false, false, false, Some("tok".into())).unwrap(), Some("tok".to_string()));
    assert_eq!(login_gate(false, false, true, None).unwrap(), None);
    assert_eq!(login_gate(false, true, false, None).unwrap(), None);
    assert_eq!(forwarded_client_ip(" 203.0.113.7 , 10.0.0.1"), "203.0.113.7");
    assert_eq!(forwarded_client_ip(""), "");
    assert_eq!(redirect_after_login(Some("/groups/1".into())), "/groups/1");
    assert_eq!(redirect_after_login(Some("//evil.com".into())), "/me");
    assert_eq!(redirect_after_login(None), "/me");
    assert!(check_consent_character(None, 5).is_ok());
    assert!(check_consent_character(Some(5), 5).is_ok());
    assert!(matches!(check_consent_character(Some(5), 6), Err(ApiError::BadRequest(m)) if m == "consent returned a different character than the one requested"));
    assert!(matches!(check_active_character_set(0), Err(ApiError::Unauthorized)));
    assert!(check_active_character_set(1).is_ok());
}

#[test]
fn upgrade_scopes_are_checked() {
    let login = sv(&["publicData"]);
    let upgrade = sv(&["esi-wallet.read_corporation_wallets.v1"]);
    assert_eq!(
        requested_upgrade_scopes(" esi-wallet.read_corporation_wallets.v1 , ,publicData", &login, &upgrade).unwrap(),
        sv(&["esi-wallet.read_corporation_wallets.v1", "publicData"])
    );
    assert!(matches!(requested_upgrade_scopes(" , ", &login, &upgrade), Err(ApiError::BadRequest(m)) if m == "no scopes requested"));
    assert!(matches!(requested_upgrade_scopes("esi-mail.send_mail.v1", &login, &upgrade), Err(ApiError::Internal(m)) if m == "scope not allowed: esi-mail.send_mail.v1"));
}

#[test]
fn characters_find_their_user() {
    assert_eq!(choose_target_user(true, Some(3), &None, "h").unwrap(), TargetUser::Existing(3));
    assert!(matches!(choose_target_user(true, None, &None, "h"), Err(ApiError::Internal(m)) if m == "attach without session"));
    assert_eq!(choose_target_user(false, Some(3), &Some((7, "h".into())), "h").unwrap(), TargetUser::Existing(7));
    assert_eq!(choose_target_user(false, Some(3), &Some((7, "old".into())), "h").unwrap(), TargetUser::Existing(3));
    assert_eq!(choose_target_user(false, None, &Some((7, "old".into())), "h").unwrap(), TargetUser::New);
    assert_eq!(choose_target_user(false, None, &None, "h").unwrap(), TargetUser::New);
    assert!(adds_character(None, 1));
    assert!(adds_character(Some(2), 1));
    assert!(!adds_character(Some(1), 1));
    assert!(matches!(check_characters_quota(12, 12), Err(ApiError::QuotaExceeded(m)) if m == "you already have 12 linked characters (cap 12)"));
    assert!(check_characters_quota(11, 12).is_ok());
    assert_eq!(character_aad(90000001), 90000001i64.to_be_bytes().to_vec());
    assert_eq!(character_aad(-2), (-2i64).to_be_bytes().to_vec());
}

fn cur(user_id: u128, created_by: u128, role: GroupRole, status: ListStatus) -> CurrentList {
    CurrentList { user_id, group_id: 1, list_id: 2, role, created_by_user_id: created_by, status }
}

#[test]
fn list_permissions() {
    assert!(matches!(authorize_list_status_change(1, None), Err(ApiError::NotFound(_))));
    assert!(matches!(authorize_list_status_change(1, Some((1, None))), Err(ApiError::Forbidden(_))));
    assert!(authorize_list_status_change(1, Some((1, Some(GroupRole::Member)))).is_ok());
    assert!(matches!(authorize_list_status_change(2, Some((1, Some(GroupRole::Member)))), Err(ApiError::Forbidden(_))));
    assert!(authorize_list_status_change(2, Some((1, Some(GroupRole::Owner)))).is_ok());
    let mine = cur(1, 1, GroupRole::Member, ListStatus::Open);
    let theirs = cur(2, 1, GroupRole::Member, ListStatus::Open);
    assert!(check_list_delete(&mine).is_ok());
    assert!(matches!(check_list_delete(&theirs), Err(ApiError::Forbidden(_))));
    assert!(matches!(check_list_patch(&mine, false, false, false), Err(ApiError::BadRequest(m)) if m == "nothing to update"));
    assert!(check_list_patch(&theirs, true, false, false).is_ok());
    assert!(matches!(check_list_patch(&theirs, false, false, true), Err(ApiError::Forbidden(_))));
    let archived = cur(1, 1, GroupRole::Member, ListStatus::Archived);
    assert!(matches!(check_list_patch(&archived, true, false, false), Err(ApiError::Conflict(_))));
    assert!(matches!(check_items_addable(&archived), Err(ApiError::Conflict(m)) if m == "list is archived; items can only be added to open lists"));
    assert!(check_items_addable(&mine).is_ok());
    assert!(matches!(check_item_open(ListItemStatus::Claimed, "edit"), Err(ApiError::Conflict(m)) if m == "cannot edit item with status 'claimed'; release the claim or reverse fulfillments first"));
    assert!(check_item_open(ListItemStatus::Open, "delete").is_ok());
    assert!(matches!(check_item_patch(None, false), Err(ApiError::BadRequest(m)) if m == "nothing to update"));
    assert!(matches!(check_item_patch(Some(0), false), Err(ApiError::BadRequest(m)) if m == "qty_requested must be positive"));
    assert!(check_item_patch(None, true).is_ok());
    assert!(matches!(check_all_markets_found(1, 2), Err(ApiError::BadRequest(m)) if m == "one or more market_ids do not exist"));
    assert!(check_all_markets_found(2, 2).is_ok());
    assert!(matches!(concurrent_modification_error(), ApiError::Conflict(m) if m == "list was concurrently modified; please retry"));
    assert!(matches!(recompute_step(1, false), RecomputeStep::Write));
    assert!(matches!(recompute_step(2, true), RecomputeStep::Retry));
    assert!(matches!(recompute_step(3, true), RecomputeStep::GiveUp(ApiError::Conflict(_))));
    assert!(citadel_prices_readable(true, 2, true));
    assert!(!citadel_prices_readable(true, 0, true));
    assert!(!citadel_prices_readable(false, 2, true));
}

#[test]
fn markets_from_rows() {
    let row = MarketRow {
        id: 5,
        kind: "public_structure".to_string(),
        esi_location_id: 1_035_466_617_946,
        region_id: None,
        name: Some("Perimeter - Tranquility Trading Tower".into()),
        short_label: Some("TTT".into()),
        is_hub: false,
        is_public: true,
    };
    let m: Market = row.into_market().unwrap();
    assert_eq!(m.kind, MarketKind::PublicStructure);
    assert_eq!(citadel_ids(&vec![m.clone()]), vec![5]);
    let bad = MarketRow { kind: "castle".into(), id: 6, esi_location_id: 1, region_id: None, name: None, short_label: None, is_hub: false, is_public: true };
    assert_eq!(bad.into_market().unwrap_err(), "unknown market kind: castle");
}

fn ctx(status: ContractStatus) -> LinkContext {
    LinkContext {
        contract_id: 1,
        contract_type: ContractType::ItemExchange,
        contract_status: status,
        issuer_user_id: Some(10),
        assignee_principal_id: None,
        reimbursement_id: 2,
        reimbursement_status: ReimbursementStatus::Pending,
        reimbursement_contract_id: None,
        hauler_user_id: 10,
        requester_principal_id: 20,
        group_id: 3,
    }
}

#[test]
fn contract_suggestions() {
    assert!(check_suggestion_pending(Some(ContractMatchState::Pending)).is_ok());
    assert!(matches!(check_suggestion_pending(Some(ContractMatchState::Rejected)), Err(ApiError::Conflict(m)) if m == "suggestion is already rejected"));
    assert!(matches!(check_suggestion_pending(None), Err(ApiError::Conflict(m)) if m == "suggestion is already (unknown)"));
    assert!(link_settles_now(&ctx(ContractStatus::Finished)));
    assert!(!link_settles_now(&ctx(ContractStatus::Outstanding)));
    assert!(check_reject(ContractMatchState::Pending, Some(4), 9, 4).is_ok());
    assert!(matches!(check_reject(ContractMatchState::Pending, Some(4), 9, 9), Err(ApiError::Forbidden(_))));
    assert!(check_reject(ContractMatchState::Pending, None, 9, 9).is_ok());
    assert!(matches!(check_reject(ContractMatchState::Confirmed, Some(4), 9, 4), Err(ApiError::Conflict(_))));
    assert!(check_unlink(Some(4), ContractStatus::Outstanding, 4).is_ok());
    assert!(matches!(check_unlink(Some(4), ContractStatus::Finished, 4), Err(ApiError::Conflict(m)) if m == "cannot unlink a finished contract; that would unwind a settlement"));
    assert!(matches!(check_unlink(None, ContractStatus::Outstanding, 4), Err(ApiError::Forbidden(_))));
    assert!(matches!(map_confirmed_dup(Some("one_confirmed_suggestion_per_reimbursement"), "x".into()), ApiError::Conflict(m) if m == "reimbursement already confirmed against another contract"));
    assert!(matches!(map_confirmed_dup(None, "x".into()), ApiError::Internal(m) if m == "x"));
    assert!(matches!(require_member(false), Err(ApiError::Forbidden(_))));
    assert!(require_member(true).is_ok());
    let d = SuggestionDecision::confirmed(8, true);
    assert_eq!((d.suggestion_id, d.state.as_str(), d.settled), (8, "confirmed", true));
    assert_eq!(SuggestionDecision::rejected(8).state, "rejected");
    assert_eq!(SuggestionDecision::unlinked(9).state, "unlinked");
}

#[test]
fn group_helpers() {
    assert!(matches!(require_owner_role(GroupRole::Member), Err(ApiError::Forbidden(m)) if m == "owner role required"));
    assert!(require_owner_role(GroupRole::Owner).is_ok());
    assert!(is_invite_collision(Some("groups_invite_code_key")));
    assert!(!is_invite_collision(Some("x")));
    assert!(matches!(check_group_deleted(0), Err(ApiError::NotFound(m)) if m == "group not found"));
    assert!(check_group_deleted(1).is_ok());
    assert!(matches!(invite_exhausted(), ApiError::Internal(_)));
    assert!(matches!(invalid_invite(), ApiError::NotFound(_)));
    assert!(matches!(invite_step(1, InviteInsert::Stored), InviteStep::Done));
    assert!(matches!(invite_step(1, InviteInsert::Collision), InviteStep::Retry));
    assert!(matches!(invite_step(7, InviteInsert::Collision), InviteStep::Retry));
    assert!(matches!(invite_step(8, InviteInsert::Collision), InviteStep::Fail(ApiError::Internal(m)) if m == "could not generate a unique invite code after 8 tries"));
    assert!(matches!(invite_step(3, InviteInsert::Failed("io".into())), InviteStep::Fail(ApiError::Internal(m)) if m == "io"));
}

#[test]
fn multibuy_pieces() {
    assert_eq!(name_key("\u{00A0}Tritanium  "), "tritanium");
    assert_eq!(parse_qty("1,000"), Some(1000));
    assert_eq!(parse_qty("0"), None);
    assert_eq!(parse_qty("-3"), None);
    assert!(is_numeric_token("2.5"));
    assert!(is_numeric_token("1,000"));
    assert!(!is_numeric_token("II"));
    assert!(!is_numeric_token(","));
    assert_eq!(parse_tab_line("Tritanium\t10\t1.0").unwrap(), ("Tritanium".to_string(), 10));
    assert_eq!(parse_whitespace_line("Damage Control II 5 1.00").unwrap(), ("Damage Control II".to_string(), 5));
}
