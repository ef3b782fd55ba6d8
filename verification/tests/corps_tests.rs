use jitacart::corps::{
    affiliated_corp, assemble_corps, check_payer_body, check_payer_changeable, corp_should_disable,
    default_journal_limit, journal_limit, journal_visibility, linked_corp, owned_character,
    require_corp_in_group, require_owner, AmbassadorDto, AmbassadorRow, CorpRow, DivisionRow,
};
use jitacart::decimal::Dec;
use jitacart::domain::{GroupRole, ListStatus};
use jitacart::errors::ApiError;
use jitacart::runs::{assemble_runs, RunMarketRow, RunRow};

fn corp(id: u128, name: &str) -> CorpRow {
    CorpRow {
        id,
        esi_corporation_id: 98000000 + id as i64,
        name: name.to_string(),
        ticker: "TICK".to_string(),
        last_synced_at: None,
        last_auth_error_at: None,
        disabled_at: None,
        linked_at: 1_700_000_000_000_000,
        linked_by_user_id: 77,
    }
}

fn ambassador(corp_id: u128, user: u128, character: u128, disabled: bool) -> AmbassadorRow {
    AmbassadorRow {
        corp_id,
        character_user_id: user,
        ambassador: AmbassadorDto {
            character_id: character,
            character_name: format!("Pilot {character}"),
            granted_scopes: vec!["esi-wallet.read_corporation_wallets.v1".to_string()],
            last_used_at: None,
            last_auth_error_at: None,
            disabled_at: if disabled { Some(5) } else { None },
        },
    }
}

fn division(corp_id: u128, division: i16, balance: i128) -> DivisionRow {
    DivisionRow {
        corp_id,
        division,
        name: Some(format!("Division {division}")),
        balance_isk: Dec { mantissa: balance, scale: 2 },
        last_synced_at: None,
    }
}

#[test]
fn corps_page_groups_rows_by_corp() {
    let corps = vec![corp(1, "Alpha"), corp(2, "Beta")];
    let ambs = vec![ambassador(2, 10, 100, false), ambassador(1, 11, 101, false), ambassador(2, 12, 102, true)];
    let divs = vec![division(1, 1, 12345), division(2, 1, 500), division(2, 2, 600)];
    let page = assemble_corps(&corps, &ambs, &divs, 10, GroupRole::Member);
    assert_eq!(page.len(), 2);
    assert_eq!(page[0].name, "Alpha");
    assert!(!page[0].is_ambassador);
    assert_eq!(page[0].ambassadors.len(), 1);
    assert_eq!(page[0].ambassadors[0].character_id, 101);
    assert_eq!(page[0].wallet_divisions.len(), 1);
    assert!(page[0].wallet_divisions[0].balance_isk.is_none(), "a member who is not an ambassador sees no balance");
    assert!(page[1].is_ambassador);
    assert_eq!(page[1].ambassadors.iter().map(|a| a.character_id).collect::<Vec<_>>(), vec![100, 102]);
    assert_eq!(page[1].wallet_divisions.len(), 2);
    assert_eq!(page[1].wallet_divisions[1].balance_isk.unwrap().mantissa, 600);
}

#[test]
fn owners_see_balances_and_disabled_ambassadors_do_not_count() {
    let corps = vec![corp(1, "Alpha")];
    let ambs = vec![ambassador(1, 10, 100, true)];
    let divs = vec![division(1, 3, 42)];
    let as_member = assemble_corps(&corps, &ambs, &divs, 10, GroupRole::Member);
    assert!(!as_member[0].is_ambassador);
    assert!(as_member[0].wallet_divisions[0].balance_isk.is_none());
    let as_owner = assemble_corps(&corps, &ambs, &divs, 10, GroupRole::Owner);
    assert_eq!(as_owner[0].wallet_divisions[0].balance_isk.unwrap().mantissa, 42);
    assert!(assemble_corps(&vec![], &ambs, &divs, 10, GroupRole::Owner).is_empty());
}

#[test]
fn corp_management_checks() {
    assert!(require_owner(GroupRole::Owner).is_ok());
    assert!(matches!(require_owner(GroupRole::Member), Err(ApiError::Forbidden(_))));
    assert!(matches!(require_corp_in_group(false), Err(ApiError::NotFound(_))));
    assert!(require_corp_in_group(true).is_ok());
    assert!(matches!(owned_character(None), Err(ApiError::BadRequest(m)) if m == "character not found or not yours"));
    assert_eq!(owned_character(Some((5, vec!["a".to_string()]))).unwrap().0, 5);
    assert_eq!(affiliated_corp(&vec![(1, 10), (2, 20), (2, 30)], 2).unwrap(), 20);
    assert!(matches!(affiliated_corp(&vec![(1, 10)], 2), Err(ApiError::Internal(m)) if m == "affiliation not found"));
    assert!(corp_should_disable(0));
    assert!(!corp_should_disable(1));
}

#[test]
fn linked_corp_is_found_by_id() {
    let page = assemble_corps(&vec![corp(1, "Alpha"), corp(2, "Beta")], &vec![], &vec![], 1, GroupRole::Owner);
    assert_eq!(linked_corp(page.clone(), 2).unwrap().name, "Beta");
    assert!(matches!(linked_corp(page, 3), Err(ApiError::Internal(m)) if m == "corp not found after link"));
}

#[test]
fn journal_paging_and_visibility() {
    assert_eq!(default_journal_limit(), 200);
    assert_eq!(journal_limit(0), 1);
    assert_eq!(journal_limit(-5), 1);
    assert_eq!(journal_limit(200), 200);
    assert_eq!(journal_limit(10_000), 500);
    assert!(journal_visibility(true, false).is_ok());
    assert!(journal_visibility(false, true).is_ok());
    assert!(matches!(journal_visibility(false, false), Err(ApiError::Forbidden(_))));
}

#[test]
fn payer_rules() {
    assert!(check_payer_body(None, None).is_ok());
    assert!(check_payer_body(Some(1), Some(2)).is_ok());
    assert!(matches!(check_payer_body(Some(1), None), Err(ApiError::BadRequest(m)) if m == "payer_corp_id and payer_division must both be set or both be null"));
    assert!(matches!(check_payer_body(None, Some(3)), Err(ApiError::BadRequest(_))));
    assert!(matches!(check_payer_changeable(true), Err(ApiError::Conflict(m)) if m == "payer cannot be changed after reimbursements have been generated"));
    assert!(check_payer_changeable(false).is_ok());
}

fn run(id: u128) -> RunRow {
    RunRow {
        id,
        destination_label: Some(format!("Run {id}")),
        status: ListStatus::Open,
        created_at: 1_700_000_000_000_000 - id as i64,
        total_estimate_isk: Dec { mantissa: 1000, scale: 0 },
        items_open: 3,
        items_claimed: 1,
        items_bought: 0,
        items_delivered: 0,
        items_settled: 0,
        claimed_by_me: id == 2,
        my_active_claim_id: if id == 2 { Some(99) } else { None },
    }
}

#[test]
fn runs_board_attaches_markets_per_list() {
    let rows = vec![run(1), run(2)];
    let markets = vec![
        RunMarketRow { list_id: 1, market_id: 60, short_label: Some("Jita".into()), is_primary: true },
        RunMarketRow { list_id: 2, market_id: 61, short_label: None, is_primary: true },
        RunMarketRow { list_id: 1, market_id: 62, short_label: Some("Amarr".into()), is_primary: false },
    ];
    let board = assemble_runs(&rows, &markets);
    assert_eq!(board.len(), 2);
    assert_eq!(board[0].accepted_markets.iter().map(|m| m.market_id).collect::<Vec<_>>(), vec![60, 62]);
    assert_eq!(board[1].accepted_markets.len(), 1);
    assert_eq!(board[1].accepted_markets[0].short_label, None);
    assert!(board[1].claimed_by_me);
    assert_eq!(board[1].my_active_claim_id, Some(99));
    assert_eq!(board[0].items_open, 3);
    assert!(assemble_runs(&vec![], &markets).is_empty());
}
