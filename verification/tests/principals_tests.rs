use jitacart::domain::PrincipalKind;
use jitacart::principals::{resolve_contract_parties, EsiContractParties, Principal, PrincipalIndex};
use uuid::Uuid;

fn new_id() -> u128 {
    Uuid::new_v4().as_u128()
}

fn make_user_principal(user_id: u128) -> Principal {
    Principal { id: new_id(), kind: PrincipalKind::User, user_id: Some(user_id), corp_id: None }
}

fn make_corp_principal(corp_id: u128) -> Principal {
    Principal { id: new_id(), kind: PrincipalKind::Corp, user_id: None, corp_id: Some(corp_id) }
}

#[test]
fn personal_user_to_user() {
    let mut idx = PrincipalIndex::default();
    let issuer_char: i64 = 1001;
    let issuer_user = new_id();
    let issuer_p = make_user_principal(issuer_user);
    let assignee_char: i64 = 2002;
    let assignee_user = new_id();
    let assignee_p = make_user_principal(assignee_user);
    idx.add_user(issuer_char, issuer_user, issuer_p.clone());
    idx.add_user(assignee_char, assignee_user, assignee_p.clone());
    let parties = resolve_contract_parties(
        &EsiContractParties {
            issuer_id: issuer_char,
            issuer_corporation_id: 9001,
            for_corporation: false,
            assignee_id: Some(assignee_char),
        },
        &idx,
    );
    assert_eq!(parties.issuer_principal_id, Some(issuer_p.id));
    assert_eq!(parties.assignee_principal_id, Some(assignee_p.id));
    assert!(!parties.assignee_unknown);
}

#[test]
fn corp_issuer_user_assignee() {
    let mut idx = PrincipalIndex::default();
    let esi_corp_id: i64 = 9001;
    let corp_id = new_id();
    let corp_p = make_corp_principal(corp_id);
    idx.add_corp(esi_corp_id, corp_id, corp_p.clone());
    let assignee_char: i64 = 2002;
    let assignee_user = new_id();
    let assignee_p = make_user_principal(assignee_user);
    idx.add_user(assignee_char, assignee_user, assignee_p.clone());
    let parties = resolve_contract_parties(
        &EsiContractParties {
            issuer_id: 1001,
            issuer_corporation_id: esi_corp_id,
            for_corporation: true,
            assignee_id: Some(assignee_char),
        },
        &idx,
    );
    assert_eq!(parties.issuer_principal_id, Some(corp_p.id));
    assert_eq!(parties.assignee_principal_id, Some(assignee_p.id));
    assert!(!parties.assignee_unknown);
}

#[test]
fn user_issuer_corp_assignee() {
    let mut idx = PrincipalIndex::default();
    let issuer_char: i64 = 1001;
    let issuer_user = new_id();
    let issuer_p = make_user_principal(issuer_user);
    idx.add_user(issuer_char, issuer_user, issuer_p.clone());
    let esi_corp_id: i64 = 9002;
    let corp_id = new_id();
    let corp_p = make_corp_principal(corp_id);
    idx.add_corp(esi_corp_id, corp_id, corp_p.clone());
    let parties = resolve_contract_parties(
        &EsiContractParties {
            issuer_id: issuer_char,
            issuer_corporation_id: 9001,
            for_corporation: false,
            assignee_id: Some(esi_corp_id),
        },
        &idx,
    );
    assert_eq!(parties.issuer_principal_id, Some(issuer_p.id));
    assert_eq!(parties.assignee_principal_id, Some(corp_p.id));
    assert!(!parties.assignee_unknown);
}

#[test]
fn corp_to_corp() {
    let mut idx = PrincipalIndex::default();
    let issuer_corp_esi: i64 = 9001;
    let issuer_corp_id = new_id();
    let issuer_corp_p = make_corp_principal(issuer_corp_id);
    idx.add_corp(issuer_corp_esi, issuer_corp_id, issuer_corp_p.clone());
    let assignee_corp_esi: i64 = 9002;
    let assignee_corp_id = new_id();
    let assignee_corp_p = make_corp_principal(assignee_corp_id);
    idx.add_corp(assignee_corp_esi, assignee_corp_id, assignee_corp_p.clone());
    let parties = resolve_contract_parties(
        &EsiContractParties {
            issuer_id: 1001,
            issuer_corporation_id: issuer_corp_esi,
            for_corporation: true,
            assignee_id: Some(assignee_corp_esi),
        },
        &idx,
    );
    assert_eq!(parties.issuer_principal_id, Some(issuer_corp_p.id));
    assert_eq!(parties.assignee_principal_id, Some(assignee_corp_p.id));
    assert!(!parties.assignee_unknown);
}

#[test]
fn assignee_unknown() {
    let mut idx = PrincipalIndex::default();
    let issuer_char: i64 = 1001;
    let issuer_user = new_id();
    let issuer_p = make_user_principal(issuer_user);
    idx.add_user(issuer_char, issuer_user, issuer_p.clone());
    let parties = resolve_contract_parties(
        &EsiContractParties {
            issuer_id: issuer_char,
            issuer_corporation_id: 9001,
            for_corporation: false,
            assignee_id: Some(99999),
        },
        &idx,
    );
    assert_eq!(parties.issuer_principal_id, Some(issuer_p.id));
    assert_eq!(parties.assignee_principal_id, None);
    assert!(parties.assignee_unknown);
}

#[test]
fn public_contract_no_assignee() {
    let idx = PrincipalIndex::default();
    let parties = resolve_contract_parties(
        &EsiContractParties {
            issuer_id: 1001,
            issuer_corporation_id: 9001,
            for_corporation: false,
            assignee_id: None,
        },
        &idx,
    );
    assert_eq!(parties.assignee_principal_id, None);
    assert!(!parties.assignee_unknown);
}

#[test]
fn added_user_resolves_as_issuer_with_unknown_corp() {
    let mut idx = PrincipalIndex::default();
    let user = new_id();
    let p = make_user_principal(user);
    idx.add_user(42, user, p);
    let parties = resolve_contract_parties(
        &EsiContractParties { issuer_id: 42, issuer_corporation_id: 7, for_corporation: true, assignee_id: None },
        &idx,
    );
    assert_eq!(parties.issuer_principal_id, None);
}
