use jitacart::auth::{merge_upgrade_scopes, safe_return_to};

fn sv(scopes: &[&str]) -> Vec<String> {
    scopes.iter().map(|s| s.to_string()).collect()
}

#[test]
fn merge_preserves_existing_scopes() {
    let login = sv(&["publicData"]);
    let existing = sv(&[
        "publicData",
        "esi-markets.structure_markets.v1",
        "esi-contracts.read_character_contracts.v1",
    ]);
    let requested = sv(&[
        "esi-contracts.read_corporation_contracts.v1",
        "esi-wallet.read_corporation_wallets.v1",
    ]);
    let merged = merge_upgrade_scopes(&login, &existing, &requested);
    for s in existing.iter().chain(requested.iter()) {
        assert!(merged.contains(s), "scope {s} missing from merged set: {merged:?}");
    }
}

#[test]
fn merge_deduplicates() {
    let login = sv(&["publicData"]);
    let existing = sv(&["publicData", "esi-contracts.read_character_contracts.v1"]);
    let requested = sv(&["publicData"]);
    let merged = merge_upgrade_scopes(&login, &existing, &requested);
    let count = merged.iter().filter(|s| s.as_str() == "publicData").count();
    assert_eq!(count, 1, "publicData should appear exactly once");
}

#[test]
fn merge_is_sorted() {
    let login = sv(&["zzz"]);
    let existing = sv(&["aaa", "mmm"]);
    let requested = sv(&["bbb"]);
    let merged = merge_upgrade_scopes(&login, &existing, &requested);
    let mut sorted = merged.clone();
    sorted.sort();
    assert_eq!(merged, sorted, "output should be lexicographically sorted");
}

#[test]
fn merge_is_exactly_the_union() {
    let login = sv(&["publicData"]);
    let existing = sv(&["b", "a"]);
    let requested = sv(&["c", "a"]);
    let merged = merge_upgrade_scopes(&login, &existing, &requested);
    assert_eq!(merged, sv(&["a", "b", "c", "publicData"]));
}

#[test]
fn safe_return_to_accepts_site_relative_paths() {
    assert_eq!(safe_return_to(Some("/groups/abc".into())), Some("/groups/abc".into()));
    assert_eq!(safe_return_to(Some("/".into())), Some("/".into()));
    assert_eq!(safe_return_to(None), None);
}

#[test]
fn safe_return_to_rejects_open_redirects() {
    assert_eq!(safe_return_to(Some("//evil.com".into())), None);
    assert_eq!(safe_return_to(Some("https://evil.com".into())), None);
    assert_eq!(safe_return_to(Some("/\\evil.com".into())), None);
    assert_eq!(safe_return_to(Some("\\\\evil.com".into())), None);
    assert_eq!(safe_return_to(Some("/\\/evil.com".into())), None);
    assert_eq!(safe_return_to(Some("/foo\r\nSet-Cookie: x".into())), None);
    assert_eq!(safe_return_to(Some("evil.com".into())), None);
}
