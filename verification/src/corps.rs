//! Linked corporations: who may manage them, how the corps page is put
//! together from its rows, and the checks around the wallet journal and a
//! list's payer.
//!
//! Timestamps are carried as integers (microseconds since the epoch); the
//! library never reads them, except to ask whether one is set.

use vstd::prelude::*;

use crate::auth::views;
use crate::decimal::Dec;
use crate::domain::GroupRole;
use crate::errors::{msg_forbidden, msg_not_found, result_view, ApiError, ApiErrorView};

verus! {

/// Only a group owner manages the group's corps.
pub fn require_owner(role: GroupRole) -> (r: Result<(), ApiError>)
    ensures
        result_view(r) == (if role == GroupRole::Owner {
            Ok::<(), ApiErrorView>(())
        } else {
            Err(ApiErrorView::Forbidden(msg_forbidden()))
        }),
{
    if role != GroupRole::Owner {
        return Err(ApiError::forbidden());
    }
    Ok(())
}

/// A corp that is not (or no longer) linked to the group is not found.
pub fn require_corp_in_group(linked: bool) -> (r: Result<(), ApiError>)
    ensures
        result_view(r) == (if linked {
            Ok::<(), ApiErrorView>(())
        } else {
            Err(ApiErrorView::NotFound(msg_not_found()))
        }),
{
    if !linked {
        return Err(ApiError::not_found());
    }
    Ok(())
}

pub open spec fn msg_not_your_character() -> Seq<char> {
    "character not found or not yours"@
}

/// The caller's character row `(character uuid, granted scopes)`, if the
/// lookup by EVE id and owner found one.
pub fn owned_character(row: Option<(u128, Vec<String>)>) -> (r: Result<(u128, Vec<String>), ApiError>)
    ensures
        match row {
            Some(c) => r == Ok::<(u128, Vec<String>), ApiError>(c),
            None => r is Err && r->Err_0@ == ApiErrorView::BadRequest(msg_not_your_character()),
        },
{
    match row {
        Some(c) => Ok(c),
        None => Err(ApiError::BadRequest(String::from_str("character not found or not yours"))),
    }
}

/// The corporation of `character_id` among ESI's `(character, corporation)`
/// affiliations: that of the first entry for the character.
pub fn affiliated_corp(affiliations: &Vec<(i64, i64)>, character_id: i64) -> (r: Result<i64, ApiError>)
    ensures
        match r {
            Ok(corp) => exists|k: int|
                0 <= k < affiliations@.len() && #[trigger] affiliations@[k].0 == character_id
                    && affiliations@[k].1 == corp && (forall|j: int|
                    0 <= j < k ==> affiliations@[j].0 != character_id),
            Err(e) => e@ == ApiErrorView::Internal("affiliation not found"@) && forall|k: int|
                0 <= k < affiliations@.len() ==> #[trigger] affiliations@[k].0 != character_id,
        },
{
    let mut i: usize = 0;
    while i < affiliations.len()
        invariant
            i <= affiliations@.len(),
            forall|j: int| 0 <= j < i ==> #[trigger] affiliations@[j].0 != character_id,
        decreases affiliations@.len() - i,
    {
        if affiliations[i].0 == character_id {
            return Ok(affiliations[i].1);
        }
        i = i + 1;
    }
    Err(ApiError::Internal(String::from_str("affiliation not found")))
}

/// After unlinking, a corp that no group links any more stops being polled.
pub fn corp_should_disable(other_links: i64) -> (r: bool)
    ensures
        r == (other_links == 0),
{
    other_links == 0
}

/// How many journal entries a page holds when the query names no limit.
pub fn default_journal_limit() -> (r: i64)
    ensures
        r == 200,
{
    200
}

/// The requested page size, held between 1 and 500.
pub fn journal_limit(limit: i64) -> (r: i64)
    ensures
        r == (if limit < 1 {
            1
        } else if limit > 500 {
            500
        } else {
            limit
        }),
{
    if limit < 1 {
        1
    } else if limit > 500 {
        500
    } else {
        limit
    }
}

/// The journal is shown to the corp's ambassadors and to group owners only.
pub fn journal_visibility(is_ambassador: bool, is_owner: bool) -> (r: Result<(), ApiError>)
    ensures
        result_view(r) == (if is_ambassador || is_owner {
            Ok::<(), ApiErrorView>(())
        } else {
            Err(ApiErrorView::Forbidden(msg_forbidden()))
        }),
{
    if !(is_ambassador || is_owner) {
        return Err(ApiError::forbidden());
    }
    Ok(())
}

pub open spec fn msg_payer_pair() -> Seq<char> {
    "payer_corp_id and payer_division must both be set or both be null"@
}

/// A payer is a corp and one of its wallet divisions, or nothing.
pub fn check_payer_body(payer_corp_id: Option<u128>, payer_division: Option<i16>) -> (r: Result<(), ApiError>)
    ensures
        result_view(r) == (if payer_corp_id.is_some() != payer_division.is_some() {
            Err(ApiErrorView::BadRequest(msg_payer_pair()))
        } else {
            Ok::<(), ApiErrorView>(())
        }),
{
    if payer_corp_id.is_some() != payer_division.is_some() {
        return Err(
            ApiError::BadRequest(
                String::from_str("payer_corp_id and payer_division must both be set or both be null"),
            ),
        );
    }
    Ok(())
}

pub open spec fn msg_payer_locked() -> Seq<char> {
    "payer cannot be changed after reimbursements have been generated"@
}

/// The payer is fixed once reimbursements exist for the list.
pub fn check_payer_changeable(has_reimbursements: bool) -> (r: Result<(), ApiError>)
    ensures
        result_view(r) == (if has_reimbursements {
            Err(ApiErrorView::Conflict(msg_payer_locked()))
        } else {
            Ok::<(), ApiErrorView>(())
        }),
{
    if has_reimbursements {
        return Err(
            ApiError::Conflict(
                String::from_str("payer cannot be changed after reimbursements have been generated"),
            ),
        );
    }
    Ok(())
}

/// A linked corp as the page lists it, in link order.
#[derive(Debug, Clone)]
pub struct CorpRow {
    pub id: u128,
    pub esi_corporation_id: i64,
    pub name: String,
    pub ticker: String,
    pub last_synced_at: Option<i64>,
    pub last_auth_error_at: Option<i64>,
    pub disabled_at: Option<i64>,
    pub linked_at: i64,
    pub linked_by_user_id: u128,
}

/// An ambassador character of a corp.
#[derive(Debug, Clone)]
pub struct AmbassadorDto {
    pub character_id: u128,
    pub character_name: String,
    pub granted_scopes: Vec<String>,
    pub last_used_at: Option<i64>,
    pub last_auth_error_at: Option<i64>,
    pub disabled_at: Option<i64>,
}

/// An ambassador row: the corp it serves and the user owning the character.
#[derive(Debug, Clone)]
pub struct AmbassadorRow {
    pub corp_id: u128,
    pub character_user_id: u128,
    pub ambassador: AmbassadorDto,
}

/// A wallet division of a corp with its balance.
#[derive(Debug, Clone)]
pub struct DivisionRow {
    pub corp_id: u128,
    pub division: i16,
    pub name: Option<String>,
    pub balance_isk: Dec,
    pub last_synced_at: Option<i64>,
}

/// A wallet division as shown; the balance only to those allowed to see it.
#[derive(Debug, Clone)]
pub struct WalletDivisionDto {
    pub division: i16,
    pub name: Option<String>,
    pub balance_isk: Option<Dec>,
    pub last_synced_at: Option<i64>,
}

/// A corp on the corps page.
#[derive(Debug, Clone)]
pub struct CorpDto {
    pub id: u128,
    pub esi_corporation_id: i64,
    pub name: String,
    pub ticker: String,
    pub last_synced_at: Option<i64>,
    pub last_auth_error_at: Option<i64>,
    pub disabled_at: Option<i64>,
    pub linked_at: i64,
    pub linked_by_user_id: u128,
    pub is_ambassador: bool,
    pub ambassadors: Vec<AmbassadorDto>,
    pub wallet_divisions: Vec<WalletDivisionDto>,
}

/// An ambassador's fields, its strings taken as character sequences.
pub struct AmbassadorView {
    pub character_id: u128,
    pub character_name: Seq<char>,
    pub granted_scopes: Seq<Seq<char>>,
    pub last_used_at: Option<i64>,
    pub last_auth_error_at: Option<i64>,
    pub disabled_at: Option<i64>,
}

pub open spec fn ambassador_view(a: AmbassadorDto) -> AmbassadorView {
    AmbassadorView {
        character_id: a.character_id,
        character_name: a.character_name@,
        granted_scopes: views(a.granted_scopes@),
        last_used_at: a.last_used_at,
        last_auth_error_at: a.last_auth_error_at,
        disabled_at: a.disabled_at,
    }
}

pub open spec fn ambassador_views(s: Seq<AmbassadorDto>) -> Seq<AmbassadorView> {
    s.map_values(|a: AmbassadorDto| ambassador_view(a))
}

/// A division as shown, its name taken as a character sequence.
pub struct WalletDivisionView {
    pub division: i16,
    pub name: Option<Seq<char>>,
    pub balance_isk: Option<Dec>,
    pub last_synced_at: Option<i64>,
}

pub open spec fn opt_str_view(o: Option<String>) -> Option<Seq<char>> {
    match o {
        Some(s) => Some(s@),
        None => None,
    }
}

pub open spec fn division_view(d: WalletDivisionDto) -> WalletDivisionView {
    WalletDivisionView {
        division: d.division,
        name: opt_str_view(d.name),
        balance_isk: d.balance_isk,
        last_synced_at: d.last_synced_at,
    }
}

pub open spec fn division_views(s: Seq<WalletDivisionDto>) -> Seq<WalletDivisionView> {
    s.map_values(|d: WalletDivisionDto| division_view(d))
}

/// The ambassadors of corp `id`, in row order.
pub open spec fn ambassadors_of(rows: Seq<AmbassadorRow>, id: u128) -> Seq<AmbassadorView>
    decreases rows.len(),
{
    if rows.len() == 0 {
        Seq::<AmbassadorView>::empty()
    } else if rows.last().corp_id == id {
        ambassadors_of(rows.drop_last(), id).push(ambassador_view(rows.last().ambassador))
    } else {
        ambassadors_of(rows.drop_last(), id)
    }
}

/// The divisions of corp `id`, in row order, with their balances shown
/// only when `show_balance` holds.
pub open spec fn divisions_of(rows: Seq<DivisionRow>, id: u128, show_balance: bool) -> Seq<
    WalletDivisionView,
>
    decreases rows.len(),
{
    if rows.len() == 0 {
        Seq::<WalletDivisionView>::empty()
    } else if rows.last().corp_id == id {
        let d = rows.last();
        divisions_of(rows.drop_last(), id, show_balance).push(
            WalletDivisionView {
                division: d.division,
                name: opt_str_view(d.name),
                balance_isk: if show_balance {
                    Some(d.balance_isk)
                } else {
                    None
                },
                last_synced_at: d.last_synced_at,
            },
        )
    } else {
        divisions_of(rows.drop_last(), id, show_balance)
    }
}

/// The caller has an enabled ambassador character in corp `id`.
pub open spec fn caller_is_ambassador(rows: Seq<AmbassadorRow>, id: u128, caller: u128) -> bool {
    exists|k: int|
        0 <= k < rows.len() && #[trigger] rows[k].corp_id == id && rows[k].character_user_id
            == caller && rows[k].ambassador.disabled_at is None
}

/// Row `i` is the first with its corp id; the later rows of the same corp
/// are shown with no ambassadors and no divisions.
pub open spec fn first_of_corp(corps: Seq<CorpRow>, i: int) -> bool {
    forall|j: int| 0 <= j < i ==> #[trigger] corps[j].id != corps[i].id
}

/// What the page shows of corp row `c` (at position `i` of `corps`).
pub open spec fn corp_shown(
    dto: CorpDto,
    corps: Seq<CorpRow>,
    i: int,
    ambassadors: Seq<AmbassadorRow>,
    divisions: Seq<DivisionRow>,
    caller: u128,
    role: GroupRole,
) -> bool {
    let c = corps[i];
    let is_amb = caller_is_ambassador(ambassadors, c.id, caller);
    &&& dto.id == c.id
    &&& dto.esi_corporation_id == c.esi_corporation_id
    &&& dto.name@ == c.name@
    &&& dto.ticker@ == c.ticker@
    &&& dto.last_synced_at == c.last_synced_at
    &&& dto.last_auth_error_at == c.last_auth_error_at
    &&& dto.disabled_at == c.disabled_at
    &&& dto.linked_at == c.linked_at
    &&& dto.linked_by_user_id == c.linked_by_user_id
    &&& dto.is_ambassador == is_amb
    &&& ambassador_views(dto.ambassadors@) == (if first_of_corp(corps, i) {
        ambassadors_of(ambassadors, c.id)
    } else {
        Seq::<AmbassadorView>::empty()
    })
    &&& division_views(dto.wallet_divisions@) == (if first_of_corp(corps, i) {
        divisions_of(divisions, c.id, role == GroupRole::Owner || is_amb)
    } else {
        Seq::<WalletDivisionView>::empty()
    })
}

fn copy_strings(v: &Vec<String>) -> (r: Vec<String>)
    ensures
        views(r@) == views(v@),
{
    let mut out: Vec<String> = Vec::new();
    let mut i: usize = 0;
    while i < v.len()
        invariant
            i <= v@.len(),
            views(out@) == views(v@).take(i as int),
        decreases v@.len() - i,
    {
        let ghost before = views(out@);
        out.push(v[i].clone());
        assert(views(out@) =~= before.push(v@[i as int]@));
        assert(views(v@).take(i + 1) =~= views(v@).take(i as int).push(v@[i as int]@));
        i = i + 1;
    }
    assert(views(v@).take(v@.len() as int) =~= views(v@));
    out
}

fn copy_opt_string(o: &Option<String>) -> (r: Option<String>)
    ensures
        opt_str_view(r) == opt_str_view(*o),
{
    match o {
        Some(s) => Some(s.clone()),
        None => None,
    }
}

fn copy_ambassador(a: &AmbassadorDto) -> (r: AmbassadorDto)
    ensures
        ambassador_view(r) == ambassador_view(*a),
{
    AmbassadorDto {
        character_id: a.character_id,
        character_name: a.character_name.clone(),
        granted_scopes: copy_strings(&a.granted_scopes),
        last_used_at: a.last_used_at,
        last_auth_error_at: a.last_auth_error_at,
        disabled_at: a.disabled_at,
    }
}

fn ambassadors_for(rows: &Vec<AmbassadorRow>, id: u128) -> (r: Vec<AmbassadorDto>)
    ensures
        ambassador_views(r@) == ambassadors_of(rows@, id),
{
    let mut out: Vec<AmbassadorDto> = Vec::new();
    let mut i: usize = 0;
    while i < rows.len()
        invariant
            i <= rows@.len(),
            ambassador_views(out@) == ambassadors_of(rows@.take(i as int), id),
        decreases rows@.len() - i,
    {
        assert(rows@.take(i + 1).drop_last() =~= rows@.take(i as int));
        if rows[i].corp_id == id {
            let ghost before = ambassador_views(out@);
            let a = copy_ambassador(&rows[i].ambassador);
            out.push(a);
            assert(ambassador_views(out@) =~= before.push(ambassador_view(rows@[i as int].ambassador)));
        }
        i = i + 1;
    }
    assert(rows@.take(rows@.len() as int) =~= rows@);
    out
}

fn divisions_for(rows: &Vec<DivisionRow>, id: u128, show_balance: bool) -> (r: Vec<WalletDivisionDto>)
    ensures
        division_views(r@) == divisions_of(rows@, id, show_balance),
{
    let mut out: Vec<WalletDivisionDto> = Vec::new();
    let mut i: usize = 0;
    while i < rows.len()
        invariant
            i <= rows@.len(),
            division_views(out@) == divisions_of(rows@.take(i as int), id, show_balance),
        decreases rows@.len() - i,
    {
        assert(rows@.take(i + 1).drop_last() =~= rows@.take(i as int));
        if rows[i].corp_id == id {
            let ghost before = division_views(out@);
            let d = &rows[i];
            let shown = WalletDivisionDto {
                division: d.division,
                name: copy_opt_string(&d.name),
                balance_isk: if show_balance {
                    Some(d.balance_isk)
                } else {
                    None
                },
                last_synced_at: d.last_synced_at,
            };
            out.push(shown);
            assert(division_views(out@) =~= before.push(division_view(shown)));
        }
        i = i + 1;
    }
    assert(rows@.take(rows@.len() as int) =~= rows@);
    out
}

fn is_ambassador_of(rows: &Vec<AmbassadorRow>, id: u128, caller: u128) -> (r: bool)
    ensures
        r == caller_is_ambassador(rows@, id, caller),
{
    let mut i: usize = 0;
    while i < rows.len()
        invariant
            i <= rows@.len(),
            forall|k: int|
                0 <= k < i ==> !(#[trigger] rows@[k].corp_id == id && rows@[k].character_user_id
                    == caller && rows@[k].ambassador.disabled_at is None),
        decreases rows@.len() - i,
    {
        let row = &rows[i];
        if row.corp_id == id && row.character_user_id == caller && row.ambassador.disabled_at.is_none() {
            return true;
        }
        i = i + 1;
    }
    false
}

fn first_of_corp_at(corps: &Vec<CorpRow>, i: usize) -> (r: bool)
    requires
        i < corps@.len(),
    ensures
        r == first_of_corp(corps@, i as int),
{
    let mut j: usize = 0;
    while j < i
        invariant
            i < corps@.len(),
            j <= i,
            forall|k: int| 0 <= k < j ==> #[trigger] corps@[k].id != corps@[i as int].id,
        decreases i - j,
    {
        if corps[j].id == corps[i].id {
            return false;
        }
        j = j + 1;
    }
    true
}

/// The corps page from its rows: each linked corp in order, whether the
/// caller is one of its enabled ambassadors, its ambassadors and its wallet
/// divisions, whose balances only owners and the corp's ambassadors see.
pub fn assemble_corps(
    corps: &Vec<CorpRow>,
    ambassadors: &Vec<AmbassadorRow>,
    divisions: &Vec<DivisionRow>,
    caller_user_id: u128,
    caller_role: GroupRole,
) -> (r: Vec<CorpDto>)
    ensures
        r@.len() == corps@.len(),
        forall|i: int|
            0 <= i < corps@.len() ==> corp_shown(
                #[trigger] r@[i],
                corps@,
                i,
                ambassadors@,
                divisions@,
                caller_user_id,
                caller_role,
            ),
{
    let mut out: Vec<CorpDto> = Vec::new();
    let mut i: usize = 0;
    while i < corps.len()
        invariant
            i <= corps@.len(),
            out@.len() == i,
            forall|k: int|
                0 <= k < i ==> corp_shown(
                    #[trigger] out@[k],
                    corps@,
                    k,
                    ambassadors@,
                    divisions@,
                    caller_user_id,
                    caller_role,
                ),
        decreases corps@.len() - i,
    {
        let c = &corps[i];
        let is_amb = is_ambassador_of(ambassadors, c.id, caller_user_id);
        let first = first_of_corp_at(corps, i);
        let (ambs, divs) = if first {
            let show = caller_role == GroupRole::Owner || is_amb;
            (ambassadors_for(ambassadors, c.id), divisions_for(divisions, c.id, show))
        } else {
            let a: Vec<AmbassadorDto> = Vec::new();
            let d: Vec<WalletDivisionDto> = Vec::new();
            assert(ambassador_views(a@) =~= Seq::<AmbassadorView>::empty());
            assert(division_views(d@) =~= Seq::<WalletDivisionView>::empty());
            (a, d)
        };
        let dto = CorpDto {
            id: c.id,
            esi_corporation_id: c.esi_corporation_id,
            name: c.name.clone(),
            ticker: c.ticker.clone(),
            last_synced_at: c.last_synced_at,
            last_auth_error_at: c.last_auth_error_at,
            disabled_at: c.disabled_at,
            linked_at: c.linked_at,
            linked_by_user_id: c.linked_by_user_id,
            is_ambassador: is_amb,
            ambassadors: ambs,
            wallet_divisions: divs,
        };
        assert(corp_shown(dto, corps@, i as int, ambassadors@, divisions@, caller_user_id, caller_role));
        out.push(dto);
        i = i + 1;
    }
    out
}

/// The corp just linked, found again on the page by its id.
pub fn linked_corp(corps: Vec<CorpDto>, corp_id: u128) -> (r: Result<CorpDto, ApiError>)
    ensures
        match r {
            Ok(dto) => exists|k: int|
                0 <= k < corps@.len() && #[trigger] corps@[k].id == corp_id && dto == corps@[k]
                    && (forall|j: int| 0 <= j < k ==> corps@[j].id != corp_id),
            Err(e) => e@ == ApiErrorView::Internal("corp not found after link"@) && forall|k: int|
                0 <= k < corps@.len() ==> #[trigger] corps@[k].id != corp_id,
        },
{
    let mut rest = corps;
    let ghost all = rest@;
    let mut i: usize = 0;
    while i < rest.len()
        invariant
            rest@ == all,
            all == corps@,
            i <= all.len(),
            forall|j: int| 0 <= j < i ==> #[trigger] all[j].id != corp_id,
        decreases all.len() - i,
    {
        if rest[i].id == corp_id {
            let dto = rest.remove(i);
            assert(all[i as int].id == corp_id && dto == all[i as int]);
            return Ok(dto);
        }
        i = i + 1;
    }
    Err(ApiError::Internal(String::from_str("corp not found after link")))
}

} // verus!
