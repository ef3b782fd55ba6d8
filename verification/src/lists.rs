//! Shopping lists: the input limits on every endpoint that fans out to ESI,
//! which markets a group may price against, who may change a list, and the
//! cheapest-market estimate.
//!
//! Limits: a MultiBuy body of at most [`MAX_MULTIBUY_BYTES`] bytes, at most
//! [`MAX_PARSED_LINES`] parsed lines and [`MAX_DISTINCT_NAMES`] distinct
//! names, and at most [`MAX_MARKET_IDS`] markets, without repeats.

use vstd::prelude::*;

use crate::decimal::{
    checked_add, checked_mul, dec_add, dec_mul, lemma_pow10_positive, lt, pow10, Dec, MAX_MANTISSA,
};
use crate::domain::{GroupRole, ListItemStatus, ListStatus, Market, MarketKind};
use crate::errors::{msg_forbidden, msg_not_found, result_view, ApiError, ApiErrorView};
use crate::extract::{manage_check, mutable_check, CurrentList};
use crate::multibuy::{multibuy, parse_multibuy, ParsedMultibuy, ParsedMultibuyView};
use crate::text::{byte_len, dec_digits, int_text, lemma_lines_bounded_by_bytes, lines, push_i64, push_u64};

verus! {

pub const MAX_MULTIBUY_BYTES: usize = 65536usize;

pub const MAX_PARSED_LINES: usize = 5000usize;

pub const MAX_DISTINCT_NAMES: usize = 1000usize;

pub const MAX_MARKET_IDS: usize = 8usize;

pub open spec fn utf8_len(s: Seq<char>) -> nat {
    vstd::utf8::encode_utf8(s).len()
}

/// The size limit on a MultiBuy body, in UTF-8 bytes.
pub open spec fn multibuy_size_check(mb: Seq<char>) -> Result<(), ApiErrorView> {
    if utf8_len(mb) > 65536 {
        Err(
            ApiErrorView::BadRequest(
                "multibuy too large ("@ + dec_digits(utf8_len(mb)) + " bytes); max 65536"@,
            ),
        )
    } else {
        Ok(())
    }
}

pub fn validate_multibuy_size(mb: &str) -> (r: Result<(), ApiError>)
    requires
        utf8_len(mb@) <= usize::MAX,
    ensures
        result_view(r) == multibuy_size_check(mb@),
{
    let n = byte_len(mb);
    if n > MAX_MULTIBUY_BYTES {
        let mut m = String::from_str("multibuy too large (");
        push_u64(&mut m, n as u64);
        m.append(" bytes); max 65536");
        return Err(ApiError::BadRequest(m));
    }
    Ok(())
}

/// The limits on a list's market ids: at least one, at most eight, no
/// repeats.
pub open spec fn market_ids_check(ids: Seq<u128>) -> Result<(), ApiErrorView> {
    if ids.len() == 0 {
        Err(ApiErrorView::BadRequest("market_ids must not be empty"@))
    } else if ids.len() > 8 {
        Err(
            ApiErrorView::BadRequest(
                "too many market_ids ("@ + dec_digits(ids.len()) + "); max 8"@,
            ),
        )
    } else if !ids.no_duplicates() {
        Err(ApiErrorView::BadRequest("market_ids contains duplicates"@))
    } else {
        Ok(())
    }
}

pub fn validate_market_ids_size(ids: &[u128]) -> (r: Result<(), ApiError>)
    ensures
        result_view(r) == market_ids_check(ids@),
{
    if ids.len() == 0 {
        return Err(ApiError::BadRequest(String::from_str("market_ids must not be empty")));
    }
    if ids.len() > MAX_MARKET_IDS {
        let mut m = String::from_str("too many market_ids (");
        push_u64(&mut m, ids.len() as u64);
        m.append("); max 8");
        return Err(ApiError::BadRequest(m));
    }
    let mut i: usize = 0;
    while i < ids.len()
        invariant
            i <= ids@.len(),
            0 < ids@.len() <= 8,
            forall|a: int, b: int| 0 <= a < b < i ==> ids@[a] != ids@[b],
        decreases ids@.len() - i,
    {
        let mut j: usize = 0;
        while j < i
            invariant
                j <= i < ids@.len(),
                0 < ids@.len() <= 8,
                forall|a: int, b: int| 0 <= a < b < i ==> ids@[a] != ids@[b],
                forall|a: int| 0 <= a < j ==> ids@[a] != ids@[i as int],
            decreases i - j,
        {
            if ids[j] == ids[i] {
                assert(!ids@.no_duplicates());
                return Err(ApiError::BadRequest(String::from_str("market_ids contains duplicates")));
            }
            j = j + 1;
        }
        i = i + 1;
    }
    Ok(())
}

/// The markets a query returned must be all the ids asked for.
pub fn check_all_markets_found(found: usize, requested: usize) -> (r: Result<(), ApiError>)
    ensures
        result_view(r) == (if found != requested {
            Err(ApiErrorView::BadRequest("one or more market_ids do not exist"@))
        } else {
            Ok::<(), ApiErrorView>(())
        }),
{
    if found != requested {
        return Err(
            ApiError::BadRequest(String::from_str("one or more market_ids do not exist")),
        );
    }
    Ok(())
}

/// The ids of the public structures among `markets`, in order.
pub open spec fn structure_ids(ms: Seq<Market>) -> Seq<u128>
    decreases ms.len(),
{
    if ms.len() == 0 {
        Seq::<u128>::empty()
    } else if ms.last().kind == MarketKind::PublicStructure {
        structure_ids(ms.drop_last()).push(ms.last().id)
    } else {
        structure_ids(ms.drop_last())
    }
}

/// The ids of the public structures among `markets`: the ones whose
/// tracking must be looked up.
pub fn citadel_ids(markets: &Vec<Market>) -> (r: Vec<u128>)
    ensures
        r@ == structure_ids(markets@),
{
    let mut out: Vec<u128> = Vec::new();
    let mut i: usize = 0;
    while i < markets.len()
        invariant
            i <= markets@.len(),
            out@ == structure_ids(markets@.take(i as int)),
        decreases markets@.len() - i,
    {
        assert(markets@.take(i + 1).drop_last() =~= markets@.take(i as int));
        if markets[i].kind == MarketKind::PublicStructure {
            out.push(markets[i].id);
        }
        i = i + 1;
    }
    assert(markets@.take(markets@.len() as int) =~= markets@);
    out
}

pub open spec fn label_of(m: Market) -> Seq<char> {
    match m.short_label {
        Some(l) => l@,
        None => "(unnamed)"@,
    }
}

/// The first market that fails, and why: it must be public; an NPC hub
/// must be marked a hub; a structure must be tracked by the group.
pub open spec fn market_error(m: Market, tracked_ids: Seq<u128>) -> Option<Seq<char>> {
    if !m.is_public {
        Some("market "@ + label_of(m) + " is not public"@)
    } else {
        match m.kind {
            MarketKind::NpcHub => if !m.is_hub {
                Some("market "@ + label_of(m) + " is marked as NPC hub but is_hub=false"@)
            } else {
                None
            },
            MarketKind::PublicStructure => if !tracked_ids.contains(m.id) {
                Some("citadel '"@ + label_of(m) + "' is not tracked by this group"@)
            } else {
                None
            },
        }
    }
}

/// Every market of a list must be usable by the group; the first failing
/// one, in order, is reported.
pub open spec fn markets_check(markets: Seq<Market>, tracked_ids: Seq<u128>) -> Result<(), ApiErrorView>
    decreases markets.len(),
{
    if markets.len() == 0 {
        Ok(())
    } else {
        match market_error(markets[0], tracked_ids) {
            Some(e) => Err(ApiErrorView::BadRequest(e)),
            None => markets_check(markets.drop_first(), tracked_ids),
        }
    }
}

fn label(m: &Market) -> (r: String)
    ensures
        r@ == label_of(*m),
{
    match &m.short_label {
        Some(l) => l.clone(),
        None => String::from_str("(unnamed)"),
    }
}

fn contains_id(ids: &Vec<u128>, id: u128) -> (r: bool)
    ensures
        r == ids@.contains(id),
{
    let mut i: usize = 0;
    while i < ids.len()
        invariant
            i <= ids@.len(),
            forall|j: int| 0 <= j < i ==> ids@[j] != id,
        decreases ids@.len() - i,
    {
        if ids[i] == id {
            return true;
        }
        i = i + 1;
    }
    false
}

fn check_market(m: &Market, tracked_ids: &Vec<u128>) -> (r: Option<String>)
    ensures
        match r {
            Some(e) => market_error(*m, tracked_ids@) == Some(e@),
            None => market_error(*m, tracked_ids@) is None,
        },
{
    if !m.is_public {
        let mut e = String::from_str("market ");
        let l = label(m);
        e.append(l.as_str());
        e.append(" is not public");
        return Some(e);
    }
    match m.kind {
        MarketKind::NpcHub => {
            if !m.is_hub {
                let mut e = String::from_str("market ");
                let l = label(m);
                e.append(l.as_str());
                e.append(" is marked as NPC hub but is_hub=false");
                return Some(e);
            }
            None
        },
        MarketKind::PublicStructure => {
            if !contains_id(tracked_ids, m.id) {
                let mut e = String::from_str("citadel '");
                let l = label(m);
                e.append(l.as_str());
                e.append("' is not tracked by this group");
                return Some(e);
            }
            None
        },
    }
}

/// A list may use public NPC hubs marked as hubs, and public structures the
/// group tracks (`tracked_ids`, from the group's tracked markets).
pub fn validate_markets_for_group(markets: &Vec<Market>, tracked_ids: &Vec<u128>) -> (r: Result<
    (),
    ApiError,
>)
    ensures
        result_view(r) == markets_check(markets@, tracked_ids@),
{
    assert(markets@.skip(0) =~= markets@);
    let mut i: usize = 0;
    while i < markets.len()
        invariant
            i <= markets@.len(),
            markets_check(markets@, tracked_ids@) == markets_check(markets@.skip(i as int), tracked_ids@),
        decreases markets@.len() - i,
    {
        assert(markets@.skip(i as int).drop_first() =~= markets@.skip(i + 1));
        assert(markets@.skip(i as int)[0] == markets@[i as int]);
        match check_market(&markets[i], tracked_ids) {
            Some(e) => {
                return Err(ApiError::BadRequest(e));
            },
            None => {},
        }
        i = i + 1;
    }
    assert(markets@.skip(markets@.len() as int) =~= Seq::<Market>::empty());
    Ok(())
}

/// Who may change a list's status: a member who created it or an owner; an
/// unknown list is not found, a non-member is refused.
pub open spec fn status_change_check(user_id: u128, row: Option<(u128, Option<GroupRole>)>) -> Result<
    (),
    ApiErrorView,
> {
    match row {
        None => Err(ApiErrorView::NotFound(msg_not_found())),
        Some((_, None)) => Err(ApiErrorView::Forbidden(msg_forbidden())),
        Some((created_by, Some(role))) => if user_id != created_by && role != GroupRole::Owner {
            Err(ApiErrorView::Forbidden(msg_forbidden()))
        } else {
            Ok(())
        },
    }
}

/// Decides a list status change from the list's creator and the caller's
/// role in its group.
pub fn authorize_list_status_change(user_id: u128, row: Option<(u128, Option<GroupRole>)>) -> (r:
    Result<(), ApiError>)
    ensures
        result_view(r) == status_change_check(user_id, row),
{
    match row {
        None => Err(ApiError::not_found()),
        Some((created_by, role)) => match role {
            None => Err(ApiError::forbidden()),
            Some(role) => {
                if user_id != created_by && role != GroupRole::Owner {
                    Err(ApiError::forbidden())
                } else {
                    Ok(())
                }
            },
        },
    }
}

pub open spec fn msg_lists_quota(count: i64, cap: i64) -> Seq<char> {
    "this group already has "@ + int_text(count as int) + " active lists (cap "@ + int_text(
        cap as int,
    ) + "); archive some before adding more"@
}

/// A group holds at most `cap` lists that are not archived.
pub fn check_lists_quota(count: i64, cap: i64) -> (r: Result<(), ApiError>)
    ensures
        result_view(r) == (if count >= cap {
            Err(ApiErrorView::QuotaExceeded(msg_lists_quota(count, cap)))
        } else {
            Ok::<(), ApiErrorView>(())
        }),
{
    if count >= cap {
        let mut m = String::from_str("this group already has ");
        push_i64(&mut m, count);
        m.append(" active lists (cap ");
        push_i64(&mut m, cap);
        m.append("); archive some before adding more");
        return Err(ApiError::QuotaExceeded(m));
    }
    Ok(())
}

/// The checks on a parsed MultiBuy before its items are stored or shown.
pub open spec fn parsed_check(p: ParsedMultibuyView, allow_errors: bool) -> Result<(), ApiErrorView> {
    if !allow_errors && p.errors.len() > 0 {
        Err(
            ApiErrorView::BadRequest(
                dec_digits(p.errors.len()) + " multibuy line(s) failed to parse"@,
            ),
        )
    } else if !allow_errors && p.lines.len() == 0 {
        Err(ApiErrorView::BadRequest("multibuy is empty"@))
    } else if p.lines.len() > 5000 {
        Err(
            ApiErrorView::BadRequest(
                "too many parsed lines ("@ + dec_digits(p.lines.len()) + "); max 5000"@,
            ),
        )
    } else if p.lines.len() > 1000 {
        Err(
            ApiErrorView::BadRequest(
                "too many distinct items ("@ + dec_digits(p.lines.len()) + "); max 1000"@,
            ),
        )
    } else {
        Ok(())
    }
}

/// Parses a size-checked MultiBuy body and applies the line limits; a
/// preview (`allow_errors`) keeps failed lines and accepts an empty paste.
/// A body within the size limit has few enough lines that no line number
/// wraps, so the accounting law of the parser applies to it.
pub fn parse_checked_multibuy(mb: &str, allow_errors: bool) -> (r: Result<ParsedMultibuy, ApiError>)
    requires
        utf8_len(mb@) <= 65536,
    ensures
        match r {
            Ok(p) => p@ == multibuy(mb@) && parsed_check(multibuy(mb@), allow_errors) is Ok,
            Err(e) => parsed_check(multibuy(mb@), allow_errors) == Err::<(), ApiErrorView>(e@),
        },
        lines(mb@).len() <= 65537,
{
    proof {
        lemma_lines_bounded_by_bytes(mb@);
    }
    let parsed = parse_multibuy(mb);
    if !allow_errors && parsed.errors.len() > 0 {
        let mut m = String::new();
        push_u64(&mut m, parsed.errors.len() as u64);
        m.append(" multibuy line(s) failed to parse");
        return Err(ApiError::BadRequest(m));
    }
    if !allow_errors && parsed.lines.len() == 0 {
        return Err(ApiError::BadRequest(String::from_str("multibuy is empty")));
    }
    if parsed.lines.len() > MAX_PARSED_LINES {
        let mut m = String::from_str("too many parsed lines (");
        push_u64(&mut m, parsed.lines.len() as u64);
        m.append("); max 5000");
        return Err(ApiError::BadRequest(m));
    }
    if parsed.lines.len() > MAX_DISTINCT_NAMES {
        let mut m = String::from_str("too many distinct items (");
        push_u64(&mut m, parsed.lines.len() as u64);
        m.append("); max 1000");
        return Err(ApiError::BadRequest(m));
    }
    Ok(parsed)
}

/// The primary market must be one of the list's markets.
pub fn check_primary_market(market_ids: &[u128], primary_market_id: u128) -> (r: Result<
    (),
    ApiError,
>)
    ensures
        result_view(r) == (if !market_ids@.contains(primary_market_id) {
            Err(ApiErrorView::BadRequest("primary_market_id must be in market_ids"@))
        } else {
            Ok::<(), ApiErrorView>(())
        }),
{
    let mut i: usize = 0;
    while i < market_ids.len()
        invariant
            i <= market_ids@.len(),
            forall|j: int| 0 <= j < i ==> market_ids@[j] != primary_market_id,
        decreases market_ids@.len() - i,
    {
        if market_ids[i] == primary_market_id {
            return Ok(());
        }
        i = i + 1;
    }
    Err(ApiError::BadRequest(String::from_str("primary_market_id must be in market_ids")))
}

pub open spec fn msg_items_cap(n: nat, cap: i64) -> Seq<char> {
    "list has "@ + dec_digits(n) + " items; per-list cap is "@ + int_text(cap as int)
}

/// The validation of a new list, in the order the handler makes it: body
/// size, market ids, primary market, the parse and its limits, and the
/// per-list item cap.
pub open spec fn new_list_check(mb: Seq<char>, ids: Seq<u128>, primary: u128, items_cap: i64) -> Result<
    (),
    ApiErrorView,
> {
    if multibuy_size_check(mb) is Err {
        multibuy_size_check(mb)
    } else if market_ids_check(ids) is Err {
        market_ids_check(ids)
    } else if !ids.contains(primary) {
        Err(ApiErrorView::BadRequest("primary_market_id must be in market_ids"@))
    } else if parsed_check(multibuy(mb), false) is Err {
        parsed_check(multibuy(mb), false)
    } else if multibuy(mb).lines.len() > items_cap {
        Err(ApiErrorView::QuotaExceeded(msg_items_cap(multibuy(mb).lines.len(), items_cap)))
    } else {
        Ok(())
    }
}

/// Validates a new list and returns its parsed items.
pub fn validate_new_list(
    multibuy_text: &str,
    market_ids: &[u128],
    primary_market_id: u128,
    items_cap: i64,
) -> (r: Result<ParsedMultibuy, ApiError>)
    requires
        utf8_len(multibuy_text@) <= usize::MAX,
    ensures
        match r {
            Ok(p) => p@ == multibuy(multibuy_text@) && new_list_check(
                multibuy_text@,
                market_ids@,
                primary_market_id,
                items_cap,
            ) is Ok,
            Err(e) => new_list_check(multibuy_text@, market_ids@, primary_market_id, items_cap)
                == Err::<(), ApiErrorView>(e@),
        },
{
    validate_multibuy_size(multibuy_text)?;
    validate_market_ids_size(market_ids)?;
    check_primary_market(market_ids, primary_market_id)?;
    let parsed = parse_checked_multibuy(multibuy_text, false)?;
    if (parsed.lines.len() as i64) > items_cap {
        let mut m = String::from_str("list has ");
        push_u64(&mut m, parsed.lines.len() as u64);
        m.append(" items; per-list cap is ");
        push_i64(&mut m, items_cap);
        return Err(ApiError::QuotaExceeded(m));
    }
    Ok(parsed)
}

/// Which of a list's fields a patch changes, checked against the list:
/// something must change; a status change needs the right to manage the
/// list, any other change a list that is not archived.
pub fn check_list_patch(
    cur: &CurrentList,
    has_label: bool,
    has_notes: bool,
    has_status: bool,
) -> (r: Result<(), ApiError>)
    ensures
        result_view(r) == (if !has_label && !has_notes && !has_status {
            Err(ApiErrorView::BadRequest("nothing to update"@))
        } else if !has_status {
            mutable_check(cur.status)
        } else {
            manage_check(cur.user_id, cur.created_by_user_id, cur.role)
        }),
{
    if !has_label && !has_notes && !has_status {
        return Err(ApiError::BadRequest(String::from_str("nothing to update")));
    }
    if !has_status {
        cur.require_mutable()
    } else {
        cur.require_can_manage()
    }
}

/// A list is deleted by its creator or a group owner.
pub fn check_list_delete(cur: &CurrentList) -> (r: Result<(), ApiError>)
    ensures
        result_view(r) == (if cur.created_by_user_id != cur.user_id && cur.role != GroupRole::Owner {
            Err(ApiErrorView::Forbidden(msg_forbidden()))
        } else {
            Ok::<(), ApiErrorView>(())
        }),
{
    if cur.created_by_user_id != cur.user_id && cur.role != GroupRole::Owner {
        return Err(ApiError::forbidden());
    }
    Ok(())
}

pub open spec fn msg_items_need_open(status: ListStatus) -> Seq<char> {
    "list is "@ + status.spelling() + "; items can only be added to open lists"@
}

/// Items are added to open lists only.
pub fn check_items_addable(cur: &CurrentList) -> (r: Result<(), ApiError>)
    ensures
        result_view(r) == (if cur.status != ListStatus::Open {
            Err(ApiErrorView::Conflict(msg_items_need_open(cur.status)))
        } else {
            Ok::<(), ApiErrorView>(())
        }),
{
    if cur.status != ListStatus::Open {
        let mut m = String::from_str("list is ");
        m.append(cur.status.as_str());
        m.append("; items can only be added to open lists");
        return Err(ApiError::Conflict(m));
    }
    Ok(())
}

pub open spec fn msg_items_cap_exceeded(adding: nat, current: i64, cap: i64) -> Seq<char> {
    "adding "@ + dec_digits(adding) + " items would push the list past its per-list cap ("@
        + int_text(current as int) + " of "@ + int_text(cap as int) + ")"@
}

/// Adding items may not take a list past its cap.
pub fn check_items_cap(current: i64, adding: usize, cap: i64) -> (r: Result<(), ApiError>)
    ensures
        result_view(r) == (if current + adding > cap {
            Err(ApiErrorView::QuotaExceeded(msg_items_cap_exceeded(adding as nat, current, cap)))
        } else {
            Ok::<(), ApiErrorView>(())
        }),
{
    if (current as i128) + (adding as i128) > (cap as i128) {
        let mut m = String::from_str("adding ");
        push_u64(&mut m, adding as u64);
        m.append(" items would push the list past its per-list cap (");
        push_i64(&mut m, current);
        m.append(" of ");
        push_i64(&mut m, cap);
        m.append(")");
        return Err(ApiError::QuotaExceeded(m));
    }
    Ok(())
}

/// An item is edited or deleted only while still open; `action` names the
/// attempt in the message.
pub fn check_item_open(status: ListItemStatus, action: &str) -> (r: Result<(), ApiError>)
    ensures
        result_view(r) == (if status != ListItemStatus::Open {
            Err(
                ApiErrorView::Conflict(
                    "cannot "@ + action@ + " item with status '"@ + status.spelling()
                        + "'; release the claim or reverse fulfillments first"@,
                ),
            )
        } else {
            Ok::<(), ApiErrorView>(())
        }),
{
    if status != ListItemStatus::Open {
        let mut m = String::from_str("cannot ");
        m.append(action);
        m.append(" item with status '");
        m.append(status.as_str());
        m.append("'; release the claim or reverse fulfillments first");
        return Err(ApiError::Conflict(m));
    }
    Ok(())
}

/// A patch of one item must change something, and a new quantity must be
/// positive.
pub fn check_item_patch(qty_requested: Option<i64>, has_type_name: bool) -> (r: Result<
    (),
    ApiError,
>)
    ensures
        result_view(r) == (if qty_requested is None && !has_type_name {
            Err(ApiErrorView::BadRequest("nothing to update"@))
        } else if qty_requested matches Some(q) && q <= 0 {
            Err(ApiErrorView::BadRequest("qty_requested must be positive"@))
        } else {
            Ok::<(), ApiErrorView>(())
        }),
{
    if qty_requested.is_none() && !has_type_name {
        return Err(ApiError::BadRequest(String::from_str("nothing to update")));
    }
    if let Some(q) = qty_requested {
        if q <= 0 {
            return Err(ApiError::BadRequest(String::from_str("qty_requested must be positive")));
        }
    }
    Ok(())
}

/// The id of the list's primary market among its `(id, is_primary)` rows.
pub fn primary_market_id(rows: &Vec<(u128, bool)>) -> (r: Result<u128, ApiError>)
    ensures
        match r {
            Ok(id) => exists|i: int|
                0 <= i < rows@.len() && rows@[i] == (id, true) && forall|j: int|
                    0 <= j < i ==> !rows@[j].1,
            Err(e) => (forall|i: int| 0 <= i < rows@.len() ==> !rows@[i].1) && e@
                == ApiErrorView::Internal("list has no primary market"@),
        },
{
    let mut i: usize = 0;
    while i < rows.len()
        invariant
            i <= rows@.len(),
            forall|j: int| 0 <= j < i ==> !rows@[j].1,
        decreases rows@.len() - i,
    {
        if rows[i].1 {
            assert(rows@[i as int] == (rows@[i as int].0, true));
            return Ok(rows[i].0);
        }
        i = i + 1;
    }
    Err(ApiError::Internal(String::from_str("list has no primary market")))
}

/// The retry budget of the optimistic estimate recompute.
pub const RECOMPUTE_RETRY_LIMIT: usize = 3usize;

/// What the estimate recompute answers once every attempt saw the list
/// change under it.
pub fn concurrent_modification_error() -> (r: ApiError)
    ensures
        r@ == ApiErrorView::Conflict("list was concurrently modified; please retry"@),
{
    ApiError::Conflict(String::from_str("list was concurrently modified; please retry"))
}

/// What the estimate recompute does next.
#[derive(Debug)]
pub enum RecomputeStep {
    Write,
    Retry,
    GiveUp(ApiError),
}

/// After the `attempts`-th pass of the estimate recompute: write when the
/// list did not change since it was read, read again while passes remain,
/// and give up otherwise.
pub fn recompute_step(attempts: usize, list_changed: bool) -> (r: RecomputeStep)
    requires
        1 <= attempts <= RECOMPUTE_RETRY_LIMIT,
    ensures
        !list_changed ==> r is Write,
        list_changed && attempts < RECOMPUTE_RETRY_LIMIT ==> r is Retry,
        list_changed && attempts == RECOMPUTE_RETRY_LIMIT ==> (r matches RecomputeStep::GiveUp(e) && e@
            == ApiErrorView::Conflict("list was concurrently modified; please retry"@)),
{
    if !list_changed {
        RecomputeStep::Write
    } else if attempts < RECOMPUTE_RETRY_LIMIT {
        RecomputeStep::Retry
    } else {
        RecomputeStep::GiveUp(concurrent_modification_error())
    }
}

/// Strictly increasing: sorted without repeats.
pub open spec fn strictly_increasing(s: Seq<i64>) -> bool {
    forall|i: int, j: int| 0 <= i < j < s.len() ==> s[i] < s[j]
}

/// The distinct type ids, in ascending order.
pub fn dedup_type_ids(ids: &Vec<i64>) -> (r: Vec<i64>)
    ensures
        strictly_increasing(r@),
        forall|t: i64| r@.contains(t) <==> ids@.contains(t),
{
    let mut out: Vec<i64> = Vec::new();
    let mut i: usize = 0;
    while i < ids.len()
        invariant
            i <= ids@.len(),
            strictly_increasing(out@),
            forall|t: i64|
                #![trigger out@.contains(t)]
                #![trigger ids@.take(i as int).contains(t)]
                out@.contains(t) <==> ids@.take(i as int).contains(t),
        decreases ids@.len() - i,
    {
        let x = ids[i];
        let mut p: usize = 0;
        while p < out.len() && out[p] < x
            invariant
                p <= out@.len(),
                forall|k: int| 0 <= k < p ==> out@[k] < x,
            decreases out@.len() - p,
        {
            p = p + 1;
        }
        let ghost before = out@;
        if p < out.len() && out[p] == x {
        } else {
            out.insert(p, x);
            assert(out@ =~= before.insert(p as int, x));
            assert forall|a: int, b: int| 0 <= a < b < out@.len() implies out@[a] < out@[b] by {
                if b < p {
                } else if b == p {
                } else if a < p {
                } else if a == p {
                    assert(out@[b] == before[b - 1]);
                } else {
                    assert(out@[a] == before[a - 1] && out@[b] == before[b - 1]);
                }
            }
        }
        proof {
            let prev = ids@.take(i as int);
            let next = ids@.take(i + 1);
            assert(next =~= prev.push(x));
            assert forall|t: i64| out@.contains(t) <==> next.contains(t) by {
                assert(before.contains(t) <==> ids@.take(i as int).contains(t));
                if out@.contains(t) {
                    let k = choose|k: int| 0 <= k < out@.len() && out@[k] == t;
                    if t != x {
                        if out@.len() == before.len() {
                            assert(before.contains(t));
                        } else if k < p {
                            assert(before[k] == t);
                        } else {
                            assert(before[k - 1] == t);
                        }
                        assert(prev.contains(t));
                        let w = choose|w: int| 0 <= w < prev.len() && prev[w] == t;
                        assert(next[w] == t);
                    } else {
                        assert(next[prev.len() as int] == t);
                    }
                }
                if next.contains(t) {
                    let w = choose|w: int| 0 <= w < next.len() && next[w] == t;
                    if w < prev.len() {
                        assert(prev[w] == t);
                        assert(before.contains(t));
                        let k = choose|k: int| 0 <= k < before.len() && before[k] == t;
                        if out@.len() == before.len() {
                            assert(out@[k] == t);
                        } else if k < p {
                            assert(out@[k] == t);
                        } else {
                            assert(out@[k + 1] == t);
                        }
                    } else {
                        assert(out@[p as int] == t);
                    }
                }
            }
        }
        i = i + 1;
    }
    assert(ids@.take(ids@.len() as int) =~= ids@);
    out
}

/// `r` is the cheapest of the `(market id, best sell)` candidates: the
/// first candidate whose price no other undercuts, or nothing where no
/// candidate has a price.
pub open spec fn cheapest_pick(c: Seq<(u128, Option<Dec>)>, r: (Option<Dec>, Option<u128>)) -> bool {
    match r {
        (Some(p), Some(id)) => exists|i: int|
            0 <= i < c.len() && c[i] == (id, Some(p)) && (forall|j: int|
                0 <= j < c.len() && c[j].1 is Some ==> !c[j].1->0.lt(p)) && (forall|j: int|
                0 <= j < i && c[j].1 is Some ==> p.lt(c[j].1->0)),
        (None, None) => forall|i: int| 0 <= i < c.len() ==> c[i].1 is None,
        _ => false,
    }
}

/// The estimate for one item: the cheapest best-sell price among the list's
/// markets (`(market id, best sell)` in market order) and where it is.
pub fn pick_cheapest(candidates: &Vec<(u128, Option<Dec>)>) -> (r: (Option<Dec>, Option<u128>))
    requires
        forall|i: int|
            0 <= i < candidates@.len() && (#[trigger] candidates@[i]).1 is Some ==> candidates@[i].1->0.wf(),
    ensures
        cheapest_pick(candidates@, r),
{
    let mut best: Option<(Dec, u128)> = None;
    let ghost mut best_i: int = -1;
    let mut i: usize = 0;
    while i < candidates.len()
        invariant
            i <= candidates@.len(),
            forall|k: int|
                0 <= k < candidates@.len() && (#[trigger] candidates@[k]).1 is Some ==> candidates@[k].1->0.wf(),
            match best {
                None => forall|k: int| 0 <= k < i ==> candidates@[k].1 is None,
                Some((p, id)) => 0 <= best_i < i && candidates@[best_i] == (id, Some(p)) && (forall|
                    k: int,
                |
                    0 <= k < i && candidates@[k].1 is Some ==> !candidates@[k].1->0.lt(p)) && (
                forall|k: int| 0 <= k < best_i && candidates@[k].1 is Some ==> p.lt(candidates@[k].1->0)),
            },
        decreases candidates@.len() - i,
    {
        let (id, price) = candidates[i];
        match price {
            None => {},
            Some(p) => {
                match best {
                    None => {
                        best = Some((p, id));
                        proof {
                            best_i = i as int;
                        }
                    },
                    Some((bp, _)) => {
                        if lt(p, bp) {
                            proof {
                                lemma_dec_lt_transitive_total(candidates@, i as int, p, bp, best_i);
                            }
                            best = Some((p, id));
                            proof {
                                best_i = i as int;
                            }
                        } else {
                        }
                    },
                }
            },
        }
        i = i + 1;
    }
    match best {
        Some((p, id)) => (Some(p), Some(id)),
        None => (None, None),
    }
}

/// When a new price beats the best so far, it beats (and is not beaten by)
/// every earlier price.
proof fn lemma_dec_lt_transitive_total(
    c: Seq<(u128, Option<Dec>)>,
    i: int,
    p: Dec,
    bp: Dec,
    best_i: int,
)
    requires
        p.lt(bp),
        0 <= best_i < i <= c.len(),
        c[best_i].1 == Some(bp),
        forall|k: int| 0 <= k < i && c[k].1 is Some ==> !c[k].1->0.lt(bp),
    ensures
        forall|k: int| 0 <= k < i && c[k].1 is Some ==> p.lt(c[k].1->0),
{
    assert forall|k: int| 0 <= k < i && c[k].1 is Some implies p.lt(c[k].1->0) by {
        lemma_lt_le_trans(p, bp, c[k].1->0);
    }
}

/// `a < b` and `b <= c` give `a < c`.
pub proof fn lemma_lt_le_trans(a: Dec, b: Dec, c: Dec)
    requires
        a.lt(b),
        !c.lt(b),
    ensures
        a.lt(c),
{
    let pa = crate::decimal::pow10(a.scale as nat);
    let pb = crate::decimal::pow10(b.scale as nat);
    let pc = crate::decimal::pow10(c.scale as nat);
    crate::decimal::lemma_pow10_positive(a.scale as nat);
    crate::decimal::lemma_pow10_positive(b.scale as nat);
    crate::decimal::lemma_pow10_positive(c.scale as nat);
    assert(a.mantissa * pb < b.mantissa * pa);
    assert(c.mantissa * pb >= b.mantissa * pc);
    assert(a.mantissa * pb * pc < b.mantissa * pa * pc) by (nonlinear_arith)
        requires
            a.mantissa * pb < b.mantissa * pa,
            pc > 0,
    ;
    assert(c.mantissa * pb * pa >= b.mantissa * pc * pa) by (nonlinear_arith)
        requires
            c.mantissa * pb >= b.mantissa * pc,
            pa > 0,
    ;
    assert(a.mantissa * pc * pb < c.mantissa * pa * pb) by (nonlinear_arith)
        requires
            a.mantissa * pb * pc < b.mantissa * pa * pc,
            c.mantissa * pb * pa >= b.mantissa * pc * pa,
    ;
    assert(a.mantissa * pc < c.mantissa * pa) by (nonlinear_arith)
        requires
            a.mantissa * pc * pb < c.mantissa * pa * pb,
            pb > 0,
    ;
}

/// A list's estimate: the sum over items of unit estimate times quantity,
/// for the items that have an estimate, added in order from zero; `None`
/// where the decimal arithmetic overflows.
pub open spec fn estimate_total_spec(items: Seq<(Option<Dec>, i64)>) -> Option<Dec>
    decreases items.len(),
{
    if items.len() == 0 {
        Some(Dec { mantissa: 0, scale: 0 })
    } else {
        match estimate_total_spec(items.drop_last()) {
            None => None,
            Some(t) => match items.last().0 {
                None => Some(t),
                Some(u) => match dec_mul(u, Dec { mantissa: items.last().1 as i128, scale: 0 }) {
                    None => None,
                    Some(x) => dec_add(t, x),
                },
            },
        }
    }
}

/// Sums the estimate of a list from `(unit estimate, quantity)` pairs.
pub fn estimate_total(items: &Vec<(Option<Dec>, i64)>) -> (r: Option<Dec>)
    requires
        forall|i: int|
            0 <= i < items@.len() && (#[trigger] items@[i]).0 is Some ==> items@[i].0->0.wf(),
    ensures
        r == estimate_total_spec(items@),
{
    let mut total = Dec::zero();
    let mut i: usize = 0;
    while i < items.len()
        invariant
            i <= items@.len(),
            total.wf(),
            estimate_total_spec(items@.take(i as int)) == Some(total),
            forall|k: int|
                0 <= k < items@.len() && (#[trigger] items@[k]).0 is Some ==> items@[k].0->0.wf(),
        decreases items@.len() - i,
    {
        assert(items@.take(i + 1).drop_last() =~= items@.take(i as int));
        let (unit, qty) = items[i];
        match unit {
            None => {},
            Some(u) => {
                let q = Dec::from_i64(qty);
                match checked_mul(u, q) {
                    None => {
                        proof {
                            lemma_estimate_none_extends(items@, i as int + 1);
                        }
                        return None;
                    },
                    Some(x) => match checked_add(total, x) {
                        None => {
                            proof {
                                lemma_estimate_none_extends(items@, i as int + 1);
                            }
                            return None;
                        },
                        Some(t) => {
                            total = t;
                        },
                    },
                }
            },
        }
        i = i + 1;
    }
    assert(items@.take(items@.len() as int) =~= items@);
    Some(total)
}

/// An item with no estimate leaves a list's estimate as it was.
pub proof fn lemma_estimate_skips_unpriced(items: Seq<(Option<Dec>, i64)>, q: i64)
    ensures
        estimate_total_spec(items.push((None, q))) == estimate_total_spec(items),
{
    assert(items.push((None, q)).drop_last() =~= items);
}

/// A priced item adds exactly its unit estimate times its quantity to the
/// list's estimate, as numbers: where the estimate so far is zero or at the
/// unit's scale, and the product and the new total fit in 96 bits, the new
/// estimate's value is the old one plus `unit * qty`. From a non-negative
/// estimate, a non-negative unit and a positive quantity, it stays
/// non-negative.
pub proof fn lemma_estimate_adds_item(items: Seq<(Option<Dec>, i64)>, u: Dec, q: i64)
    requires
        u.wf(),
        estimate_total_spec(items) is Some,
        estimate_total_spec(items)->0.mantissa == 0 || estimate_total_spec(items)->0.scale == u.scale,
        -MAX_MANTISSA <= u.mantissa * q <= MAX_MANTISSA,
        -MAX_MANTISSA <= estimate_total_spec(items)->0.mantissa + u.mantissa * q <= MAX_MANTISSA,
    ensures
        ({
            let t = estimate_total_spec(items)->0;
            &&& estimate_total_spec(items.push((Some(u), q))) matches Some(r)
            &&& r.mantissa * pow10(t.scale as nat) * pow10(u.scale as nat) == (t.mantissa * pow10(
                u.scale as nat,
            ) + u.mantissa * q * pow10(t.scale as nat)) * pow10(r.scale as nat)
            &&& (t.mantissa >= 0 && u.mantissa >= 0 && q > 0 ==> r.mantissa >= 0)
        }),
{
    let t = estimate_total_spec(items)->0;
    let s = items.push((Some(u), q));
    assert(s.drop_last() =~= items);
    assert(s.last() == (Some(u), q));
    let qd = Dec { mantissa: q as i128, scale: 0 };
    assert(u.mantissa * qd.mantissa == u.mantissa * q);
    let pt = pow10(t.scale as nat);
    let pu = pow10(u.scale as nat);
    lemma_pow10_positive(t.scale as nat);
    lemma_pow10_positive(u.scale as nat);
    let x = dec_mul(u, qd)->0;
    let r = estimate_total_spec(s)->0;
    assert(estimate_total_spec(s) == dec_add(t, x));
    if u.mantissa * q == 0 {
        assert(x == Dec { mantissa: 0, scale: 0 });
        assert(u.mantissa * q * pt == 0) by (nonlinear_arith)
            requires
                u.mantissa * q == 0,
        ;
        if t.mantissa == 0 {
            assert(r == x);
            assert(r.mantissa * pt * pu == 0) by (nonlinear_arith)
                requires
                    r.mantissa == 0,
            ;
            assert((t.mantissa * pu + u.mantissa * q * pt) * pow10(r.scale as nat) == 0) by (nonlinear_arith)
                requires
                    t.mantissa == 0,
                    u.mantissa * q * pt == 0,
            ;
        } else {
            assert(r == t);
            assert(t.mantissa * pt * pu == (t.mantissa * pu + 0) * pt) by (nonlinear_arith);
        }
    } else {
        assert(x == Dec { mantissa: (u.mantissa * q) as i128, scale: u.scale });
        if t.mantissa == 0 {
            assert(r == x);
            assert(r.mantissa * pt * pu == (t.mantissa * pu + u.mantissa * q * pt) * pu) by (nonlinear_arith)
                requires
                    t.mantissa == 0,
                    r.mantissa == u.mantissa * q,
            ;
        } else {
            assert(r == Dec { mantissa: (t.mantissa + u.mantissa * q) as i128, scale: u.scale });
            assert(r.mantissa * pt * pu == (t.mantissa * pu + u.mantissa * q * pt) * pu) by (nonlinear_arith)
                requires
                    pt == pu,
                    r.mantissa == t.mantissa + u.mantissa * q,
            ;
        }
        assert(u.mantissa >= 0 && q > 0 ==> u.mantissa * q >= 0) by (nonlinear_arith);
    }
}

/// A list of one priced item is estimated at exactly the unit estimate
/// times the quantity, for every quantity whose product fits in 96 bits;
/// a non-negative unit and a positive quantity never give a negative
/// estimate.
pub proof fn lemma_estimate_single_item(u: Dec, q: i64)
    requires
        u.wf(),
        -MAX_MANTISSA <= u.mantissa * q <= MAX_MANTISSA,
    ensures
        estimate_total_spec(seq![(Some(u), q)]) matches Some(r) && r.mantissa * pow10(u.scale as nat)
            == u.mantissa * q * pow10(r.scale as nat) && (u.mantissa >= 0 && q > 0 ==> r.mantissa >= 0),
{
    let e = Seq::<(Option<Dec>, i64)>::empty();
    assert(estimate_total_spec(e) == Some(Dec { mantissa: 0, scale: 0 }));
    lemma_estimate_adds_item(e, u, q);
    assert(e.push((Some(u), q)) =~= seq![(Some(u), q)]);
    let r = estimate_total_spec(seq![(Some(u), q)])->0;
    assert(pow10(0) == 1);
    let pu = pow10(u.scale as nat);
    let pr = pow10(r.scale as nat);
    assert(r.mantissa * 1 * pu == (0 * pu + u.mantissa * q * 1) * pr);
    assert(r.mantissa * pu == u.mantissa * q * pr) by (nonlinear_arith)
        requires
            r.mantissa * 1 * pu == (0 * pu + u.mantissa * q * 1) * pr,
    ;
}

proof fn lemma_estimate_none_extends(items: Seq<(Option<Dec>, i64)>, n: int)
    requires
        0 <= n <= items.len(),
        estimate_total_spec(items.take(n)) is None,
    ensures
        estimate_total_spec(items) is None,
    decreases items.len() - n,
{
    if n < items.len() {
        assert(items.take(n + 1).drop_last() =~= items.take(n));
        lemma_estimate_none_extends(items, n + 1);
    } else {
        assert(items.take(n) =~= items);
    }
}

/// Cached structure prices are read for a group only for a public market,
/// some type ids, and a structure the group can access.
pub fn citadel_prices_readable(is_public: bool, type_count: usize, accessible: bool) -> (r: bool)
    ensures
        r == (is_public && type_count > 0 && accessible),
{
    is_public && type_count > 0 && accessible
}

/// The `(name, quantity, first line number or 0)` of each parsed line, in
/// order.
pub open spec fn item_lines(ls: Seq<crate::multibuy::ParsedLineView>) -> Seq<(Seq<char>, i64, i32)> {
    ls.map_values(
        |l: crate::multibuy::ParsedLineView|
            (
                l.name,
                l.qty,
                if l.line_nos.len() > 0 {
                    l.line_nos[0] as i32
                } else {
                    0i32
                },
            ),
    )
}

/// The lines an add-items request brings: a MultiBuy paste (checked like a
/// new list's, failed lines refused), or a single `type_name` with a
/// positive `qty`.
pub open spec fn new_lines_check(mb: Option<Seq<char>>, item_name: Option<Seq<char>>, qty: Option<i64>) -> Result<
    Seq<(Seq<char>, i64, i32)>,
    ApiErrorView,
> {
    match mb {
        Some(m) => match multibuy_size_check(m) {
            Err(e) => Err(e),
            Ok(_) => match parsed_check(multibuy(m), false) {
                Err(e) => Err(e),
                Ok(_) => Ok(item_lines(multibuy(m).lines)),
            },
        },
        None => match (item_name, qty) {
            (Some(n), Some(q)) => if q <= 0 {
                Err(ApiErrorView::BadRequest("qty must be positive"@))
            } else {
                Ok(seq![(n, q, 0i32)])
            },
            _ => Err(ApiErrorView::BadRequest("provide either {multibuy} or {type_name, qty}"@)),
        },
    }
}

pub open spec fn line_triple_views(v: Seq<(String, i64, i32)>) -> Seq<(Seq<char>, i64, i32)> {
    v.map_values(|t: (String, i64, i32)| (t.0@, t.1, t.2))
}

/// Decides the lines to add to a list.
pub fn new_item_lines(multibuy_text: Option<String>, item_name: Option<String>, qty: Option<i64>) -> (r: Result<
    Vec<(String, i64, i32)>,
    ApiError,
>)
    requires
        multibuy_text matches Some(m) ==> utf8_len(m@) <= usize::MAX,
    ensures
        (match r {
            Ok(v) => Ok(line_triple_views(v@)),
            Err(e) => Err(e@),
        }) == new_lines_check(
            match multibuy_text {
                Some(m) => Some(m@),
                None => None,
            },
            match item_name {
                Some(n) => Some(n@),
                None => None,
            },
            qty,
        ),
{
    match multibuy_text {
        Some(mb) => {
            validate_multibuy_size(mb.as_str())?;
            let parsed = parse_checked_multibuy(mb.as_str(), false)?;
            let ghost pv = parsed@.lines;
            let mut out: Vec<(String, i64, i32)> = Vec::new();
            let mut i: usize = 0;
            while i < parsed.lines.len()
                invariant
                    i <= parsed.lines@.len(),
                    pv == parsed@.lines,
                    line_triple_views(out@) == item_lines(pv).take(i as int),
                decreases parsed.lines@.len() - i,
            {
                let l = &parsed.lines[i];
                let first: i32 = if l.line_nos.len() > 0 {
                    l.line_nos[0] as i32
                } else {
                    0i32
                };
                let ghost before = line_triple_views(out@);
                out.push((l.name.clone(), l.qty, first));
                assert(pv[i as int] == parsed.lines@[i as int]@);
                assert(line_triple_views(out@) =~= before.push(item_lines(pv)[i as int]));
                assert(item_lines(pv).take(i + 1) =~= item_lines(pv).take(i as int).push(
                    item_lines(pv)[i as int],
                ));
                i = i + 1;
            }
            assert(item_lines(pv).take(pv.len() as int) =~= item_lines(pv));
            Ok(out)
        },
        None => match (item_name, qty) {
            (Some(n), Some(q)) => {
                if q <= 0 {
                    return Err(ApiError::BadRequest(String::from_str("qty must be positive")));
                }
                let mut out: Vec<(String, i64, i32)> = Vec::new();
                let ghost nv = n@;
                out.push((n, q, 0i32));
                assert(line_triple_views(out@) =~= seq![(nv, q, 0i32)]);
                Ok(out)
            },
            _ => Err(
                ApiError::BadRequest(String::from_str("provide either {multibuy} or {type_name, qty}")),
            ),
        },
    }
}

/// Every name of a new list or of added items must resolve; the unknown
/// ones are named together.
pub fn check_all_resolved(unresolved: &Vec<String>) -> (r: Result<(), ApiError>)
    ensures
        result_view(r) == (if unresolved@.len() == 0 {
            Ok::<(), ApiErrorView>(())
        } else {
            Err(
                ApiErrorView::BadRequest(
                    "unknown item(s): "@ + crate::text::join(crate::auth::views(unresolved@), ", "@),
                ),
            )
        }),
{
    if unresolved.len() == 0 {
        return Ok(());
    }
    let mut m = String::from_str("unknown item(s): ");
    let ghost vs = crate::auth::views(unresolved@);
    let ghost start = m@;
    m.append(unresolved[0].as_str());
    assert(vs.take(1) =~= seq![vs[0]]);
    let mut i: usize = 1;
    while i < unresolved.len()
        invariant
            1 <= i <= unresolved@.len(),
            vs == crate::auth::views(unresolved@),
            start == "unknown item(s): "@,
            m@ == start + crate::text::join(vs.take(i as int), ", "@),
        decreases unresolved@.len() - i,
    {
        m.append(", ");
        m.append(unresolved[i].as_str());
        assert(vs.take(i + 1).drop_last() =~= vs.take(i as int));
        assert(m@ =~= start + crate::text::join(vs.take(i + 1), ", "@));
        i = i + 1;
    }
    assert(vs.take(vs.len() as int) =~= vs);
    Err(ApiError::BadRequest(m))
}

/// The message for one name that did not resolve.
pub open spec fn msg_unknown_item(name: Seq<char>) -> Seq<char> {
    "unknown item: "@ + name
}

/// A single renamed item must resolve.
pub fn check_item_resolved(name: &str, all_resolved: bool) -> (r: Result<(), ApiError>)
    ensures
        result_view(r) == (if all_resolved {
            Ok::<(), ApiErrorView>(())
        } else {
            Err(ApiErrorView::BadRequest(msg_unknown_item(name@)))
        }),
{
    if !all_resolved {
        let mut m = String::from_str("unknown item: ");
        m.append(name);
        return Err(ApiError::BadRequest(m));
    }
    Ok(())
}

/// A preview line whose name did not resolve carries this error.
pub fn preview_line_error(name: &str, resolved: bool) -> (r: Option<String>)
    ensures
        match r {
            Some(m) => !resolved && m@ == msg_unknown_item(name@),
            None => resolved,
        },
{
    if resolved {
        None
    } else {
        let mut m = String::from_str("unknown item: ");
        m.append(name);
        Some(m)
    }
}

} // verus!
