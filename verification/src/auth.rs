//! Sign-in policy: which scopes an upgrade consent asks for, where a login
//! may send the browser afterwards, and the decisions taken while a
//! character is attached to a user.

use vstd::prelude::*;

use crate::errors::{result_view, ApiError, ApiErrorView};
use crate::text::{
    chars_of, compare_strs, contains_char_range, int_text, lemma_lex_total, lemma_lex_transitive,
    lemma_split_char_nonempty, lex_lt, push_i64, split_char, split_ranges, str_eq, string_of_range,
    trim, trimmed,
};

verus! {

/// The character sequences of a sequence of strings.
pub open spec fn views(s: Seq<String>) -> Seq<Seq<char>> {
    s.map_values(|x: String| x@)
}

/// Every item sorts strictly before every later one: sorted, no duplicates.
pub open spec fn strictly_sorted(s: Seq<Seq<char>>) -> bool {
    forall|i: int, j: int| 0 <= i < j < s.len() ==> lex_lt(s[i], s[j])
}

/// Inserts `s` at its place in the strictly sorted `out`, unless present.
fn insert_sorted(out: &mut Vec<String>, s: &String)
    requires
        strictly_sorted(views(old(out)@)),
    ensures
        strictly_sorted(views(final(out)@)),
        forall|t: Seq<char>|
            #![trigger views(final(out)@).contains(t)]
            #![trigger views(old(out)@).contains(t)]
            views(final(out)@).contains(t) <==> (views(old(out)@).contains(t) || t == s@),
{
    let ghost o = views(out@);
    let mut p: usize = 0;
    while p < out.len() && compare_strs(out[p].as_str(), s.as_str()) < 0
        invariant
            p <= out@.len(),
            o == views(out@),
            strictly_sorted(o),
            forall|k: int| 0 <= k < p ==> lex_lt(#[trigger] o[k], s@),
        decreases out@.len() - p,
    {
        p = p + 1;
    }
    if p < out.len() && compare_strs(out[p].as_str(), s.as_str()) == 0 {
        assert(o[p as int] == s@);
        return;
    }
    proof {
        if p < o.len() {
            lemma_lex_total(o[p as int], s@);
            assert forall|k: int| p <= k < o.len() implies lex_lt(s@, #[trigger] o[k]) by {
                if k > p {
                    lemma_lex_transitive(s@, o[p as int], o[k]);
                }
            }
        }
    }
    out.insert(p, s.clone());
    proof {
        let n = views(out@);
        assert(n =~= o.insert(p as int, s@));
        assert forall|i: int, j: int| 0 <= i < j < n.len() implies lex_lt(n[i], n[j]) by {
            if j < p {
            } else if j == p {
            } else if i < p {
                lemma_lex_transitive(n[i], s@, n[j]);
            } else if i == p {
            } else {
                assert(n[i] == o[i - 1] && n[j] == o[j - 1]);
            }
        }
        assert forall|t: Seq<char>| n.contains(t) <==> (o.contains(t) || t == s@) by {
            if n.contains(t) {
                let i = choose|i: int| 0 <= i < n.len() && n[i] == t;
                if i < p {
                    assert(o[i] == t);
                } else if i > p {
                    assert(o[i - 1] == t);
                }
            }
            if o.contains(t) {
                let i = choose|i: int| 0 <= i < o.len() && o[i] == t;
                if i < p {
                    assert(n[i] == t);
                } else {
                    assert(n[i + 1] == t);
                }
            }
            if t == s@ {
                assert(n[p as int] == t);
            }
        }
    }
}

/// Inserts every string of `src` into the strictly sorted `out`.
fn insert_all(out: &mut Vec<String>, src: &[String])
    requires
        strictly_sorted(views(old(out)@)),
    ensures
        strictly_sorted(views(final(out)@)),
        forall|t: Seq<char>|
            #![trigger views(final(out)@).contains(t)]
            #![trigger views(old(out)@).contains(t)]
            #![trigger views(src@).contains(t)]
            views(final(out)@).contains(t) <==> (views(old(out)@).contains(t) || views(
                src@,
            ).contains(t)),
{
    let ghost o = views(out@);
    let mut i: usize = 0;
    while i < src.len()
        invariant
            i <= src@.len(),
            strictly_sorted(views(out@)),
            forall|t: Seq<char>|
                #![trigger views(out@).contains(t)]
                views(out@).contains(t) <==> (o.contains(t) || views(src@.take(i as int)).contains(
                    t,
                )),
        decreases src@.len() - i,
    {
        let ghost before = views(out@);
        insert_sorted(out, &src[i]);
        proof {
            let a = views(src@.take(i as int));
            let b = views(src@.take(i + 1));
            assert(b =~= a.push(src@[i as int]@));
            assert forall|t: Seq<char>| b.contains(t) <==> (a.contains(t) || t == src@[i as int]@) by {
                if b.contains(t) {
                    let k = choose|k: int| 0 <= k < b.len() && b[k] == t;
                    if k < i {
                        assert(a[k] == t);
                    }
                }
                if a.contains(t) {
                    let k = choose|k: int| 0 <= k < a.len() && a[k] == t;
                    assert(b[k] == t);
                }
                if t == src@[i as int]@ {
                    assert(b[i as int] == t);
                }
            }
            assert forall|t: Seq<char>| views(out@).contains(t) <==> (o.contains(t) || b.contains(t)) by {
                assert(views(out@).contains(t) <==> (before.contains(t) || t == src@[i as int]@));
                assert(before.contains(t) <==> (o.contains(t) || a.contains(t)));
            }
        }
        i = i + 1;
    }
    assert(src@.take(src@.len() as int) =~= src@);
}

/// The scopes an upgrade consent asks for: the login scopes, the scopes the
/// character already holds and the newly requested ones, as one sorted list
/// without duplicates. EVE replaces the granted set on each consent, so
/// nothing the character already held may be dropped.
pub fn merge_upgrade_scopes(
    login_scopes: &[String],
    existing_character_scopes: &[String],
    requested: &[String],
) -> (r: Vec<String>)
    ensures
        strictly_sorted(views(r@)),
        forall|t: Seq<char>|
            #![trigger views(r@).contains(t)]
            views(r@).contains(t) <==> (views(login_scopes@).contains(t) || views(
                existing_character_scopes@,
            ).contains(t) || views(requested@).contains(t)),
{
    let mut all: Vec<String> = Vec::new();
    assert(views(all@) =~= Seq::<Seq<char>>::empty());
    insert_all(&mut all, login_scopes);
    let ghost first = views(all@);
    insert_all(&mut all, existing_character_scopes);
    let ghost second = views(all@);
    insert_all(&mut all, requested);
    assert forall|t: Seq<char>|
        views(all@).contains(t) <==> (views(login_scopes@).contains(t) || views(
            existing_character_scopes@,
        ).contains(t) || views(requested@).contains(t)) by {
        assert(views(all@).contains(t) <==> (second.contains(t) || views(requested@).contains(t)));
        assert(second.contains(t) <==> (first.contains(t) || views(
            existing_character_scopes@,
        ).contains(t)));
        assert(first.contains(t) <==> (Seq::<Seq<char>>::empty().contains(t) || views(
            login_scopes@,
        ).contains(t)));
    }
    all
}

/// A redirect target that stays on this site: a path that starts with `/`
/// but not `//`, with no backslash (browsers read it as `/`) and no CR or LF
/// (header injection).
pub open spec fn is_site_relative(p: Seq<char>) -> bool {
    &&& p.len() > 0
    &&& p[0] == '/'
    &&& !(p.len() > 1 && p[1] == '/')
    &&& !p.contains('\\')
    &&& !p.contains('\r')
    &&& !p.contains('\n')
}

/// Keeps a requested post-login destination only if it is site-relative.
pub fn safe_return_to(return_to: Option<String>) -> (r: Option<String>)
    ensures
        match return_to {
            None => r is None,
            Some(p) => if is_site_relative(p@) {
                r == Some(p)
            } else {
                r is None
            },
        },
{
    let path = match return_to {
        None => return None,
        Some(p) => p,
    };
    let v = chars_of(path.as_str());
    let n = v.len();
    proof {
        assert(v@.subrange(0, n as int) =~= v@);
    }
    if n > 0 && v[0] == '/' && !(n > 1 && v[1] == '/') && !contains_char_range(&v, 0, n, '\\')
        && !contains_char_range(&v, 0, n, '\r') && !contains_char_range(&v, 0, n, '\n') {
        Some(path)
    } else {
        None
    }
}

/// The scopes an upgrade request names: the comma-separated pieces,
/// trimmed, empty ones dropped.
pub open spec fn requested_pieces(raw: Seq<char>) -> Seq<Seq<char>>
    decreases split_char(raw, ',').len(),
{
    pieces_from(split_char(raw, ','))
}

pub open spec fn pieces_from(ps: Seq<Seq<char>>) -> Seq<Seq<char>>
    decreases ps.len(),
{
    if ps.len() == 0 {
        Seq::<Seq<char>>::empty()
    } else if trim(ps.last()).len() == 0 {
        pieces_from(ps.drop_last())
    } else {
        pieces_from(ps.drop_last()).push(trim(ps.last()))
    }
}

/// The first requested scope outside the allowed ones, if any.
pub open spec fn first_disallowed(req: Seq<Seq<char>>, allowed: Seq<Seq<char>>) -> Option<Seq<char>>
    decreases req.len(),
{
    if req.len() == 0 {
        None
    } else {
        match first_disallowed(req.drop_last(), allowed) {
            Some(s) => Some(s),
            None => if allowed.contains(req.last()) {
                None
            } else {
                Some(req.last())
            },
        }
    }
}

/// An upgrade asks for at least one scope, each among the login or upgrade
/// scopes of the configuration.
pub open spec fn upgrade_request_check(raw: Seq<char>, allowed: Seq<Seq<char>>) -> Result<
    Seq<Seq<char>>,
    ApiErrorView,
> {
    let req = requested_pieces(raw);
    if req.len() == 0 {
        Err(ApiErrorView::BadRequest("no scopes requested"@))
    } else {
        match first_disallowed(req, allowed) {
            Some(s) => Err(ApiErrorView::Internal("scope not allowed: "@ + s)),
            None => Ok(req),
        }
    }
}

fn in_either(s: &str, a: &[String], b: &[String]) -> (r: bool)
    ensures
        r == (views(a@) + views(b@)).contains(s@),
{
    let ghost all = views(a@) + views(b@);
    let mut i: usize = 0;
    while i < a.len()
        invariant
            i <= a@.len(),
            all == views(a@) + views(b@),
            forall|j: int| 0 <= j < i ==> all[j] != s@,
        decreases a@.len() - i,
    {
        if str_eq(a[i].as_str(), s) {
            assert(all[i as int] == s@);
            return true;
        }
        i = i + 1;
    }
    let mut k: usize = 0;
    while k < b.len()
        invariant
            k <= b@.len(),
            all == views(a@) + views(b@),
            forall|j: int| 0 <= j < a@.len() + k ==> all[j] != s@,
        decreases b@.len() - k,
    {
        if str_eq(b[k].as_str(), s) {
            assert(all[a@.len() + k] == s@);
            return true;
        }
        k = k + 1;
    }
    false
}

/// Reads the scopes an upgrade asks for and checks each is allowed.
pub fn requested_upgrade_scopes(raw: &str, login_scopes: &[String], upgrade_scopes: &[String]) -> (r:
    Result<Vec<String>, ApiError>)
    ensures
        match r {
            Ok(v) => upgrade_request_check(raw@, views(login_scopes@) + views(upgrade_scopes@))
                == Ok::<Seq<Seq<char>>, ApiErrorView>(views(v@)),
            Err(e) => upgrade_request_check(raw@, views(login_scopes@) + views(upgrade_scopes@))
                == Err::<Seq<Seq<char>>, ApiErrorView>(e@),
        },
{
    let ghost allowed = views(login_scopes@) + views(upgrade_scopes@);
    let v = chars_of(raw);
    let n = v.len();
    proof {
        assert(v@.subrange(0, n as int) =~= v@);
        lemma_split_char_nonempty(v@, ',');
    }
    let ghost ps = split_char(raw@, ',');
    let ranges = split_ranges(&v, 0, n, ',');
    let mut out: Vec<String> = Vec::new();
    let mut bad: Option<String> = None;
    let mut i: usize = 0;
    while i < ranges.len()
        invariant
            i <= ranges@.len(),
            v@ == raw@,
            n == v@.len(),
            allowed == views(login_scopes@) + views(upgrade_scopes@),
            ps == split_char(raw@, ','),
            ranges@.len() == ps.len(),
            forall|k: int|
                0 <= k < ranges@.len() ==> 0 <= (#[trigger] ranges@[k]).0 <= ranges@[k].1 <= n
                    && v@.subrange(ranges@[k].0 as int, ranges@[k].1 as int) == ps[k],
            views(out@) == pieces_from(ps.take(i as int)),
            match bad {
                Some(b) => first_disallowed(pieces_from(ps.take(i as int)), allowed) == Some(b@),
                None => first_disallowed(pieces_from(ps.take(i as int)), allowed) is None,
            },
        decreases ranges@.len() - i,
    {
        let (a, b) = ranges[i];
        let piece = string_of_range(&v, a, b);
        let t = trimmed(piece.as_str());
        assert(ps.take(i + 1).drop_last() =~= ps.take(i as int));
        if !t.as_str().is_empty() {
            let ok = in_either(t.as_str(), login_scopes, upgrade_scopes);
            if bad.is_none() && !ok {
                bad = Some(t.clone());
            }
            let ghost before = views(out@);
            out.push(t);
            assert(views(out@) =~= before.push(trim(ps[i as int])));
            assert(pieces_from(ps.take(i + 1)).drop_last() =~= pieces_from(ps.take(i as int)));
        }
        i = i + 1;
    }
    assert(ps.take(ps.len() as int) =~= ps);
    if out.len() == 0 {
        return Err(ApiError::BadRequest(String::from_str("no scopes requested")));
    }
    match bad {
        Some(s) => {
            let mut m = String::from_str("scope not allowed: ");
            m.append(s.as_str());
            Err(ApiError::Internal(m))
        },
        None => Ok(out),
    }
}

pub open spec fn msg_captcha() -> Seq<char> {
    "captcha verification required for new accounts"@
}

/// Who may start a sign-in: attaching a character needs a session; a
/// fresh browser (no session, not attaching) must pass the captcha unless
/// it is disabled, so its token is handed back for verification.
pub open spec fn login_gate_spec(
    attach: bool,
    has_session: bool,
    captcha_disabled: bool,
    token: Option<Seq<char>>,
) -> Result<Option<Seq<char>>, ApiErrorView> {
    if attach {
        if !has_session {
            Err(ApiErrorView::Unauthorized)
        } else {
            Ok(None)
        }
    } else if !has_session && !captcha_disabled {
        match token {
            None => Err(ApiErrorView::Forbidden(msg_captcha())),
            Some(t) => Ok(Some(t)),
        }
    } else {
        Ok(None)
    }
}

pub fn login_gate(attach: bool, has_session: bool, captcha_disabled: bool, token: Option<String>) -> (r:
    Result<Option<String>, ApiError>)
    ensures
        (match r {
            Ok(Some(t)) => Ok(Some(t@)),
            Ok(None) => Ok(None),
            Err(e) => Err(e@),
        }) == login_gate_spec(
            attach,
            has_session,
            captcha_disabled,
            match token {
                Some(t) => Some(t@),
                None => None,
            },
        ),
{
    if attach {
        if !has_session {
            return Err(ApiError::Unauthorized);
        }
        Ok(None)
    } else if !has_session && !captcha_disabled {
        match token {
            None => Err(
                ApiError::Forbidden(String::from_str("captcha verification required for new accounts")),
            ),
            Some(t) => Ok(Some(t)),
        }
    } else {
        Ok(None)
    }
}

/// Cloudflare Turnstile's answer to a siteverify request; `error_codes`
/// says why a token was refused and is only logged.
#[derive(Debug, Clone)]
pub struct VerifyResponse {
    pub success: bool,
    pub error_codes: Vec<String>,
}

/// A captcha that Cloudflare did not accept refuses the sign-in.
pub fn check_captcha(result: &VerifyResponse) -> (r: Result<(), ApiError>)
    ensures
        result_view(r) == (if result.success {
            Ok::<(), ApiErrorView>(())
        } else {
            Err(ApiErrorView::Forbidden(msg_captcha()))
        }),
{
    if !result.success {
        return Err(
            ApiError::Forbidden(String::from_str("captcha verification required for new accounts")),
        );
    }
    Ok(())
}

/// The client address in an `X-Forwarded-For` value: its first hop,
/// trimmed.
pub fn forwarded_client_ip(header: &str) -> (r: String)
    ensures
        r@ == trim(split_char(header@, ',')[0]),
{
    let v = chars_of(header);
    let n = v.len();
    proof {
        assert(v@.subrange(0, n as int) =~= v@);
        lemma_split_char_nonempty(v@, ',');
    }
    let ranges = split_ranges(&v, 0, n, ',');
    let (a, b) = ranges[0];
    let first = string_of_range(&v, a, b);
    trimmed(first.as_str())
}

/// The callback needs the login pending in the session, and must come
/// back with the state that login stored.
pub fn check_callback_state(pending_state: Option<&str>, returned_state: &str) -> (r: Result<(), ApiError>)
    ensures
        result_view(r) == (match pending_state {
            None => Err(ApiErrorView::BadRequest("no pending auth in session"@)),
            Some(p) => if p@ != returned_state@ {
                Err(ApiErrorView::BadRequest("state mismatch"@))
            } else {
                Ok::<(), ApiErrorView>(())
            },
        }),
{
    match pending_state {
        None => Err(ApiError::BadRequest(String::from_str("no pending auth in session"))),
        Some(p) => {
            if !str_eq(p, returned_state) {
                return Err(ApiError::BadRequest(String::from_str("state mismatch")));
            }
            Ok(())
        },
    }
}

/// An upgrade consent must return the character it was started for.
pub fn check_consent_character(target: Option<i64>, returned: i64) -> (r: Result<(), ApiError>)
    ensures
        result_view(r) == (if target is Some && target != Some(returned) {
            Err(
                ApiErrorView::BadRequest(
                    "consent returned a different character than the one requested"@,
                ),
            )
        } else {
            Ok::<(), ApiErrorView>(())
        }),
{
    if let Some(t) = target {
        if t != returned {
            return Err(
                ApiError::BadRequest(
                    String::from_str("consent returned a different character than the one requested"),
                ),
            );
        }
    }
    Ok(())
}

/// Where a finished sign-in goes: the stored destination if it is still
/// site-relative, else `/me`.
pub fn redirect_after_login(return_to: Option<String>) -> (r: String)
    ensures
        match return_to {
            Some(p) => if is_site_relative(p@) {
                r@ == p@
            } else {
                r@ == "/me"@
            },
            None => r@ == "/me"@,
        },
{
    match safe_return_to(return_to) {
        Some(p) => p,
        None => String::from_str("/me"),
    }
}

/// Which user a signed-in character is attached to.
#[derive(Debug, Clone, Copy, PartialEq, Eq, Structural)]
pub enum TargetUser {
    /// An existing user.
    Existing(u128),
    /// A user created for this character.
    New,
}

/// The user a character lands on: attaching puts it on the session's user;
/// a known character whose owner hash is unchanged stays with its user;
/// otherwise (new or transferred) it goes to the session's user, or a new
/// one when signed out.
pub open spec fn target_user_spec(
    attach: bool,
    session_user: Option<u128>,
    existing: Option<(u128, Seq<char>)>,
    owner_hash: Seq<char>,
) -> Result<TargetUser, ApiErrorView> {
    if attach {
        match session_user {
            Some(s) => Ok(TargetUser::Existing(s)),
            None => Err(ApiErrorView::Internal("attach without session"@)),
        }
    } else {
        match existing {
            Some((uid, hash)) => if hash == owner_hash {
                Ok(TargetUser::Existing(uid))
            } else {
                match session_user {
                    Some(s) => Ok(TargetUser::Existing(s)),
                    None => Ok(TargetUser::New),
                }
            },
            None => match session_user {
                Some(s) => Ok(TargetUser::Existing(s)),
                None => Ok(TargetUser::New),
            },
        }
    }
}

/// Decides which user a character signing in is attached to; `existing`
/// is the stored row's user and owner hash.
pub fn choose_target_user(
    attach: bool,
    session_user: Option<u128>,
    existing: &Option<(u128, String)>,
    owner_hash: &str,
) -> (r: Result<TargetUser, ApiError>)
    ensures
        result_view(r) == target_user_spec(
            attach,
            session_user,
            match existing {
                Some((u, h)) => Some((*u, h@)),
                None => None,
            },
            owner_hash@,
        ),
{
    if attach {
        return match session_user {
            Some(s) => Ok(TargetUser::Existing(s)),
            None => Err(ApiError::Internal(String::from_str("attach without session"))),
        };
    }
    match existing {
        Some((uid, hash)) => {
            if str_eq(hash.as_str(), owner_hash) {
                Ok(TargetUser::Existing(*uid))
            } else {
                match session_user {
                    Some(s) => Ok(TargetUser::Existing(s)),
                    None => Ok(TargetUser::New),
                }
            }
        },
        None => match session_user {
            Some(s) => Ok(TargetUser::Existing(s)),
            None => Ok(TargetUser::New),
        },
    }
}

/// A sign-in adds a character to the target user (and so counts against
/// the cap) unless it is a re-login of a row that user already holds.
pub fn adds_character(existing_user: Option<u128>, target_user: u128) -> (r: bool)
    ensures
        r == match existing_user {
            None => true,
            Some(u) => u != target_user,
        },
{
    match existing_user {
        None => true,
        Some(u) => u != target_user,
    }
}

pub open spec fn msg_characters_quota(count: i64, cap: i64) -> Seq<char> {
    "you already have "@ + int_text(count as int) + " linked characters (cap "@ + int_text(
        cap as int,
    ) + ")"@
}

/// A user holds at most `cap` characters.
pub fn check_characters_quota(count: i64, cap: i64) -> (r: Result<(), ApiError>)
    ensures
        result_view(r) == (if count >= cap {
            Err(ApiErrorView::QuotaExceeded(msg_characters_quota(count, cap)))
        } else {
            Ok::<(), ApiErrorView>(())
        }),
{
    if count >= cap {
        let mut m = String::from_str("you already have ");
        push_i64(&mut m, count);
        m.append(" linked characters (cap ");
        push_i64(&mut m, cap);
        m.append(")");
        return Err(ApiError::QuotaExceeded(m));
    }
    Ok(())
}

/// The associated data binding a character's token ciphertexts to it: the
/// character id's eight big-endian bytes.
pub open spec fn character_aad_spec(id: i64) -> Seq<u8> {
    Seq::new(8, |k: int| ((id as u64) >> ((56 - 8 * k) as u64)) as u8)
}

pub fn character_aad(character_id: i64) -> (r: Vec<u8>)
    ensures
        r@ == character_aad_spec(character_id),
{
    let x: u64 = character_id as u64;
    let mut out: Vec<u8> = Vec::new();
    let mut k: u64 = 0;
    while k < 8
        invariant
            k <= 8,
            x == character_id as u64,
            out@.len() == k,
            forall|j: int| 0 <= j < k ==> out@[j] == ((x >> ((56 - 8 * j) as u64)) as u8),
        decreases 8 - k,
    {
        let shift: u64 = 56 - 8 * k;
        out.push((x >> shift) as u8);
        k = k + 1;
    }
    assert(out@ =~= character_aad_spec(character_id));
    out
}

/// Setting the active character matched no row: the character is not the
/// caller's.
pub fn check_active_character_set(rows_affected: u64) -> (r: Result<(), ApiError>)
    ensures
        result_view(r) == (if rows_affected == 0 {
            Err(ApiErrorView::Unauthorized)
        } else {
            Ok::<(), ApiErrorView>(())
        }),
{
    if rows_affected == 0 {
        return Err(ApiError::Unauthorized);
    }
    Ok(())
}

/// After the head of a strictly sorted list, no item equals the head: the
/// tail holds exactly the other members.
proof fn lemma_strictly_sorted_tail(a: Seq<Seq<char>>, t: Seq<char>)
    requires
        strictly_sorted(a),
        a.len() > 0,
    ensures
        a.drop_first().contains(t) <==> (a.contains(t) && t != a[0]),
{
    if a.drop_first().contains(t) {
        let i = choose|i: int| 0 <= i < a.drop_first().len() && a.drop_first()[i] == t;
        assert(a[i + 1] == t);
        assert(lex_lt(a[0], a[i + 1]));
        crate::text::lemma_lex_irreflexive(a[0]);
    }
    if a.contains(t) && t != a[0] {
        let i = choose|i: int| 0 <= i < a.len() && a[i] == t;
        assert(i != 0);
        assert(a.drop_first()[i - 1] == t);
    }
}

/// A merged scope list is canonical: two strictly sorted lists holding the
/// same scopes are the same list, so merges of inputs with the same scopes,
/// in any order and with any repeats, give the same answer.
pub proof fn lemma_sorted_scopes_are_canonical(a: Seq<Seq<char>>, b: Seq<Seq<char>>)
    requires
        strictly_sorted(a),
        strictly_sorted(b),
        forall|t: Seq<char>| a.contains(t) <==> b.contains(t),
    ensures
        a == b,
    decreases a.len(),
{
    if a.len() == 0 {
        if b.len() > 0 {
            assert(b.contains(b[0]));
        }
        assert(a =~= b);
    } else {
        assert(a.contains(a[0]));
        assert(b.len() > 0);
        assert(b.contains(b[0]));
        let j = choose|j: int| 0 <= j < a.len() && a[j] == b[0];
        let k = choose|k: int| 0 <= k < b.len() && b[k] == a[0];
        if j > 0 && k > 0 {
            assert(lex_lt(a[0], a[j]));
            assert(lex_lt(b[0], b[k]));
            crate::text::lemma_lex_asymmetric(a[0], b[0]);
        }
        assert(a[0] == b[0]);
        assert forall|t: Seq<char>| a.drop_first().contains(t) <==> b.drop_first().contains(t) by {
            lemma_strictly_sorted_tail(a, t);
            lemma_strictly_sorted_tail(b, t);
        }
        assert(strictly_sorted(a.drop_first()));
        assert(strictly_sorted(b.drop_first()));
        lemma_sorted_scopes_are_canonical(a.drop_first(), b.drop_first());
        assert(a =~= seq![a[0]] + a.drop_first());
        assert(b =~= seq![b[0]] + b.drop_first());
    }
}

} // verus!
