//! Citadel search and a group's tracked structures: the query a search
//! runs, which structures may be tracked, and by whom.

use vstd::prelude::*;

use crate::domain::{GroupRole, MarketKind};
use crate::lists::utf8_len;
use crate::text::{chars_of, remove_char, trim, trimmed};

verus! {

#[derive(Debug, Clone, PartialEq, Eq)]
pub enum CitadelError {
    BadRequest(String),
    Forbidden,
    NotFound,
    /// An unexpected failure, by its message.
    Internal(String),
}

pub enum CitadelErrorView {
    BadRequest(Seq<char>),
    Forbidden,
    NotFound,
    Internal(Seq<char>),
}

impl View for CitadelError {
    type V = CitadelErrorView;

    open spec fn view(&self) -> CitadelErrorView {
        match self {
            CitadelError::BadRequest(m) => CitadelErrorView::BadRequest(m@),
            CitadelError::Forbidden => CitadelErrorView::Forbidden,
            CitadelError::NotFound => CitadelErrorView::NotFound,
            CitadelError::Internal(m) => CitadelErrorView::Internal(m@),
        }
    }
}

pub open spec fn citadel_result_view<T>(r: Result<T, CitadelError>) -> Result<T, CitadelErrorView> {
    match r {
        Ok(t) => Ok(t),
        Err(e) => Err(e@),
    }
}

impl CitadelError {
    pub fn status(&self) -> (r: u16)
        ensures
            r == match self@ {
                CitadelErrorView::BadRequest(_) => 400u16,
                CitadelErrorView::Forbidden => 403u16,
                CitadelErrorView::NotFound => 404u16,
                CitadelErrorView::Internal(_) => 500u16,
            },
    {
        match self {
            CitadelError::BadRequest(_) => 400,
            CitadelError::Forbidden => 403,
            CitadelError::NotFound => 404,
            CitadelError::Internal(_) => 500,
        }
    }

    pub fn body(&self) -> (r: String)
        ensures
            r@ == match self@ {
                CitadelErrorView::BadRequest(m) => m,
                CitadelErrorView::Forbidden => "owner only"@,
                CitadelErrorView::NotFound => "not found"@,
                CitadelErrorView::Internal(_) => "internal error"@,
            },
    {
        match self {
            CitadelError::BadRequest(m) => m.clone(),
            CitadelError::Forbidden => String::from_str("owner only"),
            CitadelError::NotFound => String::from_str("not found"),
            CitadelError::Internal(_) => String::from_str("internal error"),
        }
    }
}

/// The `ILIKE` pattern of a search: the trimmed query with the pattern
/// characters `%` and `_` removed, between two `%`.
pub open spec fn search_pattern_of(q: Seq<char>) -> Seq<char> {
    seq!['%'] + remove_char(remove_char(trim(q), '%'), '_') + seq!['%']
}

/// A search: an empty (after trimming) query finds nothing and runs no
/// query; one of more than 100 bytes is refused.
pub fn search_pattern(q: &str) -> (r: Result<Option<String>, CitadelError>)
    ensures
        trim(q@).len() == 0 ==> r == Ok::<Option<String>, CitadelError>(None),
        trim(q@).len() > 0 && utf8_len(trim(q@)) > 100 ==> citadel_result_view(r) == Err::<
            Option<String>,
            CitadelErrorView,
        >(CitadelErrorView::BadRequest("query too long"@)),
        trim(q@).len() > 0 && utf8_len(trim(q@)) <= 100 ==> (r matches Ok(Some(p)) && p@
            == search_pattern_of(q@)),
{
    let t = trimmed(q);
    if t.as_str().is_empty() {
        return Ok(None);
    }
    if crate::text::utf8_len_exceeds(t.as_str(), 100) {
        return Err(CitadelError::BadRequest(String::from_str("query too long")));
    }
    let v = chars_of(t.as_str());
    let n = v.len();
    proof {
        assert(v@.subrange(0, n as int) =~= v@);
    }
    let no_pct = crate::text::remove_char_range(&v, 0, n, '%');
    let m = no_pct.len();
    proof {
        assert(no_pct@.subrange(0, m as int) =~= no_pct@);
    }
    let cleaned = crate::text::remove_char_range(&no_pct, 0, m, '_');
    let mut p = String::from_str("%");
    proof {
        reveal_strlit("%");
        assert(p@ =~= seq!['%'] + cleaned@.take(0));
    }
    let mut i: usize = 0;
    while i < cleaned.len()
        invariant
            i <= cleaned@.len(),
            p@ == seq!['%'] + cleaned@.take(i as int),
        decreases cleaned@.len() - i,
    {
        crate::text::push_char(&mut p, cleaned[i]);
        assert(cleaned@.take(i + 1) =~= cleaned@.take(i as int).push(cleaned@[i as int]));
        i = i + 1;
    }
    crate::text::push_char(&mut p, '%');
    proof {
        assert(cleaned@.take(cleaned@.len() as int) =~= cleaned@);
        assert(p@ =~= search_pattern_of(q@));
    }
    Ok(Some(p))
}

/// Tracking and untracking structures is for group owners.
pub fn require_owner(role: GroupRole) -> (r: Result<(), CitadelError>)
    ensures
        role == GroupRole::Owner ==> r is Ok,
        role != GroupRole::Owner ==> r == Err::<(), CitadelError>(CitadelError::Forbidden),
{
    if role == GroupRole::Owner {
        Ok(())
    } else {
        Err(CitadelError::Forbidden)
    }
}

/// Only a public structure whose details are known may be tracked; the
/// market row gives its stored kind, publicity and whether details synced.
pub open spec fn track_check(row: Option<(Seq<char>, bool, bool)>) -> Result<(), CitadelErrorView> {
    match row {
        None => Err(CitadelErrorView::NotFound),
        Some((kind, is_public, detailed)) => match MarketKind::parse_spec(kind) {
            None => Err(CitadelErrorView::Internal("bad kind: unknown market kind: "@ + kind)),
            Some(mk) => if mk != MarketKind::PublicStructure || !is_public || !detailed {
                Err(CitadelErrorView::BadRequest("market is not a tracked-eligible public citadel"@))
            } else {
                Ok(())
            },
        },
    }
}

pub fn check_trackable(row: Option<(String, bool, bool)>) -> (r: Result<(), CitadelError>)
    ensures
        citadel_result_view(r) == track_check(
            match row {
                Some((k, p, d)) => Some((k@, p, d)),
                None => None,
            },
        ),
{
    match row {
        None => Err(CitadelError::NotFound),
        Some((kind, is_public, detailed)) => match MarketKind::parse(kind.as_str()) {
            None => {
                let mut m = String::from_str("bad kind: unknown market kind: ");
                m.append(kind.as_str());
                Err(CitadelError::Internal(m))
            },
            Some(mk) => {
                if mk != MarketKind::PublicStructure || !is_public || !detailed {
                    Err(
                        CitadelError::BadRequest(
                            String::from_str("market is not a tracked-eligible public citadel"),
                        ),
                    )
                } else {
                    Ok(())
                }
            },
        },
    }
}

/// Untracking a structure the group did not track.
pub fn check_untracked(rows_affected: u64) -> (r: Result<(), CitadelError>)
    ensures
        rows_affected == 0 ==> r == Err::<(), CitadelError>(CitadelError::NotFound),
        rows_affected != 0 ==> r is Ok,
{
    if rows_affected == 0 {
        return Err(CitadelError::NotFound);
    }
    Ok(())
}

} // verus!
