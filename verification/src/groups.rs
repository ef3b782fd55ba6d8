//! Groups and invites: names, owners, leaving, and the per-user cap.

use vstd::prelude::*;

use crate::auth::views;
use crate::domain::GroupRole;
use crate::errors::{result_view, ApiError, ApiErrorView};
use crate::lists::utf8_len;
use crate::text::{int_text, push_i64, str_eq, trim, trimmed};

verus! {

/// Length of a generated invite code.
pub const INVITE_CODE_LEN: usize = 10usize;

/// Attempts at a fresh invite code before giving up.
pub const MAX_INVITE_GEN_ATTEMPTS: usize = 8usize;

/// The unique index whose violation means an invite code collided.
pub const INVITE_CODE_UNIQUE: &'static str = "groups_invite_code_key";

pub open spec fn msg_bad_name() -> Seq<char> {
    "name must be 1\u{2013}80 characters"@
}

/// A group name is trimmed and must then have 1 to 80 bytes.
pub fn validate_group_name(name: &str) -> (r: Result<String, ApiError>)
    ensures
        match r {
            Ok(n) => n@ == trim(name@) && 1 <= utf8_len(trim(name@)) <= 80,
            Err(e) => !(1 <= utf8_len(trim(name@)) <= 80) && e@ == ApiErrorView::BadRequest(
                msg_bad_name(),
            ),
        },
{
    let t = trimmed(name);
    if t.as_str().is_empty() || crate::text::utf8_len_exceeds(t.as_str(), 80) {
        return Err(ApiError::BadRequest(String::from_str("name must be 1\u{2013}80 characters")));
    }
    Ok(t)
}

/// Deleting a group and rotating its invite need the owner role.
pub fn require_owner_role(role: GroupRole) -> (r: Result<(), ApiError>)
    ensures
        result_view(r) == (if role != GroupRole::Owner {
            Err(ApiErrorView::Forbidden("owner role required"@))
        } else {
            Ok::<(), ApiErrorView>(())
        }),
{
    if role != GroupRole::Owner {
        return Err(ApiError::Forbidden(String::from_str("owner role required")));
    }
    Ok(())
}

/// The caller's stored role among the group's `(user, role)` memberships.
pub open spec fn role_of(members: Seq<(u128, Seq<char>)>, user_id: u128) -> Option<Seq<char>> {
    if exists|i: int| 0 <= i < members.len() && members[i].0 == user_id {
        Some(
            members[choose|i: int|
                0 <= i < members.len() && members[i].0 == user_id && forall|j: int|
                    0 <= j < i ==> members[j].0 != user_id].1,
        )
    } else {
        None
    }
}

/// Whether some other member is an owner.
pub open spec fn other_owner(members: Seq<(u128, Seq<char>)>, user_id: u128) -> bool {
    exists|i: int| 0 <= i < members.len() && members[i].0 != user_id && members[i].1 == "owner"@
}

/// Leaving a group: a member may leave, except its last owner.
pub open spec fn leave_check(members: Seq<(u128, Seq<char>)>, user_id: u128) -> Result<(), ApiErrorView> {
    match role_of(members, user_id) {
        None => Err(ApiErrorView::Forbidden("you are not a member of this group"@)),
        Some(role) => match GroupRole::parse_spec(role) {
            None => Err(ApiErrorView::Internal("unknown group role: "@ + role)),
            Some(GroupRole::Owner) => if !other_owner(members, user_id) {
                Err(ApiErrorView::BadRequest("you are the last owner; delete the group instead"@))
            } else {
                Ok(())
            },
            Some(GroupRole::Member) => Ok(()),
        },
    }
}

pub open spec fn member_views(members: Seq<(u128, String)>) -> Seq<(u128, Seq<char>)> {
    members.map_values(|m: (u128, String)| (m.0, m.1@))
}

/// Decides a leave request from the group's locked memberships.
pub fn check_leave(members: &Vec<(u128, String)>, user_id: u128) -> (r: Result<(), ApiError>)
    ensures
        result_view(r) == leave_check(member_views(members@), user_id),
{
    let ghost ms = member_views(members@);
    let mut i: usize = 0;
    while i < members.len() && members[i].0 != user_id
        invariant
            i <= members@.len(),
            ms == member_views(members@),
            forall|j: int| 0 <= j < i ==> ms[j].0 != user_id,
        decreases members@.len() - i,
    {
        i = i + 1;
    }
    if i == members.len() {
        return Err(ApiError::Forbidden(String::from_str("you are not a member of this group")));
    }
    proof {
        let c = choose|k: int|
            0 <= k < ms.len() && ms[k].0 == user_id && forall|j: int| 0 <= j < k ==> ms[j].0 != user_id;
        assert(ms[i as int].0 == user_id);
        if c < i {
        } else if c > i {
        }
        assert(c == i);
    }
    let role_text = members[i].1.as_str();
    match GroupRole::parse(role_text) {
        None => {
            let mut m = String::from_str("unknown group role: ");
            m.append(role_text);
            Err(ApiError::Internal(m))
        },
        Some(GroupRole::Member) => Ok(()),
        Some(GroupRole::Owner) => {
            let mut k: usize = 0;
            let mut found = false;
            while k < members.len()
                invariant
                    k <= members@.len(),
                    ms == member_views(members@),
                    found == exists|j: int| 0 <= j < k && ms[j].0 != user_id && ms[j].1 == "owner"@,
                decreases members@.len() - k,
            {
                if members[k].0 != user_id && str_eq(members[k].1.as_str(), GroupRole::Owner.as_str()) {
                    proof {
                        reveal_strlit("owner");
                    }
                    assert(ms[k as int].1 == "owner"@);
                    found = true;
                }
                k = k + 1;
            }
            if !found {
                return Err(
                    ApiError::BadRequest(
                        String::from_str("you are the last owner; delete the group instead"),
                    ),
                );
            }
            Ok(())
        },
    }
}

pub open spec fn msg_group_quota(count: i64, cap: i64) -> Seq<char> {
    "you are already a member of "@ + int_text(count as int) + " groups (limit "@ + int_text(
        cap as int,
    ) + ")"@
}

/// `t` occurs in `s`.
pub open spec fn contains_text(s: Seq<char>, t: Seq<char>) -> bool {
    exists|i: int| 0 <= i && i + t.len() <= s.len() && #[trigger] s.subrange(i, i + t.len()) == t
}

/// The refusal names the caller's group count and the cap: it reads
/// "already a member of {count}" and "limit {cap}".
pub proof fn lemma_group_quota_message(count: i64, cap: i64)
    ensures
        contains_text(msg_group_quota(count, cap), "already a member of "@ + int_text(count as int)),
        contains_text(msg_group_quota(count, cap), "limit "@ + int_text(cap as int)),
{
    reveal_strlit("you are already a member of ");
    reveal_strlit("already a member of ");
    reveal_strlit(" groups (limit ");
    reveal_strlit("limit ");
    reveal_strlit(")");
    let a = "you are already a member of "@;
    let b = int_text(count as int);
    let c = " groups (limit "@;
    let d = int_text(cap as int);
    let e = ")"@;
    let m = msg_group_quota(count, cap);
    assert(m == a + b + c + d + e);
    let t1 = "already a member of "@ + b;
    assert(m.subrange(8, 8 + t1.len() as int) =~= t1);
    let t2 = "limit "@ + d;
    let k: int = (a.len() + b.len() + 9) as int;
    assert(m.subrange(k, k + t2.len() as int) =~= t2);
}

/// A user belongs to at most `cap` groups, counting joins as well as
/// creations.
pub fn check_group_quota(count: i64, cap: i64) -> (r: Result<(), ApiError>)
    ensures
        result_view(r) == (if count >= cap {
            Err(ApiErrorView::QuotaExceeded(msg_group_quota(count, cap)))
        } else {
            Ok::<(), ApiErrorView>(())
        }),
{
    if count >= cap {
        let mut m = String::from_str("you are already a member of ");
        push_i64(&mut m, count);
        m.append(" groups (limit ");
        push_i64(&mut m, cap);
        m.append(")");
        return Err(ApiError::QuotaExceeded(m));
    }
    Ok(())
}

/// What creating or rotating an invite answers when every attempt
/// collided.
pub fn invite_exhausted() -> (r: ApiError)
    ensures
        r@ == ApiErrorView::Internal("could not generate a unique invite code after 8 tries"@),
{
    ApiError::Internal(String::from_str("could not generate a unique invite code after 8 tries"))
}

/// Whether a database error names the invite-code index, i.e. the code
/// collided and another should be tried.
pub fn is_invite_collision(constraint: Option<&str>) -> (r: bool)
    ensures
        r == (constraint matches Some(c) && c@ == INVITE_CODE_UNIQUE@),
{
    match constraint {
        Some(c) => str_eq(c, INVITE_CODE_UNIQUE),
        None => false,
    }
}

/// Deleting a group that no row matched.
pub fn check_group_deleted(rows_affected: u64) -> (r: Result<(), ApiError>)
    ensures
        result_view(r) == (if rows_affected == 0 {
            Err(ApiErrorView::NotFound("group not found"@))
        } else {
            Ok::<(), ApiErrorView>(())
        }),
{
    if rows_affected == 0 {
        return Err(ApiError::NotFound(String::from_str("group not found")));
    }
    Ok(())
}

/// Joining with a code that matches no group.
pub fn invalid_invite() -> (r: ApiError)
    ensures
        r@ == ApiErrorView::NotFound("invite is invalid or expired"@),
{
    ApiError::NotFound(String::from_str("invite is invalid or expired"))
}

/// What one attempt to store a fresh invite code came to.
#[derive(Debug, Clone)]
pub enum InviteInsert {
    Stored,
    /// The code was already taken (the invite-code index refused it).
    Collision,
    /// Any other database failure, by its message.
    Failed(String),
}

/// What to do after an attempt.
#[derive(Debug)]
pub enum InviteStep {
    Done,
    Retry,
    Fail(ApiError),
}

/// The invite-code loop of creating a group and rotating its invite:
/// after `attempts` attempts (the last with `outcome`), stop on success,
/// draw a new code after a collision while attempts remain, and fail
/// otherwise.
pub fn invite_step(attempts: usize, outcome: InviteInsert) -> (r: InviteStep)
    requires
        1 <= attempts <= MAX_INVITE_GEN_ATTEMPTS,
    ensures
        match outcome {
            InviteInsert::Stored => r is Done,
            InviteInsert::Failed(e) => r matches InviteStep::Fail(x) && x@ == ApiErrorView::Internal(e@),
            InviteInsert::Collision => if attempts < MAX_INVITE_GEN_ATTEMPTS {
                r is Retry
            } else {
                r matches InviteStep::Fail(x) && x@ == ApiErrorView::Internal(
                    "could not generate a unique invite code after 8 tries"@,
                )
            },
        },
{
    match outcome {
        InviteInsert::Stored => InviteStep::Done,
        InviteInsert::Failed(e) => InviteStep::Fail(ApiError::Internal(e)),
        InviteInsert::Collision => {
            if attempts < MAX_INVITE_GEN_ATTEMPTS {
                InviteStep::Retry
            } else {
                InviteStep::Fail(invite_exhausted())
            }
        },
    }
}

} // verus!
