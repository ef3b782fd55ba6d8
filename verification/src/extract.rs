//! Who is asking, about what: the request context a handler works with once
//! the session and the route have been resolved, and the guards on it.
//! Ids are UUIDs held as their 128-bit value.

use vstd::prelude::*;

use crate::domain::{ClaimStatus, GroupRole, ListStatus};
use crate::errors::{result_view, ApiError, ApiErrorView};

verus! {

/// The caller and their role in the group named by the route.
#[derive(Debug, Clone, Copy)]
pub struct CurrentGroup {
    pub user_id: u128,
    pub group_id: u128,
    pub role: GroupRole,
}

/// The caller, the claim named by the route, and its list.
#[derive(Debug, Clone, Copy)]
pub struct CurrentClaim {
    pub user_id: u128,
    pub group_id: u128,
    pub list_id: u128,
    pub claim_id: u128,
    pub hauler_user_id: u128,
    pub role: GroupRole,
    pub status: ClaimStatus,
    pub list_status: ListStatus,
}

/// The caller and the list named by the route.
#[derive(Debug, Clone, Copy)]
pub struct CurrentList {
    pub user_id: u128,
    pub group_id: u128,
    pub list_id: u128,
    pub role: GroupRole,
    pub created_by_user_id: u128,
    pub status: ListStatus,
}

/// A refused request context: the status and the text of the answer.
#[derive(Debug, Clone, PartialEq, Eq)]
pub struct Rejection {
    pub status: u16,
    pub message: String,
}

pub open spec fn msg_archived() -> Seq<char> {
    "list is archived; no changes can be made"@
}

pub open spec fn msg_requires_open(status: ListStatus) -> Seq<char> {
    "list is "@ + status.spelling() + "; this action requires an open list"@
}

pub open spec fn msg_cannot_manage() -> Seq<char> {
    "only the list creator or a group owner can change list status"@
}

/// The check behind [`CurrentList::require_open`].
pub open spec fn open_check(status: ListStatus) -> Result<(), ApiErrorView> {
    if status != ListStatus::Open {
        Err(ApiErrorView::Conflict(msg_requires_open(status)))
    } else {
        Ok(())
    }
}

/// The check behind `require_mutable`: archived lists are read-only.
pub open spec fn mutable_check(status: ListStatus) -> Result<(), ApiErrorView> {
    if status == ListStatus::Archived {
        Err(ApiErrorView::Conflict(msg_archived()))
    } else {
        Ok(())
    }
}

/// The check behind [`CurrentList::require_can_manage`].
pub open spec fn manage_check(user_id: u128, created_by_user_id: u128, role: GroupRole) -> Result<(), ApiErrorView> {
    if user_id != created_by_user_id && role != GroupRole::Owner {
        Err(ApiErrorView::Forbidden(msg_cannot_manage()))
    } else {
        Ok(())
    }
}

/// The error an archived list answers with.
pub fn archived_error() -> (r: ApiError)
    ensures
        r@ == ApiErrorView::Conflict(msg_archived()),
{
    ApiError::Conflict(String::from_str("list is archived; no changes can be made"))
}

impl CurrentClaim {
    /// Claims on an archived list cannot change.
    pub fn require_list_mutable(&self) -> (r: Result<(), ApiError>)
        ensures
            result_view(r) == mutable_check(self.list_status),
    {
        if self.list_status == ListStatus::Archived {
            return Err(archived_error());
        }
        Ok(())
    }
}

impl CurrentList {
    /// The action needs an open list.
    pub fn require_open(&self) -> (r: Result<(), ApiError>)
        ensures
            result_view(r) == open_check(self.status),
    {
        if self.status != ListStatus::Open {
            let mut m = String::from_str("list is ");
            m.append(self.status.as_str());
            m.append("; this action requires an open list");
            return Err(ApiError::Conflict(m));
        }
        Ok(())
    }

    /// The action changes the list, which an archived list forbids.
    pub fn require_mutable(&self) -> (r: Result<(), ApiError>)
        ensures
            result_view(r) == mutable_check(self.status),
    {
        if self.status == ListStatus::Archived {
            return Err(archived_error());
        }
        Ok(())
    }

    /// Only the list's creator or a group owner may change its status.
    pub fn require_can_manage(&self) -> (r: Result<(), ApiError>)
        ensures
            result_view(r) == manage_check(self.user_id, self.created_by_user_id, self.role),
    {
        if self.user_id != self.created_by_user_id && self.role != GroupRole::Owner {
            return Err(
                ApiError::Forbidden(
                    String::from_str("only the list creator or a group owner can change list status"),
                ),
            );
        }
        Ok(())
    }
}

/// A rejection with a fixed text.
fn rejection(status: u16, text: &str) -> (r: Rejection)
    ensures
        r.status == status,
        r.message@ == text@,
{
    Rejection { status, message: String::from_str(text) }
}

/// The group context: the caller must hold a role in the group.
pub fn current_group(user_id: u128, group_id: u128, role: Option<GroupRole>) -> (r: Result<
    CurrentGroup,
    Rejection,
>)
    ensures
        match role {
            None => r matches Err(j) && j.status == 403 && j.message@
                == "you are not a member of this group"@,
            Some(g) => r == Ok::<CurrentGroup, Rejection>(
                CurrentGroup { user_id, group_id, role: g },
            ),
        },
{
    match role {
        None => Err(rejection(403, "you are not a member of this group")),
        Some(g) => Ok(CurrentGroup { user_id, group_id, role: g }),
    }
}

/// The list context from the list's row (group, creator, status, and the
/// caller's role there, if any): an unknown list is 404, a non-member 403.
pub fn current_list(
    user_id: u128,
    list_id: u128,
    row: Option<(u128, u128, ListStatus, Option<GroupRole>)>,
) -> (r: Result<CurrentList, Rejection>)
    ensures
        match row {
            None => r matches Err(j) && j.status == 404 && j.message@ == "list not found"@,
            Some((group_id, created_by_user_id, status, None)) => r matches Err(j) && j.status
                == 403 && j.message@ == "you are not a member of this list's group"@,
            Some((group_id, created_by_user_id, status, Some(role))) => r == Ok::<
                CurrentList,
                Rejection,
            >(CurrentList { user_id, group_id, list_id, role, created_by_user_id, status }),
        },
{
    match row {
        None => Err(rejection(404, "list not found")),
        Some((group_id, created_by_user_id, status, role)) => match role {
            None => Err(rejection(403, "you are not a member of this list's group")),
            Some(role) => Ok(
                CurrentList { user_id, group_id, list_id, role, created_by_user_id, status },
            ),
        },
    }
}

/// The claim context from the claim's row (list, group, hauler, claim
/// status, the caller's role, list status): unknown is 404, non-member 403.
pub fn current_claim(
    user_id: u128,
    claim_id: u128,
    row: Option<(u128, u128, u128, ClaimStatus, Option<GroupRole>, ListStatus)>,
) -> (r: Result<CurrentClaim, Rejection>)
    ensures
        match row {
            None => r matches Err(j) && j.status == 404 && j.message@ == "claim not found"@,
            Some((list_id, group_id, hauler_user_id, status, None, list_status)) => r matches Err(
                j,
            ) && j.status == 403 && j.message@ == "you are not a member of this claim's group"@,
            Some((list_id, group_id, hauler_user_id, status, Some(role), list_status)) => r
                == Ok::<CurrentClaim, Rejection>(
                CurrentClaim {
                    user_id,
                    group_id,
                    list_id,
                    claim_id,
                    hauler_user_id,
                    role,
                    status,
                    list_status,
                },
            ),
        },
{
    match row {
        None => Err(rejection(404, "claim not found")),
        Some((list_id, group_id, hauler_user_id, status, role, list_status)) => match role {
            None => Err(rejection(403, "you are not a member of this claim's group")),
            Some(role) => Ok(
                CurrentClaim {
                    user_id,
                    group_id,
                    list_id,
                    claim_id,
                    hauler_user_id,
                    role,
                    status,
                    list_status,
                },
            ),
        },
    }
}

} // verus!
