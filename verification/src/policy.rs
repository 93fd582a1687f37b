//! Who may do what. Each decision is a function of facts that the caller
//! has looked up; none looks anything up or changes anything.

use vstd::prelude::*;
use crate::error::{Action, WorkspaceError};
use crate::identity::{AuthId, UserId, WorkspaceId};
use crate::user::User;
use crate::workspace::Role;

verus! {

/// The refusal of `action` to the requester with the external identity
/// `requesting_user`.
pub open spec fn forbidden(requesting_user: AuthId, action: Action) -> WorkspaceError {
    WorkspaceError::Forbidden { requester: requesting_user, action }
}

/// The requester of `action`, where the external identity
/// `requesting_user` was resolved to `found`: a requester who is not a
/// stored user may do nothing.
pub open spec fn requester_verdict(
    requesting_user: AuthId,
    found: Option<User>,
    action: Action,
) -> Result<User, WorkspaceError> {
    match found {
        Some(user) => Ok(user),
        None => Err(forbidden(requesting_user, action)),
    }
}

/// The verdict on the request of `requester` for an action that is open to
/// the administrators of the platform only.
pub open spec fn platform_verdict(requesting_user: AuthId, requester: User, action: Action) -> Result<
    (),
    WorkspaceError,
> {
    if requester.is_platform_admin {
        Ok(())
    } else {
        Err(forbidden(requesting_user, action))
    }
}

/// The verdict on the request of `requester` to give `target` the role
/// `role` in `workspace`, where `administers` says whether the requester
/// belongs to the admins team of the workspace: the requester must
/// administer the platform or the workspace, and must not be the target.
/// The permission is looked at first.
pub open spec fn membership_verdict(
    requesting_user: AuthId,
    requester: User,
    administers: bool,
    workspace: WorkspaceId,
    target: UserId,
    role: Role,
) -> Result<(), WorkspaceError> {
    if !(requester.is_platform_admin || administers) {
        Err(forbidden(requesting_user, Action::ChangeMembership { workspace, target, role }))
    } else if requester.id == target {
        Err(WorkspaceError::SelfModification { requester: requesting_user, workspace, target, role })
    } else {
        Ok(())
    }
}

/// Whether `requester` may create workspaces: only a user who administers
/// the platform may.
pub fn can_create_workspace(requester: &User) -> (allowed: bool)
    ensures
        allowed == requester.is_platform_admin,
{
    requester.is_platform_admin
}

/// Whether `requester` may change who belongs to a workspace, where
/// `administers` says whether the requester belongs to its admins team.
pub fn can_manage_workspace(requester: &User, administers: bool) -> (allowed: bool)
    ensures
        allowed == (requester.is_platform_admin || administers),
{
    requester.is_platform_admin || administers
}

/// Hands on the stored user that a requester was resolved to, and refuses
/// `action` where there is none.
pub fn check_requester(requesting_user: AuthId, found: Option<User>, action: Action) -> (verdict:
    Result<User, WorkspaceError>)
    ensures
        verdict == requester_verdict(requesting_user, found, action),
{
    match found {
        Some(user) => Ok(user),
        None => Err(WorkspaceError::Forbidden { requester: requesting_user, action }),
    }
}

/// Decides on a request to create a workspace.
pub fn check_creation(requesting_user: AuthId, requester: &User) -> (verdict: Result<
    (),
    WorkspaceError,
>)
    ensures
        verdict == platform_verdict(requesting_user, *requester, Action::CreateWorkspace),
{
    if can_create_workspace(requester) {
        Ok(())
    } else {
        Err(WorkspaceError::Forbidden { requester: requesting_user, action: Action::CreateWorkspace })
    }
}

/// Decides on a request to set the platform-admin flag of the user with
/// the external identity `target`: only a user who administers the
/// platform may set it.
pub fn check_user_update(requesting_user: AuthId, requester: &User, target: AuthId) -> (verdict:
    Result<(), WorkspaceError>)
    ensures
        verdict == platform_verdict(
            requesting_user,
            *requester,
            Action::UpdateUser { user: target },
        ),
{
    if requester.is_platform_admin {
        Ok(())
    } else {
        Err(
            WorkspaceError::Forbidden {
                requester: requesting_user,
                action: Action::UpdateUser { user: target },
            },
        )
    }
}

/// Decides on a request to change the role of a user in a workspace.
pub fn check_membership_change(
    requesting_user: AuthId,
    requester: &User,
    administers: bool,
    workspace: WorkspaceId,
    target: UserId,
    role: Role,
) -> (verdict: Result<(), WorkspaceError>)
    ensures
        verdict == membership_verdict(
            requesting_user,
            *requester,
            administers,
            workspace,
            target,
            role,
        ),
{
    if !can_manage_workspace(requester, administers) {
        Err(
            WorkspaceError::Forbidden {
                requester: requesting_user,
                action: Action::ChangeMembership { workspace, target, role },
            },
        )
    } else if requester.id == target {
        Err(WorkspaceError::SelfModification { requester: requesting_user, workspace, target, role })
    } else {
        Ok(())
    }
}

} // verus!
