//! What can go wrong, and how each failure is told from the others.

use vstd::prelude::*;
use vstd::string::StringExecFns;
use crate::identity::{uuid_text, AuthId, TeamId, UserId, WorkspaceId};
use crate::workspace::Role;

verus! {

/// The storage backend could not carry out a statement, or a transaction
/// could not be committed. Nothing of the failed unit of work is visible,
/// so the whole request may be tried again.
#[derive(Debug, PartialEq, Eq)]
pub struct StorageError {
    pub detail: String,
}

/// An event could not be handed to the publisher. What was committed before
/// stays committed.
#[derive(Debug, PartialEq, Eq)]
pub struct PublishError {
    pub detail: String,
}

/// The entity that a lookup did not find.
#[derive(Clone, Copy, Debug, PartialEq, Eq, Structural)]
pub enum Missing {
    User(AuthId),
    Workspace(WorkspaceId),
    Team(TeamId),
}

/// The failure of a repository call.
#[derive(Debug, PartialEq, Eq)]
pub enum RepoError {
    NotFound(Missing),
    Storage(StorageError),
}

/// The action that a requester was not allowed to take.
#[derive(Clone, Copy, Debug, PartialEq, Eq, Structural)]
pub enum Action {
    CreateWorkspace,
    ChangeMembership { workspace: WorkspaceId, target: UserId, role: Role },
    UpdateUser { user: AuthId },
}

/// The failure of a request. Each variant carries the identifiers that an
/// audit log needs.
#[derive(Debug, PartialEq, Eq)]
pub enum WorkspaceError {
    /// A user, workspace or team that the request names does not exist.
    NotFound(Missing),
    /// The requester lacks the permission for the action.
    Forbidden { requester: AuthId, action: Action },
    /// The requester tried to change their own role.
    SelfModification { requester: AuthId, workspace: WorkspaceId, target: UserId, role: Role },
    /// The transaction failed; nothing was changed.
    Storage(StorageError),
}

impl RepoError {
    /// The same failure as the failure of a request.
    pub open spec fn lifted(self) -> WorkspaceError {
        match self {
            RepoError::NotFound(missing) => WorkspaceError::NotFound(missing),
            RepoError::Storage(error) => WorkspaceError::Storage(error),
        }
    }

    /// Turns the failure of a repository call into the failure of a request.
    pub fn lift(self) -> (error: WorkspaceError)
        ensures
            error == self.lifted(),
    {
        match self {
            RepoError::NotFound(missing) => WorkspaceError::NotFound(missing),
            RepoError::Storage(error) => WorkspaceError::Storage(error),
        }
    }
}

impl WorkspaceError {
    /// The text of the failure.
    pub open spec fn text(self) -> Seq<char> {
        match self {
            WorkspaceError::NotFound(Missing::User(_)) => "user not found"@,
            WorkspaceError::NotFound(Missing::Workspace(id)) => "workspace "@ + uuid_text(id.0)
                + " not found"@,
            WorkspaceError::NotFound(Missing::Team(id)) => "team "@ + uuid_text(id.0)
                + " not found"@,
            WorkspaceError::Forbidden { requester, action: Action::CreateWorkspace } =>
                "User with auth_id "@ + uuid_text(requester.0)
                    + " does not have permission to create a workspace."@,
            WorkspaceError::Forbidden { requester, action: Action::ChangeMembership { .. } } =>
                "user with auth_id "@ + uuid_text(requester.0)
                    + " does not have permission to update workspace membership"@,
            WorkspaceError::Forbidden { requester, action: Action::UpdateUser { .. } } =>
                "User with auth_id "@ + uuid_text(requester.0) + " is not a platform admin."@,
            WorkspaceError::SelfModification { requester, role, .. } => "user with auth_id "@
                + uuid_text(requester.0) + " cannot demote themselves to "@ + role.name(),
            WorkspaceError::Storage(error) => error.detail@,
        }
    }

    /// The failure as a sentence for the caller.
    pub fn message(&self) -> (message: String)
        ensures
            message@ == self.text(),
    {
        match self {
            WorkspaceError::NotFound(Missing::User(_)) => String::from_str("user not found"),
            WorkspaceError::NotFound(Missing::Workspace(id)) => {
                let id_text = id.to_string();
                String::from_str("workspace ").concat(id_text.as_str()).concat(" not found")
            },
            WorkspaceError::NotFound(Missing::Team(id)) => {
                let id_text = id.to_string();
                String::from_str("team ").concat(id_text.as_str()).concat(" not found")
            },
            WorkspaceError::Forbidden { requester, action: Action::CreateWorkspace } => {
                let id_text = requester.to_string();
                String::from_str("User with auth_id ").concat(id_text.as_str()).concat(
                    " does not have permission to create a workspace.",
                )
            },
            WorkspaceError::Forbidden { requester, action: Action::ChangeMembership { .. } } => {
                let id_text = requester.to_string();
                String::from_str("user with auth_id ").concat(id_text.as_str()).concat(
                    " does not have permission to update workspace membership",
                )
            },
            WorkspaceError::Forbidden { requester, action: Action::UpdateUser { .. } } => {
                let id_text = requester.to_string();
                String::from_str("User with auth_id ").concat(id_text.as_str()).concat(
                    " is not a platform admin.",
                )
            },
            WorkspaceError::SelfModification { requester, role, .. } => {
                let id_text = requester.to_string();
                let role_text = role.to_string();
                String::from_str("user with auth_id ").concat(id_text.as_str()).concat(
                    " cannot demote themselves to ",
                ).concat(role_text.as_str())
            },
            WorkspaceError::Storage(error) => error.detail.clone(),
        }
    }
}

} // verus!
