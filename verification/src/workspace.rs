//! Workspaces, the roles a user can have in one, and the repository that
//! stores workspaces.

use vstd::prelude::*;
use vstd::string::StringExecFns;
use crate::directory::WorkspaceRecord;
use crate::error::{Missing, RepoError, StorageError};
use crate::executor::Executor;
use crate::identity::{TeamId, WorkspaceId};

verus! {

/// A collaboration container with a title, a description and two teams.
#[derive(Debug, PartialEq, Eq)]
pub struct Workspace {
    pub id: WorkspaceId,
    pub title: String,
    pub description: String,
    pub admins: TeamId,
    pub members: TeamId,
}

impl View for Workspace {
    type V = WorkspaceRecord;

    open spec fn view(&self) -> WorkspaceRecord {
        WorkspaceRecord {
            id: self.id,
            title: self.title@,
            description: self.description@,
            admins: self.admins,
            members: self.members,
        }
    }
}

impl Clone for Workspace {
    fn clone(&self) -> (copy: Self)
        ensures
            copy == *self,
    {
        Workspace {
            id: self.id,
            title: self.title.clone(),
            description: self.description.clone(),
            admins: self.admins,
            members: self.members,
        }
    }
}

/// The relationship of a user to a workspace. It is derived from team
/// membership and never stored.
#[derive(Clone, Copy, Debug, PartialEq, Eq, Structural)]
pub enum Role {
    /// User is a workspace administrator
    Admin,
    /// User is a workspace member
    NonAdmin,
    /// User is not a workspace member
    NonMember,
}

/// Which members of a workspace to list.
#[derive(Clone, Copy, Debug, PartialEq, Eq, Structural)]
pub enum RoleFilter {
    /// Only return Admins
    Admin,
    /// Only return Non-Admins
    NonAdmin,
}

impl Role {
    /// The name of the role as events and messages carry it.
    pub open spec fn name(self) -> Seq<char> {
        match self {
            Role::Admin => "Admin"@,
            Role::NonAdmin => "NonAdmin"@,
            Role::NonMember => "NonMember"@,
        }
    }

    /// The role that membership of the two teams of a workspace gives.
    /// Membership of the admins team decides first.
    pub open spec fn derived(in_admins: bool, in_members: bool) -> Role {
        if in_admins {
            Role::Admin
        } else if in_members {
            Role::NonAdmin
        } else {
            Role::NonMember
        }
    }

    /// The name of the role.
    pub fn to_string(&self) -> (text: String)
        ensures
            text@ == self.name(),
    {
        match self {
            Role::Admin => String::from_str("Admin"),
            Role::NonAdmin => String::from_str("NonAdmin"),
            Role::NonMember => String::from_str("NonMember"),
        }
    }

    /// Derives the role from membership of the admins team and of the
    /// members team.
    pub fn derive(in_admins: bool, in_members: bool) -> (role: Role)
        ensures
            role == Role::derived(in_admins, in_members),
    {
        if in_admins {
            Role::Admin
        } else if in_members {
            Role::NonAdmin
        } else {
            Role::NonMember
        }
    }
}

/// The workspaces in `list`, as the model holds them.
pub open spec fn workspace_records(list: Seq<Workspace>) -> Seq<WorkspaceRecord> {
    list.map_values(|workspace: Workspace| workspace@)
}

/// The store of workspaces.
pub trait WorkspaceRepo<X: Executor> {
    /// Stores a new workspace, bound to the two teams, under an identifier
    /// that was not in use. Fails with `NotFound` exactly where one of the
    /// teams does not exist, the admins team being looked at first.
    fn create(
        &self,
        title: &str,
        description: &str,
        admins_team_id: TeamId,
        members_team_id: TeamId,
        executor: &mut X,
    ) -> (result: Result<Workspace, RepoError>)
        ensures
            final(executor).reliable() == old(executor).reliable(),
            old(executor).reliable() ==> !(result matches Err(RepoError::Storage(_))),
            match result {
                Ok(workspace) => {
                    &&& old(executor)@.visible().teams.contains_key(admins_team_id)
                    &&& old(executor)@.visible().teams.contains_key(members_team_id)
                    &&& !old(executor)@.visible().workspaces.contains_key(workspace.id)
                    &&& workspace@ == (WorkspaceRecord {
                        id: workspace.id,
                        title: title@,
                        description: description@,
                        admins: admins_team_id,
                        members: members_team_id,
                    })
                    &&& final(executor)@ == old(executor)@.wrote(
                        old(executor)@.visible().with_workspace(workspace.id, workspace@),
                    )
                },
                Err(RepoError::NotFound(missing)) => {
                    &&& old(executor)@.failed(final(executor)@)
                    &&& if !old(executor)@.visible().teams.contains_key(admins_team_id) {
                        missing == Missing::Team(admins_team_id)
                    } else {
                        &&& !old(executor)@.visible().teams.contains_key(members_team_id)
                        &&& missing == Missing::Team(members_team_id)
                    }
                },
                Err(RepoError::Storage(_)) => old(executor)@.failed(final(executor)@),
            },
    ;

    /// All workspaces, each once.
    fn find_all(&self, executor: &X) -> (result: Result<Vec<Workspace>, StorageError>)
        ensures
            executor.reliable() ==> result is Ok,
            result matches Ok(workspaces) ==> {
                &&& workspace_records(workspaces@).no_duplicates()
                &&& workspace_records(workspaces@).to_set() == executor@.visible().workspaces.values()
            },
    ;

    /// The workspace `id`. Fails with `NotFound` exactly where there is none.
    fn find_by_id(&self, id: WorkspaceId, executor: &X) -> (result: Result<Workspace, RepoError>)
        ensures
            executor.reliable() ==> !(result matches Err(RepoError::Storage(_))),
            match result {
                Ok(workspace) => {
                    &&& executor@.visible().workspaces.contains_key(id)
                    &&& workspace@ == executor@.visible().workspaces[id]
                },
                Err(RepoError::NotFound(missing)) => {
                    &&& missing == Missing::Workspace(id)
                    &&& !executor@.visible().workspaces.contains_key(id)
                },
                Err(RepoError::Storage(_)) => true,
            },
    ;

    /// Gives the workspace `id` a new title and description and returns it
    /// as stored afterwards. Its teams stay. Fails with `NotFound` exactly
    /// where there is no such workspace.
    fn update(&self, id: WorkspaceId, title: &str, description: &str, executor: &mut X) -> (result:
        Result<Workspace, RepoError>)
        ensures
            final(executor).reliable() == old(executor).reliable(),
            old(executor).reliable() ==> !(result matches Err(RepoError::Storage(_))),
            match result {
                Ok(workspace) => {
                    &&& old(executor)@.visible().workspaces.contains_key(id)
                    &&& workspace@ == (WorkspaceRecord {
                        title: title@,
                        description: description@,
                        ..old(executor)@.visible().workspaces[id]
                    })
                    &&& final(executor)@ == old(executor)@.wrote(
                        old(executor)@.visible().with_workspace(id, workspace@),
                    )
                },
                Err(RepoError::NotFound(missing)) => {
                    &&& missing == Missing::Workspace(id)
                    &&& !old(executor)@.visible().workspaces.contains_key(id)
                    &&& old(executor)@.failed(final(executor)@)
                },
                Err(RepoError::Storage(_)) => old(executor)@.failed(final(executor)@),
            },
    ;

    /// Deletes the workspace `id` and returns it as it was stored before.
    /// Fails with `NotFound` exactly where there is no such workspace.
    fn delete(&self, id: WorkspaceId, executor: &mut X) -> (result: Result<Workspace, RepoError>)
        ensures
            final(executor).reliable() == old(executor).reliable(),
            old(executor).reliable() ==> !(result matches Err(RepoError::Storage(_))),
            match result {
                Ok(workspace) => {
                    &&& old(executor)@.visible().workspaces.contains_key(id)
                    &&& workspace@ == old(executor)@.visible().workspaces[id]
                    &&& final(executor)@ == old(executor)@.wrote(
                        old(executor)@.visible().without_workspace(id),
                    )
                },
                Err(RepoError::NotFound(missing)) => {
                    &&& missing == Missing::Workspace(id)
                    &&& !old(executor)@.visible().workspaces.contains_key(id)
                    &&& old(executor)@.failed(final(executor)@)
                },
                Err(RepoError::Storage(_)) => old(executor)@.failed(final(executor)@),
            },
    ;
}

} // verus!
