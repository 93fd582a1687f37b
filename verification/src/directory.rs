//! The mathematical model of the stored data. Every contract of a repository
//! and of the workflow is stated over a `Directory`.

use vstd::prelude::*;
use crate::identity::{AuthId, TeamId, UserId, WorkspaceId};
use crate::workspace::Role;

verus! {

/// A user as the model holds it.
#[verifier::ext_equal]
pub struct UserRecord {
    pub id: UserId,
    pub auth_id: AuthId,
    pub name: Seq<char>,
    pub is_platform_admin: bool,
}

/// A team as the model holds it: its name and the set of its members.
#[verifier::ext_equal]
pub struct TeamRecord {
    pub name: Seq<char>,
    pub members: Set<UserId>,
}

/// A workspace as the model holds it.
#[verifier::ext_equal]
pub struct WorkspaceRecord {
    pub id: WorkspaceId,
    pub title: Seq<char>,
    pub description: Seq<char>,
    pub admins: TeamId,
    pub members: TeamId,
}

/// Everything that is stored: the users by their external identity, the
/// teams and the workspaces by their identifiers.
#[verifier::ext_equal]
pub struct Directory {
    pub users: Map<AuthId, UserRecord>,
    pub teams: Map<TeamId, TeamRecord>,
    pub workspaces: Map<WorkspaceId, WorkspaceRecord>,
}

impl TeamRecord {
    /// A team without members.
    pub open spec fn named(name: Seq<char>) -> TeamRecord {
        TeamRecord { name, members: Set::empty() }
    }
}

impl Directory {
    /// The directory that holds nothing.
    pub open spec fn empty() -> Directory {
        Directory { users: Map::empty(), teams: Map::empty(), workspaces: Map::empty() }
    }

    /// `user` is one of the stored users.
    pub open spec fn has_user(self, user: UserRecord) -> bool {
        self.users.contains_key(user.auth_id) && self.users[user.auth_id] == user
    }

    /// Some stored user has the internal identifier `id`.
    pub open spec fn has_user_id(self, id: UserId) -> bool {
        exists|auth_id: AuthId| #[trigger]
            self.users.contains_key(auth_id) && self.users[auth_id].id == id
    }

    /// The stored users whose internal identifier is in `ids`.
    pub open spec fn users_among(self, ids: Set<UserId>) -> Set<UserRecord> {
        Set::new(|user: UserRecord| self.has_user(user) && ids.contains(user.id))
    }

    /// The members of `team`; a team that does not exist has none.
    pub open spec fn members_of(self, team: TeamId) -> Set<UserId> {
        if self.teams.contains_key(team) {
            self.teams[team].members
        } else {
            Set::empty()
        }
    }

    /// `user` belongs to `team`.
    pub open spec fn is_member(self, team: TeamId, user: UserId) -> bool {
        self.members_of(team).contains(user)
    }

    /// The directory with one more team, which has no members.
    pub open spec fn with_team(self, team: TeamId, name: Seq<char>) -> Directory {
        Directory { teams: self.teams.insert(team, TeamRecord::named(name)), ..self }
    }

    /// The directory with `workspace` stored as the workspace `id`.
    pub open spec fn with_workspace(self, id: WorkspaceId, workspace: WorkspaceRecord) -> Directory {
        Directory { workspaces: self.workspaces.insert(id, workspace), ..self }
    }

    /// The directory without the workspace `id`.
    pub open spec fn without_workspace(self, id: WorkspaceId) -> Directory {
        Directory { workspaces: self.workspaces.remove(id), ..self }
    }

    /// The directory with `user` stored as the user with the external
    /// identity `auth_id`.
    pub open spec fn with_user(self, auth_id: AuthId, user: UserRecord) -> Directory {
        Directory { users: self.users.insert(auth_id, user), ..self }
    }

    /// The directory after `user` was added to `team`. Nothing changes where
    /// the team does not exist or the user already belongs to it.
    pub open spec fn with_member(self, team: TeamId, user: UserId) -> Directory {
        if self.teams.contains_key(team) {
            Directory {
                teams: self.teams.insert(
                    team,
                    TeamRecord { members: self.teams[team].members.insert(user), ..self.teams[team] },
                ),
                ..self
            }
        } else {
            self
        }
    }

    /// The directory after `user` was removed from `team`. Nothing changes
    /// where the team does not exist or the user does not belong to it.
    pub open spec fn without_member(self, team: TeamId, user: UserId) -> Directory {
        if self.teams.contains_key(team) {
            Directory {
                teams: self.teams.insert(
                    team,
                    TeamRecord { members: self.teams[team].members.remove(user), ..self.teams[team] },
                ),
                ..self
            }
        } else {
            self
        }
    }

    /// The directory after `user` was given `role` in `workspace`: the two
    /// changes of team membership that the role stands for, the one to the
    /// admins team first.
    pub open spec fn with_role(self, workspace: WorkspaceRecord, user: UserId, role: Role) -> Directory {
        match role {
            Role::Admin => self.with_member(workspace.admins, user).with_member(
                workspace.members,
                user,
            ),
            Role::NonAdmin => self.without_member(workspace.admins, user).with_member(
                workspace.members,
                user,
            ),
            Role::NonMember => self.without_member(workspace.admins, user).without_member(
                workspace.members,
                user,
            ),
        }
    }

    /// The role that team membership gives `user` in `workspace`. Membership
    /// of the admins team decides first.
    pub open spec fn role_in(self, workspace: WorkspaceRecord, user: UserId) -> Role {
        Role::derived(
            self.is_member(workspace.admins, user),
            self.is_member(workspace.members, user),
        )
    }

    /// A user with the external identity `auth_id` is stored and
    /// administers the platform.
    pub open spec fn is_platform_admin(self, auth_id: AuthId) -> bool {
        self.users.contains_key(auth_id) && self.users[auth_id].is_platform_admin
    }

    /// The user with the external identity `requester` may create
    /// workspaces: only a stored user who administers the platform may.
    pub open spec fn can_create_workspace(self, requester: AuthId) -> bool {
        self.is_platform_admin(requester)
    }

    /// The user with the external identity `requester` may change who
    /// belongs to the workspace `id`: the user exists and administers the
    /// platform or the workspace.
    pub open spec fn can_manage_workspace(self, requester: AuthId, id: WorkspaceId) -> bool {
        &&& self.users.contains_key(requester)
        &&& self.users[requester].is_platform_admin || self.is_workspace_admin(
            id,
            self.users[requester].id,
        )
    }

    /// `user` is an administrator of the workspace `id`: the workspace
    /// exists and the user belongs to its admins team.
    pub open spec fn is_workspace_admin(self, id: WorkspaceId, user: UserId) -> bool {
        self.workspaces.contains_key(id) && self.is_member(self.workspaces[id].admins, user)
    }

    /// In every workspace, each member of the admins team is a member of
    /// the members team as well.
    pub open spec fn admins_within_members(self) -> bool {
        forall|id: WorkspaceId| #[trigger]
            self.workspaces.contains_key(id) ==> self.members_of(
                self.workspaces[id].admins,
            ).subset_of(self.members_of(self.workspaces[id].members))
    }

    /// Every workspace is stored under its own identifier and has two
    /// existing, different teams.
    pub open spec fn teams_present(self) -> bool {
        forall|id: WorkspaceId| #[trigger]
            self.workspaces.contains_key(id) ==> {
                &&& self.workspaces[id].id == id
                &&& self.workspaces[id].admins != self.workspaces[id].members
                &&& self.teams.contains_key(self.workspaces[id].admins)
                &&& self.teams.contains_key(self.workspaces[id].members)
            }
    }

    /// No team is bound to two workspaces.
    pub open spec fn teams_unshared(self) -> bool {
        forall|a: WorkspaceId, b: WorkspaceId|
            #![trigger self.workspaces.contains_key(a), self.workspaces.contains_key(b)]
            self.workspaces.contains_key(a) && self.workspaces.contains_key(b) && a != b ==> {
                &&& self.workspaces[a].admins != self.workspaces[b].admins
                &&& self.workspaces[a].admins != self.workspaces[b].members
                &&& self.workspaces[a].members != self.workspaces[b].admins
                &&& self.workspaces[a].members != self.workspaces[b].members
            }
    }

    /// The invariant of the stored data: each workspace has its own two
    /// teams, and its admins are among its members.
    pub open spec fn well_formed(self) -> bool {
        &&& self.teams_present()
        &&& self.teams_unshared()
        &&& self.admins_within_members()
    }
}

} // verus!
