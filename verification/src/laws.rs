//! What holds of the model and of the workflow for every directory and
//! every request.

use vstd::prelude::*;
use crate::directory::{Directory, UserRecord, WorkspaceRecord};
use crate::identity::{AuthId, TeamId, UserId, WorkspaceId};
use crate::service::{created, membership_refusal, role_refusal};
use crate::workspace::Role;

verus! {

/// Adding a member changes who belongs to that team, by that one user, and
/// nothing else.
pub proof fn lemma_with_member(d: Directory, team: TeamId, user: UserId)
    ensures
        d.with_member(team, user).users == d.users,
        d.with_member(team, user).workspaces == d.workspaces,
        d.with_member(team, user).teams.dom() == d.teams.dom(),
        forall|other: TeamId|
            other != team ==> #[trigger] d.with_member(team, user).members_of(other) == d.members_of(
                other,
            ),
        d.teams.contains_key(team) ==> d.with_member(team, user).members_of(team) == d.members_of(
            team,
        ).insert(user),
        !d.teams.contains_key(team) ==> d.with_member(team, user) == d,
{
    assert(d.with_member(team, user).teams.dom() =~= d.teams.dom());
}

/// Removing a member changes who belongs to that team, by that one user,
/// and nothing else.
pub proof fn lemma_without_member(d: Directory, team: TeamId, user: UserId)
    ensures
        d.without_member(team, user).users == d.users,
        d.without_member(team, user).workspaces == d.workspaces,
        d.without_member(team, user).teams.dom() == d.teams.dom(),
        forall|other: TeamId|
            other != team ==> #[trigger] d.without_member(team, user).members_of(other)
                == d.members_of(other),
        d.without_member(team, user).members_of(team) == d.members_of(team).remove(user),
{
    assert(d.without_member(team, user).teams.dom() =~= d.teams.dom());
    assert(d.without_member(team, user).members_of(team) =~= d.members_of(team).remove(user));
}

/// Adding a member who is there changes nothing, and so does adding a
/// member a second time.
pub proof fn law_adding_a_member_is_idempotent(d: Directory, team: TeamId, user: UserId)
    ensures
        d.is_member(team, user) ==> d.with_member(team, user) == d,
        d.with_member(team, user).with_member(team, user) == d.with_member(team, user),
{
    if d.teams.contains_key(team) {
        let once = d.with_member(team, user);
        assert(once.teams[team].members.insert(user) =~= once.teams[team].members);
        assert(once.with_member(team, user).teams =~= once.teams);
        if d.is_member(team, user) {
            assert(d.teams[team].members.insert(user) =~= d.teams[team].members);
            assert(once.teams =~= d.teams);
        }
    }
}

/// Removing a member who is not there changes nothing, and so does removing
/// a member a second time.
pub proof fn law_removing_a_member_is_idempotent(d: Directory, team: TeamId, user: UserId)
    ensures
        !d.is_member(team, user) ==> d.without_member(team, user) == d,
        d.without_member(team, user).without_member(team, user) == d.without_member(team, user),
{
    if d.teams.contains_key(team) {
        let once = d.without_member(team, user);
        assert(once.teams[team].members.remove(user) =~= once.teams[team].members);
        assert(once.without_member(team, user).teams =~= once.teams);
        if !d.is_member(team, user) {
            assert(d.teams[team].members.remove(user) =~= d.teams[team].members);
            assert(once.teams =~= d.teams);
        }
    }
}

/// Giving a role changes who belongs to the two teams of the workspace, by
/// that one user, and nothing else. Where both teams exist and differ, the
/// user is an administrator afterwards exactly for the role `Admin`, and a
/// member exactly for the roles `Admin` and `NonAdmin`.
pub proof fn lemma_with_role(d: Directory, workspace: WorkspaceRecord, user: UserId, role: Role)
    ensures
        d.with_role(workspace, user, role).users == d.users,
        d.with_role(workspace, user, role).workspaces == d.workspaces,
        d.with_role(workspace, user, role).teams.dom() == d.teams.dom(),
        forall|other: TeamId|
            other != workspace.admins && other != workspace.members ==> #[trigger] d.with_role(
                workspace,
                user,
                role,
            ).members_of(other) == d.members_of(other),
        forall|team: TeamId, other: UserId|
            other != user ==> #[trigger] d.with_role(workspace, user, role).is_member(team, other)
                == d.is_member(team, other),
        role_refusal(d, workspace, role) is None && workspace.admins != workspace.members ==> {
            &&& d.with_role(workspace, user, role).members_of(workspace.admins) == (if role
                == Role::Admin {
                d.members_of(workspace.admins).insert(user)
            } else {
                d.members_of(workspace.admins).remove(user)
            })
            &&& d.with_role(workspace, user, role).members_of(workspace.members) == (if role
                == Role::NonMember {
                d.members_of(workspace.members).remove(user)
            } else {
                d.members_of(workspace.members).insert(user)
            })
        },
{
    let first = match role {
        Role::Admin => d.with_member(workspace.admins, user),
        _ => d.without_member(workspace.admins, user),
    };
    match role {
        Role::Admin => {
            lemma_with_member(d, workspace.admins, user);
            lemma_with_member(first, workspace.members, user);
        },
        Role::NonAdmin => {
            lemma_without_member(d, workspace.admins, user);
            lemma_with_member(first, workspace.members, user);
        },
        Role::NonMember => {
            lemma_without_member(d, workspace.admins, user);
            lemma_without_member(first, workspace.members, user);
        },
    }
    let after = d.with_role(workspace, user, role);
    assert forall|team: TeamId, other: UserId| other != user implies #[trigger] after.is_member(
        team,
        other,
    ) == d.is_member(team, other) by {
        assert(first.members_of(team).contains(other) == d.members_of(team).contains(other));
        assert(after.members_of(team).contains(other) == first.members_of(team).contains(other));
    }
}

/// After a user was made an administrator of a workspace whose two teams
/// exist, the user belongs to the admins team and to the members team.
pub proof fn law_admin_is_in_both_teams(d: Directory, workspace: WorkspaceRecord, user: UserId)
    requires
        role_refusal(d, workspace, Role::Admin) is None,
    ensures
        d.with_role(workspace, user, Role::Admin).is_member(workspace.admins, user),
        d.with_role(workspace, user, Role::Admin).is_member(workspace.members, user),
{
    lemma_with_member(d, workspace.admins, user);
    lemma_with_member(d.with_member(workspace.admins, user), workspace.members, user);
}

/// After a user was made a non-member of a workspace, the user belongs to
/// neither of its teams.
pub proof fn law_non_member_is_in_neither_team(d: Directory, workspace: WorkspaceRecord, user: UserId)
    ensures
        !d.with_role(workspace, user, Role::NonMember).is_member(workspace.admins, user),
        !d.with_role(workspace, user, Role::NonMember).is_member(workspace.members, user),
{
    lemma_without_member(d, workspace.admins, user);
    lemma_without_member(d.without_member(workspace.admins, user), workspace.members, user);
}

/// In a workspace with two different, existing teams, the role that team
/// membership gives a user is the role that the user was given last.
pub proof fn law_given_role_is_derived_role(
    d: Directory,
    workspace: WorkspaceRecord,
    user: UserId,
    role: Role,
)
    requires
        workspace.admins != workspace.members,
        role_refusal(d, workspace, role) is None,
    ensures
        d.with_role(workspace, user, role).role_in(workspace, user) == role,
{
    lemma_with_role(d, workspace, user, role);
}

/// Giving a user the role that the user was given just before changes
/// nothing.
pub proof fn law_role_change_is_idempotent(
    d: Directory,
    workspace: WorkspaceRecord,
    user: UserId,
    role: Role,
)
    ensures
        d.with_role(workspace, user, role).with_role(workspace, user, role) == d.with_role(
            workspace,
            user,
            role,
        ),
{
    let once = d.with_role(workspace, user, role);
    let twice = once.with_role(workspace, user, role);
    let first = match role {
        Role::Admin => d.with_member(workspace.admins, user),
        _ => d.without_member(workspace.admins, user),
    };
    let third = match role {
        Role::Admin => once.with_member(workspace.admins, user),
        _ => once.without_member(workspace.admins, user),
    };
    match role {
        Role::Admin => {
            lemma_with_member(d, workspace.admins, user);
            lemma_with_member(first, workspace.members, user);
            lemma_with_member(once, workspace.admins, user);
            lemma_with_member(third, workspace.members, user);
        },
        Role::NonAdmin => {
            lemma_without_member(d, workspace.admins, user);
            lemma_with_member(first, workspace.members, user);
            lemma_without_member(once, workspace.admins, user);
            lemma_with_member(third, workspace.members, user);
        },
        Role::NonMember => {
            lemma_without_member(d, workspace.admins, user);
            lemma_without_member(first, workspace.members, user);
            lemma_without_member(once, workspace.admins, user);
            lemma_without_member(third, workspace.members, user);
        },
    }
    assert forall|team: TeamId| #[trigger] twice.teams.contains_key(team) implies twice.teams[team]
        =~= once.teams[team] by {
        assert(twice.members_of(team) =~= once.members_of(team));
        assert(third.teams[team].name == once.teams[team].name);
    }
    assert(twice.teams =~= once.teams);
}

/// A request to change a role that was carried out can be made again: the
/// second request is not refused, and it leaves the directory as the first
/// one left it.
pub proof fn law_membership_change_is_idempotent(
    d: Directory,
    id: WorkspaceId,
    target: UserId,
    role: Role,
    requester: AuthId,
)
    requires
        membership_refusal(d, id, target, role, requester) is None,
    ensures
        ({
            let once = d.with_role(d.workspaces[id], target, role);
            &&& membership_refusal(once, id, target, role, requester) is None
            &&& once.workspaces[id] == d.workspaces[id]
            &&& once.with_role(once.workspaces[id], target, role) == once
        }),
{
    let workspace = d.workspaces[id];
    lemma_with_role(d, workspace, target, role);
    law_role_change_is_idempotent(d, workspace, target, role);
    let once = d.with_role(workspace, target, role);
    assert(once.is_member(workspace.admins, d.users[requester].id) == d.is_member(
        workspace.admins,
        d.users[requester].id,
    ));
}

/// A change of role keeps the administrators of the workspace among its
/// members.
pub proof fn law_role_change_keeps_admins_within_members(
    d: Directory,
    workspace: WorkspaceRecord,
    user: UserId,
    role: Role,
)
    requires
        role_refusal(d, workspace, role) is None,
        d.members_of(workspace.admins).subset_of(d.members_of(workspace.members)),
    ensures
        d.with_role(workspace, user, role).members_of(workspace.admins).subset_of(
            d.with_role(workspace, user, role).members_of(workspace.members),
        ),
{
    if workspace.admins != workspace.members {
        lemma_with_role(d, workspace, user, role);
    }
}

/// Storing or changing a user keeps the directory well-formed.
pub proof fn law_user_change_keeps_well_formed(d: Directory, auth_id: AuthId, user: UserRecord)
    requires
        d.well_formed(),
    ensures
        d.with_user(auth_id, user).well_formed(),
{
    let after = d.with_user(auth_id, user);
    assert forall|id: WorkspaceId| #[trigger] after.workspaces.contains_key(id) implies after.members_of(
        after.workspaces[id].admins,
    ).subset_of(after.members_of(after.workspaces[id].members)) by {
        assert(d.members_of(d.workspaces[id].admins).subset_of(
            d.members_of(d.workspaces[id].members),
        ));
    }
}

/// The directory that holds nothing is well-formed.
pub proof fn law_empty_is_well_formed()
    ensures
        Directory::empty().well_formed(),
{
}

/// A change of role in a stored workspace keeps the directory well-formed.
/// In particular the administrators of every workspace stay among its
/// members.
pub proof fn law_role_change_keeps_well_formed(d: Directory, id: WorkspaceId, user: UserId, role: Role)
    requires
        d.well_formed(),
        d.workspaces.contains_key(id),
    ensures
        d.with_role(d.workspaces[id], user, role).well_formed(),
{
    let workspace = d.workspaces[id];
    let after = d.with_role(workspace, user, role);
    lemma_with_role(d, workspace, user, role);
    assert(after.teams_present()) by {
        assert forall|other: WorkspaceId| #[trigger]
            after.workspaces.contains_key(other) implies after.teams.contains_key(
            after.workspaces[other].admins,
        ) && after.teams.contains_key(after.workspaces[other].members) by {
            assert(d.teams.dom().contains(d.workspaces[other].admins));
            assert(d.teams.dom().contains(d.workspaces[other].members));
        }
    }
    assert forall|other: WorkspaceId| #[trigger]
        after.workspaces.contains_key(other) implies after.members_of(
        after.workspaces[other].admins,
    ).subset_of(after.members_of(after.workspaces[other].members)) by {
        assert(d.members_of(d.workspaces[other].admins).subset_of(
            d.members_of(d.workspaces[other].members),
        ));
        if other != id {
            assert(after.members_of(d.workspaces[other].admins) == d.members_of(
                d.workspaces[other].admins,
            ));
            assert(after.members_of(d.workspaces[other].members) == d.members_of(
                d.workspaces[other].members,
            ));
        }
    }
}

/// The creation of a workspace with its two teams keeps the directory
/// well-formed.
pub proof fn law_creation_keeps_well_formed(
    before: Directory,
    after: Directory,
    workspace: WorkspaceRecord,
    title: Seq<char>,
    description: Seq<char>,
)
    requires
        before.well_formed(),
        created(before, after, workspace, title, description),
    ensures
        after.well_formed(),
{
    assert forall|id: WorkspaceId| #[trigger] after.workspaces.contains_key(id) implies after.members_of(
        after.workspaces[id].admins,
    ).subset_of(after.members_of(after.workspaces[id].members)) by {
        if id != workspace.id {
            assert(before.workspaces.contains_key(id));
            assert(before.members_of(before.workspaces[id].admins).subset_of(
                before.members_of(before.workspaces[id].members),
            ));
        }
    }
    assert forall|a: WorkspaceId, b: WorkspaceId|
        #![trigger after.workspaces.contains_key(a), after.workspaces.contains_key(b)]
        after.workspaces.contains_key(a) && after.workspaces.contains_key(b) && a != b implies {
        &&& after.workspaces[a].admins != after.workspaces[b].admins
        &&& after.workspaces[a].admins != after.workspaces[b].members
        &&& after.workspaces[a].members != after.workspaces[b].admins
        &&& after.workspaces[a].members != after.workspaces[b].members
    } by {
        if a != workspace.id {
            assert(before.workspaces.contains_key(a));
        }
        if b != workspace.id {
            assert(before.workspaces.contains_key(b));
        }
    }
}

} // verus!
