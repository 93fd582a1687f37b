//! A backend that keeps everything in memory: an executor with
//! transactions, the three repositories and a publisher that records what
//! it is handed. Each can be told to fail, so that the paths that a storage
//! fault takes can be exercised.
//!
//! Users, teams and workspaces are rows in three lists, and the identifier
//! of a row is its position. Among the user rows with one external
//! identity only the first one counts.

use vstd::prelude::*;
use vstd::string::StringExecFns;
use crate::directory::{Directory, TeamRecord, UserRecord, WorkspaceRecord};
use crate::error::{Missing, PublishError, RepoError, StorageError};
use crate::event::{event_records, DomainEvent, EventLog, EventRecord, EventRepo};
use crate::executor::{Executor, StoreState};
use crate::identity::{AuthId, TeamId, UserId, WorkspaceId};
use crate::team::{Team, TeamRepo};
use crate::user::{user_records, User, UserRepo};
use crate::workspace::{workspace_records, Workspace, WorkspaceRepo};

verus! {

struct UserRow {
    auth_id: AuthId,
    name: String,
    is_platform_admin: bool,
}

struct TeamRow {
    name: String,
    members: Vec<UserId>,
}

struct WorkspaceRow {
    title: String,
    description: String,
    admins: TeamId,
    members: TeamId,
}

/// The three lists of rows.
struct Snapshot {
    users: Vec<UserRow>,
    teams: Vec<TeamRow>,
    workspaces: Vec<Option<WorkspaceRow>>,
}

/// The user that the row at `position` holds.
spec fn user_at(rows: Seq<UserRow>, position: int) -> UserRecord {
    UserRecord {
        id: UserId(position as u128),
        auth_id: rows[position].auth_id,
        name: rows[position].name@,
        is_platform_admin: rows[position].is_platform_admin,
    }
}

/// The row at `position` is the first one with the external identity
/// `auth_id`.
spec fn first_with(rows: Seq<UserRow>, auth_id: AuthId, position: int) -> bool {
    &&& 0 <= position < rows.len()
    &&& rows[position].auth_id == auth_id
    &&& forall|earlier: int| 0 <= earlier < position ==> (#[trigger] rows[earlier]).auth_id != auth_id
}

spec fn users_of(rows: Seq<UserRow>) -> Map<AuthId, UserRecord> {
    Map::new(
        |auth_id: AuthId| exists|position: int| first_with(rows, auth_id, position),
        |auth_id: AuthId| user_at(rows, choose|position: int| first_with(rows, auth_id, position)),
    )
}

spec fn team_of(row: TeamRow) -> TeamRecord {
    TeamRecord { name: row.name@, members: row.members@.to_set() }
}

spec fn teams_of(rows: Seq<TeamRow>) -> Map<TeamId, TeamRecord> {
    Map::new(|team: TeamId| team.0 < rows.len(), |team: TeamId| team_of(rows[team.0 as int]))
}

spec fn workspace_of(id: WorkspaceId, row: WorkspaceRow) -> WorkspaceRecord {
    WorkspaceRecord {
        id,
        title: row.title@,
        description: row.description@,
        admins: row.admins,
        members: row.members,
    }
}

spec fn workspaces_of(rows: Seq<Option<WorkspaceRow>>) -> Map<WorkspaceId, WorkspaceRecord> {
    Map::new(
        |id: WorkspaceId| id.0 < rows.len() && rows[id.0 as int] is Some,
        |id: WorkspaceId| workspace_of(id, rows[id.0 as int]->0),
    )
}

/// Only one row is the first with a given external identity.
proof fn lemma_first_is_unique(rows: Seq<UserRow>, auth_id: AuthId, a: int, b: int)
    requires
        first_with(rows, auth_id, a),
        first_with(rows, auth_id, b),
    ensures
        a == b,
{
    if a < b {
        assert(rows[a].auth_id != auth_id);
    } else if b < a {
        assert(rows[b].auth_id != auth_id);
    }
}

/// The first row with an external identity is the user stored under it.
proof fn lemma_first_is_stored(rows: Seq<UserRow>, auth_id: AuthId, position: int)
    requires
        first_with(rows, auth_id, position),
    ensures
        users_of(rows).contains_key(auth_id),
        users_of(rows)[auth_id] == user_at(rows, position),
{
    let chosen = choose|position: int| first_with(rows, auth_id, position);
    lemma_first_is_unique(rows, auth_id, chosen, position);
}

/// Where no row has an external identity, no user is stored under it.
proof fn lemma_absent_is_not_stored(rows: Seq<UserRow>, auth_id: AuthId)
    requires
        forall|position: int| 0 <= position < rows.len() ==> (#[trigger] rows[position]).auth_id != auth_id,
    ensures
        !users_of(rows).contains_key(auth_id),
{
}

impl Snapshot {
    spec fn view(&self) -> Directory {
        Directory {
            users: users_of(self.users@),
            teams: teams_of(self.teams@),
            workspaces: workspaces_of(self.workspaces@),
        }
    }

    fn new() -> (snapshot: Snapshot)
        ensures
            snapshot@ == Directory::empty(),
    {
        let snapshot = Snapshot { users: Vec::new(), teams: Vec::new(), workspaces: Vec::new() };
        assert(snapshot@.users =~= Map::empty());
        assert(snapshot@.teams =~= Map::empty());
        assert(snapshot@.workspaces =~= Map::empty());
        snapshot
    }

    /// The position of the first row with the external identity `auth_id`.
    fn position_of(&self, auth_id: AuthId) -> (found: Option<usize>)
        ensures
            match found {
                Some(position) => first_with(self.users@, auth_id, position as int),
                None => !self@.users.contains_key(auth_id),
            },
    {
        let mut position: usize = 0;
        while position < self.users.len()
            invariant
                position <= self.users.len(),
                forall|earlier: int|
                    0 <= earlier < position ==> (#[trigger] self.users@[earlier]).auth_id != auth_id,
            decreases self.users.len() - position,
        {
            if self.users[position].auth_id == auth_id {
                return Some(position);
            }
            position += 1;
        }
        proof {
            lemma_absent_is_not_stored(self.users@, auth_id);
        }
        None
    }

    /// The user that the row at `position` holds.
    fn user(&self, position: usize) -> (user: User)
        requires
            position < self.users.len(),
        ensures
            user@ == user_at(self.users@, position as int),
    {
        let row = &self.users[position];
        User {
            id: UserId(position as u128),
            auth_id: row.auth_id,
            name: row.name.clone(),
            is_platform_admin: row.is_platform_admin,
        }
    }

    fn find_user_by_auth_id(&self, auth_id: AuthId) -> (found: Option<User>)
        ensures
            match found {
                Some(user) => self@.users.contains_key(auth_id) && user@ == self@.users[auth_id],
                None => !self@.users.contains_key(auth_id),
            },
    {
        match self.position_of(auth_id) {
            Some(position) => {
                proof {
                    lemma_first_is_stored(self.users@, auth_id, position as int);
                }
                Some(self.user(position))
            },
            None => None,
        }
    }

    fn find_user_by_id(&self, id: UserId) -> (found: Option<User>)
        ensures
            match found {
                Some(user) => user.id == id && self@.has_user(user@),
                None => !self@.has_user_id(id),
            },
    {
        if id.0 < self.users.len() as u128 {
            let position = id.0 as usize;
            let auth_id = self.users[position].auth_id;
            match self.position_of(auth_id) {
                Some(first) => {
                    proof {
                        lemma_first_is_stored(self.users@, auth_id, first as int);
                    }
                    if first == position {
                        return Some(self.user(position));
                    }
                },
                None => {},
            }
        }
        proof {
            assert forall|auth_id: AuthId| #[trigger]
                self@.users.contains_key(auth_id) implies self@.users[auth_id].id != id by {
                let chosen = choose|position: int| first_with(self.users@, auth_id, position);
                if chosen == id.0 {
                    lemma_first_is_stored(self.users@, auth_id, chosen);
                }
            }
        }
        None
    }
}

/// A row added at the end changes nothing for the external identities
/// that earlier rows have, and is the first one for an external identity
/// that no earlier row has.
proof fn lemma_user_added(rows: Seq<UserRow>, row: UserRow)
    requires
        !users_of(rows).contains_key(row.auth_id),
    ensures
        users_of(rows.push(row)) == users_of(rows).insert(
            row.auth_id,
            user_at(rows.push(row), rows.len() as int),
        ),
{
    let after = rows.push(row);
    assert forall|position: int| 0 <= position < rows.len() implies (#[trigger] rows[position]).auth_id
        != row.auth_id by {
        if rows[position].auth_id == row.auth_id {
            lemma_some_row_is_first(rows, row.auth_id, position);
        }
    }
    assert(first_with(after, row.auth_id, rows.len() as int));
    lemma_first_is_stored(after, row.auth_id, rows.len() as int);
    let target = users_of(rows).insert(row.auth_id, user_at(after, rows.len() as int));
    assert forall|auth_id: AuthId|
        (#[trigger] users_of(after).contains_key(auth_id)) == target.contains_key(auth_id) by {
        if auth_id != row.auth_id {
            lemma_other_users_stay(rows, after, auth_id);
        }
    }
    assert forall|auth_id: AuthId| #[trigger]
        users_of(after).contains_key(auth_id) implies users_of(after)[auth_id] == target[auth_id] by {
        if auth_id != row.auth_id {
            lemma_other_users_stay(rows, after, auth_id);
        }
    }
    assert(users_of(after) =~= target);
}

/// Rows that agree wherever they hold the external identity `auth_id`, and
/// hold it at the same positions, store the same user under it.
proof fn lemma_other_users_stay(rows: Seq<UserRow>, after: Seq<UserRow>, auth_id: AuthId)
    requires
        rows.len() <= after.len(),
        forall|position: int|
            0 <= position < rows.len() ==> (#[trigger] rows[position]).auth_id == auth_id
                ==> after[position] == rows[position],
        forall|position: int|
            0 <= position < after.len() ==> (#[trigger] after[position]).auth_id == auth_id
                ==> position < rows.len() && after[position] == rows[position],
    ensures
        users_of(after).contains_key(auth_id) == users_of(rows).contains_key(auth_id),
        users_of(rows).contains_key(auth_id) ==> users_of(after)[auth_id] == users_of(rows)[auth_id],
{
    if users_of(rows).contains_key(auth_id) {
        let first = choose|first: int| first_with(rows, auth_id, first);
        assert(after[first] == rows[first]);
        assert forall|earlier: int| 0 <= earlier < first implies (#[trigger] after[earlier]).auth_id
            != auth_id by {
            if after[earlier].auth_id == auth_id {
                assert(rows[earlier].auth_id == auth_id);
            }
        }
        assert(first_with(after, auth_id, first));
        lemma_first_is_stored(after, auth_id, first);
    }
    if users_of(after).contains_key(auth_id) {
        let first = choose|first: int| first_with(after, auth_id, first);
        assert(after[first] == rows[first]);
        assert forall|earlier: int| 0 <= earlier < first implies (#[trigger] rows[earlier]).auth_id
            != auth_id by {
            if rows[earlier].auth_id == auth_id {
                assert(after[earlier].auth_id == auth_id);
            }
        }
        assert(first_with(rows, auth_id, first));
    }
}

/// Where some row has an external identity, one row is the first with it.
proof fn lemma_some_row_is_first(rows: Seq<UserRow>, auth_id: AuthId, position: int)
    requires
        0 <= position < rows.len(),
        rows[position].auth_id == auth_id,
    ensures
        users_of(rows).contains_key(auth_id),
    decreases position,
{
    if exists|earlier: int| 0 <= earlier < position && (#[trigger] rows[earlier]).auth_id == auth_id {
        let earlier = choose|earlier: int|
            0 <= earlier < position && (#[trigger] rows[earlier]).auth_id == auth_id;
        lemma_some_row_is_first(rows, auth_id, earlier);
    } else {
        assert(first_with(rows, auth_id, position));
    }
}

/// A row that is replaced by one with the same external identity changes
/// the user stored under that identity, where the row is the first with it,
/// and nothing else.
proof fn lemma_user_replaced(rows: Seq<UserRow>, position: int, row: UserRow)
    requires
        first_with(rows, row.auth_id, position),
    ensures
        users_of(rows.update(position, row)) == users_of(rows).insert(
            row.auth_id,
            user_at(rows.update(position, row), position),
        ),
{
    let after = rows.update(position, row);
    assert forall|earlier: int| 0 <= earlier < position implies (#[trigger] after[earlier]).auth_id
        != row.auth_id by {
        assert(rows[earlier].auth_id != row.auth_id);
    }
    assert(first_with(after, row.auth_id, position));
    lemma_first_is_stored(after, row.auth_id, position);
    let target = users_of(rows).insert(row.auth_id, user_at(after, position));
    assert forall|auth_id: AuthId|
        (#[trigger] users_of(after).contains_key(auth_id)) == target.contains_key(auth_id) by {
        if auth_id != row.auth_id {
            lemma_other_users_stay(rows, after, auth_id);
        }
    }
    assert forall|auth_id: AuthId| #[trigger]
        users_of(after).contains_key(auth_id) implies users_of(after)[auth_id] == target[auth_id] by {
        if auth_id != row.auth_id {
            lemma_other_users_stay(rows, after, auth_id);
        }
    }
    assert(users_of(after) =~= target);
}

impl Snapshot {
    /// Stores a user who does not administer the platform under an external
    /// identity that no stored user has.
    fn add_user(&mut self, auth_id: AuthId, name: &str) -> (user: User)
        requires
            !old(self)@.users.contains_key(auth_id),
        ensures
            user@ == (UserRecord { id: user.id, auth_id, name: name@, is_platform_admin: false }),
            !old(self)@.has_user_id(user.id),
            final(self)@ == old(self)@.with_user(auth_id, user@),
    {
        let position = self.users.len();
        proof {
            assert forall|other: AuthId| #[trigger]
                self@.users.contains_key(other) implies self@.users[other].id != UserId(
                position as u128,
            ) by {
                let first = choose|first: int| first_with(self.users@, other, first);
                assert(first < position);
            }
        }
        let row = UserRow { auth_id, name: String::from_str(name), is_platform_admin: false };
        proof {
            lemma_user_added(self.users@, row);
        }
        self.users.push(row);
        self.user(position)
    }

    /// Sets the platform-admin flag of the user with the external identity
    /// `auth_id`, if there is one.
    fn set_platform_admin(&mut self, auth_id: AuthId, is_platform_admin: bool) -> (updated: Option<
        User,
    >)
        ensures
            match updated {
                Some(user) => {
                    &&& old(self)@.users.contains_key(auth_id)
                    &&& user@ == (UserRecord { is_platform_admin, ..old(self)@.users[auth_id] })
                    &&& final(self)@ == old(self)@.with_user(auth_id, user@)
                },
                None => !old(self)@.users.contains_key(auth_id) && final(self)@ == old(self)@,
            },
    {
        match self.position_of(auth_id) {
            Some(position) => {
                let row = UserRow {
                    auth_id,
                    name: self.users[position].name.clone(),
                    is_platform_admin,
                };
                proof {
                    lemma_first_is_stored(self.users@, auth_id, position as int);
                    lemma_user_replaced(self.users@, position as int, row);
                }
                self.users.set(position, row);
                Some(self.user(position))
            },
            None => None,
        }
    }
}

/// Whether `user` is in `list`.
fn holds(list: &Vec<UserId>, user: UserId) -> (found: bool)
    ensures
        found == list@.contains(user),
{
    let mut position: usize = 0;
    while position < list.len()
        invariant
            position <= list.len(),
            forall|earlier: int| 0 <= earlier < position ==> list@[earlier] != user,
        decreases list.len() - position,
    {
        if list[position] == user {
            return true;
        }
        position += 1;
    }
    false
}

/// The entries of `list` but `user`, in their order.
fn without(list: &Vec<UserId>, user: UserId) -> (rest: Vec<UserId>)
    ensures
        rest@.to_set() == list@.to_set().remove(user),
{
    let mut rest: Vec<UserId> = Vec::new();
    let mut position: usize = 0;
    while position < list.len()
        invariant
            position <= list.len(),
            forall|kept: int|
                0 <= kept < rest.len() ==> (#[trigger] rest@[kept]) != user && list@.contains(
                    rest@[kept],
                ),
            forall|earlier: int|
                0 <= earlier < position && (#[trigger] list@[earlier]) != user ==> rest@.contains(
                    list@[earlier],
                ),
        decreases list.len() - position,
    {
        let entry = list[position];
        if entry != user {
            let ghost before = rest@;
            rest.push(entry);
            proof {
                assert(rest@[before.len() as int] == entry);
                assert forall|earlier: int|
                    0 <= earlier < position + 1 && (#[trigger] list@[earlier])
                        != user implies rest@.contains(list@[earlier]) by {
                    if earlier < position {
                        let kept = choose|kept: int|
                            0 <= kept < before.len() && before[kept] == list@[earlier];
                        assert(rest@[kept] == list@[earlier]);
                    }
                }
            }
        }
        position += 1;
    }
    assert(rest@.to_set() =~= list@.to_set().remove(user));
    rest
}

/// A copy of `list`.
fn copy_of(list: &Vec<UserId>) -> (copy: Vec<UserId>)
    ensures
        copy@ == list@,
{
    let mut copy: Vec<UserId> = Vec::new();
    let mut position: usize = 0;
    while position < list.len()
        invariant
            position <= list.len(),
            copy@ == list@.take(position as int),
        decreases list.len() - position,
    {
        copy.push(list[position]);
        position += 1;
    }
    copy
}

impl Snapshot {
    /// Stores a team without members.
    fn add_team(&mut self, name: &str) -> (team: Team)
        ensures
            team.name@ == name@,
            !old(self)@.teams.contains_key(team.id),
            final(self)@ == old(self)@.with_team(team.id, name@),
    {
        let id = TeamId(self.teams.len() as u128);
        self.teams.push(TeamRow { name: String::from_str(name), members: Vec::new() });
        assert(self@.teams =~= old(self)@.teams.insert(id, TeamRecord::named(name@))) by {
            assert(Seq::<UserId>::empty().to_set() =~= Set::empty());
        }
        Team { id, name: String::from_str(name) }
    }

    fn has_team(&self, team: TeamId) -> (found: bool)
        ensures
            found == self@.teams.contains_key(team),
    {
        team.0 < self.teams.len() as u128
    }

    /// Whether `user` belongs to `team`.
    fn is_member(&self, team: TeamId, user: UserId) -> (found: bool)
        ensures
            found == self@.is_member(team, user),
    {
        if team.0 < self.teams.len() as u128 {
            holds(&self.teams[team.0 as usize].members, user)
        } else {
            false
        }
    }

    /// Puts `members` in the place of the members of the team at `position`.
    fn set_members(&mut self, position: usize, members: Vec<UserId>)
        requires
            position < old(self).teams.len(),
        ensures
            final(self)@ == (Directory {
                teams: old(self)@.teams.insert(
                    TeamId(position as u128),
                    TeamRecord { members: members@.to_set(), ..old(self)@.teams[TeamId(position as u128)] },
                ),
                ..old(self)@
            }),
    {
        let row = TeamRow { name: self.teams[position].name.clone(), members };
        self.teams.set(position, row);
        assert(self@.teams =~= old(self)@.teams.insert(
            TeamId(position as u128),
            TeamRecord { members: members@.to_set(), ..old(self)@.teams[TeamId(position as u128)] },
        ));
    }

    /// Makes `user` a member of `team`, if the team exists.
    fn add_member(&mut self, team: TeamId, user: UserId) -> (found: bool)
        ensures
            found == old(self)@.teams.contains_key(team),
            final(self)@ == old(self)@.with_member(team, user),
    {
        if team.0 < self.teams.len() as u128 {
            let position = team.0 as usize;
            if holds(&self.teams[position].members, user) {
                assert(self@.teams[team].members.insert(user) =~= self@.teams[team].members);
                assert(self@.teams =~= self@.with_member(team, user).teams);
            } else {
                let mut members = copy_of(&self.teams[position].members);
                members.push(user);
                assert(members@.to_set() =~= old(self)@.teams[team].members.insert(user)) by {
                    broadcast use vstd::seq_lib::group_seq_properties;
                }
                self.set_members(position, members);
            }
            true
        } else {
            false
        }
    }

    /// Ends the membership of `user` in `team`.
    fn remove_member(&mut self, team: TeamId, user: UserId)
        ensures
            final(self)@ == old(self)@.without_member(team, user),
    {
        if team.0 < self.teams.len() as u128 {
            let position = team.0 as usize;
            let members = without(&self.teams[position].members, user);
            self.set_members(position, members);
        }
    }
}

impl Snapshot {
    fn find_workspace(&self, id: WorkspaceId) -> (found: Option<Workspace>)
        ensures
            match found {
                Some(workspace) => self@.workspaces.contains_key(id) && workspace@
                    == self@.workspaces[id],
                None => !self@.workspaces.contains_key(id),
            },
    {
        if id.0 < self.workspaces.len() as u128 {
            match &self.workspaces[id.0 as usize] {
                Some(row) => Some(
                    Workspace {
                        id,
                        title: row.title.clone(),
                        description: row.description.clone(),
                        admins: row.admins,
                        members: row.members,
                    },
                ),
                None => None,
            }
        } else {
            None
        }
    }

    /// Stores a workspace that is bound to the two teams.
    fn add_workspace(
        &mut self,
        title: &str,
        description: &str,
        admins: TeamId,
        members: TeamId,
    ) -> (workspace: Workspace)
        ensures
            !old(self)@.workspaces.contains_key(workspace.id),
            workspace@ == (WorkspaceRecord {
                id: workspace.id,
                title: title@,
                description: description@,
                admins,
                members,
            }),
            final(self)@ == old(self)@.with_workspace(workspace.id, workspace@),
    {
        let id = WorkspaceId(self.workspaces.len() as u128);
        let row = WorkspaceRow {
            title: String::from_str(title),
            description: String::from_str(description),
            admins,
            members,
        };
        self.workspaces.push(Some(row));
        let workspace = Workspace {
            id,
            title: String::from_str(title),
            description: String::from_str(description),
            admins,
            members,
        };
        assert(self@.workspaces =~= old(self)@.workspaces.insert(id, workspace@));
        workspace
    }

    /// Gives the workspace `id` a new title and description, if it exists.
    fn update_workspace(&mut self, id: WorkspaceId, title: &str, description: &str) -> (updated:
        Option<Workspace>)
        ensures
            match updated {
                Some(workspace) => {
                    &&& old(self)@.workspaces.contains_key(id)
                    &&& workspace@ == (WorkspaceRecord {
                        title: title@,
                        description: description@,
                        ..old(self)@.workspaces[id]
                    })
                    &&& final(self)@ == old(self)@.with_workspace(id, workspace@)
                },
                None => !old(self)@.workspaces.contains_key(id) && final(self)@ == old(self)@,
            },
    {
        match self.find_workspace(id) {
            Some(before) => {
                let row = WorkspaceRow {
                    title: String::from_str(title),
                    description: String::from_str(description),
                    admins: before.admins,
                    members: before.members,
                };
                assert(id.0 < self.workspaces.len() && self.workspaces@[id.0 as int] is Some);
                self.workspaces.set(id.0 as usize, Some(row));
                let workspace = Workspace {
                    id,
                    title: String::from_str(title),
                    description: String::from_str(description),
                    admins: before.admins,
                    members: before.members,
                };
                assert(self@.workspaces =~= old(self)@.workspaces.insert(id, workspace@));
                Some(workspace)
            },
            None => None,
        }
    }

    /// Deletes the workspace `id`, if it exists, and returns it.
    fn delete_workspace(&mut self, id: WorkspaceId) -> (deleted: Option<Workspace>)
        ensures
            match deleted {
                Some(workspace) => {
                    &&& old(self)@.workspaces.contains_key(id)
                    &&& workspace@ == old(self)@.workspaces[id]
                    &&& final(self)@ == old(self)@.without_workspace(id)
                },
                None => !old(self)@.workspaces.contains_key(id) && final(self)@ == old(self)@,
            },
    {
        match self.find_workspace(id) {
            Some(workspace) => {
                assert(id.0 < self.workspaces.len());
                self.workspaces.set(id.0 as usize, None);
                assert(self@.workspaces =~= old(self)@.workspaces.remove(id));
                Some(workspace)
            },
            None => None,
        }
    }

    /// All workspaces, in the order of their identifiers.
    fn all_workspaces(&self) -> (list: Vec<Workspace>)
        ensures
            workspace_records(list@).no_duplicates(),
            workspace_records(list@).to_set() == self@.workspaces.values(),
    {
        let mut list: Vec<Workspace> = Vec::new();
        let mut position: usize = 0;
        while position < self.workspaces.len()
            invariant
                position <= self.workspaces.len(),
                forall|listed: int|
                    0 <= listed < list.len() ==> {
                        &&& (#[trigger] list@[listed]).id.0 < position
                        &&& self@.workspaces.contains_key(list@[listed].id)
                        &&& list@[listed]@ == self@.workspaces[list@[listed].id]
                    },
                forall|a: int, b: int|
                    0 <= a < b < list.len() ==> (#[trigger] list@[a]).id.0 < (#[trigger] list@[b]).id.0,
                forall|id: WorkspaceId|
                    id.0 < position && #[trigger] self@.workspaces.contains_key(id) ==> exists|
                        listed: int,
                    |
                        0 <= listed < list.len() && (#[trigger] list@[listed]).id == id,
            decreases self.workspaces.len() - position,
        {
            let id = WorkspaceId(position as u128);
            let ghost before = list@;
            match self.find_workspace(id) {
                Some(workspace) => {
                    list.push(workspace);
                    proof {
                        assert(list@[before.len() as int].id == id);
                        assert forall|other: WorkspaceId|
                            other.0 < position + 1 && #[trigger] self@.workspaces.contains_key(
                                other,
                            ) implies exists|listed: int|
                            0 <= listed < list.len() && (#[trigger] list@[listed]).id == other by {
                            if other.0 < position {
                                let listed = choose|listed: int|
                                    0 <= listed < before.len() && (#[trigger] before[listed]).id
                                        == other;
                                assert(list@[listed].id == other);
                            }
                        }
                    }
                },
                None => {},
            }
            position += 1;
        }
        proof {
            let records = workspace_records(list@);
            assert forall|a: int, b: int| 0 <= a < records.len() && 0 <= b < records.len() && a
                != b implies records[a] != records[b] by {
                if a < b {
                    assert(list@[a].id.0 < list@[b].id.0);
                } else {
                    assert(list@[b].id.0 < list@[a].id.0);
                }
            }
            assert forall|record: WorkspaceRecord|
                records.to_set().contains(record) == self@.workspaces.values().contains(record) by {
                if records.to_set().contains(record) {
                    let listed = choose|listed: int|
                        0 <= listed < records.len() && records[listed] == record;
                    assert(self@.workspaces.contains_key(list@[listed].id));
                }
                if self@.workspaces.values().contains(record) {
                    let id = choose|id: WorkspaceId|
                        self@.workspaces.contains_key(id) && self@.workspaces[id] == record;
                    let listed = choose|listed: int|
                        0 <= listed < list.len() && (#[trigger] list@[listed]).id == id;
                    assert(records[listed] == record);
                }
            }
            assert(records.to_set() =~= self@.workspaces.values());
        }
        list
    }
}

/// The members of `team` without those of `excluded`, where one is given.
spec fn chosen_from(d: Directory, team: TeamId, excluded: Option<TeamId>) -> Set<UserId> {
    match excluded {
        Some(other) => d.members_of(team).difference(d.members_of(other)),
        None => d.members_of(team),
    }
}

/// A stored user is the user of the row at the position that its
/// identifier gives.
proof fn lemma_stored_user_is_row(rows: Seq<UserRow>, user: UserRecord)
    requires
        rows.len() <= usize::MAX,
        users_of(rows).contains_key(user.auth_id),
        users_of(rows)[user.auth_id] == user,
    ensures
        0 <= user.id.0 < rows.len(),
        user == user_at(rows, user.id.0 as int),
{
    let first = choose|first: int| first_with(rows, user.auth_id, first);
    assert(first_with(rows, user.auth_id, first));
}

impl Snapshot {
    /// The stored users who belong to `team` and, where `excluded` is
    /// given, not to that team, in the order of their identifiers.
    fn users_in(&self, team: TeamId, excluded: Option<TeamId>) -> (list: Vec<User>)
        ensures
            user_records(list@).no_duplicates(),
            user_records(list@).to_set() == self@.users_among(chosen_from(self@, team, excluded)),
    {
        let ghost chosen = chosen_from(self@, team, excluded);
        let mut list: Vec<User> = Vec::new();
        let mut position: usize = 0;
        while position < self.users.len()
            invariant
                position <= self.users.len(),
                chosen == chosen_from(self@, team, excluded),
                forall|listed: int|
                    0 <= listed < list.len() ==> {
                        &&& (#[trigger] list@[listed]).id.0 < position
                        &&& self@.has_user(list@[listed]@)
                        &&& chosen.contains(list@[listed].id)
                    },
                forall|a: int, b: int|
                    0 <= a < b < list.len() ==> (#[trigger] list@[a]).id.0 < (#[trigger] list@[b]).id.0,
                forall|user: UserRecord|
                    #[trigger] self@.has_user(user) && chosen.contains(user.id) && user.id.0
                        < position ==> exists|listed: int|
                        0 <= listed < list.len() && (#[trigger] list@[listed])@ == user,
            decreases self.users.len() - position,
        {
            let id = UserId(position as u128);
            let wanted = self.is_member(team, id) && match excluded {
                Some(other) => !self.is_member(other, id),
                None => true,
            };
            let ghost before = list@;
            let found = if wanted {
                self.find_user_by_id(id)
            } else {
                None
            };
            match found {
                Some(user) => {
                    list.push(user);
                    assert(list@[before.len() as int].id == id);
                },
                None => {},
            }
            proof {
                assert forall|user: UserRecord|
                    #[trigger] self@.has_user(user) && chosen.contains(user.id) && user.id.0
                        < position + 1 implies exists|listed: int|
                    0 <= listed < list.len() && (#[trigger] list@[listed])@ == user by {
                    if user.id.0 < position {
                        let listed = choose|listed: int|
                            0 <= listed < before.len() && (#[trigger] before[listed])@ == user;
                        assert(list@[listed]@ == user);
                    } else {
                        assert(user.id == id);
                        assert(self@.users.contains_key(user.auth_id));
                        assert(self@.has_user_id(id));
                        lemma_stored_user_is_row(self.users@, user);
                        lemma_stored_user_is_row(self.users@, list@[before.len() as int]@);
                        assert(list@[before.len() as int]@ == user);
                    }
                }
            }
            position += 1;
        }
        proof {
            let records = user_records(list@);
            assert forall|a: int, b: int| 0 <= a < records.len() && 0 <= b < records.len() && a
                != b implies records[a] != records[b] by {
                if a < b {
                    assert(list@[a].id.0 < list@[b].id.0);
                } else {
                    assert(list@[b].id.0 < list@[a].id.0);
                }
            }
            let expected = self@.users_among(chosen);
            assert forall|user: UserRecord|
                records.to_set().contains(user) == expected.contains(user) by {
                if records.to_set().contains(user) {
                    let listed = choose|listed: int|
                        0 <= listed < records.len() && records[listed] == user;
                    assert(self@.has_user(list@[listed]@));
                }
                if expected.contains(user) {
                    lemma_stored_user_is_row(self.users@, user);
                    let listed = choose|listed: int|
                        0 <= listed < list.len() && (#[trigger] list@[listed])@ == user;
                    assert(records[listed] == user);
                }
            }
            assert(records.to_set() =~= expected);
        }
        list
    }

    /// A copy that holds the same rows.
    fn duplicate(&self) -> (copy: Snapshot)
        ensures
            copy@ == self@,
    {
        let mut users: Vec<UserRow> = Vec::new();
        let mut position: usize = 0;
        while position < self.users.len()
            invariant
                position <= self.users.len(),
                users@ == self.users@.take(position as int),
            decreases self.users.len() - position,
        {
            let row = &self.users[position];
            users.push(
                UserRow {
                    auth_id: row.auth_id,
                    name: row.name.clone(),
                    is_platform_admin: row.is_platform_admin,
                },
            );
            position += 1;
        }
        assert(users@ == self.users@);
        let mut teams: Vec<TeamRow> = Vec::new();
        position = 0;
        while position < self.teams.len()
            invariant
                position <= self.teams.len(),
                teams.len() == position,
                forall|copied: int|
                    0 <= copied < position ==> team_of(#[trigger] teams@[copied]) == team_of(
                        self.teams@[copied],
                    ),
            decreases self.teams.len() - position,
        {
            let row = &self.teams[position];
            teams.push(TeamRow { name: row.name.clone(), members: copy_of(&row.members) });
            position += 1;
        }
        let mut workspaces: Vec<Option<WorkspaceRow>> = Vec::new();
        position = 0;
        while position < self.workspaces.len()
            invariant
                position <= self.workspaces.len(),
                workspaces@ == self.workspaces@.take(position as int),
            decreases self.workspaces.len() - position,
        {
            let row = match &self.workspaces[position] {
                Some(row) => Some(
                    WorkspaceRow {
                        title: row.title.clone(),
                        description: row.description.clone(),
                        admins: row.admins,
                        members: row.members,
                    },
                ),
                None => None,
            };
            workspaces.push(row);
            position += 1;
        }
        assert(workspaces@ == self.workspaces@);
        let copy = Snapshot { users, teams, workspaces };
        assert(copy@.teams =~= self@.teams);
        copy
    }
}

/// An executor over data that is kept in memory.
///
/// It can be told to fail: after `fail_after(n)` the next `n` calls that
/// change data or open or commit a transaction succeed, and every later one
/// fails, until `repair` is called. Lookups and `rollback` never fail.
pub struct MemoryExecutor {
    /// What statements see and change.
    working: Snapshot,
    /// While a transaction is open, the data as it was when it was opened.
    saved: Option<Snapshot>,
    /// The number of calls that still succeed, where the executor was told
    /// to fail.
    fault: Option<usize>,
    /// The number of transactions that were opened.
    opened: Ghost<nat>,
}

/// The failure that an executor reports when it was told to fail.
fn injected_fault() -> (fault: StorageError)
    ensures
        fault.detail@ == "injected storage fault"@,
{
    StorageError { detail: String::from_str("injected storage fault") }
}

/// What a call that counts does to the budget of an executor, and whether
/// it fails for want of budget: without a budget nothing fails; a budget
/// that is not used up shrinks by one; with a budget that is used up the
/// call fails.
pub open spec fn charged(before: Option<nat>, after: Option<nat>, failed: bool) -> bool {
    match before {
        None => after is None && !failed,
        Some(left) => if left == 0 {
            after == Some(0nat) && failed
        } else {
            after == Some((left - 1) as nat) && !failed
        },
    }
}

impl MemoryExecutor {
    /// The number of calls that still succeed, where the executor was told
    /// to fail.
    pub closed spec fn budget(&self) -> Option<nat> {
        match self.fault {
            Some(left) => Some(left as nat),
            None => None,
        }
    }

    /// An executor is reliable exactly while it has no budget.
    pub proof fn lemma_reliable_without_budget(&self)
        ensures
            self.reliable() == (self.budget() is None),
    {
    }

    /// An executor that holds no data, has no open transaction and does
    /// not fail.
    pub fn new() -> (executor: Self)
        ensures
            executor@ == StoreState::initial(),
            executor.reliable(),
            executor.budget() is None,
    {
        MemoryExecutor { working: Snapshot::new(), saved: None, fault: None, opened: Ghost(0) }
    }

    /// Makes the executor fail once `calls` more calls have succeeded.
    pub fn fail_after(&mut self, calls: usize)
        ensures
            final(self)@ == old(self)@,
            !final(self).reliable(),
            final(self).budget() == Some(calls as nat),
    {
        self.fault = Some(calls);
    }

    /// Makes the executor succeed again.
    pub fn repair(&mut self)
        ensures
            final(self)@ == old(self)@,
            final(self).reliable(),
            final(self).budget() is None,
    {
        self.fault = None;
    }

    /// The name of `team` as statements see it, if the team exists.
    pub fn team_name(&self, team: TeamId) -> (name: Option<String>)
        ensures
            match name {
                Some(name) => self@.visible().teams.contains_key(team) && name@
                    == self@.visible().teams[team].name,
                None => !self@.visible().teams.contains_key(team),
            },
    {
        if team.0 < self.working.teams.len() as u128 {
            Some(self.working.teams[team.0 as usize].name.clone())
        } else {
            None
        }
    }

    /// Counts a call and says whether it must fail.
    fn trip(&mut self) -> (failing: bool)
        ensures
            final(self)@ == old(self)@,
            final(self).reliable() == old(self).reliable(),
            old(self).reliable() ==> !failing,
            charged(old(self).budget(), final(self).budget(), failing),
    {
        match self.fault {
            None => false,
            Some(left) => {
                if left == 0 {
                    true
                } else {
                    self.fault = Some(left - 1);
                    false
                }
            },
        }
    }
}

impl Executor for MemoryExecutor {
    closed spec fn view(&self) -> StoreState {
        match self.saved {
            Some(saved) => StoreState {
                committed: saved@,
                pending: Some(self.working@),
                opened: self.opened@,
            },
            None => StoreState { committed: self.working@, pending: None, opened: self.opened@ },
        }
    }

    closed spec fn reliable(&self) -> bool {
        self.budget() is None
    }

    fn in_transaction(&self) -> (open: bool) {
        self.saved.is_some()
    }

    fn begin(&mut self) -> (result: Result<(), StorageError>)
        ensures
            charged(old(self).budget(), final(self).budget(), result is Err),
    {
        if self.saved.is_some() {
            return Err(StorageError { detail: String::from_str("a transaction is already open") });
        }
        if self.trip() {
            return Err(injected_fault());
        }
        let saved = self.working.duplicate();
        self.saved = Some(saved);
        self.opened = Ghost(self.opened@ + 1);
        Ok(())
    }

    fn commit(&mut self) -> (result: Result<(), StorageError>)
        ensures
            charged(old(self).budget(), final(self).budget(), result is Err),
    {
        if self.trip() {
            self.rollback();
            return Err(injected_fault());
        }
        self.saved = None;
        Ok(())
    }

    fn rollback(&mut self)
        ensures
            final(self).budget() == old(self).budget(),
    {
        match self.saved.take() {
            Some(saved) => {
                self.working = saved;
            },
            None => {},
        }
    }
}

/// The store of users over a `MemoryExecutor`.
#[derive(Clone, Copy, Debug, Default)]
pub struct MemoryUserRepo;

impl UserRepo<MemoryExecutor> for MemoryUserRepo {
    fn find_by_auth_id(&self, auth_id: AuthId, executor: &MemoryExecutor) -> (result: Result<
        Option<User>,
        StorageError,
    >)
        ensures
            result is Ok,
    {
        Ok(executor.working.find_user_by_auth_id(auth_id))
    }

    fn find_by_id(&self, id: UserId, executor: &MemoryExecutor) -> (result: Result<
        Option<User>,
        StorageError,
    >)
        ensures
            result is Ok,
    {
        Ok(executor.working.find_user_by_id(id))
    }

    fn get_or_create(&self, auth_id: AuthId, name: &str, executor: &mut MemoryExecutor) -> (result:
        Result<User, StorageError>)
        ensures
            charged(old(executor).budget(), final(executor).budget(), result is Err),
    {
        if executor.trip() {
            return Err(injected_fault());
        }
        match executor.working.find_user_by_auth_id(auth_id) {
            Some(user) => Ok(user),
            None => Ok(executor.working.add_user(auth_id, name)),
        }
    }

    fn update(&self, auth_id: AuthId, is_platform_admin: bool, executor: &mut MemoryExecutor) -> (result:
        Result<User, RepoError>)
        ensures
            charged(
                old(executor).budget(),
                final(executor).budget(),
                result matches Err(RepoError::Storage(_)),
            ),
    {
        if executor.trip() {
            return Err(RepoError::Storage(injected_fault()));
        }
        match executor.working.set_platform_admin(auth_id, is_platform_admin) {
            Some(user) => Ok(user),
            None => Err(RepoError::NotFound(Missing::User(auth_id))),
        }
    }
}

/// The store of teams over a `MemoryExecutor`.
#[derive(Clone, Copy, Debug, Default)]
pub struct MemoryTeamRepo;

impl TeamRepo<MemoryExecutor> for MemoryTeamRepo {
    fn create(&self, name: &str, executor: &mut MemoryExecutor) -> (result: Result<
        Team,
        StorageError,
    >)
        ensures
            charged(old(executor).budget(), final(executor).budget(), result is Err),
    {
        if executor.trip() {
            return Err(injected_fault());
        }
        Ok(executor.working.add_team(name))
    }

    fn add_member(&self, team: TeamId, user: UserId, executor: &mut MemoryExecutor) -> (result:
        Result<(), RepoError>)
        ensures
            charged(
                old(executor).budget(),
                final(executor).budget(),
                result matches Err(RepoError::Storage(_)),
            ),
    {
        if executor.trip() {
            return Err(RepoError::Storage(injected_fault()));
        }
        if executor.working.add_member(team, user) {
            Ok(())
        } else {
            Err(RepoError::NotFound(Missing::Team(team)))
        }
    }

    fn remove_member(&self, team: TeamId, user: UserId, executor: &mut MemoryExecutor) -> (result:
        Result<(), StorageError>)
        ensures
            charged(old(executor).budget(), final(executor).budget(), result is Err),
    {
        if executor.trip() {
            return Err(injected_fault());
        }
        executor.working.remove_member(team, user);
        Ok(())
    }

    fn members(&self, team: TeamId, executor: &MemoryExecutor) -> (result: Result<
        Vec<User>,
        StorageError,
    >)
        ensures
            result is Ok,
    {
        Ok(executor.working.users_in(team, None))
    }

    fn members_difference(&self, team_a: TeamId, team_b: TeamId, executor: &MemoryExecutor) -> (result:
        Result<Vec<User>, StorageError>)
        ensures
            result is Ok,
    {
        Ok(executor.working.users_in(team_a, Some(team_b)))
    }

    fn is_member(&self, team: TeamId, user: UserId, executor: &MemoryExecutor) -> (result: Result<
        bool,
        StorageError,
    >)
        ensures
            result is Ok,
    {
        Ok(executor.working.is_member(team, user))
    }
}

/// The store of workspaces over a `MemoryExecutor`.
#[derive(Clone, Copy, Debug, Default)]
pub struct MemoryWorkspaceRepo;

impl WorkspaceRepo<MemoryExecutor> for MemoryWorkspaceRepo {
    fn create(
        &self,
        title: &str,
        description: &str,
        admins_team_id: TeamId,
        members_team_id: TeamId,
        executor: &mut MemoryExecutor,
    ) -> (result: Result<Workspace, RepoError>)
        ensures
            charged(
                old(executor).budget(),
                final(executor).budget(),
                result matches Err(RepoError::Storage(_)),
            ),
    {
        if executor.trip() {
            return Err(RepoError::Storage(injected_fault()));
        }
        if !executor.working.has_team(admins_team_id) {
            return Err(RepoError::NotFound(Missing::Team(admins_team_id)));
        }
        if !executor.working.has_team(members_team_id) {
            return Err(RepoError::NotFound(Missing::Team(members_team_id)));
        }
        Ok(executor.working.add_workspace(title, description, admins_team_id, members_team_id))
    }

    fn find_all(&self, executor: &MemoryExecutor) -> (result: Result<Vec<Workspace>, StorageError>)
        ensures
            result is Ok,
    {
        Ok(executor.working.all_workspaces())
    }

    fn find_by_id(&self, id: WorkspaceId, executor: &MemoryExecutor) -> (result: Result<
        Workspace,
        RepoError,
    >)
        ensures
            !(result matches Err(RepoError::Storage(_))),
    {
        match executor.working.find_workspace(id) {
            Some(workspace) => Ok(workspace),
            None => Err(RepoError::NotFound(Missing::Workspace(id))),
        }
    }

    fn update(
        &self,
        id: WorkspaceId,
        title: &str,
        description: &str,
        executor: &mut MemoryExecutor,
    ) -> (result: Result<Workspace, RepoError>)
        ensures
            charged(
                old(executor).budget(),
                final(executor).budget(),
                result matches Err(RepoError::Storage(_)),
            ),
    {
        if executor.trip() {
            return Err(RepoError::Storage(injected_fault()));
        }
        match executor.working.update_workspace(id, title, description) {
            Some(workspace) => Ok(workspace),
            None => Err(RepoError::NotFound(Missing::Workspace(id))),
        }
    }

    fn delete(&self, id: WorkspaceId, executor: &mut MemoryExecutor) -> (result: Result<
        Workspace,
        RepoError,
    >)
        ensures
            charged(
                old(executor).budget(),
                final(executor).budget(),
                result matches Err(RepoError::Storage(_)),
            ),
    {
        if executor.trip() {
            return Err(RepoError::Storage(injected_fault()));
        }
        match executor.working.delete_workspace(id) {
            Some(workspace) => Ok(workspace),
            None => Err(RepoError::NotFound(Missing::Workspace(id))),
        }
    }
}

/// A publisher that records the events it is handed, and that can be told
/// to refuse them.
pub struct MemoryEvents {
    log: Vec<DomainEvent>,
    failing: bool,
}

impl MemoryEvents {
    /// A publisher that holds no events and accepts every batch.
    pub fn new() -> (events: Self)
        ensures
            events.published() == Seq::<EventRecord>::empty(),
            events.reliable(),
    {
        let events = MemoryEvents { log: Vec::new(), failing: false };
        assert(event_records(events.log@) =~= Seq::empty());
        events
    }

    /// Makes the publisher refuse every batch, or accept every batch again.
    pub fn set_failing(&mut self, failing: bool)
        ensures
            final(self).published() == old(self).published(),
            final(self).reliable() == !failing,
    {
        self.failing = failing;
    }

    /// The events that were accepted, oldest first.
    pub fn events(&self) -> (log: &Vec<DomainEvent>)
        ensures
            event_records(log@) == self.published(),
    {
        &self.log
    }
}

impl EventRepo for MemoryEvents {
    closed spec fn published(&self) -> EventLog {
        event_records(self.log@)
    }

    closed spec fn reliable(&self) -> bool {
        !self.failing
    }

    fn publish_events(&mut self, events: Vec<DomainEvent>) -> (result: Result<(), PublishError>)
        ensures
            !old(self).reliable() ==> result is Err && final(self).published() == old(self).published(),
    {
        if self.failing {
            return Err(PublishError { detail: String::from_str("injected publishing fault") });
        }
        let mut events = events;
        assert(event_records(self.log@ + events@) =~= event_records(self.log@) + event_records(
            events@,
        ));
        self.log.append(&mut events);
        Ok(())
    }
}

} // verus!
