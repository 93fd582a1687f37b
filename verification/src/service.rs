//! The membership workflow: who may create a workspace, who may change the
//! role of a user in one, and how each request is validated, carried out in
//! one transaction, committed and then announced.

use vstd::prelude::*;
use vstd::string::StringExecFns;
use crate::directory::{Directory, WorkspaceRecord};
use crate::error::{Action, Missing, PublishError, RepoError, WorkspaceError};
use crate::event::{event_records, DomainEvent, EventRecord, EventRepo};
use crate::executor::{Executor, StoreState};
use crate::identity::{AuthId, UserId, WorkspaceId};
use crate::policy::{
    can_manage_workspace, check_creation, check_membership_change, check_requester,
};
use crate::laws::{
    law_admin_is_in_both_teams, law_creation_keeps_well_formed, law_given_role_is_derived_role,
    law_non_member_is_in_neither_team, law_role_change_keeps_admins_within_members,
    law_role_change_keeps_well_formed,
};
use crate::team::TeamRepo;
use crate::user::{user_records, User, UserRepo};
use crate::workspace::{Role, RoleFilter, Workspace, WorkspaceRepo};

verus! {

/// The outcome of a request whose transaction was committed.
#[derive(Debug, PartialEq, Eq)]
pub struct Committed {
    /// The workspace that the request created or changed.
    pub workspace: Workspace,
    /// Set where the change is stored but its event could not be handed to
    /// the publisher.
    pub delivery_warning: Option<PublishError>,
}

/// Why the request of `requester` to create a workspace is refused in the
/// directory `d`, if it is: only users who administer the platform may
/// create workspaces.
pub open spec fn creation_refusal(d: Directory, requester: AuthId) -> Option<WorkspaceError> {
    if d.can_create_workspace(requester) {
        None
    } else {
        Some(WorkspaceError::Forbidden { requester, action: Action::CreateWorkspace })
    }
}

/// `after` is `before` with the new workspace `workspace`, titled `title`
/// and described by `description`, and with its two new teams, named after
/// the title, which have no members.
pub open spec fn created(
    before: Directory,
    after: Directory,
    workspace: WorkspaceRecord,
    title: Seq<char>,
    description: Seq<char>,
) -> bool {
    &&& workspace.title == title
    &&& workspace.description == description
    &&& workspace.admins != workspace.members
    &&& !before.workspaces.contains_key(workspace.id)
    &&& !before.teams.contains_key(workspace.admins)
    &&& !before.teams.contains_key(workspace.members)
    &&& after == before.with_team(workspace.admins, title + " Admins"@).with_team(
        workspace.members,
        title + " Members"@,
    ).with_workspace(workspace.id, workspace)
}

/// The team of `workspace` whose absence keeps `role` from being given, if
/// one is absent: a user can only be added to a team that exists.
pub open spec fn role_refusal(d: Directory, workspace: WorkspaceRecord, role: Role) -> Option<
    Missing,
> {
    match role {
        Role::Admin => if !d.teams.contains_key(workspace.admins) {
            Some(Missing::Team(workspace.admins))
        } else if !d.teams.contains_key(workspace.members) {
            Some(Missing::Team(workspace.members))
        } else {
            None
        },
        Role::NonAdmin => if !d.teams.contains_key(workspace.members) {
            Some(Missing::Team(workspace.members))
        } else {
            None
        },
        Role::NonMember => None,
    }
}

/// What asking whether `user` administers the workspace `id` gives in the
/// directory `d`: a user who is not stored administers nothing; for a
/// stored user the workspace must exist.
pub open spec fn admin_lookup(d: Directory, id: WorkspaceId, user: UserId) -> Result<
    bool,
    WorkspaceError,
> {
    if !d.has_user_id(user) {
        Ok(false)
    } else if !d.workspaces.contains_key(id) {
        Err(WorkspaceError::NotFound(Missing::Workspace(id)))
    } else {
        Ok(d.is_member(d.workspaces[id].admins, user))
    }
}

/// Why the request of `requester` to give `target` the role `role` in the
/// workspace `id` is refused in the directory `d`, if it is. The checks
/// come in this order: the requester must be a stored user; for a
/// requester who does not administer the platform the workspace must
/// exist, and the requester must administer it; the requester must not be
/// the target; the workspace must exist, and so must the teams that the
/// target joins.
pub open spec fn membership_refusal(
    d: Directory,
    id: WorkspaceId,
    target: UserId,
    role: Role,
    requester: AuthId,
) -> Option<WorkspaceError> {
    let action = Action::ChangeMembership { workspace: id, target, role };
    if !d.users.contains_key(requester) {
        Some(WorkspaceError::Forbidden { requester, action })
    } else if !d.users[requester].is_platform_admin && !d.workspaces.contains_key(id) {
        Some(WorkspaceError::NotFound(Missing::Workspace(id)))
    } else if !d.can_manage_workspace(requester, id) {
        Some(WorkspaceError::Forbidden { requester, action })
    } else if d.users[requester].id == target {
        Some(WorkspaceError::SelfModification { requester, workspace: id, target, role })
    } else if !d.workspaces.contains_key(id) {
        Some(WorkspaceError::NotFound(Missing::Workspace(id)))
    } else {
        match role_refusal(d, d.workspaces[id], role) {
            Some(missing) => Some(WorkspaceError::NotFound(missing)),
            None => None,
        }
    }
}

/// The users of `workspace` that `filter` selects: all members, the
/// administrators only, or the members who are no administrators.
pub open spec fn selection(d: Directory, workspace: WorkspaceRecord, filter: Option<RoleFilter>) -> Set<
    UserId,
> {
    match filter {
        None => d.members_of(workspace.members),
        Some(RoleFilter::Admin) => d.members_of(workspace.admins),
        Some(RoleFilter::NonAdmin) => d.members_of(workspace.members).difference(
            d.members_of(workspace.admins),
        ),
    }
}

/// Where a request came back without a warning, its event was appended to
/// what the publisher holds.
pub open spec fn delivered(
    before: Seq<EventRecord>,
    after: Seq<EventRecord>,
    warning: Option<PublishError>,
    event: EventRecord,
) -> bool {
    warning is None ==> after =~= before.push(event)
}

/// The request failed, and with `error` unless the storage backend failed.
pub open spec fn refused(result: Result<Committed, WorkspaceError>, error: WorkspaceError) -> bool {
    match result {
        Ok(_) => false,
        Err(WorkspaceError::Storage(_)) => true,
        Err(other) => other == error,
    }
}

/// The requests that the transport layer makes.
///
/// A request that changes data is validated first: a requester who lacks
/// the permission, or who asks for their own role to be changed, is
/// refused before any transaction is opened. The request is then carried
/// out in one transaction, and its event is published only after the
/// commit. A failure of the storage backend leaves the stored data as it
/// was, and no event is published. A failure of the publisher leaves the
/// change stored and comes back as a warning beside it.
pub trait WorkspaceService<X: Executor> {
    /// The users of the workspace `workspace_id` that `filter` selects,
    /// each once.
    fn members(&self, workspace_id: WorkspaceId, filter: Option<RoleFilter>, executor: &X) -> (result:
        Result<Vec<User>, WorkspaceError>)
        ensures
            executor.reliable() ==> !(result matches Err(WorkspaceError::Storage(_))),
            match result {
                Ok(users) => {
                    &&& executor@.visible().workspaces.contains_key(workspace_id)
                    &&& user_records(users@).no_duplicates()
                    &&& user_records(users@).to_set() == executor@.visible().users_among(
                        selection(
                            executor@.visible(),
                            executor@.visible().workspaces[workspace_id],
                            filter,
                        ),
                    )
                },
                Err(WorkspaceError::Storage(_)) => true,
                Err(error) => {
                    &&& !executor@.visible().workspaces.contains_key(workspace_id)
                    &&& error == WorkspaceError::NotFound(Missing::Workspace(workspace_id))
                },
            },
    ;

    /// Creates a workspace titled `title` together with its admins team
    /// and its members team, for the user with the external identity
    /// `requesting_user`, and publishes the event that tells of it.
    fn create<P: EventRepo>(
        &self,
        title: &str,
        description: &str,
        requesting_user: AuthId,
        executor: &mut X,
        events: &mut P,
    ) -> (result: Result<Committed, WorkspaceError>)
        requires
            !old(executor)@.in_transaction(),
        ensures
            !final(executor)@.in_transaction(),
            final(executor).reliable() == old(executor).reliable(),
            final(events).reliable() == old(events).reliable(),
            old(executor).reliable() ==> !(result matches Err(WorkspaceError::Storage(_))),
            old(events).reliable() ==> (result matches Ok(done) ==> done.delivery_warning is None),
            match result {
                Ok(done) => {
                    &&& creation_refusal(old(executor)@.committed, requesting_user) is None
                    &&& created(
                        old(executor)@.committed,
                        final(executor)@.committed,
                        done.workspace@,
                        title@,
                        description@,
                    )
                    &&& final(executor)@.opened == old(executor)@.opened + 1
                    &&& delivered(
                        old(events).published(),
                        final(events).published(),
                        done.delivery_warning,
                        EventRecord::workspace_created(done.workspace.id, requesting_user, title@),
                    )
                },
                Err(WorkspaceError::Storage(_)) => {
                    &&& final(executor)@.committed == old(executor)@.committed
                    &&& final(events).published() == old(events).published()
                },
                Err(error) => {
                    &&& creation_refusal(old(executor)@.committed, requesting_user) == Some(error)
                    &&& final(executor)@ == old(executor)@
                    &&& final(events).published() == old(events).published()
                },
            },
            !old(executor)@.committed.can_create_workspace(requesting_user) ==> {
                &&& refused(
                    result,
                    WorkspaceError::Forbidden {
                        requester: requesting_user,
                        action: Action::CreateWorkspace,
                    },
                )
                &&& final(executor)@ == old(executor)@
            },
            old(executor)@.committed.well_formed() ==> final(executor)@.committed.well_formed(),
    ;

    /// Whether the user `user_id` administers the workspace `workspace_id`.
    fn is_admin(&self, workspace_id: WorkspaceId, user_id: UserId, executor: &X) -> (result: Result<
        bool,
        WorkspaceError,
    >)
        ensures
            executor.reliable() ==> !(result matches Err(WorkspaceError::Storage(_))),
            result matches Err(WorkspaceError::Storage(_)) || result == admin_lookup(
                executor@.visible(),
                workspace_id,
                user_id,
            ),
    ;

    /// Gives the user `user_id` the role `new_role` in the workspace
    /// `workspace_id`, at the request of the user with the external
    /// identity `requesting_user`, and publishes the event that tells of
    /// it.
    fn change_workspace_membership<P: EventRepo>(
        &self,
        workspace_id: WorkspaceId,
        user_id: UserId,
        new_role: Role,
        requesting_user: AuthId,
        executor: &mut X,
        events: &mut P,
    ) -> (result: Result<Committed, WorkspaceError>)
        requires
            !old(executor)@.in_transaction(),
        ensures
            !final(executor)@.in_transaction(),
            final(executor).reliable() == old(executor).reliable(),
            final(events).reliable() == old(events).reliable(),
            old(executor).reliable() ==> !(result matches Err(WorkspaceError::Storage(_))),
            old(events).reliable() ==> (result matches Ok(done) ==> done.delivery_warning is None),
            match result {
                Ok(done) => {
                    &&& membership_refusal(
                        old(executor)@.committed,
                        workspace_id,
                        user_id,
                        new_role,
                        requesting_user,
                    ) is None
                    &&& done.workspace@ == old(executor)@.committed.workspaces[workspace_id]
                    &&& final(executor)@.committed == old(executor)@.committed.with_role(
                        done.workspace@,
                        user_id,
                        new_role,
                    )
                    &&& final(executor)@.opened == old(executor)@.opened + 1
                    &&& delivered(
                        old(events).published(),
                        final(events).published(),
                        done.delivery_warning,
                        EventRecord::membership_changed(
                            requesting_user,
                            done.workspace.id,
                            user_id,
                            new_role,
                        ),
                    )
                },
                Err(WorkspaceError::Storage(_)) => {
                    &&& final(executor)@.committed == old(executor)@.committed
                    &&& final(events).published() == old(events).published()
                },
                Err(error) => {
                    &&& membership_refusal(
                        old(executor)@.committed,
                        workspace_id,
                        user_id,
                        new_role,
                        requesting_user,
                    ) == Some(error)
                    &&& final(executor)@.committed == old(executor)@.committed
                    &&& !(error is NotFound) ==> final(executor)@ == old(executor)@
                    &&& final(events).published() == old(events).published()
                },
            },
            old(executor)@.committed.workspaces.contains_key(workspace_id)
                && !old(executor)@.committed.can_manage_workspace(requesting_user, workspace_id)
                ==> {
                &&& refused(
                    result,
                    WorkspaceError::Forbidden {
                        requester: requesting_user,
                        action: Action::ChangeMembership {
                            workspace: workspace_id,
                            target: user_id,
                            role: new_role,
                        },
                    },
                )
                &&& final(executor)@ == old(executor)@
            },
            old(executor)@.committed.can_manage_workspace(requesting_user, workspace_id)
                && old(executor)@.committed.users[requesting_user].id == user_id ==> {
                &&& refused(
                    result,
                    WorkspaceError::SelfModification {
                        requester: requesting_user,
                        workspace: workspace_id,
                        target: user_id,
                        role: new_role,
                    },
                )
                &&& final(executor)@ == old(executor)@
            },
            result matches Ok(done) ==> (new_role == Role::Admin ==> {
                &&& final(executor)@.committed.is_member(done.workspace.admins, user_id)
                &&& final(executor)@.committed.is_member(done.workspace.members, user_id)
            }),
            result matches Ok(done) ==> (new_role == Role::NonMember ==> {
                &&& !final(executor)@.committed.is_member(done.workspace.admins, user_id)
                &&& !final(executor)@.committed.is_member(done.workspace.members, user_id)
            }),
            result matches Ok(done) ==> (done.workspace.admins != done.workspace.members
                ==> final(executor)@.committed.role_in(done.workspace@, user_id) == new_role),
            old(executor)@.committed.well_formed() ==> final(executor)@.committed.well_formed(),
    ;
}

/// The workflow over a team repository, a user repository and a workspace
/// repository.
#[derive(Clone)]
pub struct WorkspaceServiceImpl<T, U, W> {
    team_repo: T,
    user_repo: U,
    workspace_repo: W,
}

impl<T, U, W> WorkspaceServiceImpl<T, U, W> {
    /// The team repository that the workflow runs over.
    pub closed spec fn team_repo(&self) -> T {
        self.team_repo
    }

    /// The user repository that the workflow runs over.
    pub closed spec fn user_repo(&self) -> U {
        self.user_repo
    }

    /// The workspace repository that the workflow runs over.
    pub closed spec fn workspace_repo(&self) -> W {
        self.workspace_repo
    }

    /// The workflow over the three repositories.
    pub fn new(team_repo: T, user_repo: U, workspace_repo: W) -> (service: Self)
        ensures
            service.team_repo() == team_repo,
            service.user_repo() == user_repo,
            service.workspace_repo() == workspace_repo,
    {
        Self { team_repo, user_repo, workspace_repo }
    }

    /// Gives `user` the role `role` in `workspace` by two changes of team
    /// membership, the one to the admins team first: a new administrator
    /// joins both teams, a plain member leaves the admins team and joins
    /// the members team, a non-member leaves both. The caller has opened
    /// the transaction that makes the two changes one.
    pub fn set_role<X: Executor>(
        &self,
        workspace: &Workspace,
        user: UserId,
        role: Role,
        executor: &mut X,
    ) -> (result: Result<(), RepoError>) where T: TeamRepo<X>
        requires
            old(executor)@.in_transaction(),
        ensures
            final(executor).reliable() == old(executor).reliable(),
            old(executor).reliable() ==> !(result matches Err(RepoError::Storage(_))),
            old(executor)@.failed(final(executor)@),
            match result {
                Ok(_) => {
                    &&& role_refusal(old(executor)@.visible(), workspace@, role) is None
                    &&& final(executor)@.visible() == old(executor)@.visible().with_role(
                        workspace@,
                        user,
                        role,
                    )
                },
                Err(RepoError::NotFound(missing)) => role_refusal(
                    old(executor)@.visible(),
                    workspace@,
                    role,
                ) == Some(missing),
                Err(RepoError::Storage(_)) => true,
            },
            result is Ok && old(executor)@.visible().members_of(workspace.admins).subset_of(
                old(executor)@.visible().members_of(workspace.members),
            ) ==> final(executor)@.visible().members_of(workspace.admins).subset_of(
                final(executor)@.visible().members_of(workspace.members),
            ),
    {
        proof {
            if role_refusal(executor@.visible(), workspace@, role) is None && executor@.visible().members_of(
                workspace.admins,
            ).subset_of(executor@.visible().members_of(workspace.members)) {
                law_role_change_keeps_admins_within_members(
                    executor@.visible(),
                    workspace@,
                    user,
                    role,
                );
            }
        }
        match role {
            Role::Admin => {
                match self.team_repo.add_member(workspace.admins, user, executor) {
                    Ok(_) => {},
                    Err(error) => {
                        return Err(error);
                    },
                }
                self.team_repo.add_member(workspace.members, user, executor)
            },
            Role::NonAdmin => {
                match self.team_repo.remove_member(workspace.admins, user, executor) {
                    Ok(_) => {},
                    Err(error) => {
                        return Err(RepoError::Storage(error));
                    },
                }
                self.team_repo.add_member(workspace.members, user, executor)
            },
            Role::NonMember => {
                match self.team_repo.remove_member(workspace.admins, user, executor) {
                    Ok(_) => {},
                    Err(error) => {
                        return Err(RepoError::Storage(error));
                    },
                }
                match self.team_repo.remove_member(workspace.members, user, executor) {
                    Ok(_) => Ok(()),
                    Err(error) => Err(RepoError::Storage(error)),
                }
            },
        }
    }
}

/// What asking for the role of `user` in the workspace `id` gives in the
/// directory `d`: the workspace must exist.
pub open spec fn role_lookup(d: Directory, id: WorkspaceId, user: UserId) -> Result<
    Role,
    WorkspaceError,
> {
    if d.workspaces.contains_key(id) {
        Ok(d.role_in(d.workspaces[id], user))
    } else {
        Err(WorkspaceError::NotFound(Missing::Workspace(id)))
    }
}

impl<T, U, W> WorkspaceServiceImpl<T, U, W> {
    /// The role that team membership gives the user `user_id` in the
    /// workspace `workspace_id`: `Admin` for a member of the admins team,
    /// else `NonAdmin` for a member of the members team, else `NonMember`.
    pub fn role_of<X: Executor>(&self, workspace_id: WorkspaceId, user_id: UserId, executor: &X) -> (result:
        Result<Role, WorkspaceError>) where T: TeamRepo<X>, W: WorkspaceRepo<X>
        ensures
            executor.reliable() ==> !(result matches Err(WorkspaceError::Storage(_))),
            result matches Err(WorkspaceError::Storage(_)) || result == role_lookup(
                executor@.visible(),
                workspace_id,
                user_id,
            ),
    {
        let workspace = match self.workspace_repo.find_by_id(workspace_id, executor) {
            Ok(workspace) => workspace,
            Err(error) => {
                return Err(error.lift());
            },
        };
        let in_admins = match self.team_repo.is_member(workspace.admins, user_id, executor) {
            Ok(found) => found,
            Err(error) => {
                return Err(WorkspaceError::Storage(error));
            },
        };
        let in_members = match self.team_repo.is_member(workspace.members, user_id, executor) {
            Ok(found) => found,
            Err(error) => {
                return Err(WorkspaceError::Storage(error));
            },
        };
        Ok(Role::derive(in_admins, in_members))
    }

    /// Whether `requester` belongs to the admins team of the workspace
    /// `workspace_id`, as far as the answer decides anything: for a user
    /// who administers the platform nothing is looked up, and the answer
    /// is `false`.
    fn administers<X: Executor>(&self, requester: &User, workspace_id: WorkspaceId, executor: &X) -> (result:
        Result<bool, WorkspaceError>) where T: TeamRepo<X>, U: UserRepo<X>, W: WorkspaceRepo<X>
        ensures
            executor.reliable() ==> !(result matches Err(WorkspaceError::Storage(_))),
            result matches Err(WorkspaceError::Storage(_)) || result == (if requester.is_platform_admin {
                Ok(false)
            } else {
                admin_lookup(executor@.visible(), workspace_id, requester.id)
            }),
    {
        if requester.is_platform_admin {
            Ok(false)
        } else {
            self.is_admin(workspace_id, requester.id, executor)
        }
    }

    /// Whether `requester` may change who belongs to the workspace
    /// `workspace_id`: a user who administers the platform may, without any
    /// lookup; any other user may where they administer the workspace.
    pub fn can_manage_workspace<X: Executor>(
        &self,
        requester: &User,
        workspace_id: WorkspaceId,
        executor: &X,
    ) -> (result: Result<bool, WorkspaceError>) where
        T: TeamRepo<X>,
        U: UserRepo<X>,
        W: WorkspaceRepo<X>,

        ensures
            executor.reliable() ==> !(result matches Err(WorkspaceError::Storage(_))),
            result matches Err(WorkspaceError::Storage(_)) || result == (if requester.is_platform_admin {
                Ok(true)
            } else {
                admin_lookup(executor@.visible(), workspace_id, requester.id)
            }),
    {
        match self.administers(requester, workspace_id, executor) {
            Ok(administers) => Ok(can_manage_workspace(requester, administers)),
            Err(error) => Err(error),
        }
    }
}

impl<X: Executor, T: TeamRepo<X>, U: UserRepo<X>, W: WorkspaceRepo<X>> WorkspaceService<
    X,
> for WorkspaceServiceImpl<T, U, W> {
    fn members(&self, workspace_id: WorkspaceId, filter: Option<RoleFilter>, executor: &X) -> (result:
        Result<Vec<User>, WorkspaceError>) {
        let workspace = match self.workspace_repo.find_by_id(workspace_id, executor) {
            Ok(workspace) => workspace,
            Err(error) => {
                return Err(error.lift());
            },
        };
        let listed = match filter {
            Some(RoleFilter::Admin) => self.team_repo.members(workspace.admins, executor),
            Some(RoleFilter::NonAdmin) => self.team_repo.members_difference(
                workspace.members,
                workspace.admins,
                executor,
            ),
            None => self.team_repo.members(workspace.members, executor),
        };
        match listed {
            Ok(users) => Ok(users),
            Err(error) => Err(WorkspaceError::Storage(error)),
        }
    }

    fn create<P: EventRepo>(
        &self,
        title: &str,
        description: &str,
        requesting_user: AuthId,
        executor: &mut X,
        events: &mut P,
    ) -> (result: Result<Committed, WorkspaceError>) {
        let found = match self.user_repo.find_by_auth_id(requesting_user, executor) {
            Ok(found) => found,
            Err(error) => {
                return Err(WorkspaceError::Storage(error));
            },
        };
        let user = match check_requester(requesting_user, found, Action::CreateWorkspace) {
            Ok(user) => user,
            Err(refusal) => {
                return Err(refusal);
            },
        };
        match check_creation(requesting_user, &user) {
            Ok(_) => {},
            Err(refusal) => {
                return Err(refusal);
            },
        }
        match executor.begin() {
            Ok(_) => {},
            Err(error) => {
                return Err(WorkspaceError::Storage(error));
            },
        }
        let admins_name = String::from_str(title).concat(" Admins");
        let admins = match self.team_repo.create(admins_name.as_str(), executor) {
            Ok(team) => team,
            Err(error) => {
                executor.rollback();
                return Err(WorkspaceError::Storage(error));
            },
        };
        let members_name = String::from_str(title).concat(" Members");
        let members = match self.team_repo.create(members_name.as_str(), executor) {
            Ok(team) => team,
            Err(error) => {
                executor.rollback();
                return Err(WorkspaceError::Storage(error));
            },
        };
        let workspace = match self.workspace_repo.create(
            title,
            description,
            admins.id,
            members.id,
            executor,
        ) {
            Ok(workspace) => workspace,
            Err(error) => {
                executor.rollback();
                return Err(error.lift());
            },
        };
        match executor.commit() {
            Ok(_) => {},
            Err(error) => {
                return Err(WorkspaceError::Storage(error));
            },
        }
        let mut batch = Vec::new();
        batch.push(DomainEvent::workspace_created(workspace.id, requesting_user, title));
        proof {
            assert(event_records(batch@) =~= seq![
                EventRecord::workspace_created(workspace.id, requesting_user, title@),
            ]);
            if old(executor)@.committed.well_formed() {
                law_creation_keeps_well_formed(
                    old(executor)@.committed,
                    executor@.committed,
                    workspace@,
                    title@,
                    description@,
                );
            }
        }
        let delivery_warning = match events.publish_events(batch) {
            Ok(_) => None,
            Err(error) => Some(error),
        };
        Ok(Committed { workspace, delivery_warning })
    }

    fn is_admin(&self, workspace_id: WorkspaceId, user_id: UserId, executor: &X) -> (result: Result<
        bool,
        WorkspaceError,
    >) {
        match self.user_repo.find_by_id(user_id, executor) {
            Ok(Some(user)) => {
                let workspace = match self.workspace_repo.find_by_id(workspace_id, executor) {
                    Ok(workspace) => workspace,
                    Err(error) => {
                        return Err(error.lift());
                    },
                };
                match self.team_repo.is_member(workspace.admins, user.id, executor) {
                    Ok(found) => Ok(found),
                    Err(error) => Err(WorkspaceError::Storage(error)),
                }
            },
            Ok(None) => Ok(false),
            Err(error) => Err(WorkspaceError::Storage(error)),
        }
    }

    fn change_workspace_membership<P: EventRepo>(
        &self,
        workspace_id: WorkspaceId,
        user_id: UserId,
        new_role: Role,
        requesting_user: AuthId,
        executor: &mut X,
        events: &mut P,
    ) -> (result: Result<Committed, WorkspaceError>) {
        let action = Action::ChangeMembership {
            workspace: workspace_id,
            target: user_id,
            role: new_role,
        };
        let found = match self.user_repo.find_by_auth_id(requesting_user, executor) {
            Ok(found) => found,
            Err(error) => {
                return Err(WorkspaceError::Storage(error));
            },
        };
        let user = match check_requester(requesting_user, found, action) {
            Ok(user) => user,
            Err(refusal) => {
                return Err(refusal);
            },
        };
        let administers = match self.administers(&user, workspace_id, executor) {
            Ok(administers) => administers,
            Err(error) => {
                return Err(error);
            },
        };
        match check_membership_change(
            requesting_user,
            &user,
            administers,
            workspace_id,
            user_id,
            new_role,
        ) {
            Ok(_) => {},
            Err(refusal) => {
                return Err(refusal);
            },
        }
        match executor.begin() {
            Ok(_) => {},
            Err(error) => {
                return Err(WorkspaceError::Storage(error));
            },
        }
        let workspace = match self.workspace_repo.find_by_id(workspace_id, executor) {
            Ok(workspace) => workspace,
            Err(error) => {
                executor.rollback();
                return Err(error.lift());
            },
        };
        match self.set_role(&workspace, user_id, new_role, executor) {
            Ok(_) => {},
            Err(error) => {
                executor.rollback();
                return Err(error.lift());
            },
        }
        match executor.commit() {
            Ok(_) => {},
            Err(error) => {
                return Err(WorkspaceError::Storage(error));
            },
        }
        let mut batch = Vec::new();
        batch.push(
            DomainEvent::membership_changed(requesting_user, workspace.id, user_id, new_role),
        );
        proof {
            assert(event_records(batch@) =~= seq![
                EventRecord::membership_changed(requesting_user, workspace.id, user_id, new_role),
            ]);
            let before = old(executor)@.committed;
            if new_role == Role::Admin {
                law_admin_is_in_both_teams(before, workspace@, user_id);
            }
            law_non_member_is_in_neither_team(before, workspace@, user_id);
            if workspace.admins != workspace.members {
                law_given_role_is_derived_role(before, workspace@, user_id, new_role);
            }
            if before.well_formed() {
                law_role_change_keeps_well_formed(before, workspace_id, user_id, new_role);
            }
        }
        let delivery_warning = match events.publish_events(batch) {
            Ok(_) => None,
            Err(error) => Some(error),
        };
        Ok(Committed { workspace, delivery_warning })
    }
}

} // verus!
