//! Users and the lookup that resolves an identity to a user.

use vstd::prelude::*;
use crate::directory::UserRecord;
use crate::directory::Directory;
use crate::error::{Action, Missing, RepoError, StorageError, WorkspaceError};
use crate::executor::Executor;
use crate::identity::{AuthId, UserId};
use crate::laws::law_user_change_keeps_well_formed;
use crate::policy::{check_requester, check_user_update};

verus! {

/// A user: the internal identifier, the identity at the authentication
/// provider, the display name, and whether the user administers the
/// platform.
#[derive(Debug, PartialEq, Eq)]
pub struct User {
    pub id: UserId,
    pub auth_id: AuthId,
    pub name: String,
    pub is_platform_admin: bool,
}

impl View for User {
    type V = UserRecord;

    open spec fn view(&self) -> UserRecord {
        UserRecord {
            id: self.id,
            auth_id: self.auth_id,
            name: self.name@,
            is_platform_admin: self.is_platform_admin,
        }
    }
}

impl Clone for User {
    fn clone(&self) -> (copy: Self)
        ensures
            copy == *self,
    {
        User {
            id: self.id,
            auth_id: self.auth_id,
            name: self.name.clone(),
            is_platform_admin: self.is_platform_admin,
        }
    }
}

/// The users in `list`, as the model holds them.
pub open spec fn user_records(list: Seq<User>) -> Seq<UserRecord> {
    list.map_values(|user: User| user@)
}

/// The store of users.
pub trait UserRepo<X: Executor> {
    /// Looks a user up by the identity at the authentication provider.
    fn find_by_auth_id(&self, auth_id: AuthId, executor: &X) -> (result: Result<
        Option<User>,
        StorageError,
    >)
        ensures
            match result {
                Ok(Some(user)) => executor@.visible().users.contains_key(auth_id) && user@
                    == executor@.visible().users[auth_id],
                Ok(None) => !executor@.visible().users.contains_key(auth_id),
                Err(_) => true,
            },
            executor.reliable() ==> result is Ok,
    ;

    /// Looks a user up by the internal identifier.
    fn find_by_id(&self, id: UserId, executor: &X) -> (result: Result<Option<User>, StorageError>)
        ensures
            match result {
                Ok(Some(user)) => user.id == id && executor@.visible().has_user(user@),
                Ok(None) => !executor@.visible().has_user_id(id),
                Err(_) => true,
            },
            executor.reliable() ==> result is Ok,
    ;

    /// Returns the user with the identity `auth_id`, and stores a new one,
    /// who does not administer the platform, where there is none yet.
    fn get_or_create(&self, auth_id: AuthId, name: &str, executor: &mut X) -> (result: Result<
        User,
        StorageError,
    >)
        ensures
            final(executor).reliable() == old(executor).reliable(),
            old(executor).reliable() ==> result is Ok,
            match result {
                Ok(user) => if old(executor)@.visible().users.contains_key(auth_id) {
                    &&& user@ == old(executor)@.visible().users[auth_id]
                    &&& final(executor)@ == old(executor)@
                } else {
                    &&& user@ == (UserRecord {
                        id: user.id,
                        auth_id,
                        name: name@,
                        is_platform_admin: false,
                    })
                    &&& !old(executor)@.visible().has_user_id(user.id)
                    &&& final(executor)@ == old(executor)@.wrote(
                        old(executor)@.visible().with_user(auth_id, user@),
                    )
                },
                Err(_) => old(executor)@.failed(final(executor)@),
            },
    ;

    /// Sets the platform-admin flag of the user with the identity `auth_id`
    /// and returns the user as stored afterwards. Fails with `NotFound`
    /// exactly where there is no such user.
    fn update(&self, auth_id: AuthId, is_platform_admin: bool, executor: &mut X) -> (result: Result<
        User,
        RepoError,
    >)
        ensures
            final(executor).reliable() == old(executor).reliable(),
            old(executor).reliable() ==> !(result matches Err(RepoError::Storage(_))),
            match result {
                Ok(user) => {
                    &&& old(executor)@.visible().users.contains_key(auth_id)
                    &&& user@ == (UserRecord {
                        is_platform_admin,
                        ..old(executor)@.visible().users[auth_id]
                    })
                    &&& final(executor)@ == old(executor)@.wrote(
                        old(executor)@.visible().with_user(auth_id, user@),
                    )
                },
                Err(RepoError::NotFound(missing)) => {
                    &&& missing == Missing::User(auth_id)
                    &&& !old(executor)@.visible().users.contains_key(auth_id)
                    &&& old(executor)@.failed(final(executor)@)
                },
                Err(RepoError::Storage(_)) => old(executor)@.failed(final(executor)@),
            },
    ;
}

/// The user on whose behalf a request is made.
#[derive(Clone, Copy, Debug, PartialEq, Eq)]
pub struct RequestingUser {
    pub auth_id: AuthId,
}

/// What is needed to store a user.
#[derive(Debug, PartialEq, Eq)]
pub struct NewUser {
    pub auth_id: AuthId,
    pub name: String,
}

/// The new value of the platform-admin flag of a user.
#[derive(Clone, Copy, Debug, PartialEq, Eq)]
pub struct UpdateUser {
    pub auth_id: AuthId,
    pub is_platform_admin: bool,
}

/// Why the request of `requester` to set the platform-admin flag of the
/// user `target` is refused in the directory `d`, if it is: only a stored
/// user who administers the platform may set the flag, and the target must
/// be stored.
pub open spec fn update_refusal(d: Directory, requester: AuthId, target: AuthId) -> Option<
    WorkspaceError,
> {
    if !d.is_platform_admin(requester) {
        Some(WorkspaceError::Forbidden { requester, action: Action::UpdateUser { user: target } })
    } else if !d.users.contains_key(target) {
        Some(WorkspaceError::NotFound(Missing::User(target)))
    } else {
        None
    }
}

/// The requests that store and change users.
#[derive(Clone, Copy, Debug, Default)]
pub struct UsersMutation;

impl UsersMutation {
    /// Get or Create a new user (returns the user)
    pub fn get_or_create_user<X: Executor, U: UserRepo<X>>(
        &self,
        users: &U,
        new_user: NewUser,
        executor: &mut X,
    ) -> (result: Result<User, WorkspaceError>)
        ensures
            final(executor).reliable() == old(executor).reliable(),
            old(executor).reliable() ==> result is Ok,
            match result {
                Ok(user) => if old(executor)@.visible().users.contains_key(new_user.auth_id) {
                    &&& user@ == old(executor)@.visible().users[new_user.auth_id]
                    &&& final(executor)@ == old(executor)@
                } else {
                    &&& user@ == (UserRecord {
                        id: user.id,
                        auth_id: new_user.auth_id,
                        name: new_user.name@,
                        is_platform_admin: false,
                    })
                    &&& !old(executor)@.visible().has_user_id(user.id)
                    &&& final(executor)@ == old(executor)@.wrote(
                        old(executor)@.visible().with_user(new_user.auth_id, user@),
                    )
                },
                Err(error) => error is Storage && old(executor)@.failed(final(executor)@),
            },
            old(executor)@.committed.well_formed() ==> final(executor)@.committed.well_formed(),
    {
        match users.get_or_create(new_user.auth_id, new_user.name.as_str(), executor) {
            Ok(user) => {
                proof {
                    if old(executor)@.committed.well_formed() {
                        law_user_change_keeps_well_formed(
                            old(executor)@.committed,
                            new_user.auth_id,
                            user@,
                        );
                    }
                }
                Ok(user)
            },
            Err(error) => Err(WorkspaceError::Storage(error)),
        }
    }

    /// Update a user (returns the user)
    pub fn update_user<X: Executor, U: UserRepo<X>>(
        &self,
        users: &U,
        requesting_user: &RequestingUser,
        update_user: UpdateUser,
        executor: &mut X,
    ) -> (result: Result<User, WorkspaceError>)
        ensures
            final(executor).reliable() == old(executor).reliable(),
            old(executor).reliable() ==> !(result matches Err(WorkspaceError::Storage(_))),
            match result {
                Ok(user) => {
                    &&& update_refusal(
                        old(executor)@.visible(),
                        requesting_user.auth_id,
                        update_user.auth_id,
                    ) is None
                    &&& user@ == (UserRecord {
                        is_platform_admin: update_user.is_platform_admin,
                        ..old(executor)@.visible().users[update_user.auth_id]
                    })
                    &&& final(executor)@ == old(executor)@.wrote(
                        old(executor)@.visible().with_user(update_user.auth_id, user@),
                    )
                },
                Err(WorkspaceError::Storage(_)) => old(executor)@.failed(final(executor)@),
                Err(error) => {
                    &&& update_refusal(
                        old(executor)@.visible(),
                        requesting_user.auth_id,
                        update_user.auth_id,
                    ) == Some(error)
                    &&& old(executor)@.failed(final(executor)@)
                },
            },
            !old(executor)@.visible().is_platform_admin(requesting_user.auth_id) ==> {
                &&& result is Err
                &&& final(executor)@ == old(executor)@
            },
            old(executor)@.committed.well_formed() ==> final(executor)@.committed.well_formed(),
    {
        let found = match users.find_by_auth_id(requesting_user.auth_id, executor) {
            Ok(found) => found,
            Err(error) => {
                return Err(WorkspaceError::Storage(error));
            },
        };
        let requester = match check_requester(
            requesting_user.auth_id,
            found,
            Action::UpdateUser { user: update_user.auth_id },
        ) {
            Ok(user) => user,
            Err(refusal) => {
                return Err(refusal);
            },
        };
        match check_user_update(requesting_user.auth_id, &requester, update_user.auth_id) {
            Ok(_) => {},
            Err(refusal) => {
                return Err(refusal);
            },
        }
        match users.update(update_user.auth_id, update_user.is_platform_admin, executor) {
            Ok(user) => {
                proof {
                    if old(executor)@.committed.well_formed() {
                        law_user_change_keeps_well_formed(
                            old(executor)@.committed,
                            update_user.auth_id,
                            user@,
                        );
                    }
                }
                Ok(user)
            },
            Err(error) => Err(error.lift()),
        }
    }
}

} // verus!
