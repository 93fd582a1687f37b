//! Teams and the repository that owns team membership.

use vstd::prelude::*;
use crate::error::{Missing, RepoError, StorageError};
use crate::executor::Executor;
use crate::identity::{TeamId, UserId};
use crate::user::{user_records, User};

verus! {

/// A named group of users. Who belongs to it is asked of the repository.
#[derive(Debug, PartialEq, Eq)]
pub struct Team {
    pub id: TeamId,
    pub name: String,
}

/// The store of teams and of their members. Adding a member who is there
/// and removing one who is not are successes that change nothing.
pub trait TeamRepo<X: Executor> {
    /// Stores a new team without members under an identifier that was not
    /// in use.
    fn create(&self, name: &str, executor: &mut X) -> (result: Result<Team, StorageError>)
        ensures
            final(executor).reliable() == old(executor).reliable(),
            old(executor).reliable() ==> result is Ok,
            match result {
                Ok(team) => {
                    &&& team.name@ == name@
                    &&& !old(executor)@.visible().teams.contains_key(team.id)
                    &&& final(executor)@ == old(executor)@.wrote(
                        old(executor)@.visible().with_team(team.id, name@),
                    )
                },
                Err(_) => old(executor)@.failed(final(executor)@),
            },
    ;

    /// Makes `user` a member of `team`. Fails with `NotFound` exactly where
    /// the team does not exist.
    fn add_member(&self, team: TeamId, user: UserId, executor: &mut X) -> (result: Result<
        (),
        RepoError,
    >)
        ensures
            final(executor).reliable() == old(executor).reliable(),
            old(executor).reliable() ==> !(result matches Err(RepoError::Storage(_))),
            match result {
                Ok(_) => {
                    &&& old(executor)@.visible().teams.contains_key(team)
                    &&& final(executor)@ == old(executor)@.wrote(
                        old(executor)@.visible().with_member(team, user),
                    )
                },
                Err(RepoError::NotFound(missing)) => {
                    &&& missing == Missing::Team(team)
                    &&& !old(executor)@.visible().teams.contains_key(team)
                    &&& old(executor)@.failed(final(executor)@)
                },
                Err(RepoError::Storage(_)) => old(executor)@.failed(final(executor)@),
            },
    ;

    /// Ends the membership of `user` in `team`.
    fn remove_member(&self, team: TeamId, user: UserId, executor: &mut X) -> (result: Result<
        (),
        StorageError,
    >)
        ensures
            final(executor).reliable() == old(executor).reliable(),
            old(executor).reliable() ==> result is Ok,
            match result {
                Ok(_) => final(executor)@ == old(executor)@.wrote(
                    old(executor)@.visible().without_member(team, user),
                ),
                Err(_) => old(executor)@.failed(final(executor)@),
            },
    ;

    /// The users who belong to `team`, each once.
    fn members(&self, team: TeamId, executor: &X) -> (result: Result<Vec<User>, StorageError>)
        ensures
            executor.reliable() ==> result is Ok,
            result matches Ok(users) ==> {
                &&& user_records(users@).no_duplicates()
                &&& user_records(users@).to_set() == executor@.visible().users_among(
                    executor@.visible().members_of(team),
                )
            },
    ;

    /// The users who belong to `team_a` and not to `team_b`, each once.
    fn members_difference(&self, team_a: TeamId, team_b: TeamId, executor: &X) -> (result: Result<
        Vec<User>,
        StorageError,
    >)
        ensures
            executor.reliable() ==> result is Ok,
            result matches Ok(users) ==> {
                &&& user_records(users@).no_duplicates()
                &&& user_records(users@).to_set() == executor@.visible().users_among(
                    executor@.visible().members_of(team_a).difference(
                        executor@.visible().members_of(team_b),
                    ),
                )
            },
    ;

    /// Whether `user` belongs to `team`.
    fn is_member(&self, team: TeamId, user: UserId, executor: &X) -> (result: Result<
        bool,
        StorageError,
    >)
        ensures
            executor.reliable() ==> result is Ok,
            result matches Ok(found) ==> found == executor@.visible().is_member(team, user),
    ;
}

} // verus!
