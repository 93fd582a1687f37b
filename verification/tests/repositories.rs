use workspace_service::{
    AuthId, Executor, MemoryExecutor, MemoryTeamRepo, MemoryUserRepo, MemoryWorkspaceRepo, Missing,
    RepoError, StorageError, TeamId, TeamRepo, User, UserId, UserRepo, Workspace, WorkspaceId,
    WorkspaceRepo,
};

fn seeded() -> (MemoryExecutor, Vec<User>, TeamId, TeamId) {
    let mut executor = MemoryExecutor::new();
    let mut users = Vec::new();
    for (auth_id, name) in [(10, "ann"), (11, "bob"), (12, "cy")] {
        users.push(MemoryUserRepo.get_or_create(AuthId(auth_id), name, &mut executor).unwrap());
    }
    let first = MemoryTeamRepo.create("first", &mut executor).unwrap();
    let second = MemoryTeamRepo.create("second", &mut executor).unwrap();
    (executor, users, first.id, second.id)
}

fn ids(users: Vec<User>) -> Vec<UserId> {
    let mut ids: Vec<UserId> = users.iter().map(|user| user.id).collect();
    ids.sort_by_key(|id| id.0);
    ids
}

#[test]
fn get_or_create_stores_a_user_once() {
    let mut executor = MemoryExecutor::new();
    let ann = MemoryUserRepo.get_or_create(AuthId(10), "ann", &mut executor).unwrap();
    assert_eq!(ann.auth_id, AuthId(10));
    assert_eq!(ann.name, "ann");
    assert!(!ann.is_platform_admin);
    let again = MemoryUserRepo.get_or_create(AuthId(10), "another name", &mut executor).unwrap();
    assert_eq!(again, ann);
    let bob = MemoryUserRepo.get_or_create(AuthId(11), "bob", &mut executor).unwrap();
    assert_ne!(bob.id, ann.id);
}

#[test]
fn users_are_found_by_either_identifier() {
    let (executor, users, _, _) = seeded();
    for user in &users {
        assert_eq!(
            MemoryUserRepo.find_by_auth_id(user.auth_id, &executor),
            Ok(Some(user.clone()))
        );
        assert_eq!(MemoryUserRepo.find_by_id(user.id, &executor), Ok(Some(user.clone())));
    }
    assert_eq!(MemoryUserRepo.find_by_auth_id(AuthId(99), &executor), Ok(None));
    assert_eq!(MemoryUserRepo.find_by_id(UserId(99), &executor), Ok(None));
}

#[test]
fn update_sets_the_platform_admin_flag_and_keeps_the_rest() {
    let (mut executor, users, _, _) = seeded();
    let updated = MemoryUserRepo.update(users[1].auth_id, true, &mut executor).unwrap();
    assert_eq!(
        updated,
        User { id: users[1].id, auth_id: AuthId(11), name: "bob".to_string(), is_platform_admin: true }
    );
    assert_eq!(MemoryUserRepo.find_by_id(users[1].id, &executor), Ok(Some(updated)));
    assert_eq!(MemoryUserRepo.find_by_id(users[0].id, &executor), Ok(Some(users[0].clone())));
    let lowered = MemoryUserRepo.update(users[1].auth_id, false, &mut executor).unwrap();
    assert_eq!(lowered, users[1]);
    assert_eq!(
        MemoryUserRepo.update(AuthId(99), true, &mut executor),
        Err(RepoError::NotFound(Missing::User(AuthId(99))))
    );
}

#[test]
fn new_team_has_its_name_and_no_members() {
    let mut executor = MemoryExecutor::new();
    let team = MemoryTeamRepo.create("Research Admins", &mut executor).unwrap();
    assert_eq!(team.name, "Research Admins");
    assert_eq!(executor.team_name(team.id), Some("Research Admins".to_string()));
    assert_eq!(MemoryTeamRepo.members(team.id, &executor), Ok(vec![]));
    let other = MemoryTeamRepo.create("Research Admins", &mut executor).unwrap();
    assert_ne!(other.id, team.id);
}

#[test]
fn adding_a_member_twice_is_adding_once() {
    let (mut executor, users, first, second) = seeded();
    assert_eq!(MemoryTeamRepo.is_member(first, users[0].id, &executor), Ok(false));
    assert_eq!(MemoryTeamRepo.add_member(first, users[0].id, &mut executor), Ok(()));
    assert_eq!(MemoryTeamRepo.is_member(first, users[0].id, &executor), Ok(true));
    assert_eq!(MemoryTeamRepo.add_member(first, users[0].id, &mut executor), Ok(()));
    assert_eq!(MemoryTeamRepo.members(first, &executor), Ok(vec![users[0].clone()]));
    assert_eq!(MemoryTeamRepo.is_member(second, users[0].id, &executor), Ok(false));
    assert_eq!(MemoryTeamRepo.members(second, &executor), Ok(vec![]));
}

#[test]
fn removing_an_absent_member_is_a_success() {
    let (mut executor, users, first, _) = seeded();
    assert_eq!(MemoryTeamRepo.remove_member(first, users[0].id, &mut executor), Ok(()));
    assert_eq!(MemoryTeamRepo.add_member(first, users[0].id, &mut executor), Ok(()));
    assert_eq!(MemoryTeamRepo.add_member(first, users[1].id, &mut executor), Ok(()));
    assert_eq!(MemoryTeamRepo.remove_member(first, users[0].id, &mut executor), Ok(()));
    assert_eq!(MemoryTeamRepo.remove_member(first, users[0].id, &mut executor), Ok(()));
    assert_eq!(MemoryTeamRepo.members(first, &executor), Ok(vec![users[1].clone()]));
    // a team that does not exist has no members to remove
    assert_eq!(MemoryTeamRepo.remove_member(TeamId(77), users[0].id, &mut executor), Ok(()));
    assert_eq!(MemoryTeamRepo.is_member(TeamId(77), users[0].id, &executor), Ok(false));
    assert_eq!(MemoryTeamRepo.members(TeamId(77), &executor), Ok(vec![]));
}

#[test]
fn adding_to_a_missing_team_is_not_found() {
    let (mut executor, users, _, _) = seeded();
    assert_eq!(
        MemoryTeamRepo.add_member(TeamId(77), users[0].id, &mut executor),
        Err(RepoError::NotFound(Missing::Team(TeamId(77))))
    );
}

#[test]
fn members_difference_is_first_team_without_second() {
    let (mut executor, users, first, second) = seeded();
    for user in &users {
        MemoryTeamRepo.add_member(first, user.id, &mut executor).unwrap();
    }
    MemoryTeamRepo.add_member(second, users[1].id, &mut executor).unwrap();
    assert_eq!(
        ids(MemoryTeamRepo.members_difference(first, second, &executor).unwrap()),
        vec![users[0].id, users[2].id]
    );
    assert_eq!(MemoryTeamRepo.members_difference(second, first, &executor), Ok(vec![]));
    assert_eq!(
        ids(MemoryTeamRepo.members_difference(first, TeamId(77), &executor).unwrap()),
        vec![users[0].id, users[1].id, users[2].id]
    );
}

#[test]
fn members_lists_stored_users_only() {
    let (mut executor, users, first, _) = seeded();
    MemoryTeamRepo.add_member(first, users[2].id, &mut executor).unwrap();
    MemoryTeamRepo.add_member(first, UserId(500), &mut executor).unwrap();
    assert_eq!(MemoryTeamRepo.is_member(first, UserId(500), &executor), Ok(true));
    assert_eq!(MemoryTeamRepo.members(first, &executor), Ok(vec![users[2].clone()]));
}

#[test]
fn workspace_needs_both_teams() {
    let (mut executor, _, first, second) = seeded();
    assert_eq!(
        MemoryWorkspaceRepo.create("w", "d", TeamId(77), second, &mut executor),
        Err(RepoError::NotFound(Missing::Team(TeamId(77))))
    );
    assert_eq!(
        MemoryWorkspaceRepo.create("w", "d", first, TeamId(78), &mut executor),
        Err(RepoError::NotFound(Missing::Team(TeamId(78))))
    );
    assert_eq!(
        MemoryWorkspaceRepo.create("w", "d", TeamId(77), TeamId(78), &mut executor),
        Err(RepoError::NotFound(Missing::Team(TeamId(77))))
    );
    assert_eq!(MemoryWorkspaceRepo.find_all(&executor), Ok(vec![]));
    let workspace = MemoryWorkspaceRepo.create("w", "d", first, second, &mut executor).unwrap();
    assert_eq!(
        workspace,
        Workspace {
            id: workspace.id,
            title: "w".to_string(),
            description: "d".to_string(),
            admins: first,
            members: second,
        }
    );
}

#[test]
fn workspace_is_found_updated_and_deleted() {
    let (mut executor, _, first, second) = seeded();
    let created = MemoryWorkspaceRepo.create("w", "d", first, second, &mut executor).unwrap();
    let other = MemoryWorkspaceRepo.create("x", "y", first, second, &mut executor).unwrap();
    assert_eq!(MemoryWorkspaceRepo.find_by_id(created.id, &executor), Ok(created.clone()));
    assert_eq!(
        MemoryWorkspaceRepo.find_by_id(WorkspaceId(55), &executor),
        Err(RepoError::NotFound(Missing::Workspace(WorkspaceId(55))))
    );
    let updated = MemoryWorkspaceRepo.update(created.id, "W2", "D2", &mut executor).unwrap();
    assert_eq!(
        updated,
        Workspace {
            id: created.id,
            title: "W2".to_string(),
            description: "D2".to_string(),
            admins: first,
            members: second,
        }
    );
    assert_eq!(MemoryWorkspaceRepo.find_by_id(created.id, &executor), Ok(updated.clone()));
    assert_eq!(
        MemoryWorkspaceRepo.find_all(&executor),
        Ok(vec![updated.clone(), other.clone()])
    );
    assert_eq!(
        MemoryWorkspaceRepo.update(WorkspaceId(55), "a", "b", &mut executor),
        Err(RepoError::NotFound(Missing::Workspace(WorkspaceId(55))))
    );
    // delete hands back the workspace as it was stored
    assert_eq!(MemoryWorkspaceRepo.delete(created.id, &mut executor), Ok(updated));
    assert_eq!(
        MemoryWorkspaceRepo.find_by_id(created.id, &executor),
        Err(RepoError::NotFound(Missing::Workspace(created.id)))
    );
    assert_eq!(
        MemoryWorkspaceRepo.delete(created.id, &mut executor),
        Err(RepoError::NotFound(Missing::Workspace(created.id)))
    );
    assert_eq!(MemoryWorkspaceRepo.find_all(&executor), Ok(vec![other.clone()]));
    let next = MemoryWorkspaceRepo.create("n", "", first, second, &mut executor).unwrap();
    assert_ne!(next.id, created.id);
    assert_ne!(next.id, other.id);
}

#[test]
fn rollback_drops_what_the_transaction_did() {
    let (mut executor, users, first, second) = seeded();
    MemoryTeamRepo.add_member(first, users[0].id, &mut executor).unwrap();
    assert!(!executor.in_transaction());
    executor.begin().unwrap();
    assert!(executor.in_transaction());
    MemoryTeamRepo.add_member(first, users[1].id, &mut executor).unwrap();
    MemoryTeamRepo.remove_member(first, users[0].id, &mut executor).unwrap();
    let team = MemoryTeamRepo.create("third", &mut executor).unwrap();
    let workspace = MemoryWorkspaceRepo.create("w", "", first, second, &mut executor).unwrap();
    MemoryUserRepo.get_or_create(AuthId(13), "dee", &mut executor).unwrap();
    // inside the transaction the changes are seen
    assert_eq!(MemoryTeamRepo.members(first, &executor), Ok(vec![users[1].clone()]));
    executor.rollback();
    assert!(!executor.in_transaction());
    assert_eq!(MemoryTeamRepo.members(first, &executor), Ok(vec![users[0].clone()]));
    assert_eq!(executor.team_name(team.id), None);
    assert_eq!(
        MemoryWorkspaceRepo.find_by_id(workspace.id, &executor),
        Err(RepoError::NotFound(Missing::Workspace(workspace.id)))
    );
    assert_eq!(MemoryUserRepo.find_by_auth_id(AuthId(13), &executor), Ok(None));
}

#[test]
fn commit_stores_what_the_transaction_did() {
    let (mut executor, users, first, _) = seeded();
    executor.begin().unwrap();
    MemoryTeamRepo.add_member(first, users[1].id, &mut executor).unwrap();
    assert_eq!(executor.commit(), Ok(()));
    assert!(!executor.in_transaction());
    assert_eq!(MemoryTeamRepo.members(first, &executor), Ok(vec![users[1].clone()]));
    // a later transaction that is dropped does not take it back
    executor.begin().unwrap();
    MemoryTeamRepo.remove_member(first, users[1].id, &mut executor).unwrap();
    executor.rollback();
    assert_eq!(MemoryTeamRepo.is_member(first, users[1].id, &executor), Ok(true));
}

#[test]
fn failed_commit_stores_nothing() {
    let (mut executor, users, first, _) = seeded();
    executor.begin().unwrap();
    MemoryTeamRepo.add_member(first, users[1].id, &mut executor).unwrap();
    executor.fail_after(0);
    assert!(executor.commit().is_err());
    assert!(!executor.in_transaction());
    assert_eq!(MemoryTeamRepo.members(first, &executor), Ok(vec![]));
}

#[test]
fn injected_fault_fails_every_changing_call_until_repair() {
    let (mut executor, users, first, second) = seeded();
    executor.fail_after(1);
    assert_eq!(MemoryTeamRepo.add_member(first, users[0].id, &mut executor), Ok(()));
    let fault = StorageError { detail: "injected storage fault".to_string() };
    assert_eq!(
        MemoryTeamRepo.add_member(first, users[1].id, &mut executor),
        Err(RepoError::Storage(fault))
    );
    assert!(MemoryTeamRepo.remove_member(first, users[0].id, &mut executor).is_err());
    assert!(MemoryTeamRepo.create("t", &mut executor).is_err());
    assert!(MemoryWorkspaceRepo.create("w", "", first, second, &mut executor).is_err());
    assert!(MemoryUserRepo.get_or_create(AuthId(13), "dee", &mut executor).is_err());
    assert!(MemoryUserRepo.update(AuthId(10), true, &mut executor).is_err());
    assert!(executor.begin().is_err());
    assert!(!executor.in_transaction());
    // lookups go on
    assert_eq!(MemoryTeamRepo.members(first, &executor), Ok(vec![users[0].clone()]));
    executor.repair();
    assert_eq!(MemoryTeamRepo.add_member(first, users[1].id, &mut executor), Ok(()));
}

#[test]
fn a_second_transaction_cannot_be_opened() {
    let mut executor = MemoryExecutor::new();
    executor.begin().unwrap();
    assert!(executor.begin().is_err());
    assert!(executor.in_transaction());
    executor.rollback();
    assert_eq!(executor.begin(), Ok(()));
}
