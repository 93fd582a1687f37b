use workspace_service::{
    Action, AuthId, MemoryExecutor, MemoryUserRepo, Missing, NewUser, RequestingUser, UpdateUser,
    User, UserRepo, UsersMutation, WorkspaceError,
};

const ADMIN: AuthId = AuthId(0xfeedface_0000_0000_0000_000000000000);
const UNPRIVILEGED: AuthId = AuthId(0xdeadbeef_0000_0000_0000_000000000000);

fn directory() -> MemoryExecutor {
    let mut executor = MemoryExecutor::new();
    MemoryUserRepo.get_or_create(ADMIN, "admin", &mut executor).unwrap();
    MemoryUserRepo.update(ADMIN, true, &mut executor).unwrap();
    MemoryUserRepo.get_or_create(UNPRIVILEGED, "user", &mut executor).unwrap();
    executor
}

#[test]
fn update_user_succeds_if_admin() {
    let mut executor = directory();
    let target = AuthId(0x12345678_0000_4000_8000_000000000001);
    let stored = MemoryUserRepo.get_or_create(target, "target", &mut executor).unwrap();
    let updated = UsersMutation
        .update_user(
            &MemoryUserRepo,
            &RequestingUser { auth_id: ADMIN },
            UpdateUser { auth_id: target, is_platform_admin: true },
            &mut executor,
        )
        .unwrap();
    assert_eq!(updated, User { is_platform_admin: true, ..stored });
    assert_eq!(MemoryUserRepo.find_by_auth_id(target, &executor), Ok(Some(updated)));
}

#[test]
fn update_user_fails_if_not_admin() {
    let mut executor = directory();
    let user = RequestingUser { auth_id: UNPRIVILEGED };
    let result = UsersMutation.update_user(
        &MemoryUserRepo,
        &user,
        UpdateUser { auth_id: user.auth_id, is_platform_admin: true },
        &mut executor,
    );
    assert_eq!(
        result.err().unwrap().message(),
        "User with auth_id deadbeef-0000-0000-0000-000000000000 is not a platform admin."
    );
    let stored = MemoryUserRepo.find_by_auth_id(UNPRIVILEGED, &executor).unwrap().unwrap();
    assert!(!stored.is_platform_admin);
}

#[test]
fn update_user_by_unknown_requester_is_forbidden() {
    let mut executor = directory();
    let stranger = AuthId(77);
    assert_eq!(
        UsersMutation.update_user(
            &MemoryUserRepo,
            &RequestingUser { auth_id: stranger },
            UpdateUser { auth_id: UNPRIVILEGED, is_platform_admin: true },
            &mut executor,
        ),
        Err(WorkspaceError::Forbidden {
            requester: stranger,
            action: Action::UpdateUser { user: UNPRIVILEGED },
        })
    );
}

#[test]
fn update_user_of_unknown_user_is_not_found() {
    let mut executor = directory();
    assert_eq!(
        UsersMutation.update_user(
            &MemoryUserRepo,
            &RequestingUser { auth_id: ADMIN },
            UpdateUser { auth_id: AuthId(78), is_platform_admin: true },
            &mut executor,
        ),
        Err(WorkspaceError::NotFound(Missing::User(AuthId(78))))
    );
}

#[test]
fn platform_admin_can_give_up_the_flag() {
    let mut executor = directory();
    let lowered = UsersMutation
        .update_user(
            &MemoryUserRepo,
            &RequestingUser { auth_id: ADMIN },
            UpdateUser { auth_id: ADMIN, is_platform_admin: false },
            &mut executor,
        )
        .unwrap();
    assert!(!lowered.is_platform_admin);
    assert!(UsersMutation
        .update_user(
            &MemoryUserRepo,
            &RequestingUser { auth_id: ADMIN },
            UpdateUser { auth_id: ADMIN, is_platform_admin: true },
            &mut executor,
        )
        .is_err());
}

#[test]
fn get_or_create_user_returns_the_stored_user() {
    let mut executor = MemoryExecutor::new();
    let created = UsersMutation
        .get_or_create_user(
            &MemoryUserRepo,
            NewUser { auth_id: AuthId(5), name: "new".to_string() },
            &mut executor,
        )
        .unwrap();
    assert_eq!(created.auth_id, AuthId(5));
    assert_eq!(created.name, "new");
    assert!(!created.is_platform_admin);
    let again = UsersMutation.get_or_create_user(
        &MemoryUserRepo,
        NewUser { auth_id: AuthId(5), name: "other".to_string() },
        &mut executor,
    );
    assert_eq!(again, Ok(created));
    executor.fail_after(0);
    assert!(matches!(
        UsersMutation.get_or_create_user(
            &MemoryUserRepo,
            NewUser { auth_id: AuthId(6), name: "six".to_string() },
            &mut executor,
        ),
        Err(WorkspaceError::Storage(_))
    ));
}
