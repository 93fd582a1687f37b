use workspace_service::{
    Action, AuthId, DomainEvent, EventRepo, MemoryEvents, Missing, PublishError, RepoError, Role,
    StorageError, TeamId, UserId, WorkspaceCreatedData, WorkspaceError,
    WorkspaceId, WorkspaceMembershipChangedData,
};

#[test]
fn identifiers_are_written_as_hyphenated_uuids() {
    assert_eq!(AuthId(0).to_string(), "00000000-0000-0000-0000-000000000000");
    assert_eq!(
        AuthId(0xdeadbeef_0000_0000_0000_000000000000).to_string(),
        "deadbeef-0000-0000-0000-000000000000"
    );
    assert_eq!(
        UserId(0xa1a2a3a4_b1b2_c1c2_d1d2_d3d4d5d6d7d8).to_string(),
        "a1a2a3a4-b1b2-c1c2-d1d2-d3d4d5d6d7d8"
    );
    assert_eq!(
        TeamId(0x01234567_89ab_cdef_fedc_ba9876543210).to_string(),
        "01234567-89ab-cdef-fedc-ba9876543210"
    );
    assert_eq!(WorkspaceId(u128::MAX).to_string(), "ffffffff-ffff-ffff-ffff-ffffffffffff");
    assert_eq!(WorkspaceId(0x1f).to_string(), "00000000-0000-0000-0000-00000000001f");
}

#[test]
fn identifier_text_agrees_with_the_uuid_crate() {
    let value = 0xd890181d_6b17_428e_896b_f76add15b54a;
    let parsed = uuid::Uuid::parse_str("d890181d-6b17-428e-896b-f76add15b54a").unwrap();
    assert_eq!(parsed.as_u128(), value);
    assert_eq!(WorkspaceId(value).to_string(), "d890181d-6b17-428e-896b-f76add15b54a");
}

#[test]
fn roles_have_their_names() {
    assert_eq!(Role::Admin.to_string(), "Admin");
    assert_eq!(Role::NonAdmin.to_string(), "NonAdmin");
    assert_eq!(Role::NonMember.to_string(), "NonMember");
}

#[test]
fn role_is_derived_from_team_membership() {
    assert_eq!(Role::derive(true, true), Role::Admin);
    // membership of the admins team decides, whatever the members team says
    assert_eq!(Role::derive(true, false), Role::Admin);
    assert_eq!(Role::derive(false, true), Role::NonAdmin);
    assert_eq!(Role::derive(false, false), Role::NonMember);
}

#[test]
fn errors_have_their_messages() {
    let requester = AuthId(0xdeadbeef_0000_0000_0000_000000000000);
    assert_eq!(
        WorkspaceError::Forbidden { requester, action: Action::CreateWorkspace }.message(),
        "User with auth_id deadbeef-0000-0000-0000-000000000000 does not have permission to create a workspace."
    );
    assert_eq!(
        WorkspaceError::Forbidden {
            requester,
            action: Action::ChangeMembership {
                workspace: WorkspaceId(1),
                target: UserId(2),
                role: Role::Admin,
            },
        }
        .message(),
        "user with auth_id deadbeef-0000-0000-0000-000000000000 does not have permission to update workspace membership"
    );
    assert_eq!(
        WorkspaceError::Forbidden { requester, action: Action::UpdateUser { user: AuthId(3) } }
            .message(),
        "User with auth_id deadbeef-0000-0000-0000-000000000000 is not a platform admin."
    );
    assert_eq!(
        WorkspaceError::SelfModification {
            requester,
            workspace: WorkspaceId(1),
            target: UserId(2),
            role: Role::NonMember,
        }
        .message(),
        "user with auth_id deadbeef-0000-0000-0000-000000000000 cannot demote themselves to NonMember"
    );
    assert_eq!(WorkspaceError::NotFound(Missing::User(requester)).message(), "user not found");
    assert_eq!(
        WorkspaceError::NotFound(Missing::Workspace(WorkspaceId(0xab))).message(),
        "workspace 00000000-0000-0000-0000-0000000000ab not found"
    );
    assert_eq!(
        WorkspaceError::NotFound(Missing::Team(TeamId(0xcd))).message(),
        "team 00000000-0000-0000-0000-0000000000cd not found"
    );
    assert_eq!(
        WorkspaceError::Storage(StorageError { detail: "connection reset".to_string() }).message(),
        "connection reset"
    );
}

#[test]
fn repository_errors_are_lifted_as_they_are() {
    assert_eq!(
        RepoError::NotFound(Missing::Team(TeamId(4))).lift(),
        WorkspaceError::NotFound(Missing::Team(TeamId(4)))
    );
    let fault = StorageError { detail: "down".to_string() };
    assert_eq!(
        RepoError::Storage(StorageError { detail: "down".to_string() }).lift(),
        WorkspaceError::Storage(fault)
    );
}

#[test]
fn events_carry_identifiers_as_text() {
    let created = DomainEvent::workspace_created(WorkspaceId(0x10), AuthId(0x20), "Research");
    assert_eq!(
        created,
        DomainEvent::WorkspaceCreated(WorkspaceCreatedData {
            workspace_id: "00000000-0000-0000-0000-000000000010".to_string(),
            user_id: "00000000-0000-0000-0000-000000000020".to_string(),
            title: "Research".to_string(),
        })
    );
    assert_eq!(created.subject(), "00000000-0000-0000-0000-000000000010");
    let changed =
        DomainEvent::membership_changed(AuthId(0x20), WorkspaceId(0x10), UserId(0x30), Role::NonAdmin);
    assert_eq!(
        changed,
        DomainEvent::WorkspaceMembershipChanged(WorkspaceMembershipChangedData {
            requesting_user_id: "00000000-0000-0000-0000-000000000020".to_string(),
            affected_workspace_id: "00000000-0000-0000-0000-000000000010".to_string(),
            affected_user_id: "00000000-0000-0000-0000-000000000030".to_string(),
            affected_role: "NonAdmin".to_string(),
        })
    );
    assert_eq!(changed.subject(), "00000000-0000-0000-0000-000000000010");
}

#[test]
fn publisher_records_batches_in_order_unless_it_fails() {
    let mut events = MemoryEvents::new();
    assert!(events.events().is_empty());
    let first = DomainEvent::workspace_created(WorkspaceId(1), AuthId(2), "a");
    let second = DomainEvent::workspace_created(WorkspaceId(3), AuthId(2), "b");
    let third = DomainEvent::membership_changed(AuthId(2), WorkspaceId(1), UserId(5), Role::Admin);
    assert_eq!(events.publish_events(vec![first]), Ok(()));
    assert_eq!(events.publish_events(vec![second, third]), Ok(()));
    assert_eq!(events.publish_events(vec![]), Ok(()));
    assert_eq!(events.events().len(), 3);
    assert_eq!(events.events()[0].subject(), "00000000-0000-0000-0000-000000000001");
    assert_eq!(events.events()[1].subject(), "00000000-0000-0000-0000-000000000003");
    assert!(matches!(events.events()[2], DomainEvent::WorkspaceMembershipChanged(_)));
    events.set_failing(true);
    assert_eq!(
        events.publish_events(vec![DomainEvent::workspace_created(WorkspaceId(9), AuthId(2), "c")]),
        Err(PublishError { detail: "injected publishing fault".to_string() })
    );
    assert_eq!(events.events().len(), 3);
    events.set_failing(false);
    assert_eq!(events.publish_events(vec![]), Ok(()));
}
