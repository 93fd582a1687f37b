//! The records of completed changes that are handed to the publisher.

use vstd::prelude::*;
use vstd::string::StringExecFns;
use crate::error::PublishError;
use crate::identity::{uuid_text, AuthId, UserId, WorkspaceId};
use crate::workspace::Role;

verus! {

/// A workspace was created.
#[derive(Debug, PartialEq, Eq)]
pub struct WorkspaceCreatedData {
    pub workspace_id: String,
    pub user_id: String,
    pub title: String,
}

/// The role of a user in a workspace was changed.
#[derive(Debug, PartialEq, Eq)]
pub struct WorkspaceMembershipChangedData {
    pub requesting_user_id: String,
    pub affected_workspace_id: String,
    pub affected_user_id: String,
    pub affected_role: String,
}

/// A completed change of state. It carries the identifiers as text, so
/// that a consumer needs nothing else to follow the change.
#[derive(Debug, PartialEq, Eq)]
pub enum DomainEvent {
    WorkspaceCreated(WorkspaceCreatedData),
    WorkspaceMembershipChanged(WorkspaceMembershipChangedData),
}

/// An event as the model holds it.
#[verifier::ext_equal]
pub enum EventRecord {
    WorkspaceCreated { workspace_id: Seq<char>, user_id: Seq<char>, title: Seq<char> },
    WorkspaceMembershipChanged {
        requesting_user_id: Seq<char>,
        affected_workspace_id: Seq<char>,
        affected_user_id: Seq<char>,
        affected_role: Seq<char>,
    },
}

impl EventRecord {
    /// The event that tells of the workspace `workspace`, titled `title`,
    /// which the user with the external identity `user` created.
    pub open spec fn workspace_created(
        workspace: WorkspaceId,
        user: AuthId,
        title: Seq<char>,
    ) -> EventRecord {
        EventRecord::WorkspaceCreated {
            workspace_id: uuid_text(workspace.0),
            user_id: uuid_text(user.0),
            title,
        }
    }

    /// The event that tells that `requester` gave `target` the role `role`
    /// in `workspace`.
    pub open spec fn membership_changed(
        requester: AuthId,
        workspace: WorkspaceId,
        target: UserId,
        role: Role,
    ) -> EventRecord {
        EventRecord::WorkspaceMembershipChanged {
            requesting_user_id: uuid_text(requester.0),
            affected_workspace_id: uuid_text(workspace.0),
            affected_user_id: uuid_text(target.0),
            affected_role: role.name(),
        }
    }

    /// The text of the identifier of the workspace that the event is about.
    pub open spec fn subject(self) -> Seq<char> {
        match self {
            EventRecord::WorkspaceCreated { workspace_id, .. } => workspace_id,
            EventRecord::WorkspaceMembershipChanged { affected_workspace_id, .. } =>
                affected_workspace_id,
        }
    }
}

impl View for DomainEvent {
    type V = EventRecord;

    open spec fn view(&self) -> EventRecord {
        match self {
            DomainEvent::WorkspaceCreated(data) => EventRecord::WorkspaceCreated {
                workspace_id: data.workspace_id@,
                user_id: data.user_id@,
                title: data.title@,
            },
            DomainEvent::WorkspaceMembershipChanged(data) => EventRecord::WorkspaceMembershipChanged {
                requesting_user_id: data.requesting_user_id@,
                affected_workspace_id: data.affected_workspace_id@,
                affected_user_id: data.affected_user_id@,
                affected_role: data.affected_role@,
            },
        }
    }
}

/// What a publisher has accepted, oldest first.
pub type EventLog = Seq<EventRecord>;

/// The events in `list`, as the model holds them.
pub open spec fn event_records(list: Seq<DomainEvent>) -> EventLog {
    list.map_values(|event: DomainEvent| event@)
}

impl DomainEvent {
    /// The event for a workspace that was created.
    pub fn workspace_created(workspace: WorkspaceId, user: AuthId, title: &str) -> (event: DomainEvent)
        ensures
            event@ == EventRecord::workspace_created(workspace, user, title@),
    {
        DomainEvent::WorkspaceCreated(
            WorkspaceCreatedData {
                workspace_id: workspace.to_string(),
                user_id: user.to_string(),
                title: String::from_str(title),
            },
        )
    }

    /// The event for a role that was changed.
    pub fn membership_changed(
        requester: AuthId,
        workspace: WorkspaceId,
        target: UserId,
        role: Role,
    ) -> (event: DomainEvent)
        ensures
            event@ == EventRecord::membership_changed(requester, workspace, target, role),
    {
        DomainEvent::WorkspaceMembershipChanged(
            WorkspaceMembershipChangedData {
                requesting_user_id: requester.to_string(),
                affected_workspace_id: workspace.to_string(),
                affected_user_id: target.to_string(),
                affected_role: role.to_string(),
            },
        )
    }

    /// The text of the identifier of the workspace that the event is about.
    pub fn subject(&self) -> (text: String)
        ensures
            text@ == self@.subject(),
    {
        match self {
            DomainEvent::WorkspaceCreated(data) => data.workspace_id.clone(),
            DomainEvent::WorkspaceMembershipChanged(data) => data.affected_workspace_id.clone(),
        }
    }
}

/// The channel that takes events for delivery to subscribers.
///
/// `reliable` is the publisher's own promise that it accepts what it is
/// handed. A publisher that cannot promise this says `false`.
pub trait EventRepo {
    /// The events that the publisher has accepted, oldest first.
    spec fn published(&self) -> EventLog;

    /// The publisher accepts every batch.
    spec fn reliable(&self) -> bool;

    /// Hands a batch of events to the publisher. Where it accepts the
    /// batch, the events are recorded in the order given.
    fn publish_events(&mut self, events: Vec<DomainEvent>) -> (result: Result<(), PublishError>)
        ensures
            final(self).reliable() == old(self).reliable(),
            old(self).reliable() ==> result is Ok,
            result is Ok ==> final(self).published() == old(self).published() + event_records(events@),
    ;
}

} // verus!
