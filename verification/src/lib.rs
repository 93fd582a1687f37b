//! Workspaces, the two teams behind each of them, and the permission-gated
//! workflow that changes who belongs to which.
//!
//! The workflow is written against capability traits (repositories, a
//! transactional executor, an event publisher) whose contracts are stated
//! over a mathematical model of the stored data, the [`directory::Directory`].
//! An in-memory backend implements every trait and is verified against the
//! same contracts.

pub mod directory;
pub mod error;
pub mod event;
pub mod executor;
pub mod identity;
pub mod laws;
pub mod memory;
pub mod policy;
pub mod service;
pub mod team;
pub mod user;
pub mod workspace;

pub use error::{Action, Missing, PublishError, RepoError, StorageError, WorkspaceError};
pub use event::{
    DomainEvent, EventLog, EventRepo, WorkspaceCreatedData, WorkspaceMembershipChangedData,
};
pub use executor::{Executor, StoreState};
pub use identity::{AuthId, TeamId, UserId, WorkspaceId};
pub use memory::{
    MemoryEvents, MemoryExecutor, MemoryTeamRepo, MemoryUserRepo, MemoryWorkspaceRepo,
};
pub use service::{Committed, WorkspaceService, WorkspaceServiceImpl};
pub use team::{Team, TeamRepo};
pub use user::{NewUser, RequestingUser, UpdateUser, User, UserRepo, UsersMutation};
pub use workspace::{Role, RoleFilter, Workspace, WorkspaceRepo};
