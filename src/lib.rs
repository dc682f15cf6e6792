//! An in-memory task registry with a two-step delegation protocol between
//! nodes: tasks are created locally, may be handed to a peer node with a
//! compensating rollback when the peer does not acknowledge, and are marked
//! completed locally before the creator is told.

pub mod task;
pub mod table;
pub mod scheduler;
pub mod laws;
