//! A terminal client's core for a remote task-management service:
//! a locally cached replica of the remote task set, the reconciliation
//! that merges fresh snapshots with unsynced local edits, the queue of
//! pending local mutations, and the dual-cursor navigation state.

pub mod app;
pub mod config;
pub mod handler;
pub mod reconcile;
pub mod scheduler;
pub mod todoist;
