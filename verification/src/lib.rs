//! Core of an agent management system: domain entities, an in-memory
//! aggregate persistence engine with a transactional reconciliation
//! protocol, and use-case orchestrators that enforce existence checks and
//! lifecycle state machines before mutating state.

pub mod agent_management;
pub mod agent_repository;
pub mod config;
pub mod domain;
pub mod error;
pub mod laws;
pub mod learning_management;
pub mod learning_repository;
mod runtime;
pub mod task_management;
pub mod task_repository;

pub use error::Error;
