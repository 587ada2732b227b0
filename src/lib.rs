//! Provisioning, running and tearing down a throw-away sandbox: the decisions
//! and text formats of the harness, with the I/O left to the caller.
pub mod allocator;
pub mod commander;
pub mod commands;
pub mod driver;
pub mod error;
pub mod naming;
pub mod provision;
pub mod text;
