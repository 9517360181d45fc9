//! A federated social-graph library.
//!
//! Each participant's data lives on an independently-owned node, addressed
//! by a global identity of the form `user@node` (written `user.node`).
//! Nodes exchange friend-request, invite, and unfriend messages to keep two
//! independent stores eventually consistent about a shared relationship.
//!
//! This crate holds the verified core: the identity type, the per-node user
//! store with atomic read-modify-write per record, and the relationship
//! state machine that drives friend-request and invite lifecycles.  The
//! HTTP surface (routing, outbound delivery, persistence) is unverified
//! glue that calls into this crate.

pub mod errors;
pub mod federation;
pub mod games;
pub mod identity;
pub mod messages;
pub mod model;
pub mod protocol;
pub mod record;
pub mod seq_facts;
pub mod store;
