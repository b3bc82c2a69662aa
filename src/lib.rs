//! A mutual double-opt-in matching engine for AI companion agents, with the
//! profile-learning and direct-messaging rules around it.
//!
//! Each user's agent keeps a learned profile of its user, evaluates other
//! users through a compatibility oracle, and records its opinion as a peer
//! note. A pair of users becomes a confirmed match only once both agents have
//! recommended each other in their own evaluation passes.
pub mod account;
mod clock;
pub mod engine;
pub mod json;
pub mod laws;
pub mod messaging;
pub mod models;
pub mod oracle;
pub mod profile;
pub mod store;
pub mod text;
