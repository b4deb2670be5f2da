//! A small task and poll coordination engine.
//!
//! [`PollEngine`] owns a registry of users keyed by address and a registry of
//! polls keyed by a dense integer identifier. [`Framework`] sits on top of it:
//! it holds a fixed reference to one engine instance and keeps its own,
//! independent registry of user profiles keyed by username.
//!
//! Every operation takes the calling principal's [`Address`] as an argument;
//! resolving that address, persisting state and instantiating one component
//! from another are the host's business and stay outside this crate.

pub mod address;
pub mod aggregator;
pub mod aggregator_laws;
pub mod aggregator_model;
pub mod engine;
pub mod engine_laws;
pub mod engine_model;
pub mod error;
pub mod poll;
pub mod profile;
pub mod text;

pub use crate::address::{Address, CodeHash};
pub use crate::aggregator::Framework;
pub use crate::aggregator_model::{Instantiation, PollEngineRef, PROFILE_LIST_CAPACITY};
pub use crate::engine::PollEngine;
pub use crate::error::FrameworkError;
pub use crate::poll::{PollRecord, RegisteredUser, ResponsePolicy};
pub use crate::profile::User;
