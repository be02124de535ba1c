//! Foundational data of the contract: errors, events and record types.

pub mod errors;
pub mod events;
pub mod types;
