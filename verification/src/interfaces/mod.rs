//! The interface of the contract.

pub mod autoshare;
