//! Escrow-backed campaigns over a shared token-custody ledger.
//!
//! Two campaign kinds share one custody primitive: time-boxed giveaways,
//! where a creator deposits a prize and one participant is later drawn as
//! the winner, and mutual-aid requests, where donors fund a goal and may
//! reclaim their donations if the request is cancelled first.
//!
//! The whole campaign core is an explicit state machine over plain values:
//! every entry point takes the contract state by mutable reference together
//! with the authenticated caller, the ledger time, or the entropy draw it
//! needs, and either applies its transition completely or returns an error
//! and leaves the state untouched.

pub mod admin;
pub mod errors;
pub mod giveaway;
pub mod laws;
pub mod ledger;
pub mod mutual_aid;
pub mod state;
pub mod types;
