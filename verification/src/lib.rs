//! A small on-chain note pad: titled notes kept in fixed-size account slots,
//! created at an address derived from the creator and the title, and changed
//! only by the creator or the note's current owner.

pub mod address;
pub mod error;
pub mod instruction;
pub mod laws;
pub mod processor;
pub mod state;
pub mod wire;
