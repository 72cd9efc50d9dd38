//! A counter owned by one identity: each owner has a single record, stored at an
//! address derived from the owner's key, which only that owner may increment.

pub mod address;
pub mod identity;
pub mod laws;
pub mod layout;
pub mod state;
pub mod store;
