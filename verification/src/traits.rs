//! The capability traits of the engine, as its callers see them. Each
//! implementor says through the associated spec functions what its
//! well-formedness, its range demand and its exact step relation
//! mean; the method contracts are stated once here over those.

pub mod account;
pub mod execution;
pub mod transaction;
