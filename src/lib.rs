//! Record store for an agricultural-supply marketplace: agrovets (vendors),
//! their products, customer orders and feedback, kept in four id-ordered
//! stores that share one id allocator and check every foreign key before a
//! write.
//!
//! `records` holds the record and payload types with their views, `store`
//! the state and its commands, `validate` the field checks, and `laws` the
//! properties that relate several calls.

use vstd::prelude::*;

pub mod laws;
pub mod records;
pub mod store;
pub mod validate;

verus! {

} // verus!
