//! What holds of any number of requests to an [`AccessAdapter`].
//!
//! The adapter's methods state one request each. Here requests are strung
//! together: a run is a list of requests, each made in the state that the
//! one before it left. The requests of a run may carry seeds of different
//! types: a run is a list of any type of requests, and [`OneOf`] puts two
//! types of requests into one.
//!
//! [`AccessAdapter`]: crate::adapter::AccessAdapter

use vstd::prelude::*;

pub mod entry;
pub mod map;
pub mod replies;
pub mod sequence;

verus! {

/// A request of one of two types.
pub enum OneOf<L, R> {
    /// A request of the first type.
    First(L),
    /// A request of the second type.
    Second(R),
}

} // verus!
