//! Move-oriented sequence and map accessors for deserializers.
//!
//! A serde deserializer hands a visitor its elements through an accessor that
//! is asked again and again through `&mut self`. Such an accessor has to keep
//! track of whether it is exhausted, and a map accessor also of whether a key
//! is waiting for its value. The accessors here are consumed by each request
//! instead: [`SeqAccess`], [`MapKeyAccess`] and [`MapValueAccess`] take `self`
//! by move and hand back the accessor for the next request, so that only
//! correct orders of requests can be written down.
//!
//! [`AccessAdapter`] turns a move-oriented accessor into one that is asked
//! through `&mut self`. Its methods state exactly which request reaches the
//! accessor underneath and what becomes of the reply; the module [`laws`]
//! states what holds of any number of requests.

pub mod access;
pub mod adapter;
pub mod laws;
pub mod subordinate;

pub use crate::access::{
    DeserializeSeed, MapEntryAccess, MapKeyAccess, MapKeyAccessor, MapValueAccess,
    MapValueAccessor, Seed, SeqAccess, SeqAccessor, Unseeded,
};
pub use crate::adapter::{AccessAdapter, AccessAdapterState};
pub use crate::subordinate::SubordinateValue;
