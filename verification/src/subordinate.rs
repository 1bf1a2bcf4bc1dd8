//! A ready-made value accessor.

use vstd::prelude::*;

use crate::access::{
    DeserializeSeed, MapKeyAccessor, MapValueAccess, MapValueAccessor, Seed, Unseeded,
};

verus! {

/// A value accessor that holds a deserializable value together with the key
/// accessor that produced it, which is handed back once the value is read.
#[derive(Debug, Clone)]
pub struct SubordinateValue<V, K> {
    /// The deserializer that the value is read from.
    pub value: V,
    /// The key accessor that is handed back along with the value. Usually this
    /// is the accessor which created this `SubordinateValue`.
    pub parent: K,
}

/// What the value accessor replies, given what reading the value returned.
pub open spec fn with_parent<T, K, E>(parent: K, outcome: Result<T, E>) -> Result<(T, K), E> {
    match outcome {
        Ok(value) => Ok((value, parent)),
        Err(error) => Err(error),
    }
}

/// Hands `parent` back along with the value that was read, or passes the error on.
pub fn rejoin<T, K, E>(parent: K, outcome: Result<T, E>) -> (reply: Result<(T, K), E>)
    ensures
        reply == with_parent(parent, outcome),
{
    match outcome {
        Ok(value) => Ok((value, parent)),
        Err(error) => Err(error),
    }
}

impl<V, K: MapKeyAccessor> MapValueAccessor for SubordinateValue<V, K> {
    type Error = K::Error;

    type Key = K;

    /// The size hint of the parent, which does not count the value held here.
    fn size_hint(&self) -> (hint: Option<usize>)
        ensures
            call_ensures(K::size_hint, (&self.parent,), hint),
    {
        self.parent.size_hint()
    }
}

impl<S: Seed, V, K: MapKeyAccessor> MapValueAccess<S> for SubordinateValue<V, K> where
    S: DeserializeSeed<V, Error = K::Error>,
 {
    /// Lets `seed` read the value, and hands the parent back along with it.
    fn next_value_seed(self, seed: S) -> (outcome: Result<(S::Value, K), K::Error>)
        ensures
            exists|read: Result<S::Value, K::Error>|
                {
                    &&& #[trigger] call_ensures(
                        <S as DeserializeSeed<V>>::deserialize,
                        (seed, self.value),
                        read,
                    )
                    &&& outcome == with_parent(self.parent, read)
                },
    {
        let read = seed.deserialize(self.value);
        rejoin(self.parent, read)
    }
}

impl<V, K> Unseeded for SubordinateValue<V, K> {

}

} // verus!
