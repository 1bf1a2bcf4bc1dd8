//! The accessor traits.

use core::marker::PhantomData;
use vstd::prelude::*;

verus! {

/// What a caller hands to an accessor to say which value it wants.
pub trait Seed: Sized {
    /// The type of the value that this seed asks for.
    type Value;
}

/// The stateless seed: it asks for a `T` and carries no data of its own.
impl<T> Seed for PhantomData<T> {
    type Value = T;
}

/// A seed that can read its value out of a deserializer of type `D`.
pub trait DeserializeSeed<D>: Seed {
    /// The type that is returned if the value cannot be read.
    type Error;

    /// Reads the value out of `deserializer`.
    fn deserialize(self, deserializer: D) -> (outcome: Result<Self::Value, Self::Error>);
}

/// What an accessor to a sequence has, whatever it is asked for.
pub trait SeqAccessor: Sized {
    /// The type that is returned if an error occurs during deserialization.
    type Error;

    /// The number of elements that remain, if known.
    fn size_hint(&self) -> (hint: Option<usize>)
        default_ensures
            hint is None,
    {
        None
    }
}

/// What an accessor to the keys of a map has, whatever it is asked for.
pub trait MapKeyAccessor: Sized {
    /// The type that is returned if an error occurs during deserialization.
    type Error;

    /// The accessor to the value that belongs to a key.
    type Value: MapValueAccessor<Error = Self::Error, Key = Self>;

    /// The number of entries that remain, if known.
    fn size_hint(&self) -> (hint: Option<usize>)
        default_ensures
            hint is None,
    {
        None
    }
}

/// What an accessor to the value that belongs to a key has, whatever it is
/// asked for.
pub trait MapValueAccessor: Sized {
    /// The type that is returned if an error occurs during deserialization.
    type Error;

    /// The accessor to the keys that follow.
    type Key;

    /// The number of entries that remain, if known, without the one whose
    /// value is held here.
    fn size_hint(&self) -> (hint: Option<usize>)
        default_ensures
            hint is None,
    {
        None
    }
}

/// An accessor to the elements of a sequence, which can serve seeds of type `S`.
///
/// `next_element_seed` takes `self` by move, so another element can only be
/// asked for if the previous request did not return `None`.
pub trait SeqAccess<S: Seed>: SeqAccessor {
    /// Returns `Ok(Some((element, access)))` for the next element, where
    /// `access` reads what follows it, or `Ok(None)` if there are no more
    /// elements.
    fn next_element_seed(self, seed: S) -> (outcome: Result<
        Option<(S::Value, Self)>,
        Self::Error,
    >);
}

/// An accessor to the keys of a map, which can serve seeds of type `S`.
///
/// A key comes with the accessor to its value, so a key and its value can only
/// be asked for in that order, and a key can only be asked for if the previous
/// request did not return `None`.
pub trait MapKeyAccess<S: Seed>: MapKeyAccessor {
    /// Returns `Ok(Some((key, value_access)))` for the next key, where
    /// `value_access` reads the value that belongs to it, or `Ok(None)` if
    /// there are no more entries.
    fn next_key_seed(self, seed: S) -> (outcome: Result<
        Option<(S::Value, Self::Value)>,
        Self::Error,
    >);
}

/// An accessor to the value that belongs to a key which has been read, for
/// seeds of type `S`.
pub trait MapValueAccess<S: Seed>: MapValueAccessor {
    /// Returns the value, and the accessor to the keys that follow it.
    fn next_value_seed(self, seed: S) -> (outcome: Result<(S::Value, Self::Key), Self::Error>);
}

/// An accessor to the entries of a map, for key seeds of type `K` and value
/// seeds of type `V`.
pub trait MapEntryAccess<K: Seed, V: Seed>: MapKeyAccess<K> where
    <Self as MapKeyAccessor>::Value: MapValueAccess<V>,
 {
    /// Returns `Ok(Some(((key, value), access)))` for the next entry, where
    /// `access` reads what follows it, or `Ok(None)` if there are no more
    /// entries.
    ///
    /// By default this asks for the key and then for the value; implement it
    /// where there is a more efficient way.
    fn next_entry_seed(self, kseed: K, vseed: V) -> (outcome: Result<
        Option<((K::Value, V::Value), Self)>,
        Self::Error,
    >)
        default_ensures
            key_then_value_outcome::<K, V, Self>(self, kseed, vseed, outcome),
    {
        key_then_value(self, kseed, vseed)
    }
}

/// What becomes of an entry whose key has been read, given what reading its
/// value returned.
pub open spec fn entry_outcome<K, V, A, E>(key: K, value_outcome: Result<(V, A), E>) -> Result<
    Option<((K, V), A)>,
    E,
> {
    match value_outcome {
        Ok((value, access)) => Ok(Some(((key, value), access))),
        Err(error) => Err(error),
    }
}

/// Whether `outcome` can come of asking `access` for a key with `kseed`, and
/// then, if there is one, the value accessor that came with it for the value
/// with `vseed`.
pub open spec fn key_then_value_outcome<K: Seed, V: Seed, A: MapKeyAccess<K>>(
    access: A,
    kseed: K,
    vseed: V,
    outcome: Result<Option<((K::Value, V::Value), A)>, A::Error>,
) -> bool where A::Value: MapValueAccess<V> {
    exists|key_outcome: Result<Option<(K::Value, A::Value)>, A::Error>|
        {
            &&& #[trigger] call_ensures(A::next_key_seed, (access, kseed), key_outcome)
            &&& match key_outcome {
                Ok(Some((key, value_access))) => exists|
                    value_outcome: Result<(V::Value, A), A::Error>,
                |
                    {
                        &&& #[trigger] call_ensures(
                            <A::Value as MapValueAccess<V>>::next_value_seed,
                            (value_access, vseed),
                            value_outcome,
                        )
                        &&& outcome == entry_outcome(key, value_outcome)
                    },
                Ok(None) => outcome == Ok::<Option<((K::Value, V::Value), A)>, A::Error>(None),
                Err(error) => outcome == Err::<Option<((K::Value, V::Value), A)>, A::Error>(error),
            }
        }
}

/// Completes an entry whose key has been read with what reading its value
/// returned.
pub fn complete_entry<K, V, A, E>(key: K, value_outcome: Result<(V, A), E>) -> (outcome: Result<
    Option<((K, V), A)>,
    E,
>)
    ensures
        outcome == entry_outcome(key, value_outcome),
{
    match value_outcome {
        Ok((value, access)) => Ok(Some(((key, value), access))),
        Err(error) => Err(error),
    }
}

/// Reads the next entry by asking for the key and then for the value.
pub fn key_then_value<K: Seed, V: Seed, A: MapKeyAccess<K>>(
    access: A,
    kseed: K,
    vseed: V,
) -> (outcome: Result<Option<((K::Value, V::Value), A)>, A::Error>) where
    A::Value: MapValueAccess<V>,

    ensures
        key_then_value_outcome::<K, V, A>(access, kseed, vseed, outcome),
{
    match access.next_key_seed(kseed) {
        Ok(Some((key, value_access))) => {
            let value_outcome = value_access.next_value_seed(vseed);
            complete_entry(key, value_outcome)
        },
        Ok(None) => Ok(None),
        Err(error) => Err(error),
    }
}

/// Requests that carry no seed: they name the type that they ask for.
///
/// By default each of them is the request with the stateless seed of that
/// type; an accessor may have its own way.
pub trait Unseeded: Sized {
    /// Asks for the next element as a `T`.
    fn next_element<T>(self) -> (outcome: Result<
        Option<(T, Self)>,
        <Self as SeqAccessor>::Error,
    >) where Self: SeqAccess<PhantomData<T>>
        default_ensures
            call_ensures(
                <Self as SeqAccess<PhantomData<T>>>::next_element_seed,
                (self, PhantomData),
                outcome,
            ),
    {
        self.next_element_seed(PhantomData)
    }

    /// Asks for the next key as a `T`.
    fn next_key<T>(self) -> (outcome: Result<
        Option<(T, <Self as MapKeyAccessor>::Value)>,
        <Self as MapKeyAccessor>::Error,
    >) where Self: MapKeyAccess<PhantomData<T>>
        default_ensures
            call_ensures(
                <Self as MapKeyAccess<PhantomData<T>>>::next_key_seed,
                (self, PhantomData),
                outcome,
            ),
    {
        self.next_key_seed(PhantomData)
    }

    /// Asks for the value as a `T`.
    fn next_value<T>(self) -> (outcome: Result<
        (T, <Self as MapValueAccessor>::Key),
        <Self as MapValueAccessor>::Error,
    >) where Self: MapValueAccess<PhantomData<T>>
        default_ensures
            call_ensures(
                <Self as MapValueAccess<PhantomData<T>>>::next_value_seed,
                (self, PhantomData),
                outcome,
            ),
    {
        self.next_value_seed(PhantomData)
    }

    /// Asks for the next entry, its key as a `K` and its value as a `V`.
    fn next_entry<K, V>(self) -> (outcome: Result<
        Option<((K, V), Self)>,
        <Self as MapKeyAccessor>::Error,
    >) where
        Self: MapEntryAccess<PhantomData<K>, PhantomData<V>>,
        <Self as MapKeyAccessor>::Value: MapValueAccess<PhantomData<V>>,

        default_ensures
            call_ensures(
                <Self as MapEntryAccess<PhantomData<K>, PhantomData<V>>>::next_entry_seed,
                (self, PhantomData, PhantomData),
                outcome,
            ),
    {
        self.next_entry_seed(PhantomData, PhantomData)
    }
}

} // verus!
