//! What each operation makes of the replies that it gets.
//!
//! These laws speak of calls of the operations themselves: of what goes in, of
//! what comes out, and of which replies the accessors underneath can give.

use core::convert::Infallible;
use vstd::prelude::*;

use crate::access::{
    DeserializeSeed, MapEntryAccess, MapKeyAccess, MapKeyAccessor, MapValueAccess,
    MapValueAccessor, Seed, SeqAccess, SeqAccessor,
};
use crate::adapter::{AccessAdapter, AccessAdapterState};
use crate::subordinate::SubordinateValue;

verus! {

/// The size hint of a sequence adapter is a reply of the accessor that it holds
/// to the same question, and zero if it is exhausted.
pub proof fn sequence_size_hint_is_the_accessors<A: SeqAccessor>(
    adapter: AccessAdapter<A, Infallible>,
    hint: Option<usize>,
)
    requires
        call_ensures(AccessAdapter::<A, Infallible>::size_hint, (&adapter,), hint),
    ensures
        adapter@ matches AccessAdapterState::Ready(access) ==> call_ensures(
            <A as SeqAccessor>::size_hint,
            (&access,),
            hint,
        ),
        adapter@ is Dead ==> hint == Some(0usize),
{
}

/// A size that the accessor of a sequence knows is never lost or changed: if it
/// can only reply `known`, then so does the adapter; if it always replies with
/// a size, then so does the adapter; and if it never does, nor does the adapter.
pub proof fn known_sequence_size_is_kept<A: SeqAccessor>(
    access: A,
    adapter: AccessAdapter<A, Infallible>,
    hint: Option<usize>,
    known: Option<usize>,
)
    requires
        adapter@ == AccessAdapterState::<A, Infallible>::Ready(access),
        call_ensures(AccessAdapter::<A, Infallible>::size_hint, (&adapter,), hint),
    ensures
        (forall|reply: Option<usize>| #[trigger]
            call_ensures(<A as SeqAccessor>::size_hint, (&access,), reply) ==> reply == known)
            ==> hint == known,
        (forall|reply: Option<usize>| #[trigger]
            call_ensures(<A as SeqAccessor>::size_hint, (&access,), reply) ==> reply is Some)
            ==> hint is Some,
        (forall|reply: Option<usize>| #[trigger]
            call_ensures(<A as SeqAccessor>::size_hint, (&access,), reply) ==> reply is None)
            ==> hint is None,
{
    sequence_size_hint_is_the_accessors(adapter, hint);
}

/// The size hint of a map adapter is a reply of the accessor that it holds to
/// the same question: of the key accessor, or, while a value is waiting, of the
/// value accessor. It is zero if the adapter is exhausted.
pub proof fn map_size_hint_is_the_accessors<A: MapKeyAccessor, V: MapValueAccessor>(
    adapter: AccessAdapter<A, V>,
    hint: Option<usize>,
)
    requires
        call_ensures(AccessAdapter::<A, V>::size_hint, (&adapter,), hint),
    ensures
        adapter@ matches AccessAdapterState::Ready(access) ==> call_ensures(
            <A as MapKeyAccessor>::size_hint,
            (&access,),
            hint,
        ),
        adapter@ matches AccessAdapterState::Value(access) ==> call_ensures(
            <V as MapValueAccessor>::size_hint,
            (&access,),
            hint,
        ),
        adapter@ is Dead ==> hint == Some(0usize),
{
}

/// A size that the accessor of a map knows is never lost or changed: if the
/// accessor that the adapter holds can only reply `known`, then so does the
/// adapter, whether or not a value is waiting.
pub proof fn known_map_size_is_kept<A: MapKeyAccessor, V: MapValueAccessor>(
    adapter: AccessAdapter<A, V>,
    hint: Option<usize>,
    known: Option<usize>,
)
    requires
        call_ensures(AccessAdapter::<A, V>::size_hint, (&adapter,), hint),
        match adapter@ {
            AccessAdapterState::Ready(access) => forall|reply: Option<usize>| #[trigger]
                call_ensures(<A as MapKeyAccessor>::size_hint, (&access,), reply) ==> reply
                    == known,
            AccessAdapterState::Value(access) => forall|reply: Option<usize>| #[trigger]
                call_ensures(<V as MapValueAccessor>::size_hint, (&access,), reply) ==> reply
                    == known,
            AccessAdapterState::Dead => known == Some(0usize),
        },
    ensures
        hint == known,
{
    map_size_hint_is_the_accessors(adapter, hint);
}

/// A new sequence adapter gives the size hint of the accessor that it was made
/// from.
pub proof fn new_sequence_adapter_hints_as_its_accessor<A: SeqAccessor>(
    access: A,
    adapter: AccessAdapter<A, Infallible>,
    hint: Option<usize>,
)
    requires
        call_ensures(AccessAdapter::<A, Infallible>::new, (access,), adapter),
        call_ensures(AccessAdapter::<A, Infallible>::size_hint, (&adapter,), hint),
    ensures
        call_ensures(<A as SeqAccessor>::size_hint, (&access,), hint),
{
}

/// A new map adapter gives the size hint of the accessor that it was made from.
pub proof fn new_map_adapter_hints_as_its_accessor<A: MapKeyAccessor, V: MapValueAccessor>(
    access: A,
    adapter: AccessAdapter<A, V>,
    hint: Option<usize>,
)
    requires
        call_ensures(AccessAdapter::<A, V>::new, (access,), adapter),
        call_ensures(AccessAdapter::<A, V>::size_hint, (&adapter,), hint),
    ensures
        call_ensures(<A as MapKeyAccessor>::size_hint, (&access,), hint),
{
}

/// A request for an element returns what the accessor replies to it. With an
/// element, the adapter goes on with the accessor that came with it; with the
/// end or an error, it is exhausted.
pub proof fn element_request_hands_the_reply_on<S: Seed, A: SeqAccess<S>>(
    adapter: &mut AccessAdapter<A, Infallible>,
    access: A,
    seed: S,
    result: Result<Option<S::Value>, A::Error>,
)
    requires
        old(adapter)@ == AccessAdapterState::<A, Infallible>::Ready(access),
        call_ensures(
            AccessAdapter::<A, Infallible>::next_element_seed::<S>,
            (adapter, seed),
            result,
        ),
    ensures
        match result {
            Ok(Some(element)) => {
                &&& final(adapter)@ matches AccessAdapterState::Ready(next)
                &&& call_ensures(
                    <A as SeqAccess<S>>::next_element_seed,
                    (access, seed),
                    Ok::<Option<(S::Value, A)>, A::Error>(Some((element, next))),
                )
            },
            Ok(None) => {
                &&& final(adapter)@ is Dead
                &&& call_ensures(
                    <A as SeqAccess<S>>::next_element_seed,
                    (access, seed),
                    Ok::<Option<(S::Value, A)>, A::Error>(None),
                )
            },
            Err(error) => {
                &&& final(adapter)@ is Dead
                &&& call_ensures(
                    <A as SeqAccess<S>>::next_element_seed,
                    (access, seed),
                    Err::<Option<(S::Value, A)>, A::Error>(error),
                )
            },
        },
{
}

/// An exhausted sequence adapter returns `Ok(None)` and stays exhausted.
pub proof fn exhausted_element_request_returns_none<S: Seed, A: SeqAccess<S>>(
    adapter: &mut AccessAdapter<A, Infallible>,
    seed: S,
    result: Result<Option<S::Value>, A::Error>,
)
    requires
        old(adapter)@ is Dead,
        call_ensures(
            AccessAdapter::<A, Infallible>::next_element_seed::<S>,
            (adapter, seed),
            result,
        ),
    ensures
        result == Ok::<Option<S::Value>, A::Error>(None),
        final(adapter)@ is Dead,
{
}

/// The first request to a new sequence adapter returns what the accessor that
/// it was made from replies; the size hint after it is that of the accessor
/// which came with the element, or zero without one; and the second request
/// goes to that accessor, or returns `Ok(None)` without one.
pub proof fn second_element_follows_the_first<S: Seed, T: Seed, A>(
    access: A,
    made: AccessAdapter<A, Infallible>,
    first: &mut AccessAdapter<A, Infallible>,
    seed: S,
    result: Result<Option<S::Value>, <A as SeqAccessor>::Error>,
    hint: Option<usize>,
    second: &mut AccessAdapter<A, Infallible>,
    seed2: T,
    result2: Result<Option<T::Value>, <A as SeqAccessor>::Error>,
) where A: SeqAccess<S> + SeqAccess<T>
    requires
        call_ensures(AccessAdapter::<A, Infallible>::new, (access,), made),
        *old(first) == made,
        call_ensures(
            AccessAdapter::<A, Infallible>::next_element_seed::<S>,
            (first, seed),
            result,
        ),
        call_ensures(AccessAdapter::<A, Infallible>::size_hint, (&*final(first),), hint),
        *old(second) == *final(first),
        call_ensures(
            AccessAdapter::<A, Infallible>::next_element_seed::<T>,
            (second, seed2),
            result2,
        ),
    ensures
        match result {
            Ok(Some(element)) => exists|next: A|
                {
                    &&& #[trigger] call_ensures(
                        <A as SeqAccess<S>>::next_element_seed,
                        (access, seed),
                        Ok::<Option<(S::Value, A)>, <A as SeqAccessor>::Error>(
                            Some((element, next)),
                        ),
                    )
                    &&& call_ensures(<A as SeqAccessor>::size_hint, (&next,), hint)
                    &&& match result2 {
                        Ok(Some(element2)) => exists|next2: A| #[trigger]
                            call_ensures(
                                <A as SeqAccess<T>>::next_element_seed,
                                (next, seed2),
                                Ok::<Option<(T::Value, A)>, <A as SeqAccessor>::Error>(
                                    Some((element2, next2)),
                                ),
                            ),
                        Ok(None) => call_ensures(
                            <A as SeqAccess<T>>::next_element_seed,
                            (next, seed2),
                            Ok::<Option<(T::Value, A)>, <A as SeqAccessor>::Error>(None),
                        ),
                        Err(error) => call_ensures(
                            <A as SeqAccess<T>>::next_element_seed,
                            (next, seed2),
                            Err::<Option<(T::Value, A)>, <A as SeqAccessor>::Error>(error),
                        ),
                    }
                },
            _ => {
                &&& hint == Some(0usize)
                &&& result2 == Ok::<Option<T::Value>, <A as SeqAccessor>::Error>(None)
            },
        },
{
    element_request_hands_the_reply_on::<S, A>(first, access, seed, result);
    if let AccessAdapterState::Ready(next) = final(first)@ {
        element_request_hands_the_reply_on::<T, A>(second, next, seed2, result2);
        assert(call_ensures(<A as SeqAccessor>::size_hint, (&next,), hint));
    }
}

/// A request for a key returns what the key accessor replies to it. With a key,
/// the value accessor that came with it waits; with the end or an error, the
/// adapter is exhausted.
pub proof fn key_request_hands_the_reply_on<S: Seed, A, V: MapValueAccessor>(
    adapter: &mut AccessAdapter<A, V>,
    access: A,
    seed: S,
    result: Result<Option<S::Value>, A::Error>,
) where A: MapKeyAccess<S, Value = V>
    requires
        old(adapter)@ == AccessAdapterState::<A, V>::Ready(access),
        call_ensures(AccessAdapter::<A, V>::next_key_seed::<S>, (adapter, seed), result),
    ensures
        match result {
            Ok(Some(key)) => {
                &&& final(adapter)@ matches AccessAdapterState::Value(value_access)
                &&& call_ensures(
                    <A as MapKeyAccess<S>>::next_key_seed,
                    (access, seed),
                    Ok::<Option<(S::Value, V)>, A::Error>(Some((key, value_access))),
                )
            },
            Ok(None) => {
                &&& final(adapter)@ is Dead
                &&& call_ensures(
                    <A as MapKeyAccess<S>>::next_key_seed,
                    (access, seed),
                    Ok::<Option<(S::Value, V)>, A::Error>(None),
                )
            },
            Err(error) => {
                &&& final(adapter)@ is Dead
                &&& call_ensures(
                    <A as MapKeyAccess<S>>::next_key_seed,
                    (access, seed),
                    Err::<Option<(S::Value, V)>, A::Error>(error),
                )
            },
        },
{
}

/// An exhausted map adapter returns `Ok(None)` to a request for a key and stays
/// exhausted.
pub proof fn exhausted_key_request_returns_none<S: Seed, A, V: MapValueAccessor>(
    adapter: &mut AccessAdapter<A, V>,
    seed: S,
    result: Result<Option<S::Value>, A::Error>,
) where A: MapKeyAccess<S, Value = V>
    requires
        old(adapter)@ is Dead,
        call_ensures(AccessAdapter::<A, V>::next_key_seed::<S>, (adapter, seed), result),
    ensures
        result == Ok::<Option<S::Value>, A::Error>(None),
        final(adapter)@ is Dead,
{
}

/// A request for a value returns what the waiting value accessor replies to it.
/// With the value, the adapter goes on with the key accessor that came with it;
/// with an error, it is exhausted.
pub proof fn value_request_hands_the_reply_on<S: Seed, A, V>(
    adapter: &mut AccessAdapter<A, V>,
    access: V,
    seed: S,
    result: Result<S::Value, V::Error>,
) where V: MapValueAccess<S, Key = A>
    requires
        old(adapter)@ == AccessAdapterState::<A, V>::Value(access),
        call_ensures(AccessAdapter::<A, V>::next_value_seed::<S>, (adapter, seed), result),
    ensures
        match result {
            Ok(value) => {
                &&& final(adapter)@ matches AccessAdapterState::Ready(next)
                &&& call_ensures(
                    <V as MapValueAccess<S>>::next_value_seed,
                    (access, seed),
                    Ok::<(S::Value, A), V::Error>((value, next)),
                )
            },
            Err(error) => {
                &&& final(adapter)@ is Dead
                &&& call_ensures(
                    <V as MapValueAccess<S>>::next_value_seed,
                    (access, seed),
                    Err::<(S::Value, A), V::Error>(error),
                )
            },
        },
{
}

/// A request for an entry returns what the accessor's own way to read an entry
/// replies. With an entry, the adapter goes on with the accessor that came with
/// it; with the end or an error, it is exhausted.
pub proof fn entry_request_hands_the_reply_on<K: Seed, W: Seed, A, V>(
    adapter: &mut AccessAdapter<A, V>,
    access: A,
    kseed: K,
    vseed: W,
    result: Result<Option<(K::Value, W::Value)>, A::Error>,
) where A: MapEntryAccess<K, W> + MapKeyAccessor<Value = V>, V: MapValueAccess<W, Key = A>
    requires
        old(adapter)@ == AccessAdapterState::<A, V>::Ready(access),
        call_ensures(
            AccessAdapter::<A, V>::next_entry_seed::<K, W>,
            (adapter, kseed, vseed),
            result,
        ),
    ensures
        match result {
            Ok(Some(entry)) => {
                &&& final(adapter)@ matches AccessAdapterState::Ready(next)
                &&& call_ensures(
                    <A as MapEntryAccess<K, W>>::next_entry_seed,
                    (access, kseed, vseed),
                    Ok::<Option<((K::Value, W::Value), A)>, A::Error>(Some((entry, next))),
                )
            },
            Ok(None) => {
                &&& final(adapter)@ is Dead
                &&& call_ensures(
                    <A as MapEntryAccess<K, W>>::next_entry_seed,
                    (access, kseed, vseed),
                    Ok::<Option<((K::Value, W::Value), A)>, A::Error>(None),
                )
            },
            Err(error) => {
                &&& final(adapter)@ is Dead
                &&& call_ensures(
                    <A as MapEntryAccess<K, W>>::next_entry_seed,
                    (access, kseed, vseed),
                    Err::<Option<((K::Value, W::Value), A)>, A::Error>(error),
                )
            },
        },
{
}

/// An exhausted map adapter returns `Ok(None)` to a request for an entry and
/// stays exhausted.
pub proof fn exhausted_entry_request_returns_none<K: Seed, W: Seed, A, V>(
    adapter: &mut AccessAdapter<A, V>,
    kseed: K,
    vseed: W,
    result: Result<Option<(K::Value, W::Value)>, A::Error>,
) where A: MapEntryAccess<K, W> + MapKeyAccessor<Value = V>, V: MapValueAccess<W, Key = A>
    requires
        old(adapter)@ is Dead,
        call_ensures(
            AccessAdapter::<A, V>::next_entry_seed::<K, W>,
            (adapter, kseed, vseed),
            result,
        ),
    ensures
        result == Ok::<Option<(K::Value, W::Value)>, A::Error>(None),
        final(adapter)@ is Dead,
{
}

/// The first key that a new map adapter returns is one that the accessor it was
/// made from replies. The size hint while its value is waiting is that of the
/// value accessor which came with the key; the request for the value goes to
/// that value accessor; and the size hint after the value is that of the key
/// accessor which came with it, or zero after an error.
pub proof fn value_follows_its_key<S: Seed, T: Seed, A, V>(
    access: A,
    made: AccessAdapter<A, V>,
    first: &mut AccessAdapter<A, V>,
    kseed: S,
    key: S::Value,
    waiting: Option<usize>,
    second: &mut AccessAdapter<A, V>,
    vseed: T,
    result: Result<T::Value, A::Error>,
    hint: Option<usize>,
) where A: MapKeyAccess<S, Value = V>, V: MapValueAccess<T, Key = A, Error = A::Error>
    requires
        call_ensures(AccessAdapter::<A, V>::new, (access,), made),
        *old(first) == made,
        call_ensures(
            AccessAdapter::<A, V>::next_key_seed::<S>,
            (first, kseed),
            Ok::<Option<S::Value>, A::Error>(Some(key)),
        ),
        call_ensures(AccessAdapter::<A, V>::size_hint, (&*final(first),), waiting),
        *old(second) == *final(first),
        call_ensures(AccessAdapter::<A, V>::next_value_seed::<T>, (second, vseed), result),
        call_ensures(AccessAdapter::<A, V>::size_hint, (&*final(second),), hint),
    ensures
        exists|value_access: V|
            {
                &&& #[trigger] call_ensures(
                    <A as MapKeyAccess<S>>::next_key_seed,
                    (access, kseed),
                    Ok::<Option<(S::Value, V)>, A::Error>(Some((key, value_access))),
                )
                &&& call_ensures(<V as MapValueAccessor>::size_hint, (&value_access,), waiting)
                &&& match result {
                    Ok(value) => exists|next: A|
                        {
                            &&& #[trigger] call_ensures(
                                <V as MapValueAccess<T>>::next_value_seed,
                                (value_access, vseed),
                                Ok::<(T::Value, A), A::Error>((value, next)),
                            )
                            &&& call_ensures(<A as MapKeyAccessor>::size_hint, (&next,), hint)
                        },
                    Err(error) => {
                        &&& call_ensures(
                            <V as MapValueAccess<T>>::next_value_seed,
                            (value_access, vseed),
                            Err::<(T::Value, A), A::Error>(error),
                        )
                        &&& hint == Some(0usize)
                    },
                }
            },
{
    key_request_hands_the_reply_on::<S, A, V>(first, access, kseed, Ok(Some(key)));
    let value_access = final(first)@->Value_0;
    value_request_hands_the_reply_on::<T, A, V>(second, value_access, vseed, result);
    assert(call_ensures(<V as MapValueAccessor>::size_hint, (&value_access,), waiting));
    if let AccessAdapterState::Ready(next) = final(second)@ {
        assert(call_ensures(<A as MapKeyAccessor>::size_hint, (&next,), hint));
    }
}

/// A new adapter stands ready with the accessor that it was made from, and
/// showing its state shows just that.
pub proof fn new_adapter_shows_its_accessor<A, V>(
    access: A,
    adapter: AccessAdapter<A, V>,
    state: &AccessAdapterState<A, V>,
)
    requires
        call_ensures(AccessAdapter::<A, V>::new, (access,), adapter),
        call_ensures(AccessAdapter::<A, V>::state, (&adapter,), state),
    ensures
        *state == AccessAdapterState::<A, V>::Ready(access),
{
}

/// Taking the state out of an adapter hands over the state that it showed
/// before, whatever that was, and leaves one that shows itself exhausted and
/// has nothing more to hand over.
pub proof fn take_hands_over_what_was_shown<A, V>(
    shown: &AccessAdapterState<A, V>,
    first: &mut AccessAdapter<A, V>,
    taken: AccessAdapterState<A, V>,
    left: &AccessAdapterState<A, V>,
    second: &mut AccessAdapter<A, V>,
    taken2: AccessAdapterState<A, V>,
)
    requires
        call_ensures(AccessAdapter::<A, V>::state, (&*old(first),), shown),
        call_ensures(AccessAdapter::<A, V>::take, (first,), taken),
        call_ensures(AccessAdapter::<A, V>::state, (&*final(first),), left),
        *old(second) == *final(first),
        call_ensures(AccessAdapter::<A, V>::take, (second,), taken2),
    ensures
        taken == *shown,
        *left is Dead,
        taken2 is Dead,
{
}

/// Taking a state hands it over as it was and leaves `Dead`, so that taking it
/// again hands over `Dead`.
pub proof fn state_is_taken_once<A, V>(
    first: &mut AccessAdapterState<A, V>,
    taken: AccessAdapterState<A, V>,
    second: &mut AccessAdapterState<A, V>,
    taken2: AccessAdapterState<A, V>,
)
    requires
        call_ensures(AccessAdapterState::<A, V>::take, (first,), taken),
        *old(second) == *final(first),
        call_ensures(AccessAdapterState::<A, V>::take, (second,), taken2),
    ensures
        taken == *old(first),
        *final(first) is Dead,
        taken2 is Dead,
        *final(second) is Dead,
{
}

/// Settling the reply to a request for an element or an entry parts it: the item
/// goes out and the accessor stays; the end and an error go out as they are and
/// change nothing.
pub proof fn settling_an_item_parts_it_from_its_successor<A, V, T, E>(
    state: &mut AccessAdapterState<A, V>,
    outcome: Result<Option<(T, A)>, E>,
    result: Result<Option<T>, E>,
)
    requires
        call_ensures(AccessAdapterState::<A, V>::settle_next::<T, E>, (state, outcome), result),
    ensures
        match (outcome, result) {
            (Ok(Some(pair)), Ok(Some(item))) => {
                &&& item == pair.0
                &&& *final(state) == AccessAdapterState::<A, V>::Ready(pair.1)
            },
            (Ok(None), Ok(None)) => *final(state) == *old(state),
            (Err(error), Err(passed)) => passed == error && *final(state) == *old(state),
            _ => false,
        },
{
}

/// Settling the reply to a request for a key parts it: the key goes out and the
/// value accessor waits; the end and an error go out as they are and change
/// nothing.
pub proof fn settling_a_key_parts_it_from_its_value<A, V, T, E>(
    state: &mut AccessAdapterState<A, V>,
    outcome: Result<Option<(T, V)>, E>,
    result: Result<Option<T>, E>,
)
    requires
        call_ensures(AccessAdapterState::<A, V>::settle_key::<T, E>, (state, outcome), result),
    ensures
        match (outcome, result) {
            (Ok(Some(pair)), Ok(Some(key))) => {
                &&& key == pair.0
                &&& *final(state) == AccessAdapterState::<A, V>::Value(pair.1)
            },
            (Ok(None), Ok(None)) => *final(state) == *old(state),
            (Err(error), Err(passed)) => passed == error && *final(state) == *old(state),
            _ => false,
        },
{
}

/// Settling the reply to a request for a value parts it: the value goes out and
/// the key accessor stays; an error goes out as it is and changes nothing.
pub proof fn settling_a_value_parts_it_from_its_successor<A, V, T, E>(
    state: &mut AccessAdapterState<A, V>,
    outcome: Result<(T, A), E>,
    result: Result<T, E>,
)
    requires
        call_ensures(AccessAdapterState::<A, V>::settle_value::<T, E>, (state, outcome), result),
    ensures
        match (outcome, result) {
            (Ok(pair), Ok(value)) => {
                &&& value == pair.0
                &&& *final(state) == AccessAdapterState::<A, V>::Ready(pair.1)
            },
            (Err(error), Err(passed)) => passed == error && *final(state) == *old(state),
            _ => false,
        },
{
}

/// Completing an entry loses neither its key, nor its value, nor the accessor
/// that follows, and passes an error on.
pub proof fn completed_entry_keeps_its_parts<K, V, A, E>(
    key: K,
    value_outcome: Result<(V, A), E>,
    outcome: Result<Option<((K, V), A)>, E>,
)
    requires
        call_ensures(
            crate::access::complete_entry::<K, V, A, E>,
            (key, value_outcome),
            outcome,
        ),
    ensures
        match (value_outcome, outcome) {
            (Ok(pair), Ok(Some(entry))) => {
                &&& entry.0.0 == key
                &&& entry.0.1 == pair.0
                &&& entry.1 == pair.1
            },
            (Err(error), Err(passed)) => passed == error,
            _ => false,
        },
{
}

/// Reading an entry as its key and then its value: the key is a reply to `kseed`,
/// the value is a reply of the value accessor that came with that key to
/// `vseed`, and the accessor handed back is the one that came with that value.
/// The end is a reply to `kseed`, and an error a reply to either.
pub proof fn entry_is_read_from_its_key_and_value<K: Seed, W: Seed, A, V>(
    access: A,
    kseed: K,
    vseed: W,
    outcome: Result<Option<((K::Value, W::Value), A)>, A::Error>,
) where A: MapKeyAccess<K, Value = V>, V: MapValueAccess<W, Key = A, Error = A::Error>
    requires
        call_ensures(
            crate::access::key_then_value::<K, W, A>,
            (access, kseed, vseed),
            outcome,
        ),
    ensures
        match outcome {
            Ok(Some(entry)) => exists|value_access: V|
                {
                    &&& #[trigger] call_ensures(
                        <A as MapKeyAccess<K>>::next_key_seed,
                        (access, kseed),
                        Ok::<Option<(K::Value, V)>, A::Error>(Some((entry.0.0, value_access))),
                    )
                    &&& call_ensures(
                        <V as MapValueAccess<W>>::next_value_seed,
                        (value_access, vseed),
                        Ok::<(W::Value, A), A::Error>((entry.0.1, entry.1)),
                    )
                },
            Ok(None) => call_ensures(
                <A as MapKeyAccess<K>>::next_key_seed,
                (access, kseed),
                Ok::<Option<(K::Value, V)>, A::Error>(None),
            ),
            Err(error) => {
                ||| call_ensures(
                    <A as MapKeyAccess<K>>::next_key_seed,
                    (access, kseed),
                    Err::<Option<(K::Value, V)>, A::Error>(error),
                )
                ||| exists|key: K::Value, value_access: V|
                    {
                        &&& #[trigger] call_ensures(
                            <A as MapKeyAccess<K>>::next_key_seed,
                            (access, kseed),
                            Ok::<Option<(K::Value, V)>, A::Error>(Some((key, value_access))),
                        )
                        &&& call_ensures(
                            <V as MapValueAccess<W>>::next_value_seed,
                            (value_access, vseed),
                            Err::<(W::Value, A), A::Error>(error),
                        )
                    }
            },
        },
{
    let key_outcome = choose|key_outcome: Result<Option<(K::Value, V)>, A::Error>|
        {
            &&& #[trigger] call_ensures(
                <A as MapKeyAccess<K>>::next_key_seed,
                (access, kseed),
                key_outcome,
            )
            &&& match key_outcome {
                Ok(Some((key, value_access))) => exists|
                    value_outcome: Result<(W::Value, A), A::Error>,
                |
                    {
                        &&& #[trigger] call_ensures(
                            <V as MapValueAccess<W>>::next_value_seed,
                            (value_access, vseed),
                            value_outcome,
                        )
                        &&& outcome == crate::access::entry_outcome(key, value_outcome)
                    },
                Ok(None) => outcome matches Ok(None),
                Err(error) => outcome matches Err(passed) && passed == error,
            }
        };
    if let Ok(Some((key, value_access))) = key_outcome {
        let value_outcome = choose|value_outcome: Result<(W::Value, A), A::Error>|
            {
                &&& #[trigger] call_ensures(
                    <V as MapValueAccess<W>>::next_value_seed,
                    (value_access, vseed),
                    value_outcome,
                )
                &&& outcome == crate::access::entry_outcome(key, value_outcome)
            };
        if let Ok(Some(entry)) = outcome {
            assert(value_outcome == Ok::<(W::Value, A), A::Error>((entry.0.1, entry.1)));
            assert(key_outcome == Ok::<Option<(K::Value, V)>, A::Error>(
                Some((entry.0.0, value_access)),
            ));
        }
    }
}

/// Rejoining a parent to what reading its value returned hands back that very
/// parent along with the value, and passes an error on.
pub proof fn rejoined_parent_is_kept<T, K, E>(
    parent: K,
    outcome: Result<T, E>,
    reply: Result<(T, K), E>,
)
    requires
        call_ensures(crate::subordinate::rejoin::<T, K, E>, (parent, outcome), reply),
    ensures
        match (outcome, reply) {
            (Ok(value), Ok(pair)) => pair.0 == value && pair.1 == parent,
            (Err(error), Err(passed)) => passed == error,
            _ => false,
        },
{
}

/// A [`SubordinateValue`] replies with what the seed reads from the value that
/// it holds, and hands back the parent that it holds.
pub proof fn subordinate_value_is_read_by_the_seed<S, D, K>(
    subordinate: SubordinateValue<D, K>,
    seed: S,
    outcome: Result<(S::Value, K), K::Error>,
) where S: DeserializeSeed<D, Error = K::Error>, K: MapKeyAccessor
    requires
        call_ensures(
            <SubordinateValue<D, K> as MapValueAccess<S>>::next_value_seed,
            (subordinate, seed),
            outcome,
        ),
    ensures
        match outcome {
            Ok(pair) => {
                &&& pair.1 == subordinate.parent
                &&& call_ensures(
                    <S as DeserializeSeed<D>>::deserialize,
                    (seed, subordinate.value),
                    Ok::<S::Value, K::Error>(pair.0),
                )
            },
            Err(error) => call_ensures(
                <S as DeserializeSeed<D>>::deserialize,
                (seed, subordinate.value),
                Err::<S::Value, K::Error>(error),
            ),
        },
{
}

/// The size hint of a [`SubordinateValue`] is one that its parent can give.
pub proof fn subordinate_value_hints_as_its_parent<D, K: MapKeyAccessor>(
    subordinate: SubordinateValue<D, K>,
    hint: Option<usize>,
)
    requires
        call_ensures(
            <SubordinateValue<D, K> as MapValueAccessor>::size_hint,
            (&subordinate,),
            hint,
        ),
    ensures
        call_ensures(<K as MapKeyAccessor>::size_hint, (&subordinate.parent,), hint),
{
}

} // verus!
