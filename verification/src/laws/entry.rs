//! How an entry relates to its key and its value.

use vstd::prelude::*;

use crate::access::{
    DeserializeSeed, MapEntryAccess, MapKeyAccess, MapKeyAccessor, MapValueAccess, Seed,
};
use crate::adapter::AccessAdapterState;
use crate::subordinate::SubordinateValue;

verus! {

/// Whether an adapter that holds `access`, and reads an entry the way
/// [`MapEntryAccess`] does by default, can return `result` to a request for an
/// entry and be left in the state `after`.
pub open spec fn default_entry_step<K: Seed, W: Seed, A, V>(
    access: A,
    kseed: K,
    vseed: W,
    result: Result<Option<(K::Value, W::Value)>, A::Error>,
    after: AccessAdapterState<A, V>,
) -> bool where A: MapKeyAccess<K, Value = V>, V: MapValueAccess<W, Key = A, Error = A::Error> {
    exists|outcome: Result<Option<((K::Value, W::Value), A)>, A::Error>|
        {
            &&& #[trigger] crate::access::key_then_value_outcome::<K, W, A>(
                access,
                kseed,
                vseed,
                outcome,
            )
            &&& result == crate::adapter::yielded(outcome)
            &&& after == AccessAdapterState::<A, V>::Dead.after_next(outcome)
        }
}

/// Whether a request for a value in the state `between`, after one for its
/// `key`, can complete the entry to `result` and leave the state `after`.
pub open spec fn value_completes_entry<K: Seed, W: Seed, A, V>(
    key: K::Value,
    between: AccessAdapterState<A, V>,
    vseed: W,
    result: Result<Option<(K::Value, W::Value)>, A::Error>,
    after: AccessAdapterState<A, V>,
) -> bool where A: MapKeyAccess<K, Value = V>, V: MapValueAccess<W, Key = A, Error = A::Error> {
    exists|value_result: Result<W::Value, A::Error>|
        {
            &&& #[trigger] between.value_step(vseed, value_result, after)
            &&& result == match value_result {
                Ok(value) => Ok(Some((key, value))),
                Err(error) => Err(error),
            }
        }
}

/// Whether a request for a key, and then one for its value if there is one,
/// can return `result` taken together, and leave an adapter that held `access`
/// in the state `after`.
pub open spec fn key_step_then_value_step<K: Seed, W: Seed, A, V>(
    access: A,
    kseed: K,
    vseed: W,
    result: Result<Option<(K::Value, W::Value)>, A::Error>,
    after: AccessAdapterState<A, V>,
) -> bool where A: MapKeyAccess<K, Value = V>, V: MapValueAccess<W, Key = A, Error = A::Error> {
    exists|key_result: Result<Option<K::Value>, A::Error>, between: AccessAdapterState<A, V>|
        {
            &&& #[trigger] AccessAdapterState::<A, V>::Ready(access).key_step(
                kseed,
                key_result,
                between,
            )
            &&& match key_result {
                Ok(Some(key)) => value_completes_entry::<K, W, A, V>(
                    key,
                    between,
                    vseed,
                    result,
                    after,
                ),
                Ok(None) => {
                    &&& result == Ok::<Option<(K::Value, W::Value)>, A::Error>(None)
                    &&& after == between
                },
                Err(error) => {
                    &&& result == Err::<Option<(K::Value, W::Value)>, A::Error>(error)
                    &&& after == between
                },
            }
        }
}

/// Reading an entry the default way is reading its key and then its value:
/// both return the same and leave the adapter in the same state.
pub proof fn entry_is_key_then_value<K: Seed, W: Seed, A, V>(
    access: A,
    kseed: K,
    vseed: W,
    result: Result<Option<(K::Value, W::Value)>, A::Error>,
    after: AccessAdapterState<A, V>,
) where A: MapKeyAccess<K, Value = V>, V: MapValueAccess<W, Key = A, Error = A::Error>
    ensures
        default_entry_step(access, kseed, vseed, result, after) <==> key_step_then_value_step(
            access,
            kseed,
            vseed,
            result,
            after,
        ),
{
    let ready = AccessAdapterState::<A, V>::Ready(access);
    let dead = AccessAdapterState::<A, V>::Dead;
    if default_entry_step(access, kseed, vseed, result, after) {
        let outcome = choose|outcome: Result<Option<((K::Value, W::Value), A)>, A::Error>|
            {
                &&& #[trigger] crate::access::key_then_value_outcome::<K, W, A>(
                    access,
                    kseed,
                    vseed,
                    outcome,
                )
                &&& result == crate::adapter::yielded(outcome)
                &&& after == dead.after_next(outcome)
            };
        let key_outcome = choose|key_outcome: Result<Option<(K::Value, V)>, A::Error>|
            {
                &&& #[trigger] call_ensures(
                    <A as MapKeyAccess<K>>::next_key_seed,
                    (access, kseed),
                    key_outcome,
                )
                &&& match key_outcome {
                    Ok(Some((key, value_access))) => exists|
                        value_outcome: Result<(W::Value, A), A::Error>,
                    |
                        {
                            &&& #[trigger] call_ensures(
                                <V as MapValueAccess<W>>::next_value_seed,
                                (value_access, vseed),
                                value_outcome,
                            )
                            &&& outcome == crate::access::entry_outcome(key, value_outcome)
                        },
                    Ok(None) => outcome matches Ok(None),
                    Err(error) => outcome matches Err(passed) && passed == error,
                }
            };
        let between = dead.after_key(key_outcome);
        assert(ready.key_step(kseed, crate::adapter::yielded(key_outcome), between));
        if let Ok(Some((key, value_access))) = key_outcome {
            let value_outcome = choose|value_outcome: Result<(W::Value, A), A::Error>|
                {
                    &&& #[trigger] call_ensures(
                        <V as MapValueAccess<W>>::next_value_seed,
                        (value_access, vseed),
                        value_outcome,
                    )
                    &&& outcome == crate::access::entry_outcome(key, value_outcome)
                };
            assert(between.value_step(vseed, crate::adapter::yielded_value(value_outcome), after));
        }
    }
    if key_step_then_value_step(access, kseed, vseed, result, after) {
        let (key_result, between) = choose|
            key_result: Result<Option<K::Value>, A::Error>,
            between: AccessAdapterState<A, V>,
        |
            {
                &&& #[trigger] ready.key_step(kseed, key_result, between)
                &&& match key_result {
                    Ok(Some(key)) => value_completes_entry::<K, W, A, V>(
                        key,
                        between,
                        vseed,
                        result,
                        after,
                    ),
                    Ok(None) => (result matches Ok(None)) && after == between,
                    Err(error) => (result matches Err(passed) && passed == error) && after
                        == between,
                }
            };
        match key_result {
            Ok(Some(key)) => {
                let value_access = between->Value_0;
                let value_result = choose|value_result: Result<W::Value, A::Error>|
                    {
                        &&& #[trigger] between.value_step(vseed, value_result, after)
                        &&& result == match value_result {
                            Ok(value) => Ok(Some((key, value))),
                            Err(error) => Err(error),
                        }
                    };
                let value_outcome = choose|value_outcome: Result<(W::Value, A), A::Error>|
                    {
                        &&& #[trigger] call_ensures(
                            <V as MapValueAccess<W>>::next_value_seed,
                            (value_access, vseed),
                            value_outcome,
                        )
                        &&& value_result == crate::adapter::yielded_value(value_outcome)
                        &&& after == dead.after_value(value_outcome)
                    };
                assert(crate::access::key_then_value_outcome::<K, W, A>(
                    access,
                    kseed,
                    vseed,
                    crate::access::entry_outcome(key, value_outcome),
                ));
            },
            Ok(None) => {
                assert(crate::access::key_then_value_outcome::<K, W, A>(
                    access,
                    kseed,
                    vseed,
                    Ok(None),
                ));
            },
            Err(error) => {
                assert(crate::access::key_then_value_outcome::<K, W, A>(
                    access,
                    kseed,
                    vseed,
                    Err(error),
                ));
            },
        }
    }
}

/// A request for an entry, made of an adapter whose accessor reads an entry as
/// its key and then its value, as it does by default, returns what a request for
/// the key and then one for the value return, and leaves the adapter in the same
/// state. Where the accessor can reply whatever its key and then its value can,
/// the converse holds too.
pub proof fn entry_request_is_key_then_value_request<K: Seed, W: Seed, A, V>(
    access: A,
    kseed: K,
    vseed: W,
    result: Result<Option<(K::Value, W::Value)>, A::Error>,
    after: AccessAdapterState<A, V>,
) where
    A: MapEntryAccess<K, W> + MapKeyAccessor<Value = V>,
    V: MapValueAccess<W, Key = A, Error = A::Error>,

    requires
        forall|outcome: Result<Option<((K::Value, W::Value), A)>, A::Error>| #[trigger]
            call_ensures(
                <A as MapEntryAccess<K, W>>::next_entry_seed,
                (access, kseed, vseed),
                outcome,
            ) ==> crate::access::key_then_value_outcome::<K, W, A>(access, kseed, vseed, outcome),
    ensures
        AccessAdapterState::<A, V>::Ready(access).entry_step(kseed, vseed, result, after)
            ==> key_step_then_value_step(access, kseed, vseed, result, after),
        (forall|outcome: Result<Option<((K::Value, W::Value), A)>, A::Error>| #[trigger]
            crate::access::key_then_value_outcome::<K, W, A>(access, kseed, vseed, outcome)
                ==> call_ensures(
                <A as MapEntryAccess<K, W>>::next_entry_seed,
                (access, kseed, vseed),
                outcome,
            )) ==> (key_step_then_value_step(access, kseed, vseed, result, after)
            ==> AccessAdapterState::<A, V>::Ready(access).entry_step(kseed, vseed, result, after)),
{
    entry_is_key_then_value(access, kseed, vseed, result, after);
}

/// While a [`SubordinateValue`] is waiting, a request for the value returns
/// what the seed reads from the value that it holds, and on success the
/// adapter continues with the parent that it holds.
pub proof fn subordinate_value_resumes_parent<W, D, A>(
    subordinate: SubordinateValue<D, A>,
    seed: W,
    result: Result<W::Value, A::Error>,
    after: AccessAdapterState<A, SubordinateValue<D, A>>,
) where W: DeserializeSeed<D, Error = A::Error>, A: MapKeyAccessor
    requires
        AccessAdapterState::<A, SubordinateValue<D, A>>::Value(subordinate).value_step(
            seed,
            result,
            after,
        ),
    ensures
        call_ensures(<W as DeserializeSeed<D>>::deserialize, (seed, subordinate.value), result),
        after == match result {
            Ok(_) => AccessAdapterState::<A, SubordinateValue<D, A>>::Ready(subordinate.parent),
            Err(_) => AccessAdapterState::Dead,
        },
{
}

/// While a [`SubordinateValue`] is waiting, the size hint is the one that its
/// parent gives once the value has been read: the entry whose value is waiting
/// is not counted.
pub proof fn waiting_entry_is_not_counted<D, A: MapKeyAccessor>(
    subordinate: SubordinateValue<D, A>,
    hint: Option<usize>,
)
    requires
        AccessAdapterState::<A, SubordinateValue<D, A>>::Value(subordinate).map_hints(hint),
    ensures
        AccessAdapterState::<A, SubordinateValue<D, A>>::Ready(subordinate.parent).map_hints(hint),
{
}

} // verus!
