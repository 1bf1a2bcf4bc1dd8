//! The adapter from move-oriented accessors to requests through `&mut self`.

use core::convert::Infallible;
use vstd::prelude::*;

use crate::access::{
    MapEntryAccess, MapKeyAccess, MapKeyAccessor, MapValueAccess, MapValueAccessor, Seed, SeqAccess,
    SeqAccessor,
};

verus! {

/// Where an [`AccessAdapter`] stands between two requests.
#[derive(Debug, Clone)]
pub enum AccessAdapterState<K, V> {
    /// The next element, key or entry can be asked for.
    Ready(K),
    /// A key has been read and its value can be asked for.
    Value(V),
    /// There is nothing left to read.
    Dead,
}

/// What a request returns to its caller of what the accessor replied.
pub open spec fn yielded<T, A, E>(outcome: Result<Option<(T, A)>, E>) -> Result<Option<T>, E> {
    match outcome {
        Ok(Some((item, _))) => Ok(Some(item)),
        Ok(None) => Ok(None),
        Err(error) => Err(error),
    }
}

/// What a request for a value returns to its caller of what the accessor replied.
pub open spec fn yielded_value<T, A, E>(outcome: Result<(T, A), E>) -> Result<T, E> {
    match outcome {
        Ok((value, _)) => Ok(value),
        Err(error) => Err(error),
    }
}

impl<K, V> AccessAdapterState<K, V> {
    /// The state after the accessor was asked for an element or an entry and
    /// replied `outcome`: with its successor, if it handed one back, and
    /// otherwise `self`.
    pub open spec fn after_next<T, E>(self, outcome: Result<Option<(T, K)>, E>) -> Self {
        match outcome {
            Ok(Some((_, access))) => AccessAdapterState::Ready(access),
            _ => self,
        }
    }

    /// The state after the accessor was asked for a key and replied `outcome`.
    pub open spec fn after_key<T, E>(self, outcome: Result<Option<(T, V)>, E>) -> Self {
        match outcome {
            Ok(Some((_, value_access))) => AccessAdapterState::Value(value_access),
            _ => self,
        }
    }

    /// The state after the accessor was asked for a value and replied `outcome`.
    pub open spec fn after_value<T, E>(self, outcome: Result<(T, K), E>) -> Self {
        match outcome {
            Ok((_, access)) => AccessAdapterState::Ready(access),
            Err(_) => self,
        }
    }

    /// Whether a request for an element with `seed` can return `result` and
    /// leave the state `after`: a live accessor is asked exactly once, with
    /// `seed`, and nothing remains of it but the successor that it hands back;
    /// with no accessor left there is no element.
    pub open spec fn element_step<S: Seed>(
        self,
        seed: S,
        result: Result<Option<S::Value>, K::Error>,
        after: Self,
    ) -> bool where K: SeqAccess<S> {
        match self {
            AccessAdapterState::Ready(access) => exists|
                outcome: Result<Option<(S::Value, K)>, K::Error>,
            |
                {
                    &&& #[trigger] call_ensures(
                        <K as SeqAccess<S>>::next_element_seed,
                        (access, seed),
                        outcome,
                    )
                    &&& result == yielded(outcome)
                    &&& after == AccessAdapterState::<K, V>::Dead.after_next(outcome)
                },
            _ => result == Ok::<Option<S::Value>, K::Error>(None) && after is Dead,
        }
    }

    /// Whether a request for a key with `seed` can return `result` and leave
    /// the state `after`. It is out of order while a value is waiting.
    pub open spec fn key_step<S: Seed>(
        self,
        seed: S,
        result: Result<Option<S::Value>, K::Error>,
        after: Self,
    ) -> bool where K: MapKeyAccess<S, Value = V> {
        match self {
            AccessAdapterState::Ready(access) => exists|
                outcome: Result<Option<(S::Value, V)>, K::Error>,
            |
                {
                    &&& #[trigger] call_ensures(
                        <K as MapKeyAccess<S>>::next_key_seed,
                        (access, seed),
                        outcome,
                    )
                    &&& result == yielded(outcome)
                    &&& after == AccessAdapterState::<K, V>::Dead.after_key(outcome)
                },
            AccessAdapterState::Value(_) => false,
            AccessAdapterState::Dead => {
                result == Ok::<Option<S::Value>, K::Error>(None) && after is Dead
            },
        }
    }

    /// Whether a request for a value with `seed` can return `result` and leave
    /// the state `after`. It is out of order unless a value is waiting.
    pub open spec fn value_step<S: Seed>(
        self,
        seed: S,
        result: Result<S::Value, V::Error>,
        after: Self,
    ) -> bool where V: MapValueAccess<S, Key = K> {
        match self {
            AccessAdapterState::Value(access) => exists|
                outcome: Result<(S::Value, K), V::Error>,
            |
                {
                    &&& #[trigger] call_ensures(
                        <V as MapValueAccess<S>>::next_value_seed,
                        (access, seed),
                        outcome,
                    )
                    &&& result == yielded_value(outcome)
                    &&& after == AccessAdapterState::<K, V>::Dead.after_value(outcome)
                },
            _ => false,
        }
    }

    /// Whether a request for an entry with `kseed` and `vseed` can return
    /// `result` and leave the state `after`. It is out of order while a value
    /// is waiting.
    pub open spec fn entry_step<KS: Seed, VS: Seed>(
        self,
        kseed: KS,
        vseed: VS,
        result: Result<Option<(KS::Value, VS::Value)>, K::Error>,
        after: Self,
    ) -> bool where
        K: MapEntryAccess<KS, VS> + MapKeyAccessor<Value = V>,
        V: MapValueAccess<VS, Key = K>,
     {
        match self {
            AccessAdapterState::Ready(access) => exists|
                outcome: Result<Option<((KS::Value, VS::Value), K)>, K::Error>,
            |
                {
                    &&& #[trigger] call_ensures(
                        <K as MapEntryAccess<KS, VS>>::next_entry_seed,
                        (access, kseed, vseed),
                        outcome,
                    )
                    &&& result == yielded(outcome)
                    &&& after == AccessAdapterState::<K, V>::Dead.after_next(outcome)
                },
            AccessAdapterState::Value(_) => false,
            AccessAdapterState::Dead => {
                &&& result == Ok::<Option<(KS::Value, VS::Value)>, K::Error>(None)
                &&& after is Dead
            },
        }
    }

    /// Whether `hint` can be the size hint of a sequence in this state: that of
    /// the accessor in it, or zero if there is none left.
    pub open spec fn seq_hints(self, hint: Option<usize>) -> bool where K: SeqAccessor {
        match self {
            AccessAdapterState::Ready(access) => call_ensures(
                <K as SeqAccessor>::size_hint,
                (&access,),
                hint,
            ),
            _ => hint == Some(0usize),
        }
    }

    /// Whether `hint` can be the size hint of a map in this state: that of the
    /// accessor in it, or zero if there is none left.
    pub open spec fn map_hints(self, hint: Option<usize>) -> bool where
        K: MapKeyAccessor,
        V: MapValueAccessor,
     {
        match self {
            AccessAdapterState::Ready(access) => call_ensures(
                <K as MapKeyAccessor>::size_hint,
                (&access,),
                hint,
            ),
            AccessAdapterState::Value(access) => call_ensures(
                <V as MapValueAccessor>::size_hint,
                (&access,),
                hint,
            ),
            AccessAdapterState::Dead => hint == Some(0usize),
        }
    }

    /// Takes the state out and leaves `Dead` in its place.
    pub fn take(&mut self) -> (taken: Self)
        ensures
            taken == *old(self),
            *final(self) == AccessAdapterState::<K, V>::Dead,
    {
        let mut taken = AccessAdapterState::Dead;
        core::mem::swap(&mut taken, self);
        taken
    }

    /// Keeps the successor out of the reply to a request for an element or an
    /// entry, if there is one, and returns the rest of the reply.
    pub fn settle_next<T, E>(&mut self, outcome: Result<Option<(T, K)>, E>) -> (result: Result<
        Option<T>,
        E,
    >)
        ensures
            result == yielded(outcome),
            *final(self) == old(self).after_next(outcome),
    {
        match outcome {
            Ok(Some((item, access))) => {
                *self = AccessAdapterState::Ready(access);
                Ok(Some(item))
            },
            Ok(None) => Ok(None),
            Err(error) => Err(error),
        }
    }

    /// Keeps the value accessor out of the reply to a request for a key, if
    /// there is one, and returns the rest of the reply.
    pub fn settle_key<T, E>(&mut self, outcome: Result<Option<(T, V)>, E>) -> (result: Result<
        Option<T>,
        E,
    >)
        ensures
            result == yielded(outcome),
            *final(self) == old(self).after_key(outcome),
    {
        match outcome {
            Ok(Some((key, value_access))) => {
                *self = AccessAdapterState::Value(value_access);
                Ok(Some(key))
            },
            Ok(None) => Ok(None),
            Err(error) => Err(error),
        }
    }

    /// Keeps the key accessor out of the reply to a request for a value, if
    /// there is one, and returns the rest of the reply.
    pub fn settle_value<T, E>(&mut self, outcome: Result<(T, K), E>) -> (result: Result<T, E>)
        ensures
            result == yielded_value(outcome),
            *final(self) == old(self).after_value(outcome),
    {
        match outcome {
            Ok((value, access)) => {
                *self = AccessAdapterState::Ready(access);
                Ok(value)
            },
            Err(error) => Err(error),
        }
    }
}

/// Turns a move-oriented accessor into one that is asked through `&mut self`.
///
/// The accessor underneath is consumed by each request and is gone once it
/// reports the end or an error, so the adapter is fused: requests for an
/// element, a key or an entry keep returning `Ok(None)` from then on.
///
/// It serves sequences, as `AccessAdapter<A, Infallible>` over a
/// [`SeqAccess`], and maps, as `AccessAdapter<A, V>` over a [`MapKeyAccess`]
/// whose values are read through `V`.
#[derive(Debug, Clone)]
pub struct AccessAdapter<K, V> {
    state: AccessAdapterState<K, V>,
}

impl<K, V> View for AccessAdapter<K, V> {
    type V = AccessAdapterState<K, V>;

    closed spec fn view(&self) -> AccessAdapterState<K, V> {
        self.state
    }
}

impl<K, V> AccessAdapter<K, V> {
    /// Creates an adapter that reads through `access`.
    pub fn new(access: K) -> (adapter: Self)
        ensures
            adapter@ == AccessAdapterState::<K, V>::Ready(access),
    {
        AccessAdapter { state: AccessAdapterState::Ready(access) }
    }

    /// Where the adapter stands.
    pub fn state(&self) -> (state: &AccessAdapterState<K, V>)
        ensures
            *state == self@,
    {
        &self.state
    }

    /// Takes the state out and leaves the adapter exhausted.
    pub fn take(&mut self) -> (taken: AccessAdapterState<K, V>)
        ensures
            taken == old(self)@,
            final(self)@ == AccessAdapterState::<K, V>::Dead,
    {
        self.state.take()
    }
}

impl<A> AccessAdapter<A, Infallible> {
    /// The number of elements that remain in a sequence, if known.
    pub fn size_hint(&self) -> (hint: Option<usize>) where A: SeqAccessor
        ensures
            self@.seq_hints(hint),
    {
        match &self.state {
            AccessAdapterState::Ready(access) => access.size_hint(),
            // `Infallible` has no values, so no value is ever waiting.
            AccessAdapterState::Value(_) => Some(0),
            AccessAdapterState::Dead => Some(0),
        }
    }

    /// Asks for the next element of a sequence.
    pub fn next_element_seed<S: Seed>(&mut self, seed: S) -> (result: Result<
        Option<S::Value>,
        A::Error,
    >) where A: SeqAccess<S>
        ensures
            old(self)@.element_step(seed, result, final(self)@),
    {
        match self.take() {
            AccessAdapterState::Ready(access) => {
                let outcome = access.next_element_seed(seed);
                self.state.settle_next(outcome)
            },
            // `Infallible` has no values, so no value is ever waiting.
            AccessAdapterState::Value(_) => Ok(None),
            AccessAdapterState::Dead => Ok(None),
        }
    }
}

impl<A, V: MapValueAccessor> AccessAdapter<A, V> {
    /// The number of entries that remain in a map, if known. The entry whose
    /// value is waiting is not counted.
    pub fn size_hint(&self) -> (hint: Option<usize>) where A: MapKeyAccessor
        ensures
            self@.map_hints(hint),
    {
        match &self.state {
            AccessAdapterState::Ready(access) => access.size_hint(),
            AccessAdapterState::Value(access) => access.size_hint(),
            AccessAdapterState::Dead => Some(0),
        }
    }

    /// Asks for the next key of a map.
    pub fn next_key_seed<S: Seed>(&mut self, seed: S) -> (result: Result<
        Option<S::Value>,
        A::Error,
    >) where A: MapKeyAccess<S, Value = V>
        requires
            old(self)@ !is Value,
        ensures
            old(self)@.key_step(seed, result, final(self)@),
    {
        match self.take() {
            AccessAdapterState::Ready(access) => {
                let outcome = access.next_key_seed(seed);
                self.state.settle_key(outcome)
            },
            AccessAdapterState::Value(_) => vstd::pervasive::unreached(),
            AccessAdapterState::Dead => Ok(None),
        }
    }

    /// Asks for the value that belongs to the key which was read last.
    pub fn next_value_seed<S: Seed>(&mut self, seed: S) -> (result: Result<
        S::Value,
        V::Error,
    >) where V: MapValueAccess<S, Key = A>
        requires
            old(self)@ is Value,
        ensures
            old(self)@.value_step(seed, result, final(self)@),
    {
        match self.take() {
            AccessAdapterState::Value(access) => {
                let outcome = access.next_value_seed(seed);
                self.state.settle_value(outcome)
            },
            AccessAdapterState::Ready(_) => vstd::pervasive::unreached(),
            AccessAdapterState::Dead => vstd::pervasive::unreached(),
        }
    }

    /// Asks for the next entry of a map.
    pub fn next_entry_seed<K: Seed, W: Seed>(&mut self, kseed: K, vseed: W) -> (result: Result<
        Option<(K::Value, W::Value)>,
        A::Error,
    >) where
        A: MapEntryAccess<K, W> + MapKeyAccessor<Value = V>,
        V: MapValueAccess<W, Key = A>,

        requires
            old(self)@ !is Value,
        ensures
            old(self)@.entry_step(kseed, vseed, result, final(self)@),
    {
        match self.take() {
            AccessAdapterState::Ready(access) => {
                let outcome = access.next_entry_seed(kseed, vseed);
                self.state.settle_next(outcome)
            },
            AccessAdapterState::Value(_) => vstd::pervasive::unreached(),
            AccessAdapterState::Dead => Ok(None),
        }
    }
}

} // verus!
