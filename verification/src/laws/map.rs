//! Runs of requests to a map adapter.

use vstd::prelude::*;

use crate::access::{
    MapEntryAccess, MapKeyAccess, MapKeyAccessor, MapValueAccess, MapValueAccessor, Seed,
};
use crate::adapter::AccessAdapterState;
use crate::laws::OneOf;

verus! {

/// A request to a map adapter, with seeds of its own types, together with what
/// it returned, as it can be made of a key accessor of type `A` and the value
/// accessors that come of it.
pub trait MapRequest<A: MapKeyAccessor>: Sized {
    /// Whether this request can be made of an adapter in the state `before` and
    /// leave it in the state `after`.
    spec fn step(
        self,
        before: AccessAdapterState<A, A::Value>,
        after: AccessAdapterState<A, A::Value>,
    ) -> bool;

    /// Whether the key accessor `access`, consumed by this request, can return
    /// what it returned and hand back what `successor` holds.
    spec fn key_by_move(self, access: A, successor: AccessAdapterState<A, A::Value>) -> bool;

    /// Whether the value accessor `access`, consumed by this request, can
    /// return what it returned and hand back what `successor` holds.
    spec fn value_by_move(
        self,
        access: A::Value,
        successor: AccessAdapterState<A, A::Value>,
    ) -> bool;

    /// Whether this is a request for a value.
    spec fn for_value(self) -> bool;

    /// Whether this request returned what it asked for.
    spec fn yielded(self) -> bool;

    /// Whether this is a request for a key that returned one.
    spec fn yielded_key(self) -> bool;

    /// Whether this is a request for a key or an entry that returned `Ok(None)`.
    spec fn reported_end(self) -> bool;

    /// The adapter consumes the accessor that it holds and keeps what that one
    /// hands back; if it holds none, it reports the end.
    proof fn lemma_step(
        self,
        before: AccessAdapterState<A, A::Value>,
        after: AccessAdapterState<A, A::Value>,
    )
        ensures
            self.step(before, after) <==> match before {
                AccessAdapterState::Ready(access) => self.key_by_move(access, after),
                AccessAdapterState::Value(access) => self.value_by_move(access, after),
                AccessAdapterState::Dead => self.reported_end() && after is Dead,
            },
    ;

    /// A key accessor serves no request for a value. It hands back a value
    /// accessor with a key, and nothing if it did not return what was asked for.
    proof fn lemma_key_by_move(self, access: A, successor: AccessAdapterState<A, A::Value>)
        ensures
            self.key_by_move(access, successor) ==> {
                &&& !self.for_value()
                &&& (successor is Value <==> self.yielded_key())
                &&& (successor is Dead <==> !self.yielded())
            },
    ;

    /// A value accessor serves requests for a value only. It hands back a key
    /// accessor with the value, and nothing without it.
    proof fn lemma_value_by_move(
        self,
        access: A::Value,
        successor: AccessAdapterState<A, A::Value>,
    )
        ensures
            self.value_by_move(access, successor) ==> {
                &&& self.for_value()
                &&& successor !is Value
                &&& (successor is Dead <==> !self.yielded())
            },
    ;

    /// What the words about the request have to do with each other.
    proof fn lemma_returned(self)
        ensures
            self.reported_end() ==> !self.for_value() && !self.yielded(),
            self.yielded_key() ==> !self.for_value() && self.yielded(),
    ;
}

/// A request for a key with `seed` that returned `result`.
pub struct ForKey<S: Seed, E> {
    pub seed: S,
    pub result: Result<Option<S::Value>, E>,
}

impl<S: Seed, E, A: MapKeyAccess<S, Error = E>> MapRequest<A> for ForKey<S, E> {
    open spec fn step(
        self,
        before: AccessAdapterState<A, A::Value>,
        after: AccessAdapterState<A, A::Value>,
    ) -> bool {
        before.key_step(self.seed, self.result, after)
    }

    open spec fn key_by_move(self, access: A, successor: AccessAdapterState<A, A::Value>) -> bool {
        match (self.result, successor) {
            (Ok(Some(key)), AccessAdapterState::Value(next)) => call_ensures(
                <A as MapKeyAccess<S>>::next_key_seed,
                (access, self.seed),
                Ok::<Option<(S::Value, A::Value)>, E>(Some((key, next))),
            ),
            (Ok(None), AccessAdapterState::Dead) => call_ensures(
                <A as MapKeyAccess<S>>::next_key_seed,
                (access, self.seed),
                Ok::<Option<(S::Value, A::Value)>, E>(None),
            ),
            (Err(error), AccessAdapterState::Dead) => call_ensures(
                <A as MapKeyAccess<S>>::next_key_seed,
                (access, self.seed),
                Err::<Option<(S::Value, A::Value)>, E>(error),
            ),
            _ => false,
        }
    }

    open spec fn value_by_move(
        self,
        access: A::Value,
        successor: AccessAdapterState<A, A::Value>,
    ) -> bool {
        false
    }

    open spec fn for_value(self) -> bool {
        false
    }

    open spec fn yielded(self) -> bool {
        self.result matches Ok(Some(_))
    }

    open spec fn yielded_key(self) -> bool {
        self.result matches Ok(Some(_))
    }

    open spec fn reported_end(self) -> bool {
        self.result matches Ok(None)
    }

    proof fn lemma_step(
        self,
        before: AccessAdapterState<A, A::Value>,
        after: AccessAdapterState<A, A::Value>,
    ) {
    }

    proof fn lemma_key_by_move(self, access: A, successor: AccessAdapterState<A, A::Value>) {
    }

    proof fn lemma_value_by_move(
        self,
        access: A::Value,
        successor: AccessAdapterState<A, A::Value>,
    ) {
    }

    proof fn lemma_returned(self) {
    }
}

/// A request for a value with `seed` that returned `result`.
pub struct ForValue<S: Seed, E> {
    pub seed: S,
    pub result: Result<S::Value, E>,
}

impl<S: Seed, E, A: MapKeyAccessor<Error = E>> MapRequest<A> for ForValue<S, E> where
    A::Value: MapValueAccess<S>,
 {
    open spec fn step(
        self,
        before: AccessAdapterState<A, A::Value>,
        after: AccessAdapterState<A, A::Value>,
    ) -> bool {
        before.value_step(self.seed, self.result, after)
    }

    open spec fn key_by_move(self, access: A, successor: AccessAdapterState<A, A::Value>) -> bool {
        false
    }

    open spec fn value_by_move(
        self,
        access: A::Value,
        successor: AccessAdapterState<A, A::Value>,
    ) -> bool {
        match (self.result, successor) {
            (Ok(value), AccessAdapterState::Ready(next)) => call_ensures(
                <A::Value as MapValueAccess<S>>::next_value_seed,
                (access, self.seed),
                Ok::<(S::Value, A), E>((value, next)),
            ),
            (Err(error), AccessAdapterState::Dead) => call_ensures(
                <A::Value as MapValueAccess<S>>::next_value_seed,
                (access, self.seed),
                Err::<(S::Value, A), E>(error),
            ),
            _ => false,
        }
    }

    open spec fn for_value(self) -> bool {
        true
    }

    open spec fn yielded(self) -> bool {
        self.result is Ok
    }

    open spec fn yielded_key(self) -> bool {
        false
    }

    open spec fn reported_end(self) -> bool {
        false
    }

    proof fn lemma_step(
        self,
        before: AccessAdapterState<A, A::Value>,
        after: AccessAdapterState<A, A::Value>,
    ) {
    }

    proof fn lemma_key_by_move(self, access: A, successor: AccessAdapterState<A, A::Value>) {
    }

    proof fn lemma_value_by_move(
        self,
        access: A::Value,
        successor: AccessAdapterState<A, A::Value>,
    ) {
    }

    proof fn lemma_returned(self) {
    }
}

/// A request for an entry with `kseed` and `vseed` that returned `result`.
pub struct ForEntry<K: Seed, W: Seed, E> {
    pub kseed: K,
    pub vseed: W,
    pub result: Result<Option<(K::Value, W::Value)>, E>,
}

impl<K: Seed, W: Seed, E, A> MapRequest<A> for ForEntry<K, W, E> where
    A: MapEntryAccess<K, W> + MapKeyAccessor<Error = E>,
    A::Value: MapValueAccess<W>,
 {
    open spec fn step(
        self,
        before: AccessAdapterState<A, A::Value>,
        after: AccessAdapterState<A, A::Value>,
    ) -> bool {
        before.entry_step(self.kseed, self.vseed, self.result, after)
    }

    open spec fn key_by_move(self, access: A, successor: AccessAdapterState<A, A::Value>) -> bool {
        match (self.result, successor) {
            (Ok(Some(entry)), AccessAdapterState::Ready(next)) => call_ensures(
                <A as MapEntryAccess<K, W>>::next_entry_seed,
                (access, self.kseed, self.vseed),
                Ok::<Option<((K::Value, W::Value), A)>, E>(Some((entry, next))),
            ),
            (Ok(None), AccessAdapterState::Dead) => call_ensures(
                <A as MapEntryAccess<K, W>>::next_entry_seed,
                (access, self.kseed, self.vseed),
                Ok::<Option<((K::Value, W::Value), A)>, E>(None),
            ),
            (Err(error), AccessAdapterState::Dead) => call_ensures(
                <A as MapEntryAccess<K, W>>::next_entry_seed,
                (access, self.kseed, self.vseed),
                Err::<Option<((K::Value, W::Value), A)>, E>(error),
            ),
            _ => false,
        }
    }

    open spec fn value_by_move(
        self,
        access: A::Value,
        successor: AccessAdapterState<A, A::Value>,
    ) -> bool {
        false
    }

    open spec fn for_value(self) -> bool {
        false
    }

    open spec fn yielded(self) -> bool {
        self.result matches Ok(Some(_))
    }

    open spec fn yielded_key(self) -> bool {
        false
    }

    open spec fn reported_end(self) -> bool {
        self.result matches Ok(None)
    }

    proof fn lemma_step(
        self,
        before: AccessAdapterState<A, A::Value>,
        after: AccessAdapterState<A, A::Value>,
    ) {
    }

    proof fn lemma_key_by_move(self, access: A, successor: AccessAdapterState<A, A::Value>) {
    }

    proof fn lemma_value_by_move(
        self,
        access: A::Value,
        successor: AccessAdapterState<A, A::Value>,
    ) {
    }

    proof fn lemma_returned(self) {
    }
}

impl<A: MapKeyAccessor, L: MapRequest<A>, R: MapRequest<A>> MapRequest<A> for OneOf<L, R> {
    open spec fn step(
        self,
        before: AccessAdapterState<A, A::Value>,
        after: AccessAdapterState<A, A::Value>,
    ) -> bool {
        match self {
            OneOf::First(request) => request.step(before, after),
            OneOf::Second(request) => request.step(before, after),
        }
    }

    open spec fn key_by_move(self, access: A, successor: AccessAdapterState<A, A::Value>) -> bool {
        match self {
            OneOf::First(request) => request.key_by_move(access, successor),
            OneOf::Second(request) => request.key_by_move(access, successor),
        }
    }

    open spec fn value_by_move(
        self,
        access: A::Value,
        successor: AccessAdapterState<A, A::Value>,
    ) -> bool {
        match self {
            OneOf::First(request) => request.value_by_move(access, successor),
            OneOf::Second(request) => request.value_by_move(access, successor),
        }
    }

    open spec fn for_value(self) -> bool {
        match self {
            OneOf::First(request) => request.for_value(),
            OneOf::Second(request) => request.for_value(),
        }
    }

    open spec fn yielded(self) -> bool {
        match self {
            OneOf::First(request) => request.yielded(),
            OneOf::Second(request) => request.yielded(),
        }
    }

    open spec fn yielded_key(self) -> bool {
        match self {
            OneOf::First(request) => request.yielded_key(),
            OneOf::Second(request) => request.yielded_key(),
        }
    }

    open spec fn reported_end(self) -> bool {
        match self {
            OneOf::First(request) => request.reported_end(),
            OneOf::Second(request) => request.reported_end(),
        }
    }

    proof fn lemma_step(
        self,
        before: AccessAdapterState<A, A::Value>,
        after: AccessAdapterState<A, A::Value>,
    ) {
        match self {
            OneOf::First(request) => request.lemma_step(before, after),
            OneOf::Second(request) => request.lemma_step(before, after),
        }
    }

    proof fn lemma_key_by_move(self, access: A, successor: AccessAdapterState<A, A::Value>) {
        match self {
            OneOf::First(request) => request.lemma_key_by_move(access, successor),
            OneOf::Second(request) => request.lemma_key_by_move(access, successor),
        }
    }

    proof fn lemma_value_by_move(
        self,
        access: A::Value,
        successor: AccessAdapterState<A, A::Value>,
    ) {
        match self {
            OneOf::First(request) => request.lemma_value_by_move(access, successor),
            OneOf::Second(request) => request.lemma_value_by_move(access, successor),
        }
    }

    proof fn lemma_returned(self) {
        match self {
            OneOf::First(request) => request.lemma_returned(),
            OneOf::Second(request) => request.lemma_returned(),
        }
    }
}

/// Whether `requests` can be made one after the other from `state` on and leave
/// the state `end`.
pub open spec fn map_run<A: MapKeyAccessor, R: MapRequest<A>>(
    state: AccessAdapterState<A, A::Value>,
    requests: Seq<R>,
    end: AccessAdapterState<A, A::Value>,
) -> bool
    decreases requests.len(),
{
    if requests.len() == 0 {
        end == state
    } else {
        exists|after: AccessAdapterState<A, A::Value>|
            {
                &&& #[trigger] requests[0].step(state, after)
                &&& map_run(after, requests.drop_first(), end)
            }
    }
}

/// Whether reading by move, from the accessor that `first` holds on, can return
/// what `requests` returned: that accessor is consumed by the first request,
/// what it hands back serves the requests that follow, and so on; from the
/// first reply that hands nothing back on there is nothing to ask, and every
/// request is for a key or an entry and returns `Ok(None)`. `rest` holds what
/// is left over.
pub open spec fn map_by_move<A: MapKeyAccessor, R: MapRequest<A>>(
    first: AccessAdapterState<A, A::Value>,
    requests: Seq<R>,
    rest: AccessAdapterState<A, A::Value>,
) -> bool
    decreases requests.len(),
{
    match first {
        AccessAdapterState::Ready(access) => if requests.len() == 0 {
            rest == first
        } else {
            exists|successor: AccessAdapterState<A, A::Value>|
                {
                    &&& #[trigger] requests[0].key_by_move(access, successor)
                    &&& map_by_move(successor, requests.drop_first(), rest)
                }
        },
        AccessAdapterState::Value(access) => if requests.len() == 0 {
            rest == first
        } else {
            exists|successor: AccessAdapterState<A, A::Value>|
                {
                    &&& #[trigger] requests[0].value_by_move(access, successor)
                    &&& map_by_move(successor, requests.drop_first(), rest)
                }
        },
        AccessAdapterState::Dead => all_requests_end::<A, R>(requests) && rest is Dead,
    }
}

/// Whether every request is for a key or an entry and returned `Ok(None)`.
pub open spec fn all_requests_end<A: MapKeyAccessor, R: MapRequest<A>>(requests: Seq<R>) -> bool {
    forall|i: int| 0 <= i < requests.len() ==> (#[trigger] requests[i]).reported_end()
}

/// Whether no request returned an error.
pub open spec fn no_request_failed<A: MapKeyAccessor, R: MapRequest<A>>(requests: Seq<R>) -> bool {
    forall|i: int|
        0 <= i < requests.len() ==> (#[trigger] requests[i]).yielded()
            || requests[i].reported_end()
}

/// How many entries the requests returned, or at least the keys of: a value
/// belongs to the entry of its key.
pub open spec fn entries_yielded<A: MapKeyAccessor, R: MapRequest<A>>(requests: Seq<R>) -> nat
    decreases requests.len(),
{
    if requests.len() == 0 {
        0
    } else {
        (if requests[0].yielded() && !requests[0].for_value() {
            1nat
        } else {
            0nat
        }) + entries_yielded::<A, R>(requests.drop_first())
    }
}

/// A single request to a map adapter, whatever the requests before and after it
/// are: it is for a value exactly if one was waiting; one is waiting after it
/// exactly if it returned a key; the adapter is exhausted after it exactly if
/// it did not return what it asked for; and an exhausted one reports the end.
pub proof fn map_request_exhausts_or_continues<A: MapKeyAccessor, R: MapRequest<A>>(
    before: AccessAdapterState<A, A::Value>,
    request: R,
    after: AccessAdapterState<A, A::Value>,
)
    requires
        request.step(before, after),
    ensures
        request.for_value() <==> before is Value,
        after is Value <==> request.yielded_key(),
        after is Dead <==> !request.yielded(),
        before is Dead ==> request.reported_end(),
{
    request.lemma_step(before, after);
    request.lemma_returned();
    match before {
        AccessAdapterState::Ready(access) => request.lemma_key_by_move(access, after),
        AccessAdapterState::Value(access) => request.lemma_value_by_move(access, after),
        AccessAdapterState::Dead => {},
    }
}

/// An exhausted map adapter reports the end to every request for a key or an
/// entry and stays exhausted, and this is all that can be asked of it.
pub proof fn exhausted_map_stays_exhausted<A: MapKeyAccessor, R: MapRequest<A>>(
    requests: Seq<R>,
    end: AccessAdapterState<A, A::Value>,
)
    ensures
        map_run(AccessAdapterState::<A, A::Value>::Dead, requests, end) <==> all_requests_end::<
            A,
            R,
        >(requests) && end is Dead,
    decreases requests.len(),
{
    let dead = AccessAdapterState::<A, A::Value>::Dead;
    if requests.len() > 0 {
        let later = requests.drop_first();
        exhausted_map_stays_exhausted::<A, R>(later, end);
        assert forall|after: AccessAdapterState<A, A::Value>| #[trigger]
            requests[0].step(dead, after) <==> requests[0].reported_end() && after is Dead by {
            requests[0].lemma_step(dead, after);
        }
        if map_run(dead, requests, end) {
            assert forall|i: int| 0 <= i < requests.len() implies (
            #[trigger] requests[i]).reported_end() by {
                if i > 0 {
                    assert(later[i - 1] == requests[i]);
                }
            }
        }
        if all_requests_end::<A, R>(requests) && end is Dead {
            assert(requests[0].step(dead, dead));
        }
    }
}

/// The requests that can be made of a map adapter, and what they return, are
/// exactly those of reading by move: the same accessors are asked in the same
/// order, and from the end on every request reports it.
pub proof fn map_adapter_reads_by_move<A: MapKeyAccessor, R: MapRequest<A>>(
    state: AccessAdapterState<A, A::Value>,
    requests: Seq<R>,
    rest: AccessAdapterState<A, A::Value>,
)
    ensures
        map_run(state, requests, rest) <==> map_by_move(state, requests, rest),
    decreases requests.len(),
{
    if state is Dead {
        exhausted_map_stays_exhausted::<A, R>(requests, rest);
    } else if requests.len() > 0 {
        let later = requests.drop_first();
        assert forall|after: AccessAdapterState<A, A::Value>| #[trigger]
            map_run(after, later, rest) == map_by_move(after, later, rest) by {
            map_adapter_reads_by_move(after, later, rest);
        }
        assert forall|after: AccessAdapterState<A, A::Value>| #[trigger]
            requests[0].step(state, after) <==> match state {
                AccessAdapterState::Ready(access) => requests[0].key_by_move(access, after),
                AccessAdapterState::Value(access) => requests[0].value_by_move(access, after),
                AccessAdapterState::Dead => false,
            } by {
            requests[0].lemma_step(state, after);
        }
        match state {
            AccessAdapterState::Ready(access) => {
                if map_run(state, requests, rest) {
                    let after = choose|after: AccessAdapterState<A, A::Value>|
                        {
                            &&& #[trigger] requests[0].step(state, after)
                            &&& map_run(after, later, rest)
                        };
                    assert(requests[0].key_by_move(access, after));
                }
                if map_by_move(state, requests, rest) {
                    let successor = choose|successor: AccessAdapterState<A, A::Value>|
                        {
                            &&& #[trigger] requests[0].key_by_move(access, successor)
                            &&& map_by_move(successor, later, rest)
                        };
                    assert(requests[0].step(state, successor));
                }
            },
            AccessAdapterState::Value(access) => {
                if map_run(state, requests, rest) {
                    let after = choose|after: AccessAdapterState<A, A::Value>|
                        {
                            &&& #[trigger] requests[0].step(state, after)
                            &&& map_run(after, later, rest)
                        };
                    assert(requests[0].value_by_move(access, after));
                }
                if map_by_move(state, requests, rest) {
                    let successor = choose|successor: AccessAdapterState<A, A::Value>|
                        {
                            &&& #[trigger] requests[0].value_by_move(access, successor)
                            &&& map_by_move(successor, later, rest)
                        };
                    assert(requests[0].step(state, successor));
                }
            },
            AccessAdapterState::Dead => {},
        }
    }
}

/// A map adapter is fused: once a request did not return what it asked for,
/// because of the end or of an error, every later one reports the end, and the
/// size hint is zero.
pub proof fn map_adapter_is_fused<A: MapKeyAccessor, R: MapRequest<A>>(
    state: AccessAdapterState<A, A::Value>,
    requests: Seq<R>,
    end: AccessAdapterState<A, A::Value>,
    i: int,
    hint: Option<usize>,
)
    requires
        map_run(state, requests, end),
        0 <= i < requests.len(),
        !requests[i].yielded(),
    ensures
        forall|j: int| i < j < requests.len() ==> (#[trigger] requests[j]).reported_end(),
        end is Dead,
        end.map_hints(hint) <==> hint == Some(0usize),
    decreases requests.len(),
{
    let later = requests.drop_first();
    let after = choose|after: AccessAdapterState<A, A::Value>|
        {
            &&& #[trigger] requests[0].step(state, after)
            &&& map_run(after, later, end)
        };
    if i == 0 {
        map_request_exhausts_or_continues(state, requests[0], after);
        exhausted_map_stays_exhausted::<A, R>(later, end);
    } else {
        map_adapter_is_fused(after, later, end, i - 1, hint);
    }
    assert forall|j: int| i < j < requests.len() implies (
    #[trigger] requests[j]).reported_end() by {
        assert(later[j - 1] == requests[j]);
    }
}

/// A map adapter keeps keys and values in order: right after a request that
/// returned a key, and only then, comes a request for a value. Only the first
/// request has none before it; it is for a value exactly if one was waiting.
pub proof fn map_adapter_alternates<A: MapKeyAccessor, R: MapRequest<A>>(
    state: AccessAdapterState<A, A::Value>,
    requests: Seq<R>,
    end: AccessAdapterState<A, A::Value>,
    i: int,
)
    requires
        map_run(state, requests, end),
        0 <= i < requests.len(),
    ensures
        i == 0 ==> (requests[i].for_value() <==> state is Value),
        i > 0 ==> (requests[i].for_value() <==> requests[i - 1].yielded_key()),
        i == requests.len() - 1 ==> (end is Value <==> requests[i].yielded_key()),
    decreases requests.len(),
{
    let later = requests.drop_first();
    let after = choose|after: AccessAdapterState<A, A::Value>|
        {
            &&& #[trigger] requests[0].step(state, after)
            &&& map_run(after, later, end)
        };
    map_request_exhausts_or_continues(state, requests[0], after);
    if i > 0 {
        map_adapter_alternates(after, later, end, i - 1);
    }
}

/// Requests that all reported the end returned no entry.
proof fn lemma_end_yields_no_entry<A: MapKeyAccessor, R: MapRequest<A>>(requests: Seq<R>)
    requires
        all_requests_end::<A, R>(requests),
    ensures
        entries_yielded::<A, R>(requests) == 0,
    decreases requests.len(),
{
    if requests.len() > 0 {
        let later = requests.drop_first();
        requests[0].lemma_returned();
        assert(all_requests_end::<A, R>(later));
        lemma_end_yields_no_entry::<A, R>(later);
    }
}

/// Whether the accessor that `first` holds can give the size hint `hint`.
pub open spec fn accessor_hints<A: MapKeyAccessor>(
    first: AccessAdapterState<A, A::Value>,
    hint: usize,
) -> bool {
    match first {
        AccessAdapterState::Ready(access) => call_ensures(
            <A as MapKeyAccessor>::size_hint,
            (&access,),
            Some(hint),
        ),
        AccessAdapterState::Value(access) => call_ensures(
            <A::Value as MapValueAccessor>::size_hint,
            (&access,),
            Some(hint),
        ),
        AccessAdapterState::Dead => false,
    }
}

/// Whether a size hint of the accessor that `first` holds is true: reading by
/// move from it on without an error never returns more entries than that, and
/// exactly that many if it comes to the end, not counting the one whose value
/// is waiting.
pub open spec fn map_hint_is_true<A: MapKeyAccessor, R: MapRequest<A>>(
    first: AccessAdapterState<A, A::Value>,
) -> bool {
    forall|hint: usize, requests: Seq<R>, rest: AccessAdapterState<A, A::Value>|
        #![trigger accessor_hints(first, hint), map_by_move(first, requests, rest)]
        {
            &&& accessor_hints(first, hint)
            &&& map_by_move(first, requests, rest)
            &&& no_request_failed::<A, R>(requests)
        } ==> {
            &&& entries_yielded::<A, R>(requests) <= hint
            &&& rest is Dead ==> entries_yielded::<A, R>(requests) == hint
        }
}

/// The size hint of a map adapter is the number of entries that remain: without
/// an error it never returns more than that, and exactly that many by the time
/// it is exhausted. This holds if the accessor that it holds gives a true hint;
/// an exhausted adapter holds none.
pub proof fn map_size_hint_is_what_remains<A: MapKeyAccessor, R: MapRequest<A>>(
    state: AccessAdapterState<A, A::Value>,
    requests: Seq<R>,
    end: AccessAdapterState<A, A::Value>,
    hint: usize,
)
    requires
        state !is Dead ==> map_hint_is_true::<A, R>(state),
        state.map_hints(Some(hint)),
        map_run(state, requests, end),
        no_request_failed::<A, R>(requests),
    ensures
        entries_yielded::<A, R>(requests) <= hint,
        end is Dead ==> entries_yielded::<A, R>(requests) == hint,
{
    map_adapter_reads_by_move(state, requests, end);
    if state is Dead {
        lemma_end_yields_no_entry::<A, R>(requests);
    } else {
        assert(accessor_hints(state, hint));
    }
}

} // verus!
