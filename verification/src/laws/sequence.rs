//! Runs of requests to a sequence adapter.

use core::convert::Infallible;
use vstd::prelude::*;

use crate::access::{Seed, SeqAccess, SeqAccessor};
use crate::adapter::AccessAdapterState;
use crate::laws::OneOf;

verus! {

/// A request for an element, with a seed of its own type, together with what it
/// returned, as it can be made of an accessor of type `A`.
pub trait ElementRequest<A: SeqAccessor>: Sized {
    /// Whether this request can be made of an adapter in the state `before` and
    /// leave it in the state `after`.
    spec fn step(
        self,
        before: AccessAdapterState<A, Infallible>,
        after: AccessAdapterState<A, Infallible>,
    ) -> bool;

    /// Whether `access`, consumed by this request, can return what it returned
    /// and hand back `successor`.
    spec fn by_move(self, access: A, successor: Option<A>) -> bool;

    /// Whether this request returned an element.
    spec fn yielded(self) -> bool;

    /// Whether this request returned `Ok(None)`.
    spec fn reported_end(self) -> bool;

    /// The adapter consumes the accessor that it holds and keeps the successor;
    /// if it holds none, it reports the end.
    proof fn lemma_step(
        self,
        before: AccessAdapterState<A, Infallible>,
        after: AccessAdapterState<A, Infallible>,
    )
        ensures
            self.step(before, after) <==> {
                &&& after !is Value
                &&& match before {
                    AccessAdapterState::Ready(access) => self.by_move(access, held(after)),
                    _ => self.reported_end() && after is Dead,
                }
            },
    ;

    /// A successor comes with an element, and only then.
    proof fn lemma_by_move(self, access: A, successor: Option<A>)
        ensures
            self.by_move(access, successor) ==> (successor is Some <==> self.yielded()),
    ;

    /// The end is no element.
    proof fn lemma_reported_end(self)
        ensures
            self.reported_end() ==> !self.yielded(),
    ;
}

/// A request for an element with `seed` that returned `result`.
pub struct ForElement<S: Seed, E> {
    pub seed: S,
    pub result: Result<Option<S::Value>, E>,
}

impl<S: Seed, E, A: SeqAccess<S, Error = E>> ElementRequest<A> for ForElement<S, E> {
    open spec fn step(
        self,
        before: AccessAdapterState<A, Infallible>,
        after: AccessAdapterState<A, Infallible>,
    ) -> bool {
        before.element_step(self.seed, self.result, after)
    }

    open spec fn by_move(self, access: A, successor: Option<A>) -> bool {
        match (self.result, successor) {
            (Ok(Some(element)), Some(next)) => call_ensures(
                <A as SeqAccess<S>>::next_element_seed,
                (access, self.seed),
                Ok::<Option<(S::Value, A)>, E>(Some((element, next))),
            ),
            (Ok(None), None) => call_ensures(
                <A as SeqAccess<S>>::next_element_seed,
                (access, self.seed),
                Ok::<Option<(S::Value, A)>, E>(None),
            ),
            (Err(error), None) => call_ensures(
                <A as SeqAccess<S>>::next_element_seed,
                (access, self.seed),
                Err::<Option<(S::Value, A)>, E>(error),
            ),
            _ => false,
        }
    }

    open spec fn yielded(self) -> bool {
        self.result matches Ok(Some(_))
    }

    open spec fn reported_end(self) -> bool {
        self.result matches Ok(None)
    }

    proof fn lemma_step(
        self,
        before: AccessAdapterState<A, Infallible>,
        after: AccessAdapterState<A, Infallible>,
    ) {
    }

    proof fn lemma_by_move(self, access: A, successor: Option<A>) {
    }

    proof fn lemma_reported_end(self) {
    }
}

impl<A: SeqAccessor, L: ElementRequest<A>, R: ElementRequest<A>> ElementRequest<A> for OneOf<L, R> {
    open spec fn step(
        self,
        before: AccessAdapterState<A, Infallible>,
        after: AccessAdapterState<A, Infallible>,
    ) -> bool {
        match self {
            OneOf::First(request) => request.step(before, after),
            OneOf::Second(request) => request.step(before, after),
        }
    }

    open spec fn by_move(self, access: A, successor: Option<A>) -> bool {
        match self {
            OneOf::First(request) => request.by_move(access, successor),
            OneOf::Second(request) => request.by_move(access, successor),
        }
    }

    open spec fn yielded(self) -> bool {
        match self {
            OneOf::First(request) => request.yielded(),
            OneOf::Second(request) => request.yielded(),
        }
    }

    open spec fn reported_end(self) -> bool {
        match self {
            OneOf::First(request) => request.reported_end(),
            OneOf::Second(request) => request.reported_end(),
        }
    }

    proof fn lemma_step(
        self,
        before: AccessAdapterState<A, Infallible>,
        after: AccessAdapterState<A, Infallible>,
    ) {
        match self {
            OneOf::First(request) => request.lemma_step(before, after),
            OneOf::Second(request) => request.lemma_step(before, after),
        }
    }

    proof fn lemma_by_move(self, access: A, successor: Option<A>) {
        match self {
            OneOf::First(request) => request.lemma_by_move(access, successor),
            OneOf::Second(request) => request.lemma_by_move(access, successor),
        }
    }

    proof fn lemma_reported_end(self) {
        match self {
            OneOf::First(request) => request.lemma_reported_end(),
            OneOf::Second(request) => request.lemma_reported_end(),
        }
    }
}

/// The accessor that an adapter in `state` holds for the next request.
pub open spec fn held<A>(state: AccessAdapterState<A, Infallible>) -> Option<A> {
    match state {
        AccessAdapterState::Ready(access) => Some(access),
        _ => None,
    }
}

/// The state of an adapter that holds `access`, if there is one.
pub open spec fn holding<A>(access: Option<A>) -> AccessAdapterState<A, Infallible> {
    match access {
        Some(access) => AccessAdapterState::Ready(access),
        None => AccessAdapterState::Dead,
    }
}

/// Whether `requests` can be made one after the other from `state` on and leave
/// the state `end`.
pub open spec fn element_run<A: SeqAccessor, R: ElementRequest<A>>(
    state: AccessAdapterState<A, Infallible>,
    requests: Seq<R>,
    end: AccessAdapterState<A, Infallible>,
) -> bool
    decreases requests.len(),
{
    if requests.len() == 0 {
        end == state
    } else {
        exists|after: AccessAdapterState<A, Infallible>|
            {
                &&& #[trigger] requests[0].step(state, after)
                &&& element_run(after, requests.drop_first(), end)
            }
    }
}

/// Whether reading by move can return what `requests` returned: `access` is
/// asked with the first, the successor that it hands back with the second, and
/// so on; from the first reply without a successor on there is nothing to ask
/// and every request returns `Ok(None)`. `rest` is the successor that is left
/// over.
pub open spec fn elements_by_move<A: SeqAccessor, R: ElementRequest<A>>(
    access: A,
    requests: Seq<R>,
    rest: Option<A>,
) -> bool
    decreases requests.len(),
{
    if requests.len() == 0 {
        rest == Some(access)
    } else {
        exists|successor: Option<A>|
            {
                &&& #[trigger] requests[0].by_move(access, successor)
                &&& match successor {
                    Some(next) => elements_by_move(next, requests.drop_first(), rest),
                    None => all_elements_end::<A, R>(requests.drop_first()) && rest is None,
                }
            }
    }
}

/// Whether every request returned `Ok(None)`.
pub open spec fn all_elements_end<A: SeqAccessor, R: ElementRequest<A>>(requests: Seq<R>) -> bool {
    forall|i: int| 0 <= i < requests.len() ==> (#[trigger] requests[i]).reported_end()
}

/// Whether no request returned an error.
pub open spec fn no_element_failed<A: SeqAccessor, R: ElementRequest<A>>(
    requests: Seq<R>,
) -> bool {
    forall|i: int|
        0 <= i < requests.len() ==> (#[trigger] requests[i]).yielded()
            || requests[i].reported_end()
}

/// How many requests returned an element.
pub open spec fn elements_yielded<A: SeqAccessor, R: ElementRequest<A>>(requests: Seq<R>) -> nat
    decreases requests.len(),
{
    if requests.len() == 0 {
        0
    } else {
        (if requests[0].yielded() {
            1nat
        } else {
            0nat
        }) + elements_yielded::<A, R>(requests.drop_first())
    }
}

/// A single request for an element, whatever the requests before and after it
/// are: a sequence adapter is exhausted after it exactly if it returned no
/// element, and an exhausted one returns `Ok(None)`.
pub proof fn element_request_exhausts_or_continues<A: SeqAccessor, R: ElementRequest<A>>(
    before: AccessAdapterState<A, Infallible>,
    request: R,
    after: AccessAdapterState<A, Infallible>,
)
    requires
        request.step(before, after),
    ensures
        after is Dead <==> !request.yielded(),
        after is Ready <==> request.yielded(),
        before is Dead ==> request.reported_end(),
{
    request.lemma_step(before, after);
    request.lemma_reported_end();
    if let AccessAdapterState::Ready(access) = before {
        request.lemma_by_move(access, held(after));
    }
}

/// An exhausted sequence adapter returns `Ok(None)` to every request and stays
/// exhausted, and this is all that it does.
pub proof fn exhausted_sequence_stays_exhausted<A: SeqAccessor, R: ElementRequest<A>>(
    requests: Seq<R>,
    end: AccessAdapterState<A, Infallible>,
)
    ensures
        element_run(AccessAdapterState::<A, Infallible>::Dead, requests, end)
            <==> all_elements_end::<A, R>(requests) && end is Dead,
    decreases requests.len(),
{
    let dead = AccessAdapterState::<A, Infallible>::Dead;
    if requests.len() > 0 {
        let later = requests.drop_first();
        exhausted_sequence_stays_exhausted::<A, R>(later, end);
        assert forall|after: AccessAdapterState<A, Infallible>| #[trigger]
            requests[0].step(dead, after) <==> requests[0].reported_end() && after is Dead by {
            requests[0].lemma_step(dead, after);
        }
        if element_run(dead, requests, end) {
            assert forall|i: int| 0 <= i < requests.len() implies (
            #[trigger] requests[i]).reported_end() by {
                if i > 0 {
                    assert(later[i - 1] == requests[i]);
                }
            }
        }
        if all_elements_end::<A, R>(requests) && end is Dead {
            assert(requests[0].step(dead, dead));
        }
    }
}

/// A sequence adapter returns exactly what reading the accessor by move
/// returns, in the same order, and `Ok(None)` from the end on.
pub proof fn sequence_adapter_reads_by_move<A: SeqAccessor, R: ElementRequest<A>>(
    access: A,
    requests: Seq<R>,
    rest: Option<A>,
)
    ensures
        element_run(AccessAdapterState::<A, Infallible>::Ready(access), requests, holding(rest))
            <==> elements_by_move(access, requests, rest),
    decreases requests.len(),
{
    let ready = AccessAdapterState::<A, Infallible>::Ready(access);
    let end = holding(rest);
    if requests.len() > 0 {
        let later = requests.drop_first();
        exhausted_sequence_stays_exhausted::<A, R>(later, end);
        assert forall|next: A| #[trigger]
            element_run(AccessAdapterState::<A, Infallible>::Ready(next), later, end)
                == elements_by_move(next, later, rest) by {
            sequence_adapter_reads_by_move::<A, R>(next, later, rest);
        }
        assert forall|after: AccessAdapterState<A, Infallible>| #[trigger]
            requests[0].step(ready, after) <==> after !is Value && requests[0].by_move(
                access,
                held(after),
            ) by {
            requests[0].lemma_step(ready, after);
        }
        if element_run(ready, requests, end) {
            let after = choose|after: AccessAdapterState<A, Infallible>|
                {
                    &&& #[trigger] requests[0].step(ready, after)
                    &&& element_run(after, later, end)
                };
            assert(requests[0].by_move(access, held(after)));
        }
        if elements_by_move(access, requests, rest) {
            let successor = choose|successor: Option<A>|
                {
                    &&& #[trigger] requests[0].by_move(access, successor)
                    &&& match successor {
                        Some(next) => elements_by_move(next, later, rest),
                        None => all_elements_end::<A, R>(later) && rest is None,
                    }
                };
            assert(requests[0].step(ready, holding(successor)));
        }
    }
}

/// A sequence adapter is fused: once a request did not return an element,
/// because of the end or of an error, every later one returns `Ok(None)`, and
/// the size hint is zero.
pub proof fn sequence_adapter_is_fused<A: SeqAccessor, R: ElementRequest<A>>(
    state: AccessAdapterState<A, Infallible>,
    requests: Seq<R>,
    end: AccessAdapterState<A, Infallible>,
    i: int,
    hint: Option<usize>,
)
    requires
        element_run(state, requests, end),
        0 <= i < requests.len(),
        !requests[i].yielded(),
    ensures
        forall|j: int| i < j < requests.len() ==> (#[trigger] requests[j]).reported_end(),
        end is Dead,
        end.seq_hints(hint) <==> hint == Some(0usize),
    decreases requests.len(),
{
    let later = requests.drop_first();
    let after = choose|after: AccessAdapterState<A, Infallible>|
        {
            &&& #[trigger] requests[0].step(state, after)
            &&& element_run(after, later, end)
        };
    if i == 0 {
        element_request_exhausts_or_continues(state, requests[0], after);
        exhausted_sequence_stays_exhausted::<A, R>(later, end);
    } else {
        sequence_adapter_is_fused(after, later, end, i - 1, hint);
    }
    assert forall|j: int| i < j < requests.len() implies (
    #[trigger] requests[j]).reported_end() by {
        assert(later[j - 1] == requests[j]);
    }
}

/// Requests that all reported the end returned no element.
proof fn lemma_end_yields_nothing<A: SeqAccessor, R: ElementRequest<A>>(requests: Seq<R>)
    requires
        all_elements_end::<A, R>(requests),
    ensures
        elements_yielded::<A, R>(requests) == 0,
    decreases requests.len(),
{
    if requests.len() > 0 {
        let later = requests.drop_first();
        requests[0].lemma_reported_end();
        assert(all_elements_end::<A, R>(later));
        lemma_end_yields_nothing::<A, R>(later);
    }
}

/// A run that starts with no value waiting ends with none waiting.
proof fn lemma_no_value_waits<A: SeqAccessor, R: ElementRequest<A>>(
    state: AccessAdapterState<A, Infallible>,
    requests: Seq<R>,
    end: AccessAdapterState<A, Infallible>,
)
    requires
        element_run(state, requests, end),
        state !is Value,
    ensures
        end !is Value,
    decreases requests.len(),
{
    if requests.len() > 0 {
        let later = requests.drop_first();
        let after = choose|after: AccessAdapterState<A, Infallible>|
            {
                &&& #[trigger] requests[0].step(state, after)
                &&& element_run(after, later, end)
            };
        requests[0].lemma_step(state, after);
        lemma_no_value_waits(after, later, end);
    }
}

/// Whether a size hint of `access` is true: reading it by move without an error
/// never returns more elements than that, and exactly that many if it comes to
/// the end.
pub open spec fn seq_hint_is_true<A: SeqAccessor, R: ElementRequest<A>>(access: A) -> bool {
    forall|hint: usize, requests: Seq<R>, rest: Option<A>|
        #![trigger
            call_ensures(<A as SeqAccessor>::size_hint, (&access,), Some(hint)),
            elements_by_move(access, requests, rest)
        ]
        {
            &&& call_ensures(<A as SeqAccessor>::size_hint, (&access,), Some(hint))
            &&& elements_by_move(access, requests, rest)
            &&& no_element_failed::<A, R>(requests)
        } ==> {
            &&& elements_yielded::<A, R>(requests) <= hint
            &&& rest is None ==> elements_yielded::<A, R>(requests) == hint
        }
}

/// The size hint of a sequence adapter is the number of elements that remain:
/// without an error it never returns more than that, and exactly that many by
/// the time it is exhausted. This holds if the accessor that it holds gives a
/// true hint; an exhausted adapter holds none.
pub proof fn sequence_size_hint_is_what_remains<A: SeqAccessor, R: ElementRequest<A>>(
    state: AccessAdapterState<A, Infallible>,
    requests: Seq<R>,
    end: AccessAdapterState<A, Infallible>,
    hint: usize,
)
    requires
        state matches AccessAdapterState::Ready(access) ==> seq_hint_is_true::<A, R>(access),
        state.seq_hints(Some(hint)),
        element_run(state, requests, end),
        no_element_failed::<A, R>(requests),
    ensures
        elements_yielded::<A, R>(requests) <= hint,
        end is Dead ==> elements_yielded::<A, R>(requests) == hint,
{
    match state {
        AccessAdapterState::Ready(access) => {
            lemma_no_value_waits(state, requests, end);
            assert(end == holding(held(end)));
            sequence_adapter_reads_by_move::<A, R>(access, requests, held(end));
        },
        _ => {
            if requests.len() > 0 {
                let after = choose|after: AccessAdapterState<A, Infallible>|
                    {
                        &&& #[trigger] requests[0].step(state, after)
                        &&& element_run(after, requests.drop_first(), end)
                    };
                requests[0].lemma_step(state, after);
                requests[0].lemma_reported_end();
                sequence_adapter_is_fused(state, requests, end, 0, None);
            }
            lemma_end_yields_nothing::<A, R>(requests);
        },
    }
}

} // verus!
