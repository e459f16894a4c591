//! Folding a resolver over a sequence of events.
//!
//! A resolver is an executable function, so what it returns is known only through its
//! contract: `call_ensures(resolve, (event, state), next)` says that `next` is something
//! that `resolve` may return for `event` in `state`. The predicates of this module lift
//! that relation from one event to a sequence of events resolved one after the other,
//! for a total resolver ([`folds_to`]) and for a fallible one ([`try_outcome`]). Where
//! the contract of the resolver determines what it returns, the relation is a function:
//! [`fold`] for a total resolver, [`try_fold`] for a fallible one.
use vstd::prelude::*;

verus! {

/// Resolving `events` in order from `start` with a total resolver can end in `end`:
/// each event is resolved in the state that the event before it left.
pub open spec fn folds_to<System, Event, Resolve: Fn(Event, System) -> System>(
    resolve: Resolve,
    events: Seq<Event>,
    start: System,
    end: System,
) -> bool
    decreases events.len(),
{
    if events.len() == 0 {
        end == start
    } else {
        exists|mid: System|
            folds_to(resolve, events.drop_last(), start, mid) && #[trigger] call_ensures(
                resolve,
                (events.last(), mid),
                end,
            )
    }
}

/// The total resolver may be called on every event of `events`, in every state that
/// resolving the events before it from `start` can have left.
pub open spec fn accepts<System, Event, Resolve: Fn(Event, System) -> System>(
    resolve: Resolve,
    events: Seq<Event>,
    start: System,
) -> bool {
    forall|k: int, mid: System|
        0 <= k < events.len() && #[trigger] folds_to(resolve, events.take(k), start, mid)
            ==> call_requires(resolve, (events[k], mid))
}

/// The total resolver is a function, as far as its contract says: whatever it returns
/// for an event in a state is what `step` gives for them.
pub open spec fn computes<System, Event, Resolve: Fn(Event, System) -> System>(
    resolve: Resolve,
    step: spec_fn(Event, System) -> System,
) -> bool {
    forall|event: Event, state: System, next: System| #[trigger]
        call_ensures(resolve, (event, state), next) ==> next == step(event, state)
}

/// The state that `step` leaves when it is applied to each of `events` in order,
/// starting from `start`.
pub open spec fn fold<System, Event>(
    step: spec_fn(Event, System) -> System,
    events: Seq<Event>,
    start: System,
) -> System
    decreases events.len(),
{
    if events.len() == 0 {
        start
    } else {
        step(events.last(), fold(step, events.drop_last(), start))
    }
}

/// Where the resolver is a function, resolving a sequence of events can only end in
/// the state that folding that function over the sequence gives.
pub proof fn lemma_folds_to_fold<System, Event, Resolve: Fn(Event, System) -> System>(
    resolve: Resolve,
    step: spec_fn(Event, System) -> System,
    events: Seq<Event>,
    start: System,
    end: System,
)
    requires
        computes(resolve, step),
        folds_to(resolve, events, start, end),
    ensures
        end == fold(step, events, start),
    decreases events.len(),
{
    if events.len() > 0 {
        let mid = choose|mid: System|
            folds_to(resolve, events.drop_last(), start, mid) && #[trigger] call_ensures(
                resolve,
                (events.last(), mid),
                end,
            );
        lemma_folds_to_fold(resolve, step, events.drop_last(), start, mid);
    }
}

/// Resolving one sequence and then another is resolving the two as one.
pub proof fn lemma_folds_to_concat<System, Event, Resolve: Fn(Event, System) -> System>(
    resolve: Resolve,
    first: Seq<Event>,
    second: Seq<Event>,
    start: System,
    mid: System,
    end: System,
)
    requires
        folds_to(resolve, first, start, mid),
        folds_to(resolve, second, mid, end),
    ensures
        folds_to(resolve, first + second, start, end),
    decreases second.len(),
{
    if second.len() > 0 {
        let before_last = choose|before_last: System|
            folds_to(resolve, second.drop_last(), mid, before_last) && #[trigger] call_ensures(
                resolve,
                (second.last(), before_last),
                end,
            );
        lemma_folds_to_concat(resolve, first, second.drop_last(), start, mid, before_last);
        assert((first + second).drop_last() == first + second.drop_last());
        assert((first + second).last() == second.last());
    }
}

/// A resolver that accepts two sequences resolved as one accepts the first, and accepts
/// the second from every state that the first can leave.
pub proof fn lemma_accepts_split<System, Event, Resolve: Fn(Event, System) -> System>(
    resolve: Resolve,
    first: Seq<Event>,
    second: Seq<Event>,
    start: System,
)
    requires
        accepts(resolve, first + second, start),
    ensures
        accepts(resolve, first, start),
        forall|mid: System| #[trigger]
            folds_to(resolve, first, start, mid) ==> accepts(resolve, second, mid),
{
    let both = first + second;
    assert forall|k: int, at: System|
        0 <= k < first.len() && #[trigger] folds_to(
            resolve,
            first.take(k),
            start,
            at,
        ) implies call_requires(resolve, (first[k], at)) by {
        assert(both.take(k) == first.take(k));
    }
    assert forall|mid: System| #[trigger]
        folds_to(resolve, first, start, mid) implies accepts(resolve, second, mid) by {
        assert forall|k: int, at: System|
            0 <= k < second.len() && #[trigger] folds_to(
                resolve,
                second.take(k),
                mid,
                at,
            ) implies call_requires(resolve, (second[k], at)) by {
            lemma_folds_to_concat(resolve, first, second.take(k), start, mid, at);
            assert(both.take(first.len() + k) == first + second.take(k));
        }
    }
}

/// Folds `resolve` over `events`, first to last, starting from `start`.
pub fn fold_events<System, Event, Resolve: Fn(Event, System) -> System>(
    resolve: &Resolve,
    events: Vec<Event>,
    start: System,
) -> (end: System)
    requires
        accepts(*resolve, events@, start),
    ensures
        folds_to(*resolve, events@, start, end),
{
    let mut system = start;
    for event in it: events
        invariant
            it.seq() == events@,
            accepts(*resolve, events@, start),
            folds_to(*resolve, events@.take(it.index() as int), start, system),
    {
        system = resolve(event, system);
        proof {
            let done: int = it.index() + 1;
            assert(events@.take(done).drop_last() == events@.take(done - 1));
            assert(events@.take(done).last() == event);
        }
    }
    assert(events@.take(events@.len() as int) == events@);
    system
}

/// Resolving `events` in order from `start` with a fallible resolver can succeed on
/// every event and end in `end`.
pub open spec fn try_folds_to<
    System,
    Event,
    Error,
    Resolve: Fn(Event, System) -> Result<System, Error>,
>(resolve: Resolve, events: Seq<Event>, start: System, end: System) -> bool
    decreases events.len(),
{
    if events.len() == 0 {
        end == start
    } else {
        exists|mid: System|
            try_folds_to(resolve, events.drop_last(), start, mid) && #[trigger] call_ensures(
                resolve,
                (events.last(), mid),
                Ok(end),
            )
    }
}

/// Resolving `events` in order from `start` with a fallible resolver can fail at event
/// `k` with `error`: the events before `k` succeed, and event `k`, resolved in the state
/// that they left, fails.
pub open spec fn fails_at<
    System,
    Event,
    Error,
    Resolve: Fn(Event, System) -> Result<System, Error>,
>(resolve: Resolve, events: Seq<Event>, start: System, k: int, error: Error) -> bool {
    &&& 0 <= k < events.len()
    &&& exists|mid: System|
        try_folds_to(resolve, events.take(k), start, mid) && #[trigger] call_ensures(
            resolve,
            (events[k], mid),
            Err(error),
        )
}

/// What resolving `events` in order from `start` with a fallible resolver can return:
/// the state that the last event left, where every event succeeded, and else the error
/// of the first event that failed. No event after that one is resolved.
pub open spec fn try_outcome<
    System,
    Event,
    Error,
    Resolve: Fn(Event, System) -> Result<System, Error>,
>(resolve: Resolve, events: Seq<Event>, start: System, outcome: Result<System, Error>) -> bool {
    match outcome {
        Ok(end) => try_folds_to(resolve, events, start, end),
        Err(error) => exists|k: int| #[trigger] fails_at(resolve, events, start, k, error),
    }
}

/// The fallible resolver may be called on every event of `events`, in every state that
/// resolving the events before it from `start` can have left without a failure.
pub open spec fn try_accepts<
    System,
    Event,
    Error,
    Resolve: Fn(Event, System) -> Result<System, Error>,
>(resolve: Resolve, events: Seq<Event>, start: System) -> bool {
    forall|k: int, mid: System|
        0 <= k < events.len() && #[trigger] try_folds_to(resolve, events.take(k), start, mid)
            ==> call_requires(resolve, (events[k], mid))
}

/// The fallible resolver is a function, as far as its contract says: whatever it
/// returns for an event in a state, a next state or an error, is what `step` gives for
/// them.
pub open spec fn try_computes<
    System,
    Event,
    Error,
    Resolve: Fn(Event, System) -> Result<System, Error>,
>(resolve: Resolve, step: spec_fn(Event, System) -> Result<System, Error>) -> bool {
    forall|event: Event, state: System, next: Result<System, Error>| #[trigger]
        call_ensures(resolve, (event, state), next) ==> next == step(event, state)
}

/// What applying `step` to each of `events` in order gives, starting from `start`: the
/// state that the last event leaves, or the error of the first event on which `step`
/// fails. `step` is applied to no event after that one.
pub open spec fn try_fold<System, Event, Error>(
    step: spec_fn(Event, System) -> Result<System, Error>,
    events: Seq<Event>,
    start: System,
) -> Result<System, Error>
    decreases events.len(),
{
    if events.len() == 0 {
        Ok(start)
    } else {
        match try_fold(step, events.drop_last(), start) {
            Ok(mid) => step(events.last(), mid),
            Err(error) => Err(error),
        }
    }
}

/// A failure stands: once `step` has failed on one of the first `k` events, the events
/// that follow do not change what comes out.
pub proof fn lemma_try_fold_stays_failed<System, Event, Error>(
    step: spec_fn(Event, System) -> Result<System, Error>,
    events: Seq<Event>,
    start: System,
    k: int,
)
    requires
        0 <= k <= events.len(),
        try_fold(step, events.take(k), start) is Err,
    ensures
        try_fold(step, events, start) == try_fold(step, events.take(k), start),
    decreases events.len() - k,
{
    if k < events.len() {
        assert(events.take(k + 1).drop_last() == events.take(k));
        lemma_try_fold_stays_failed(step, events, start, k + 1);
    } else {
        assert(events.take(k) == events);
    }
}

/// Where the fallible resolver is a function and every event of a sequence succeeds,
/// folding that function over the sequence gives the state that resolution ends in.
pub proof fn lemma_try_folds_to_try_fold<
    System,
    Event,
    Error,
    Resolve: Fn(Event, System) -> Result<System, Error>,
>(
    resolve: Resolve,
    step: spec_fn(Event, System) -> Result<System, Error>,
    events: Seq<Event>,
    start: System,
    end: System,
)
    requires
        try_computes(resolve, step),
        try_folds_to(resolve, events, start, end),
    ensures
        try_fold(step, events, start) == Ok::<System, Error>(end),
    decreases events.len(),
{
    if events.len() > 0 {
        let mid = choose|mid: System|
            try_folds_to(resolve, events.drop_last(), start, mid) && #[trigger] call_ensures(
                resolve,
                (events.last(), mid),
                Ok(end),
            );
        lemma_try_folds_to_try_fold(resolve, step, events.drop_last(), start, mid);
    }
}

/// Where the fallible resolver is a function, resolving a sequence of events can only
/// return what folding that function over the sequence gives.
pub proof fn lemma_try_outcome_try_fold<
    System,
    Event,
    Error,
    Resolve: Fn(Event, System) -> Result<System, Error>,
>(
    resolve: Resolve,
    step: spec_fn(Event, System) -> Result<System, Error>,
    events: Seq<Event>,
    start: System,
    outcome: Result<System, Error>,
)
    requires
        try_computes(resolve, step),
        try_outcome(resolve, events, start, outcome),
    ensures
        outcome == try_fold(step, events, start),
{
    match outcome {
        Ok(end) => {
            lemma_try_folds_to_try_fold(resolve, step, events, start, end);
        },
        Err(error) => {
            let k = choose|k: int| #[trigger] fails_at(resolve, events, start, k, error);
            let mid = choose|mid: System|
                try_folds_to(resolve, events.take(k), start, mid) && #[trigger] call_ensures(
                    resolve,
                    (events[k], mid),
                    Err(error),
                );
            lemma_try_folds_to_try_fold(resolve, step, events.take(k), start, mid);
            assert(events.take(k + 1).drop_last() == events.take(k));
            lemma_try_fold_stays_failed(step, events, start, k + 1);
        },
    }
}

/// Folds the fallible `resolve` over `events`, first to last, starting from `start`,
/// and stops at the first event that fails.
pub fn try_fold_events<
    System,
    Event,
    Error,
    Resolve: Fn(Event, System) -> Result<System, Error>,
>(resolve: &Resolve, events: Vec<Event>, start: System) -> (outcome: Result<System, Error>)
    requires
        try_accepts(*resolve, events@, start),
    ensures
        try_outcome(*resolve, events@, start, outcome),
{
    let mut system = start;
    for event in it: events
        invariant
            it.seq() == events@,
            try_accepts(*resolve, events@, start),
            try_folds_to(*resolve, events@.take(it.index() as int), start, system),
    {
        match resolve(event, system) {
            Ok(next) => {
                system = next;
                proof {
                    let done: int = it.index() + 1;
                    assert(events@.take(done).drop_last() == events@.take(done - 1));
                    assert(events@.take(done).last() == event);
                }
            },
            Err(error) => {
                assert(fails_at(*resolve, events@, start, it.index() as int, error));
                return Err(error);
            },
        }
    }
    assert(events@.take(events@.len() as int) == events@);
    Ok(system)
}

} // verus!
