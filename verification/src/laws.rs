//! Laws that relate the operations of a knowledge engine to one another.
use crate::engine::{outcome_in_order, outcome_with, queued_clones, EngineModel, EngineState};
use crate::fold::{
    computes, fold, lemma_folds_to_fold, lemma_try_fold_stays_failed, lemma_try_outcome_try_fold,
    try_computes, try_fold, try_outcome,
};
use crate::knowledge::KnowledgeEngineImpl;
use vstd::prelude::*;

verus! {

/// The combinator hands back the events that it is given, in the order in which it is
/// given them.
pub open spec fn is_identity<Event, F: FnOnce(Vec<Event>) -> Vec<Event>>(comb: F) -> bool {
    forall|given: Vec<Event>, chosen: Vec<Event>| #[trigger]
        call_ensures(comb, (given,), chosen) ==> chosen@ == given@
}

/// The combinator can hand something back when it is given `queue`.
pub open spec fn answers<Event, F: FnOnce(Vec<Event>) -> Vec<Event>>(
    comb: F,
    queue: Seq<Event>,
) -> bool {
    exists|given: Vec<Event>, chosen: Vec<Event>|
        given@ == queue && #[trigger] call_ensures(comb, (given,), chosen)
}

/// Resolving with a combinator that hands back what it is given is resolving in
/// order: whatever `resolve_with` can return with such a combinator, `resolve_in_order`
/// can return; and whatever `resolve_in_order` can return, `resolve_with` can return
/// with such a combinator, if only the combinator can hand something back.
pub proof fn lemma_identity_resolves_in_order<
    System,
    Event,
    Return,
    K: EngineModel<System, Event, Return>,
    F: FnOnce(Vec<Event>) -> Vec<Event>,
    G: Fn() -> System,
>(engine: K, init: G, comb: F, outcome: Return)
    requires
        is_identity(comb),
    ensures
        outcome_with(&engine, init, comb, outcome) ==> outcome_in_order(&engine, init, outcome),
        answers(comb, engine.queue()) && outcome_in_order(&engine, init, outcome)
            ==> outcome_with(&engine, init, comb, outcome),
{
}

/// Resolution is sensitive to the order of the events. Take a resolver that is a
/// function, and two events on the queue that do not commute under it from the
/// starting state: then resolving them in order and resolving them with a combinator
/// that swaps them end in different states.
pub proof fn lemma_order_matters<
    System,
    Event,
    Resolve: Fn(Event, System) -> System,
    F: FnOnce(Vec<Event>) -> Vec<Event>,
    G: Fn() -> System,
>(
    engine: KnowledgeEngineImpl<System, Event, Resolve>,
    step: spec_fn(Event, System) -> System,
    init: G,
    swap: F,
    a: Event,
    b: Event,
    start: System,
    in_order: System,
    swapped: System,
)
    requires
        engine.queue() == seq![a, b],
        computes(engine.setup(), step),
        step(b, step(a, start)) != step(a, step(b, start)),
        forall|state: System| #[trigger] call_ensures(init, (), state) ==> state == start,
        forall|given: Vec<Event>, chosen: Vec<Event>| #[trigger]
            call_ensures(swap, (given,), chosen) && given@ == seq![a, b] ==> chosen@ == seq![
                b,
                a,
            ],
        outcome_in_order(&engine, init, in_order),
        outcome_with(&engine, init, swap, swapped),
    ensures
        in_order == step(b, step(a, start)),
        swapped == step(a, step(b, start)),
        in_order != swapped,
{
    reveal_with_fuel(fold, 3);
    lemma_folds_to_fold(engine.setup(), step, seq![a, b], start, in_order);
    lemma_folds_to_fold(engine.setup(), step, seq![b, a], start, swapped);
}

/// Resolution stops at the first failure. Take a fallible resolver that is a function,
/// and let event `k` be the first of `events` on which it fails, with `error`: then
/// resolving `events` returns `error` and nothing else, and the events after `k` play
/// no part in it.
pub proof fn lemma_first_failure_is_the_outcome<
    System,
    Event,
    Error,
    Resolve: Fn(Event, System) -> Result<System, Error>,
>(
    resolve: Resolve,
    step: spec_fn(Event, System) -> Result<System, Error>,
    events: Seq<Event>,
    start: System,
    k: int,
    before: System,
    error: Error,
    outcome: Result<System, Error>,
)
    requires
        try_computes(resolve, step),
        0 <= k < events.len(),
        try_fold(step, events.take(k), start) == Ok::<System, Error>(before),
        step(events[k], before) == Err::<System, Error>(error),
        try_outcome(resolve, events, start, outcome),
    ensures
        outcome == Err::<System, Error>(error),
        try_fold(step, events, start) == try_fold(step, events.take(k + 1), start),
{
    assert(events.take(k + 1).drop_last() == events.take(k));
    lemma_try_fold_stays_failed(step, events, start, k + 1);
    lemma_try_outcome_try_fold(resolve, step, events, start, outcome);
}

/// The queue that is left when each of `events` in turn is added to `queue` by a call
/// of `queue_event`.
pub open spec fn queued_each<Event>(queue: Seq<Event>, events: Seq<Event>) -> Seq<Event>
    decreases events.len(),
{
    if events.len() == 0 {
        queue
    } else {
        queued_each(queue, events.drop_last()).push(events.last())
    }
}

/// Adding each of `events` to a queue in turn leaves the queue followed by `events`.
pub proof fn lemma_queued_each<Event>(queue: Seq<Event>, events: Seq<Event>)
    ensures
        queued_each(queue, events) == queue + events,
    decreases events.len(),
{
    if events.len() > 0 {
        lemma_queued_each(queue, events.drop_last());
    }
}

/// Queuing events from a slice is queuing them one by one. Let `at_once` be what
/// `queue_events` makes of an engine, and `one_by_one` what one call of `queue_event`
/// for each of the events makes of it. Where a clone of an event is that event, the
/// two have the same queue, and whatever resolving one of them in order can return,
/// resolving the other can.
pub proof fn lemma_queue_events_is_queue_event_each<
    System,
    Event: Clone,
    Return,
    K: EngineModel<System, Event, Return>,
    G: Fn() -> System,
>(before: K, at_once: K, one_by_one: K, events: Seq<Event>, init: G, outcome: Return)
    requires
        forall|i: int, clone: Event|
            0 <= i < events.len() && #[trigger] cloned(events[i], clone) ==> clone == events[i],
        queued_clones(before.queue(), events, at_once.queue()),
        at_once.setup() == before.setup(),
        one_by_one.queue() == queued_each(before.queue(), events),
        one_by_one.setup() == before.setup(),
    ensures
        at_once.queue() == one_by_one.queue(),
        outcome_in_order(&at_once, init, outcome) <==> outcome_in_order(
            &one_by_one,
            init,
            outcome,
        ),
{
    lemma_queued_each(before.queue(), events);
    assert(at_once.queue() == before.queue() + events);
}

} // verus!
