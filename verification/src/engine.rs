//! The interface that every knowledge engine offers, and the model in which its
//! contracts are stated.
//!
//! The model comes in two traits. [`EngineState`] says what an engine holds, and is
//! there for an engine whatever the type of its resolver. [`EngineModel`] says what
//! resolution does, and is there for an engine whose resolver is a function of the
//! right shape.
use std::collections::VecDeque;
use vstd::prelude::*;

verus! {

/// What an engine holds: the events on its queue, and what it was set up with.
pub trait EngineState<Event> {
    /// What an engine is set up with: all that decides how events are resolved once
    /// the combinator has handed them back. Queuing an event leaves it as it is.
    type Setup;

    /// The events on the queue, in the order in which they were added.
    spec fn queue(&self) -> Seq<Event>;

    /// What this engine is set up with.
    spec fn setup(&self) -> Self::Setup;
}

/// What resolution does with the events that the combinator hands back, for an engine
/// with a given setup.
pub trait EngineModel<System, Event, Return>: EngineState<Event> {
    /// The resolver may be called on every event that it meets when `events` is what
    /// the combinator hands back and resolution starts from `start`.
    spec fn accepts(setup: Self::Setup, events: Seq<Event>, start: System) -> bool;

    /// Resolution can return `outcome` when `events` is what the combinator hands back
    /// and resolution starts from `start`.
    spec fn resolves_to(
        setup: Self::Setup,
        events: Seq<Event>,
        start: System,
        outcome: Return,
    ) -> bool;
}

/// `engine.resolve_with(init, comb)` can return `outcome`: `init` gives the state to
/// start from, `comb` is handed the queue and gives the events to resolve.
pub open spec fn outcome_with<
    System,
    Event,
    Return,
    K: EngineModel<System, Event, Return>,
    F: FnOnce(Vec<Event>) -> Vec<Event>,
    G: Fn() -> System,
>(engine: &K, init: G, comb: F, outcome: Return) -> bool {
    exists|start: System, given: Vec<Event>, chosen: Vec<Event>|
        #![trigger call_ensures(init, (), start), call_ensures(comb, (given,), chosen)]
        {
            &&& call_ensures(init, (), start)
            &&& given@ == engine.queue()
            &&& call_ensures(comb, (given,), chosen)
            &&& K::resolves_to(engine.setup(), chosen@, start, outcome)
        }
}

/// `engine.resolve_in_order(init)` can return `outcome`: `init` gives the state to
/// start from, and the events resolved are those on the queue, in its order.
pub open spec fn outcome_in_order<
    System,
    Event,
    Return,
    K: EngineModel<System, Event, Return>,
    G: Fn() -> System,
>(engine: &K, init: G, outcome: Return) -> bool {
    exists|start: System| #[trigger]
        call_ensures(init, (), start) && K::resolves_to(
            engine.setup(),
            engine.queue(),
            start,
            outcome,
        )
}

/// `after` is `before` followed by one clone of each event of `events`, in the order of
/// `events`.
pub open spec fn queued_clones<Event: Clone>(
    before: Seq<Event>,
    events: Seq<Event>,
    after: Seq<Event>,
) -> bool {
    &&& after.len() == before.len() + events.len()
    &&& after.take(before.len() as int) == before
    &&& forall|i: int|
        0 <= i < events.len() ==> cloned(#[trigger] events[i], after[before.len() + i])
}

/// The KnowledgeEngine provides a framework for testing the consequences of messages
/// in an eventually consistent system arriving in various orders.
///
/// Synthetic events are queued up and transformed by a given function, the resolver,
/// into actual changes to the state of the system under test. Once this function is
/// defined, each test needs only define a starting state, a list of events to execute,
/// and an expected ending condition.
///
/// # Types
/// - `System`: the type of the system under test.
/// - `Event`: the type of synthetic events.
/// - `Return`: the type that resolution returns. Can be the same as `System`, or a
///   `Result<System, _>` where the resolver can fail.
pub trait KnowledgeEngine<System, Event: Clone, Return>: Sized + EngineModel<
    System,
    Event,
    Return,
> {
    /// Add a single event to the queue of events.
    fn queue_event(self, event: Event) -> (next: Self)
        ensures
            next.queue() == self.queue().push(event),
            next.setup() == self.setup(),
    ;

    /// Resolve the queue of events using the given combinator: a function that takes
    /// the queued events and returns the events to resolve, in the order in which to
    /// resolve them. It may reorder, drop or repeat events, or hand back others.
    ///
    /// `init` is called once, for the state to start from. The resolver is called
    /// once for each event that the combinator hands back, in that order, each time
    /// on the state that the call before it returned.
    fn resolve_with<F: FnOnce(Vec<Event>) -> Vec<Event>, G: Fn() -> System>(
        self,
        init: G,
        comb: F,
    ) -> (outcome: Return)
        requires
            call_requires(init, ()),
            forall|given: Vec<Event>|
                given@ == self.queue() ==> #[trigger] call_requires(comb, (given,)),
            forall|start: System, given: Vec<Event>, chosen: Vec<Event>|
                #![trigger call_ensures(init, (), start), call_ensures(comb, (given,), chosen)]
                call_ensures(init, (), start) && given@ == self.queue() && call_ensures(
                    comb,
                    (given,),
                    chosen,
                ) ==> Self::accepts(self.setup(), chosen@, start),
        ensures
            outcome_with(&self, init, comb, outcome),
    ;

    /// Queue multiple events from a slice.
    fn queue_events(self, events: &[Event]) -> (next: Self)
        ensures
            queued_clones(self.queue(), events@, next.queue()),
            next.setup() == self.setup(),
    {
        let ghost before = self;
        let mut new = self;
        assert(new.queue().take(before.queue().len() as int) == before.queue());
        for event in it: events.iter()
            invariant
                it.seq() == events@.map(|i: int, e: Event| &e),
                queued_clones(before.queue(), events@.take(it.index() as int), new.queue()),
                new.setup() == before.setup(),
        {
            let ghost queued = new.queue();
            new = new.queue_event(event.clone());
            proof {
                let first: int = before.queue().len() as int;
                assert(new.queue().take(first) == queued.take(first));
            }
        }
        assert(events@.take(events@.len() as int) == events@);
        new
    }

    /// The simplest resolution function - resolves the events on the queue in the order
    /// in which they were added.
    fn resolve_in_order<G: Fn() -> System>(self, init: G) -> (outcome: Return)
        requires
            call_requires(init, ()),
            forall|start: System| #[trigger]
                call_ensures(init, (), start) ==> Self::accepts(
                    self.setup(),
                    self.queue(),
                    start,
                ),
        ensures
            outcome_in_order(&self, init, outcome),
    {
        let identity = |events: Vec<Event>| -> (chosen: Vec<Event>)
            ensures
                chosen == events,
            {
                events
            };
        self.resolve_with(init, identity)
    }
}

/// Moves the events of a queue into a vector, the oldest first.
pub(crate) fn into_vec<Event>(queue: VecDeque<Event>) -> (events: Vec<Event>)
    ensures
        events@ == queue@,
{
    let mut queue = queue;
    let ghost queued = queue@;
    let mut events: Vec<Event> = Vec::new();
    while queue.len() > 0
        invariant
            events@ + queue@ == queued,
        decreases queue@.len(),
    {
        if let Some(event) = queue.pop_front() {
            events.push(event);
        }
    }
    events
}

} // verus!
