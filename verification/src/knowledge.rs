//! The engine whose resolver always yields a state.
use crate::engine::{into_vec, EngineModel, EngineState, KnowledgeEngine};
use crate::fold::{accepts, fold_events, folds_to};
use std::collections::VecDeque;
use std::marker::PhantomData;
use vstd::prelude::*;

verus! {

/// A knowledge engine with a resolver that cannot fail: resolution returns the state
/// that the last event left. It is set up with its resolver and nothing else.
pub struct KnowledgeEngineImpl<System, Event, Resolve> {
    events: VecDeque<Event>,
    resolve: Resolve,
    system: PhantomData<System>,
}

/// Create a new KnowledgeEngine implementation with the given resolver function.
/// This function should turn synthetic (test) events into actual changes in the
/// state of the system under test.
///
/// The resolver is not called before the engine resolves.
pub fn new_knowledge_engine<System, Event, F>(resolve: F) -> (engine: KnowledgeEngineImpl<
    System,
    Event,
    F,
>) where
    Event: Clone,
    F: Fn(Event, System) -> System + 'static,

    ensures
        engine.queue() == Seq::<Event>::empty(),
        engine.setup() == resolve,
        KnowledgeEngineImpl::<System, Event, F>::resolves_by(resolve),
{
    KnowledgeEngineImpl { events: VecDeque::new(), resolve, system: PhantomData }
}

impl<System, Event, Resolve: Fn(Event, System) -> System> KnowledgeEngineImpl<
    System,
    Event,
    Resolve,
> {
    /// An engine of this type that is set up with `resolve` accepts what `resolve`
    /// accepts, and its resolution returns what folding `resolve` returns.
    ///
    /// This is how [`EngineModel::accepts`] and [`EngineModel::resolves_to`] are
    /// defined for this type. [`new_knowledge_engine`] states it of the resolver that
    /// it is given, so that a caller has it whatever the type of the resolver: Verus
    /// does not look into a trait's spec function where that type is the type of a
    /// closure or of a named function.
    pub open spec fn resolves_by(resolve: Resolve) -> bool {
        &&& forall|events: Seq<Event>, start: System|
            #[trigger] <Self as EngineModel<System, Event, System>>::accepts(
                resolve,
                events,
                start,
            ) == accepts(resolve, events, start)
        &&& forall|events: Seq<Event>, start: System, outcome: System|
            #[trigger] <Self as EngineModel<System, Event, System>>::resolves_to(
                resolve,
                events,
                start,
                outcome,
            ) == folds_to(resolve, events, start, outcome)
    }
}

impl<System, Event, Resolve> EngineState<Event> for KnowledgeEngineImpl<System, Event, Resolve> {
    type Setup = Resolve;

    closed spec fn queue(&self) -> Seq<Event> {
        self.events@
    }

    closed spec fn setup(&self) -> Resolve {
        self.resolve
    }
}

impl<System, Event, Resolve: Fn(Event, System) -> System> EngineModel<
    System,
    Event,
    System,
> for KnowledgeEngineImpl<System, Event, Resolve> {
    open spec fn accepts(setup: Resolve, events: Seq<Event>, start: System) -> bool {
        accepts(setup, events, start)
    }

    open spec fn resolves_to(
        setup: Resolve,
        events: Seq<Event>,
        start: System,
        outcome: System,
    ) -> bool {
        folds_to(setup, events, start, outcome)
    }
}

impl<System, Event: Clone, Resolve: Fn(Event, System) -> System> KnowledgeEngine<
    System,
    Event,
    System,
> for KnowledgeEngineImpl<System, Event, Resolve> {
    fn queue_event(self, event: Event) -> (next: Self) {
        let mut new = self;
        new.events.push_back(event);
        new
    }

    fn resolve_with<F: FnOnce(Vec<Event>) -> Vec<Event>, G: Fn() -> System>(
        self,
        init: G,
        comb: F,
    ) -> (outcome: System) {
        let system = init();
        let chosen = comb(into_vec(self.events));
        fold_events(&self.resolve, chosen, system)
    }
}

} // verus!
