//! The engine whose resolver can fail.
use crate::engine::{into_vec, EngineModel, EngineState, KnowledgeEngine};
use crate::fold::{try_accepts, try_fold_events, try_outcome};
use std::collections::VecDeque;
use std::marker::PhantomData;
use vstd::prelude::*;

verus! {

/// A knowledge engine with a resolver that can fail: resolution returns the state that
/// the last event left, or the error of the first event that failed. It is set up with
/// its resolver and nothing else.
pub struct FallibleEngineImpl<System, Event, Error, Resolve> {
    events: VecDeque<Event>,
    resolve: Resolve,
    system: PhantomData<System>,
    error: PhantomData<Error>,
}

/// Create a new KnowledgeEngine implementation with the given fallible resolver function.
/// This function should turn synthetic (test) events into actual changes in the
/// state of the system under test.
///
/// If the resolver function ever returns an Err variant, the engine will cease and return
/// that Err. The resolver is not called before the engine resolves.
pub fn new_fallible_engine<System, Event, Error, F>(resolve: F) -> (engine: FallibleEngineImpl<
    System,
    Event,
    Error,
    F,
>) where
    Event: Clone,
    F: Fn(Event, System) -> Result<System, Error> + 'static,

    ensures
        engine.queue() == Seq::<Event>::empty(),
        engine.setup() == resolve,
        FallibleEngineImpl::<System, Event, Error, F>::resolves_by(resolve),
{
    FallibleEngineImpl {
        events: VecDeque::new(),
        resolve,
        system: PhantomData,
        error: PhantomData,
    }
}

impl<
    System,
    Event,
    Error,
    Resolve: Fn(Event, System) -> Result<System, Error>,
> FallibleEngineImpl<System, Event, Error, Resolve> {
    /// An engine of this type that is set up with `resolve` accepts what `resolve`
    /// accepts, and its resolution returns what folding `resolve` returns: the state
    /// that the last event left, or the error of the first event that failed.
    ///
    /// This is how [`EngineModel::accepts`] and [`EngineModel::resolves_to`] are
    /// defined for this type. [`new_fallible_engine`] states it of the resolver that
    /// it is given, so that a caller has it whatever the type of the resolver: Verus
    /// does not look into a trait's spec function where that type is the type of a
    /// closure or of a named function.
    pub open spec fn resolves_by(resolve: Resolve) -> bool {
        &&& forall|events: Seq<Event>, start: System|
            #[trigger] <Self as EngineModel<System, Event, Result<System, Error>>>::accepts(
                resolve,
                events,
                start,
            ) == try_accepts(resolve, events, start)
        &&& forall|events: Seq<Event>, start: System, outcome: Result<System, Error>|
            #[trigger] <Self as EngineModel<System, Event, Result<System, Error>>>::resolves_to(
                resolve,
                events,
                start,
                outcome,
            ) == try_outcome(resolve, events, start, outcome)
    }
}

impl<System, Event, Error, Resolve> EngineState<Event> for FallibleEngineImpl<
    System,
    Event,
    Error,
    Resolve,
> {
    type Setup = Resolve;

    closed spec fn queue(&self) -> Seq<Event> {
        self.events@
    }

    closed spec fn setup(&self) -> Resolve {
        self.resolve
    }
}

impl<System, Event, Error, Resolve: Fn(Event, System) -> Result<System, Error>> EngineModel<
    System,
    Event,
    Result<System, Error>,
> for FallibleEngineImpl<System, Event, Error, Resolve> {
    open spec fn accepts(setup: Resolve, events: Seq<Event>, start: System) -> bool {
        try_accepts(setup, events, start)
    }

    open spec fn resolves_to(
        setup: Resolve,
        events: Seq<Event>,
        start: System,
        outcome: Result<System, Error>,
    ) -> bool {
        try_outcome(setup, events, start, outcome)
    }
}

impl<
    System,
    Event: Clone,
    Error,
    Resolve: Fn(Event, System) -> Result<System, Error>,
> KnowledgeEngine<System, Event, Result<System, Error>> for FallibleEngineImpl<
    System,
    Event,
    Error,
    Resolve,
> {
    fn queue_event(self, event: Event) -> (next: Self) {
        let mut new = self;
        new.events.push_back(event);
        new
    }

    fn resolve_with<F: FnOnce(Vec<Event>) -> Vec<Event>, G: Fn() -> System>(
        self,
        init: G,
        comb: F,
    ) -> (outcome: Result<System, Error>) {
        let system = init();
        let chosen = comb(into_vec(self.events));
        try_fold_events(&self.resolve, chosen, system)
    }
}

} // verus!
