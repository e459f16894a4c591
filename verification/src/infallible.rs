//! The engine whose resolver always yields a state, with events that the combinator
//! never sees: a prologue, resolved before the events that it hands back, and an
//! epilogue, resolved after them.
use crate::engine::{EngineModel, EngineState, KnowledgeEngine};
use crate::fold::{accepts, fold_events, folds_to, lemma_accepts_split, lemma_folds_to_concat};
use std::marker::PhantomData;
use vstd::prelude::*;

verus! {

/// What an engine with a prologue and an epilogue is set up with.
pub struct Phases<Event, Resolve> {
    /// The resolver that the engine was made with.
    pub resolve: Resolve,
    /// The events resolved before those that the combinator hands back, in the order
    /// in which they were added.
    pub prologue: Seq<Event>,
    /// The events resolved after those that the combinator hands back, in the order in
    /// which they were added.
    pub epilogue: Seq<Event>,
}

/// A knowledge engine with a resolver that cannot fail and three queues. Resolution
/// folds the resolver over the prologue, then over what the combinator made of the main
/// queue, then over the epilogue, and returns the state that the last event left.
pub struct KnowledgeEngineImpl<System, Event, Resolve> {
    prologue: Vec<Event>,
    events: Vec<Event>,
    epilogue: Vec<Event>,
    resolve: Resolve,
    system: PhantomData<System>,
}

/// Create a new KnowledgeEngine implementation with the given resolver function.
/// This function should turn synthetic (test) events into actual changes in the
/// state of the system under test.
///
/// The resolver is not called before the engine resolves.
pub fn new_knowledge_engine<System, Event, F>(resolve: F) -> (engine: KnowledgeEngineImpl<
    System,
    Event,
    F,
>) where
    Event: Clone,
    F: Fn(Event, System) -> System + 'static,

    ensures
        engine.queue() == Seq::<Event>::empty(),
        engine.setup() == (Phases {
            resolve,
            prologue: Seq::<Event>::empty(),
            epilogue: Seq::<Event>::empty(),
        }),
        KnowledgeEngineImpl::<System, Event, F>::resolves_by(resolve),
{
    KnowledgeEngineImpl {
        prologue: Vec::new(),
        events: Vec::new(),
        epilogue: Vec::new(),
        resolve,
        system: PhantomData,
    }
}

impl<System, Event, Resolve: Fn(Event, System) -> System> KnowledgeEngineImpl<
    System,
    Event,
    Resolve,
> {
    /// An engine of this type that is set up with `resolve` accepts what `resolve`
    /// accepts, and its resolution returns what folding `resolve` returns, on the
    /// prologue, the events that the combinator hands back and the epilogue, taken as
    /// one sequence.
    ///
    /// This is how [`EngineModel::accepts`] and [`EngineModel::resolves_to`] are
    /// defined for this type. [`new_knowledge_engine`] states it of the resolver that
    /// it is given, so that a caller has it whatever the type of the resolver: Verus
    /// does not look into a trait's spec function where that type is the type of a
    /// closure or of a named function.
    pub open spec fn resolves_by(resolve: Resolve) -> bool {
        &&& forall|
            prologue: Seq<Event>,
            epilogue: Seq<Event>,
            events: Seq<Event>,
            start: System,
        |
            #[trigger] <Self as EngineModel<System, Event, System>>::accepts(
                Phases { resolve, prologue, epilogue },
                events,
                start,
            ) == accepts(resolve, prologue + events + epilogue, start)
        &&& forall|
            prologue: Seq<Event>,
            epilogue: Seq<Event>,
            events: Seq<Event>,
            start: System,
            outcome: System,
        |
            #[trigger] <Self as EngineModel<System, Event, System>>::resolves_to(
                Phases { resolve, prologue, epilogue },
                events,
                start,
                outcome,
            ) == folds_to(resolve, prologue + events + epilogue, start, outcome)
    }
}

impl<System, Event, Resolve> EngineState<Event> for KnowledgeEngineImpl<System, Event, Resolve> {
    type Setup = Phases<Event, Resolve>;

    closed spec fn queue(&self) -> Seq<Event> {
        self.events@
    }

    closed spec fn setup(&self) -> Phases<Event, Resolve> {
        Phases { resolve: self.resolve, prologue: self.prologue@, epilogue: self.epilogue@ }
    }
}

impl<System, Event, Resolve: Fn(Event, System) -> System> EngineModel<
    System,
    Event,
    System,
> for KnowledgeEngineImpl<System, Event, Resolve> {
    open spec fn accepts(
        setup: Phases<Event, Resolve>,
        events: Seq<Event>,
        start: System,
    ) -> bool {
        accepts(setup.resolve, setup.prologue + events + setup.epilogue, start)
    }

    open spec fn resolves_to(
        setup: Phases<Event, Resolve>,
        events: Seq<Event>,
        start: System,
        outcome: System,
    ) -> bool {
        folds_to(setup.resolve, setup.prologue + events + setup.epilogue, start, outcome)
    }
}

impl<System, Event: Clone, Resolve: Fn(Event, System) -> System> KnowledgeEngineImpl<
    System,
    Event,
    Resolve,
> {
    /// Add a single event to the prologue: the events that are resolved first, in the
    /// order in which they were added, whatever the combinator does.
    pub fn queue_prologue(self, event: Event) -> (next: Self)
        ensures
            next.queue() == self.queue(),
            next.setup() == (Phases {
                prologue: self.setup().prologue.push(event),
                ..self.setup()
            }),
    {
        let mut new = self;
        new.prologue.push(event);
        new
    }

    /// Add a single event to the epilogue: the events that are resolved last, in the
    /// order in which they were added, whatever the combinator does.
    pub fn queue_epilogue(self, event: Event) -> (next: Self)
        ensures
            next.queue() == self.queue(),
            next.setup() == (Phases {
                epilogue: self.setup().epilogue.push(event),
                ..self.setup()
            }),
    {
        let mut new = self;
        new.epilogue.push(event);
        new
    }
}

impl<System, Event: Clone, Resolve: Fn(Event, System) -> System> KnowledgeEngine<
    System,
    Event,
    System,
> for KnowledgeEngineImpl<System, Event, Resolve> {
    fn queue_event(self, event: Event) -> (next: Self) {
        let mut new = self;
        new.events.push(event);
        new
    }

    fn resolve_with<F: FnOnce(Vec<Event>) -> Vec<Event>, G: Fn() -> System>(
        self,
        init: G,
        comb: F,
    ) -> (outcome: System) {
        let start = init();
        // The combinator is called before the prologue is resolved: what the resolver
        // has to accept is the prologue, what the combinator hands back and the epilogue
        // as one sequence, which is known only once the combinator has answered.
        let chosen = comb(self.events);
        proof {
            let opening = self.prologue@ + chosen@;
            lemma_accepts_split(self.resolve, opening, self.epilogue@, start);
            lemma_accepts_split(self.resolve, self.prologue@, chosen@, start);
        }
        let opened = fold_events(&self.resolve, self.prologue, start);
        let reordered = fold_events(&self.resolve, chosen, opened);
        proof {
            lemma_folds_to_concat(
                self.resolve,
                self.prologue@,
                chosen@,
                start,
                opened,
                reordered,
            );
        }
        let closed = fold_events(&self.resolve, self.epilogue, reordered);
        proof {
            lemma_folds_to_concat(
                self.resolve,
                self.prologue@ + chosen@,
                self.epilogue@,
                start,
                reordered,
                closed,
            );
        }
        closed
    }
}

} // verus!
