//! # visn - "knowledge"
//! ## A simulation engine for eventually consistent systems
//!
//! `visn` is a small framework for testing eventually consistent systems. A test
//! describes the changes that the system may see as synthetic events, and gives a
//! resolver: a function that folds one event into the state of the system. An engine
//! queues events and then resolves them from a starting state, in the order in which
//! they were queued or in whatever order a combinator makes of them, and returns the
//! state that the system ends in.
//!
//! - [`new_knowledge_engine`] makes an engine for a resolver that always yields a state.
//! - [`new_fallible_engine`] makes an engine for a resolver that can fail; resolution
//!   stops at the first failure and returns it.
//! - [`infallible::new_knowledge_engine`] makes an engine that also has a prologue and
//!   an epilogue: events that are resolved before and after those of the main queue,
//!   untouched by the combinator.
//!
//! All three are used through [`KnowledgeEngine`]. Its contracts are stated in the model
//! of [`EngineState`] and [`EngineModel`], over the folds of [`fold`]; [`laws`] holds
//! what follows from them.
//!
//! # Example
//! ```
//! use visn::{new_knowledge_engine, KnowledgeEngine};
//!
//! // This is a simplistic example of a system being tested
//! #[derive(Debug, Default)]
//! struct SystemUnderTest {
//!     a: String,
//!     b: String,
//! }
//!
//! // The two possible changes to the system are setting string A or setting string B
//! #[derive(Debug, Clone)]
//! enum SyntheticEvent {
//!     SetA(&'static str),
//!     SetB(&'static str),
//! }
//!
//! // This function maps SyntheticEvent variants to real changes in the system
//! fn resolve(event: SyntheticEvent, system: SystemUnderTest) -> SystemUnderTest {
//!     let mut system = system;
//!     match event {
//!         SyntheticEvent::SetA(s) => system.a = s.into(),
//!         SyntheticEvent::SetB(s) => system.b = s.into(),
//!     };
//!     system
//! }
//!
//! use SyntheticEvent::*;
//! // Create a new knowledge engine
//! let result = new_knowledge_engine(resolve)
//!     // Queue up some events for the engine to execute
//!     .queue_events(&[SetA("a1"), SetB("b1"), SetA("a2")])
//!     // Resolve these events in order, starting from the default state and returning
//!     // the final state of the system.
//!     .resolve_in_order(SystemUnderTest::default);
//!
//! assert_eq!(result.a, "a2".to_string());
//! assert_eq!(result.b, "b1".to_string());
//! ```
pub mod engine;
pub mod fallible;
pub mod fold;
pub mod infallible;
pub mod knowledge;
pub mod laws;

pub use engine::{EngineModel, EngineState, KnowledgeEngine};
pub use fallible::{new_fallible_engine, FallibleEngineImpl};
pub use knowledge::{new_knowledge_engine, KnowledgeEngineImpl};
