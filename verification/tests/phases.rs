use std::cell::RefCell;
use std::rc::Rc;
use visn::infallible::new_knowledge_engine;
use visn::KnowledgeEngine;

fn append(event: u64, state: u64) -> u64 {
    state * 10 + event
}

fn zero() -> u64 {
    0
}

fn reversed(events: Vec<u64>) -> Vec<u64> {
    let mut events = events;
    events.reverse();
    events
}

#[test]
fn without_prologue_and_epilogue_the_main_queue_is_resolved_in_order() {
    let end = new_knowledge_engine(append).queue_events(&[1, 2, 3]).resolve_in_order(zero);
    assert_eq!(end, 123);
}

#[test]
fn empty_engine_with_phases_resolves_to_the_initial_state() {
    let end = new_knowledge_engine(append).resolve_in_order(|| 17);
    assert_eq!(end, 17);
}

#[test]
fn prologue_is_resolved_first_and_epilogue_last() {
    let end = new_knowledge_engine(append)
        .queue_epilogue(8)
        .queue_event(4)
        .queue_prologue(1)
        .queue_event(5)
        .queue_epilogue(9)
        .queue_prologue(2)
        .resolve_in_order(zero);
    assert_eq!(end, 124589);
}

#[test]
fn combinator_reorders_the_main_queue_only() {
    let end = new_knowledge_engine(append)
        .queue_prologue(1)
        .queue_prologue(2)
        .queue_events(&[3, 4, 5])
        .queue_epilogue(6)
        .queue_epilogue(7)
        .resolve_with(zero, reversed);
    assert_eq!(end, 1254367);
}

#[test]
fn combinator_is_handed_the_main_queue_only() {
    let seen = Rc::new(RefCell::new(Vec::new()));
    let record = seen.clone();
    let end = new_knowledge_engine(append)
        .queue_prologue(1)
        .queue_events(&[2, 3])
        .queue_epilogue(4)
        .resolve_with(zero, move |queued: Vec<u64>| {
            *record.borrow_mut() = queued.clone();
            Vec::new()
        });
    assert_eq!(*seen.borrow(), vec![2, 3]);
    assert_eq!(end, 14);
}

#[test]
fn prologue_and_epilogue_alone_are_resolved_one_after_the_other() {
    let end = new_knowledge_engine(append)
        .queue_epilogue(3)
        .queue_prologue(1)
        .queue_epilogue(4)
        .queue_prologue(2)
        .resolve_in_order(zero);
    assert_eq!(end, 1234);
}

#[test]
fn resolver_meets_prologue_then_chosen_events_then_epilogue() {
    let calls = Rc::new(RefCell::new(Vec::new()));
    let record = calls.clone();
    let resolve = move |event: u64, state: u64| {
        record.borrow_mut().push((event, state));
        state + event
    };
    let end = new_knowledge_engine(resolve)
        .queue_event(10)
        .queue_epilogue(100)
        .queue_prologue(1)
        .queue_event(20)
        .resolve_with(|| 1000, reversed);
    assert_eq!(end, 1131);
    assert_eq!(*calls.borrow(), vec![(1, 1000), (20, 1001), (10, 1021), (100, 1031)]);
}

#[test]
fn queue_events_with_phases_queues_as_queue_event_does_one_by_one() {
    let at_once = new_knowledge_engine(append)
        .queue_prologue(1)
        .queue_events(&[2, 3, 4])
        .queue_epilogue(5)
        .resolve_in_order(zero);
    let one_by_one = new_knowledge_engine(append)
        .queue_prologue(1)
        .queue_event(2)
        .queue_event(3)
        .queue_event(4)
        .queue_epilogue(5)
        .resolve_in_order(zero);
    assert_eq!(at_once, 12345);
    assert_eq!(at_once, one_by_one);
}
