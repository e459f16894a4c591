use std::cell::RefCell;
use visn::fold::{fold_events, try_fold_events};

fn append(event: u64, state: u64) -> u64 {
    state * 10 + event
}

fn halve(event: u64, state: u64) -> Result<u64, u64> {
    if event % 2 == 0 {
        Ok(state + event / 2)
    } else {
        Err(event)
    }
}

#[test]
fn fold_events_applies_the_resolver_from_first_to_last() {
    assert_eq!(fold_events(&append, vec![1, 2, 3, 4], 0), 1234);
    assert_eq!(fold_events(&append, vec![4, 3, 2, 1], 9), 94321);
}

#[test]
fn fold_events_over_nothing_returns_the_start() {
    assert_eq!(fold_events(&append, Vec::new(), 31), 31);
}

#[test]
fn fold_events_over_one_event_applies_the_resolver_once() {
    assert_eq!(fold_events(&append, vec![6], 5), 56);
}

#[test]
fn fold_events_moves_each_event_into_the_resolver() {
    let join = |event: String, state: String| state + &event;
    let events = vec![String::from("x"), String::from("y"), String::from("z")];
    assert_eq!(fold_events(&join, events, String::from(">")), ">xyz".to_string());
}

#[test]
fn try_fold_events_returns_the_last_state_when_nothing_fails() {
    assert_eq!(try_fold_events(&halve, vec![2, 4, 6], 100), Ok(106));
}

#[test]
fn try_fold_events_over_nothing_returns_the_start() {
    assert_eq!(try_fold_events(&halve, Vec::new(), 3), Ok(3));
}

#[test]
fn try_fold_events_returns_the_first_error() {
    assert_eq!(try_fold_events(&halve, vec![2, 5, 4, 7], 0), Err(5));
    assert_eq!(try_fold_events(&halve, vec![9, 2], 0), Err(9));
    assert_eq!(try_fold_events(&halve, vec![2, 2, 11], 0), Err(11));
}

#[test]
fn try_fold_events_stops_at_the_first_error() {
    let calls = RefCell::new(Vec::new());
    let resolve = |event: u64, state: u64| {
        calls.borrow_mut().push((event, state));
        halve(event, state)
    };
    assert_eq!(try_fold_events(&resolve, vec![2, 4, 3, 8, 1], 0), Err(3));
    assert_eq!(*calls.borrow(), vec![(2, 0), (4, 1), (3, 3)]);
}
