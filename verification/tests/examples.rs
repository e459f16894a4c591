use std::cell::RefCell;
use std::rc::Rc;
use visn::{new_fallible_engine, new_knowledge_engine, KnowledgeEngine};

#[derive(Debug, Default)]
struct SystemUnderTest {
    a: String,
    b: String,
    c: String,
}

#[derive(Clone, Debug)]
enum SyntheticEvent {
    SetA(&'static str),
    SetB(&'static str),
    SetC(&'static str),
}

fn resolve(event: SyntheticEvent, system: SystemUnderTest) -> SystemUnderTest {
    let mut system = system;
    match event {
        SyntheticEvent::SetA(s) => system.a = s.into(),
        SyntheticEvent::SetB(s) => system.b = s.into(),
        SyntheticEvent::SetC(s) => system.c = s.into(),
    };
    system
}

fn fallible_resolve(
    event: SyntheticEvent,
    system: SystemUnderTest,
) -> Result<SystemUnderTest, String> {
    let mut system = system;
    match event {
        SyntheticEvent::SetA(s) => system.a = s.into(),
        SyntheticEvent::SetB(s) => system.b = s.into(),
        SyntheticEvent::SetC(s) => {
            return Err(format!("Could not set C to {}.", s));
        }
    };
    Ok(system)
}

#[test]
fn knowledge_engine_example() {
    let system = new_knowledge_engine::<SystemUnderTest, SyntheticEvent, _>(resolve)
        .queue_events(&[
            SyntheticEvent::SetA("first a value"),
            SyntheticEvent::SetB("first b value"),
            SyntheticEvent::SetA("second a value"),
        ])
        .resolve_in_order(SystemUnderTest::default);
    assert_eq!(system.a, "second a value".to_string());
    assert_eq!(system.b, "first b value".to_string());
}

#[test]
fn fallible_engine_example() {
    new_fallible_engine(fallible_resolve)
        .queue_events(&[
            SyntheticEvent::SetA("first a value"),
            SyntheticEvent::SetB("first b value"),
            SyntheticEvent::SetC("this will error"),
            SyntheticEvent::SetA("second a value"),
        ])
        .resolve_in_order(SystemUnderTest::default)
        .unwrap_err();
}

#[test]
fn overwriting_fields_in_order_keeps_the_last_value_of_each() {
    let system = new_knowledge_engine(resolve)
        .queue_events(&[
            SyntheticEvent::SetA("a1"),
            SyntheticEvent::SetB("b1"),
            SyntheticEvent::SetA("a2"),
        ])
        .resolve_in_order(SystemUnderTest::default);
    assert_eq!(system.a, "a2".to_string());
    assert_eq!(system.b, "b1".to_string());
    assert_eq!(system.c, "".to_string());
}

#[test]
fn failing_on_c_returns_that_error_and_nothing_later_applies() {
    let seen = Rc::new(RefCell::new(Vec::new()));
    let record = seen.clone();
    let resolve = move |event: SyntheticEvent, system: SystemUnderTest| {
        record.borrow_mut().push(format!("{:?} on a={:?} b={:?}", event, system.a, system.b));
        fallible_resolve(event, system)
    };
    let outcome = new_fallible_engine(resolve)
        .queue_events(&[
            SyntheticEvent::SetA("x"),
            SyntheticEvent::SetB("y"),
            SyntheticEvent::SetC("z"),
            SyntheticEvent::SetA("w"),
        ])
        .resolve_in_order(SystemUnderTest::default);
    assert_eq!(outcome.unwrap_err(), "Could not set C to z.".to_string());
    assert_eq!(
        *seen.borrow(),
        vec![
            "SetA(\"x\") on a=\"\" b=\"\"".to_string(),
            "SetB(\"y\") on a=\"x\" b=\"\"".to_string(),
            "SetC(\"z\") on a=\"x\" b=\"y\"".to_string(),
        ]
    );
}

#[test]
fn fallible_engine_without_a_failure_returns_the_last_state() {
    let system = new_fallible_engine(fallible_resolve)
        .queue_events(&[
            SyntheticEvent::SetA("x"),
            SyntheticEvent::SetB("y"),
            SyntheticEvent::SetA("w"),
        ])
        .resolve_in_order(SystemUnderTest::default)
        .unwrap();
    assert_eq!(system.a, "w".to_string());
    assert_eq!(system.b, "y".to_string());
    assert_eq!(system.c, "".to_string());
}

#[test]
fn total_engine_resolves_every_kind_of_event() {
    let system = new_knowledge_engine(resolve)
        .queue_event(SyntheticEvent::SetC("c1"))
        .queue_event(SyntheticEvent::SetA("a1"))
        .queue_event(SyntheticEvent::SetC("c2"))
        .resolve_in_order(SystemUnderTest::default);
    assert_eq!(system.a, "a1".to_string());
    assert_eq!(system.b, "".to_string());
    assert_eq!(system.c, "c2".to_string());
}
