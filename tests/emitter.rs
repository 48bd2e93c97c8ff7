use event::{Callback, Event, EventEmitter, Eventable};

struct Clicked;
struct Closed;

impl Event<u32> for Clicked {
    fn spec_key() -> u64 {
        Self::key()
    }

    fn key() -> u64 {
        1
    }
}

impl Event<u32> for Closed {
    fn spec_key() -> u64 {
        Self::key()
    }

    fn key() -> u64 {
        2
    }
}

#[derive(Debug, PartialEq)]
enum Failure {
    Refused(u32),
}

#[derive(Clone, Copy)]
enum Handler {
    /// Records its own index and the payload.
    Tag(u32),
    /// Records the payload, doubled, under its index.
    Double(u32),
    /// Records its index, then fails.
    Fail(u32),
}

// The model of a callback written outside the verifier is the callback
// itself: each model function runs `call` on a copy of the state.
impl Callback<u32, Vec<(u32, u32)>, Failure> for Handler {
    fn effect(&self, payload: u32, state: Vec<(u32, u32)>) -> Vec<(u32, u32)> {
        let mut s = state;
        let _ = self.call(&payload, &mut s);
        s
    }

    fn failure(&self, payload: u32, state: Vec<(u32, u32)>) -> Option<Failure> {
        let mut s = state;
        self.call(&payload, &mut s).err()
    }

    fn call(&self, payload: &u32, state: &mut Vec<(u32, u32)>) -> Result<(), Failure> {
        match *self {
            Handler::Tag(i) => {
                state.push((i, *payload));
                Ok(())
            }
            Handler::Double(i) => {
                state.push((i, *payload * 2));
                Ok(())
            }
            Handler::Fail(i) => {
                state.push((i, *payload));
                Err(Failure::Refused(i))
            }
        }
    }
}

#[test]
fn callbacks_run_in_registration_order() {
    let mut e: EventEmitter<Handler> = EventEmitter::new();
    for i in 0..5u32 {
        e.on::<Clicked, u32>(Handler::Tag(i));
    }
    let mut log: Vec<(u32, u32)> = Vec::new();
    let r: Result<(), Failure> = e.trigger::<Clicked, u32, Vec<(u32, u32)>, Failure>(0, &mut log);
    assert_eq!(r, Ok(()));
    let order: Vec<u32> = log.iter().map(|p| p.0).collect();
    assert_eq!(order, vec![0, 1, 2, 3, 4]);
}

#[test]
fn other_kinds_are_not_run() {
    let mut e: EventEmitter<Handler> = EventEmitter::new();
    e.on::<Clicked, u32>(Handler::Tag(0));
    e.on::<Closed, u32>(Handler::Tag(1));
    let mut log: Vec<(u32, u32)> = Vec::new();
    let r: Result<(), Failure> = e.trigger::<Closed, u32, Vec<(u32, u32)>, Failure>(5, &mut log);
    assert_eq!(r, Ok(()));
    assert_eq!(log, vec![(1, 5)]);
    assert_eq!(log.iter().filter(|p| p.0 == 0).count(), 0);
}

#[test]
fn every_callback_sees_the_payload() {
    let mut e: EventEmitter<Handler> = EventEmitter::new();
    for i in 0..3u32 {
        e.on::<Clicked, u32>(Handler::Tag(i));
    }
    let mut log: Vec<(u32, u32)> = Vec::new();
    let r: Result<(), Failure> = e.trigger::<Clicked, u32, Vec<(u32, u32)>, Failure>(42, &mut log);
    assert_eq!(r, Ok(()));
    assert_eq!(log.len(), 3);
    assert!(log.iter().all(|p| p.1 == 42));
}

#[test]
fn trigger_without_callbacks_does_nothing() {
    let e: EventEmitter<Handler> = EventEmitter::new();
    let mut log: Vec<(u32, u32)> = vec![(9, 9)];
    let r: Result<(), Failure> = e.trigger::<Clicked, u32, Vec<(u32, u32)>, Failure>(3, &mut log);
    assert_eq!(r, Ok(()));
    assert_eq!(log, vec![(9, 9)]);
}

#[test]
fn registrations_accumulate() {
    let mut e: EventEmitter<Handler> = EventEmitter::new();
    e.on::<Clicked, u32>(Handler::Tag(1));
    e.on::<Clicked, u32>(Handler::Tag(2));
    let mut log: Vec<(u32, u32)> = Vec::new();
    let r: Result<(), Failure> = e.trigger::<Clicked, u32, Vec<(u32, u32)>, Failure>(4, &mut log);
    assert_eq!(r, Ok(()));
    assert_eq!(log, vec![(1, 4), (2, 4)]);
}

#[test]
fn a_failure_stops_the_dispatch() {
    let mut e: EventEmitter<Handler> = EventEmitter::new();
    e.on::<Clicked, u32>(Handler::Tag(1));
    e.on::<Clicked, u32>(Handler::Fail(2));
    e.on::<Clicked, u32>(Handler::Tag(3));
    let mut log: Vec<(u32, u32)> = Vec::new();
    let r: Result<(), Failure> = e.trigger::<Clicked, u32, Vec<(u32, u32)>, Failure>(8, &mut log);
    assert_eq!(r, Err(Failure::Refused(2)));
    assert_eq!(log, vec![(1, 8), (2, 8)]);
}

#[test]
fn clicked_records_and_doubles() {
    let mut e: EventEmitter<Handler> = EventEmitter::new();
    e.on::<Clicked, u32>(Handler::Tag(1));
    e.on::<Clicked, u32>(Handler::Double(2));
    let mut log: Vec<(u32, u32)> = Vec::new();
    let r: Result<(), Failure> = e.trigger::<Clicked, u32, Vec<(u32, u32)>, Failure>(7, &mut log);
    assert_eq!(r, Ok(()));
    let h1: Vec<u32> = log.iter().filter(|p| p.0 == 1).map(|p| p.1).collect();
    let h2: Vec<u32> = log.iter().filter(|p| p.0 == 2).map(|p| p.1).collect();
    assert_eq!(h1, vec![7]);
    assert_eq!(h2, vec![14]);
    assert_eq!(log, vec![(1, 7), (2, 14)]);
}

#[test]
fn register_appends_under_a_key() {
    let mut e: EventEmitter<Handler> = EventEmitter::new();
    e.register(10, Handler::Tag(1));
    e.register(11, Handler::Tag(2));
    e.register(10, Handler::Tag(3));
    let mut log: Vec<(u32, u32)> = Vec::new();
    let r: Result<(), Failure> = e.dispatch_key(10, &6, &mut log);
    assert_eq!(r, Ok(()));
    assert_eq!(log, vec![(1, 6), (3, 6)]);
    let r: Result<(), Failure> = e.dispatch_key(12, &6, &mut log);
    assert_eq!(r, Ok(()));
    assert_eq!(log.len(), 2);
}

#[test]
fn an_emitter_is_its_own_host() {
    let mut e: EventEmitter<Handler> = EventEmitter::new();
    e.events_mut().register(1, Handler::Tag(5));
    let mut log: Vec<(u32, u32)> = Vec::new();
    let r: Result<(), Failure> = e.events().dispatch_key(1, &2, &mut log);
    assert_eq!(r, Ok(()));
    assert_eq!(log, vec![(5, 2)]);
}

#[test]
fn lookup_gives_the_callbacks_of_a_key() {
    let mut e: EventEmitter<Handler> = EventEmitter::new();
    assert_eq!(e.lookup(4).len(), 0);
    e.register(4, Handler::Tag(1));
    e.register(4, Handler::Double(2));
    let hs = e.lookup(4);
    assert_eq!(hs.len(), 2);
    assert!(matches!(hs[0], Handler::Tag(1)));
    assert!(matches!(hs[1], Handler::Double(2)));
    assert_eq!(e.lookup(5).len(), 0);
}
