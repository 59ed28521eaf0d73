use cobweb::forwarder::{Action, Event, Forwarder, LoopEnd, Outcome, Side};

fn run(forwarder: &mut Forwarder, events: Vec<Event>) -> (Vec<Vec<u8>>, Vec<Vec<u8>>) {
    let mut to_a: Vec<Vec<u8>> = Vec::new();
    let mut to_b: Vec<Vec<u8>> = Vec::new();
    for e in events {
        match forwarder.step(e) {
            Action::Deliver(Side::A, p) => to_a.push(p),
            Action::Deliver(Side::B, p) => to_b.push(p),
            Action::Shutdown => {}
            Action::Ignore => {}
        }
    }
    (to_a, to_b)
}

#[test]
fn relay_runs_to_exhaustion_without_reordering() {
    // channel A emits [a1, a2], channel B emits [b1]; after running to
    // exhaustion B received [a1, a2] in order and A received [b1]
    let a1 = vec![1u8, 1];
    let a2 = vec![2u8, 2];
    let b1 = vec![3u8, 3];
    let mut f = Forwarder::new();
    let events = vec![
        Event::Received(Side::A, a1.clone()),
        Event::Received(Side::B, b1.clone()),
        Event::Received(Side::A, a2.clone()),
        Event::Ended(Side::A, LoopEnd::Eof),
    ];
    let (to_a, to_b) = run(&mut f, events);
    assert_eq!(to_b, vec![a1, a2]);
    assert_eq!(to_a, vec![b1]);
    assert_eq!(f.outcome(), Some(Outcome::Ended(Side::A, LoopEnd::Eof)));
}

#[test]
fn each_packet_is_forwarded_as_exactly_one_unit() {
    let mut f = Forwarder::new();
    let p = vec![0u8; 1500];
    match f.step(Event::Received(Side::B, p.clone())) {
        Action::Deliver(side, q) => {
            assert_eq!(side, Side::A);
            assert_eq!(q, p);
        }
        _ => panic!("a packet while running must be delivered"),
    }
    assert_eq!(f.outcome(), None);
}

#[test]
fn failure_of_one_side_terminates_and_names_that_side() {
    // A fails on its second read: the relay finishes at once, the outcome
    // says A failed, and whatever B still had pending is not delivered
    let a1 = vec![9u8];
    let b_late = vec![8u8];
    let mut f = Forwarder::new();

    match f.step(Event::Received(Side::A, a1.clone())) {
        Action::Deliver(Side::B, p) => assert_eq!(p, a1),
        _ => panic!("the first packet must be delivered"),
    }
    assert!(matches!(f.step(Event::Ended(Side::A, LoopEnd::Failed)), Action::Shutdown));
    assert_eq!(f.outcome(), Some(Outcome::Ended(Side::A, LoopEnd::Failed)));

    // B's pending read completes after the shutdown: ignored, nothing leaks on
    assert!(matches!(f.step(Event::Received(Side::B, b_late)), Action::Ignore));
    assert_eq!(f.outcome(), Some(Outcome::Ended(Side::A, LoopEnd::Failed)));
}

#[test]
fn cancellation_finishes_the_relay() {
    let mut f = Forwarder::new();
    assert!(matches!(f.step(Event::CancelRequested), Action::Shutdown));
    assert_eq!(f.outcome(), Some(Outcome::Cancelled));
    // later events change neither the outcome nor deliver anything
    assert!(matches!(f.step(Event::Received(Side::A, vec![1u8])), Action::Ignore));
    assert!(matches!(f.step(Event::Ended(Side::B, LoopEnd::Failed)), Action::Ignore));
    assert_eq!(f.outcome(), Some(Outcome::Cancelled));
}
