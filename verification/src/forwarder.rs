//! The forwarder: the decision core of a bidirectional relay between two
//! packet channels. The caller runs the two read loops (they suspend on I/O,
//! which stays outside the library), hands every observation in as an
//! [`Event`], and carries out the [`Action`] the forwarder decides on. Each
//! packet received from one side is delivered to the other side as exactly one
//! unit, in arrival order; the first ended loop or cancellation request
//! finishes the relay, after which nothing more is delivered and the outcome
//! names which side ended the session and why.

use vstd::prelude::*;

verus! {

/// One of the two channel endpoints being bridged.
#[derive(Clone, Copy, PartialEq, Eq, Structural, Debug)]
pub enum Side {
    A,
    B,
}

/// Why one relay loop stopped reading.
#[derive(Clone, Copy, PartialEq, Eq, Structural, Debug)]
pub enum LoopEnd {
    /// The side's packet source is exhausted.
    Eof,
    /// The side failed with a fatal I/O or session error.
    Failed,
}

/// What one of the relay loops observed.
pub enum Event {
    /// A packet arrived from this side.
    Received(Side, Vec<u8>),
    /// This side's loop terminated, and why.
    Ended(Side, LoopEnd),
    /// The caller asked the whole relay to stop.
    CancelRequested,
}

/// What the caller must do next.
pub enum Action {
    /// Write this packet to this side, as one unit.
    Deliver(Side, Vec<u8>),
    /// Stop both loops promptly: the relay is finished and its outcome is set.
    Shutdown,
    /// Nothing: the relay had already finished when the event arrived.
    Ignore,
}

/// How a finished relay ended.
#[derive(Clone, Copy, PartialEq, Eq, Structural, Debug)]
pub enum Outcome {
    /// This side's loop ended first, and why.
    Ended(Side, LoopEnd),
    /// The caller cancelled the relay.
    Cancelled,
}

/// Whether the relay is still forwarding.
#[derive(Clone, Copy, PartialEq, Eq, Structural, Debug)]
pub enum Status {
    Running,
    Finished(Outcome),
}

/// The side a packet from `s` is delivered to.
pub open spec fn spec_opposite(s: Side) -> Side {
    match s {
        Side::A => Side::B,
        Side::B => Side::A,
    }
}

/// The side a packet from `s` is delivered to.
pub fn opposite(s: Side) -> (t: Side)
    ensures
        t == spec_opposite(s),
{
    match s {
        Side::A => Side::B,
        Side::B => Side::A,
    }
}

/// The complete step relation of the relay: from a status and an event to the
/// next status and the action the caller must take.
pub open spec fn spec_step(st: Status, e: Event) -> (Status, Action) {
    match st {
        Status::Running => match e {
            Event::Received(s, p) => (Status::Running, Action::Deliver(spec_opposite(s), p)),
            Event::Ended(s, c) => (Status::Finished(Outcome::Ended(s, c)), Action::Shutdown),
            Event::CancelRequested => (Status::Finished(Outcome::Cancelled), Action::Shutdown),
        },
        Status::Finished(_) => (st, Action::Ignore),
    }
}

/// The relay's state: just its status, since a running relay keeps nothing
/// back — no batching, no buffering.
pub struct Forwarder {
    st: Status,
}

impl Forwarder {
    pub closed spec fn status(self) -> Status {
        self.st
    }

    /// A fresh relay, running.
    pub fn new() -> (f: Forwarder)
        ensures
            f.status() == Status::Running,
    {
        Forwarder { st: Status::Running }
    }

    /// Feed one event in; the returned action must be carried out before the
    /// next event is fed. Follows `spec_step` exactly.
    pub fn step(&mut self, e: Event) -> (a: Action)
        ensures
            (final(self).status(), a) == spec_step(old(self).status(), e),
    {
        match self.st {
            Status::Running => match e {
                Event::Received(s, p) => Action::Deliver(opposite(s), p),
                Event::Ended(s, c) => {
                    self.st = Status::Finished(Outcome::Ended(s, c));
                    Action::Shutdown
                },
                Event::CancelRequested => {
                    self.st = Status::Finished(Outcome::Cancelled);
                    Action::Shutdown
                },
            },
            Status::Finished(_) => Action::Ignore,
        }
    }

    /// The combined result once the relay has finished: which side ended it
    /// and why, or that it was cancelled.
    pub fn outcome(&self) -> (r: Option<Outcome>)
        ensures
            self.status() == Status::Running ==> r is None,
            forall|o: Outcome| self.status() == Status::Finished(o) ==> r == Some(o),
    {
        match self.st {
            Status::Running => None,
            Status::Finished(o) => Some(o),
        }
    }
}

/// The actions of running the relay from `st` over a whole sequence of events.
pub open spec fn spec_run(st: Status, events: Seq<Event>) -> Seq<Action>
    decreases events.len(),
{
    if events.len() == 0 {
        Seq::empty()
    } else {
        let (st1, a) = spec_step(st, events[0]);
        seq![a] + spec_run(st1, events.drop_first())
    }
}

/// The status after running the relay from `st` over a sequence of events.
pub open spec fn spec_run_status(st: Status, events: Seq<Event>) -> Status
    decreases events.len(),
{
    if events.len() == 0 {
        st
    } else {
        spec_run_status(spec_step(st, events[0]).0, events.drop_first())
    }
}

/// The payloads that `side` handed in, in arrival order.
pub open spec fn received_from(events: Seq<Event>, side: Side) -> Seq<Seq<u8>>
    decreases events.len(),
{
    if events.len() == 0 {
        Seq::empty()
    } else {
        let rest = received_from(events.drop_first(), side);
        match events[0] {
            Event::Received(s, p) => if s == side {
                seq![p@] + rest
            } else {
                rest
            },
            _ => rest,
        }
    }
}

/// The payloads the actions deliver to `side`, in order.
pub open spec fn delivered_to(actions: Seq<Action>, side: Side) -> Seq<Seq<u8>>
    decreases actions.len(),
{
    if actions.len() == 0 {
        Seq::empty()
    } else {
        let rest = delivered_to(actions.drop_first(), side);
        match actions[0] {
            Action::Deliver(s, p) => if s == side {
                seq![p@] + rest
            } else {
                rest
            },
            _ => rest,
        }
    }
}

/// Law: while both loops keep producing packets, the relay delivers to each
/// side exactly the packets the other side handed in — same payloads, same
/// order, one delivery per packet. No reordering, no batching, no loss.
pub proof fn lemma_relay_preserves_order(events: Seq<Event>, side: Side)
    requires
        forall|i: int| 0 <= i < events.len() ==> events[i] is Received,
    ensures
        delivered_to(spec_run(Status::Running, events), spec_opposite(side)) == received_from(
            events,
            side,
        ),
    decreases events.len(),
{
    if events.len() == 0 {
    } else {
        assert(events[0] is Received);
        let rest = events.drop_first();
        assert(forall|i: int| 0 <= i < rest.len() ==> rest[i] == events[i + 1]);
        lemma_relay_preserves_order(rest, side);
        let actions = spec_run(Status::Running, events);
        assert(actions.drop_first() =~= spec_run(Status::Running, rest));
        match events[0] {
            Event::Received(s, p) => {
                if s == side {
                    assert(spec_opposite(s) == spec_opposite(side));
                    assert(delivered_to(actions, spec_opposite(side)) =~= seq![p@]
                        + delivered_to(spec_run(Status::Running, rest), spec_opposite(side)));
                } else {
                    assert(spec_opposite(s) != spec_opposite(side));
                }
            },
            _ => {},
        }
    }
}

/// Law: a finished relay is inert — its outcome never changes and no event,
/// whatever it is, makes it deliver another packet. The first ending decides.
pub proof fn lemma_finished_is_inert(o: Outcome, events: Seq<Event>, side: Side)
    ensures
        spec_run_status(Status::Finished(o), events) == Status::Finished(o),
        delivered_to(spec_run(Status::Finished(o), events), side) == Seq::<Seq<u8>>::empty(),
    decreases events.len(),
{
    if events.len() == 0 {
        assert(delivered_to(spec_run(Status::Finished(o), events), side) =~= Seq::<Seq<u8>>::empty());
    } else {
        lemma_finished_is_inert(o, events.drop_first(), side);
        let actions = spec_run(Status::Finished(o), events);
        assert(actions.drop_first() =~= spec_run(Status::Finished(o), events.drop_first()));
        assert(delivered_to(actions, side) =~= Seq::<Seq<u8>>::empty());
    }
}

/// Law: when one side's loop is the first to end, the relay's outcome names
/// that side and that cause, whatever packets were relayed before and whatever
/// events straggle in afterwards.
pub proof fn lemma_outcome_names_first_ending(
    before: Seq<Event>,
    side: Side,
    cause: LoopEnd,
    after: Seq<Event>,
)
    requires
        forall|i: int| 0 <= i < before.len() ==> before[i] is Received,
    ensures
        spec_run_status(
            Status::Running,
            before + seq![Event::Ended(side, cause)] + after,
        ) == Status::Finished(Outcome::Ended(side, cause)),
    decreases before.len(),
{
    let all = before + seq![Event::Ended(side, cause)] + after;
    if before.len() == 0 {
        assert(all[0] == Event::Ended(side, cause));
        lemma_finished_is_inert(Outcome::Ended(side, cause), all.drop_first(), side);
        assert(all.drop_first() =~= after);
    } else {
        assert(all[0] == before[0]);
        assert(all[0] is Received);
        let rest = before.drop_first();
        assert(forall|i: int| 0 <= i < rest.len() ==> rest[i] == before[i + 1]);
        lemma_outcome_names_first_ending(rest, side, cause, after);
        assert(all.drop_first() =~= rest + seq![Event::Ended(side, cause)] + after);
    }
}

} // verus!
