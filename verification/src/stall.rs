//! A server that takes requests and never answers them.
use vstd::prelude::*;

verus! {

/// How many bytes of a request are read at most.
pub const REQUEST_LIMIT: usize = 1024;

/// How long a connection sleeps at a time, in seconds.
pub const NAP_SECS: u64 = 60;

/// How far the server is with a connection.
#[derive(Debug, Clone, Copy, PartialEq, Eq, Structural)]
pub enum StallState {
    /// The connection was accepted.
    Accepted,
    /// The request was read; the connection hangs.
    Hanging,
}

/// What can be done with a connection.
#[derive(Debug, Clone, Copy, PartialEq, Eq, Structural)]
pub enum StallAction {
    /// Read up to `limit` bytes of the request.
    Read { limit: usize },
    /// Sleep for `secs` seconds, and keep the connection open.
    Sleep { secs: u64 },
}

impl StallState {
    /// The action to take in this state.
    pub open spec fn action(self) -> StallAction {
        match self {
            StallState::Accepted => StallAction::Read { limit: REQUEST_LIMIT },
            StallState::Hanging => StallAction::Sleep { secs: NAP_SECS },
        }
    }

    /// The state once the action was taken: whatever came of it, the connection hangs.
    pub open spec fn next(self) -> StallState {
        StallState::Hanging
    }

    /// Takes the next step with a connection: returns the action, and the state after it.
    pub fn step(self) -> (r: (StallAction, StallState))
        ensures
            r.0 == self.action(),
            r.1 == self.next(),
    {
        match self {
            StallState::Accepted => (StallAction::Read { limit: REQUEST_LIMIT }, StallState::Hanging),
            StallState::Hanging => (StallAction::Sleep { secs: NAP_SECS }, StallState::Hanging),
        }
    }
}

/// A server that takes every connection and answers none of them.
pub struct StallServer {
    connections: Vec<StallState>,
}

impl View for StallServer {
    type V = Seq<StallState>;

    closed spec fn view(&self) -> Seq<StallState> {
        self.connections@
    }
}

impl StallServer {
    /// A server without connections.
    pub fn new() -> (server: Self)
        ensures
            server@ == Seq::<StallState>::empty(),
    {
        StallServer { connections: Vec::new() }
    }

    /// Takes a connection, whatever the others are doing, and returns its number.
    pub fn accept(&mut self) -> (connection: usize)
        ensures
            final(self)@ == after_event(old(self)@, StallEvent::Accept),
            connection == old(self)@.len(),
    {
        let connection: usize = self.connections.len();
        self.connections.push(StallState::Accepted);
        connection
    }

    /// Takes the next step with a connection, and returns the action.
    pub fn step(&mut self, connection: usize) -> (action: StallAction)
        requires
            connection < old(self)@.len(),
        ensures
            action == old(self)@[connection as int].action(),
            final(self)@ == after_event(
                old(self)@,
                StallEvent::Step { connection: connection as int },
            ),
    {
        let (action, state) = self.connections[connection].step();
        self.connections.set(connection, state);
        action
    }
}

/// Something that happens at the server.
pub enum StallEvent {
    /// A client connects.
    Accept,
    /// A step is taken with a connection.
    Step { connection: int },
}

/// The connections of the server after `event`.
pub open spec fn after_event(connections: Seq<StallState>, event: StallEvent) -> Seq<StallState> {
    match event {
        StallEvent::Accept => connections.push(StallState::Accepted),
        StallEvent::Step { connection } => connections.update(
            connection,
            connections[connection].next(),
        ),
    }
}

/// The connections of a server after `events`.
pub open spec fn after_events(events: Seq<StallEvent>) -> Seq<StallState>
    decreases events.len(),
{
    if events.len() == 0 {
        Seq::empty()
    } else {
        after_event(after_events(events.drop_last()), events.last())
    }
}

/// Whether every step of `events` is taken with a connection that there is.
pub open spec fn are_valid(events: Seq<StallEvent>) -> bool {
    forall|i: int|
        #![trigger events[i]]
        0 <= i < events.len() ==> (events[i] matches StallEvent::Step { connection } ==> 0
            <= connection < after_events(events.take(i)).len())
}

/// How many of `events` are connections of clients.
pub open spec fn accepted(events: Seq<StallEvent>) -> nat
    decreases events.len(),
{
    if events.len() == 0 {
        0
    } else {
        accepted(events.drop_last()) + if events.last() is Accept {
            1nat
        } else {
            0nat
        }
    }
}

/// How many of `events` are steps with `connection`.
pub open spec fn steps_with(events: Seq<StallEvent>, connection: int) -> nat
    decreases events.len(),
{
    if events.len() == 0 {
        0
    } else {
        steps_with(events.drop_last(), connection) + if events.last() == (StallEvent::Step {
            connection,
        }) {
            1nat
        } else {
            0nat
        }
    }
}

/// Every client is taken, also while earlier ones are stalled, and none is let go: the server has
/// as many connections as clients came. With each of them it reads a request once, and from then
/// on does nothing but sleep: a client gets no answer, and its connection is not closed.
pub proof fn law_no_request_is_answered(events: Seq<StallEvent>)
    requires
        are_valid(events),
    ensures
        after_events(events).len() == accepted(events),
        forall|c: int|
            0 <= c < accepted(events) ==> (#[trigger] after_events(events)[c]).action() == (
            if steps_with(events, c) == 0 {
                StallAction::Read { limit: REQUEST_LIMIT }
            } else {
                StallAction::Sleep { secs: NAP_SECS }
            }),
    decreases events.len(),
{
    lemma_no_steps_before_acceptance(events, accepted(events) as int);
    if events.len() != 0 {
        let earlier = events.drop_last();
        let n = events.len() - 1;
        lemma_earlier_events_are_valid(events);
        law_no_request_is_answered(earlier);
        assert(events[n] == events.last());
        lemma_no_steps_before_acceptance(earlier, accepted(earlier) as int);
        assert forall|c: int| 0 <= c < accepted(events) implies (#[trigger] after_events(
            events,
        )[c]).action() == (if steps_with(events, c) == 0 {
            StallAction::Read { limit: REQUEST_LIMIT }
        } else {
            StallAction::Sleep { secs: NAP_SECS }
        }) by {
            if c < accepted(earlier) {
                assert(after_events(earlier)[c].action() == (if steps_with(earlier, c) == 0 {
                    StallAction::Read { limit: REQUEST_LIMIT }
                } else {
                    StallAction::Sleep { secs: NAP_SECS }
                }));
            }
        }
    }
}

/// Valid events are valid without the last of them.
proof fn lemma_earlier_events_are_valid(events: Seq<StallEvent>)
    requires
        are_valid(events),
        events.len() > 0,
    ensures
        are_valid(events.drop_last()),
        events.drop_last() == events.take(events.len() - 1),
{
    let earlier = events.drop_last();
    assert(earlier =~= events.take(events.len() - 1));
    assert forall|i: int| #![trigger earlier[i]] 0 <= i < earlier.len() implies (
    earlier[i] matches StallEvent::Step { connection } ==> 0 <= connection < after_events(
        earlier.take(i),
    ).len()) by {
        assert(earlier[i] == events[i]);
        assert(earlier.take(i) =~= events.take(i));
    }
}

/// No step is taken with a connection that there is not yet.
proof fn lemma_no_steps_before_acceptance(events: Seq<StallEvent>, c: int)
    requires
        are_valid(events),
        c >= accepted(events),
    ensures
        steps_with(events, c) == 0,
        after_events(events).len() == accepted(events),
    decreases events.len(),
{
    if events.len() != 0 {
        let earlier = events.drop_last();
        let n = events.len() - 1;
        lemma_earlier_events_are_valid(events);
        lemma_no_steps_before_acceptance(earlier, c);
        assert(events[n] == events.last());
    }
}

} // verus!
