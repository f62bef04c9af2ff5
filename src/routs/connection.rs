use vstd::prelude::*;
use crate::routs::buffer::{DynamicBuffer, frame_done};
use crate::routs::http::{HttpRequest, ParseError, Writer, response_bytes, parsed_as};

verus! {

/// Where a connection is in its life: optional TLS handshake, reading the request, parsing it,
/// waiting for the handler's response, closed.
#[derive(Clone, Copy, Debug, PartialEq, Eq, Structural)]
pub enum Phase {
    Handshaking,
    Framing,
    Parsing,
    Dispatching,
    Closed,
}

/// What happens to a connection, as its transitions see it.
#[derive(Clone, Copy, Debug, PartialEq, Eq, Structural)]
pub enum Event {
    /// The TLS handshake ended, successfully or not.
    Handshake(bool),
    /// A read returned: whether it returned no bytes (the peer closed), and whether the message
    /// is complete after it.
    Read(bool, bool),
    /// A read, write or flush failed.
    Failure,
    /// Parsing ended, successfully or not.
    Parsed(bool),
    /// A response was offered for sending.
    Respond,
}

/// The phase after `e` happens in phase `p`. An event that does not belong to a phase leaves it
/// unchanged, but for a failure, which closes the connection in every phase.
pub open spec fn next_phase(p: Phase, e: Event) -> Phase {
    match (p, e) {
        (_, Event::Failure) => Phase::Closed,
        (Phase::Handshaking, Event::Handshake(ok)) => if ok {
            Phase::Framing
        } else {
            Phase::Closed
        },
        (Phase::Framing, Event::Read(closed, complete)) => if closed || complete {
            Phase::Parsing
        } else {
            Phase::Framing
        },
        (Phase::Parsing, Event::Parsed(ok)) => if ok {
            Phase::Dispatching
        } else {
            Phase::Closed
        },
        (Phase::Dispatching, Event::Respond) => Phase::Closed,
        _ => p,
    }
}

/// A response goes on the wire exactly when one is offered while the request is dispatched.
pub open spec fn sends(p: Phase, e: Event) -> bool {
    p == Phase::Dispatching && e == Event::Respond
}

/// How many responses go on the wire when `events` happen in order from phase `p`.
pub open spec fn responses_sent(p: Phase, events: Seq<Event>) -> nat
    decreases events.len(),
{
    if events.len() == 0 {
        0
    } else {
        (if sends(p, events[0]) {
            1nat
        } else {
            0nat
        }) + responses_sent(next_phase(p, events[0]), events.drop_first())
    }
}

/// How far along its life a connection in phase `p` is.
pub open spec fn rank(p: Phase) -> int {
    match p {
        Phase::Handshaking => 0,
        Phase::Framing => 1,
        Phase::Parsing => 2,
        Phase::Dispatching => 3,
        Phase::Closed => 4,
    }
}

proof fn lemma_responses_bound(p: Phase, events: Seq<Event>)
    ensures
        responses_sent(p, events) <= if p == Phase::Closed { 0int } else { 1int },
    decreases events.len(),
{
    if events.len() > 0 {
        let q = next_phase(p, events[0]);
        lemma_responses_bound(q, events.drop_first());
        assert(rank(q) >= rank(p));
    }
}

/// One response per connection: whatever happens to a connection, at most one response goes on
/// the wire, and none after it is closed; in particular a second write attempt after a response
/// sends nothing.
pub proof fn lemma_one_response_per_connection(p: Phase, events: Seq<Event>)
    ensures
        responses_sent(p, events) <= 1,
        p == Phase::Closed ==> responses_sent(p, events) == 0,
        p == Phase::Dispatching ==> responses_sent(p, seq![Event::Respond, Event::Respond]) == 1,
{
    lemma_responses_bound(p, events);
    if p == Phase::Dispatching {
        let two = seq![Event::Respond, Event::Respond];
        assert(two.drop_first() =~= seq![Event::Respond]);
        let one = two.drop_first();
        assert(one.drop_first() =~= Seq::<Event>::empty());
        assert(responses_sent(Phase::Closed, one.drop_first()) == 0);
        assert(responses_sent(Phase::Closed, one) == 0);
        assert(responses_sent(p, two) == 1 + responses_sent(Phase::Closed, one));
    }
}

/// One connection: its phase and the bytes of the request read so far.
pub struct Connection {
    phase: Phase,
    buffer: DynamicBuffer,
}

impl Connection {
    /// The phase the connection is in.
    pub closed spec fn phase(&self) -> Phase {
        self.phase
    }

    /// The bytes of the request read so far.
    pub closed spec fn received(&self) -> Seq<u8> {
        self.buffer.received()
    }

    /// The read buffer is consistent.
    pub closed spec fn wf(&self) -> bool {
        self.buffer.wf()
    }

    /// A connection just accepted; it starts with a handshake when `tls` is set.
    pub fn new(tls: bool) -> (r: Self)
        ensures
            r.wf(),
            r.phase() == if tls { Phase::Handshaking } else { Phase::Framing },
            r.received().len() == 0,
    {
        Connection {
            phase: if tls { Phase::Handshaking } else { Phase::Framing },
            buffer: DynamicBuffer::new(),
        }
    }

    /// The phase the connection is in.
    pub fn state(&self) -> (r: Phase)
        ensures
            r == self.phase(),
    {
        self.phase
    }

    /// The TLS handshake ended; `ok` tells whether it succeeded.
    pub fn handshake(&mut self, ok: bool)
        requires
            old(self).wf(),
        ensures
            final(self).wf(),
            final(self).phase() == next_phase(old(self).phase(), Event::Handshake(ok)),
            final(self).received() == old(self).received(),
    {
        self.phase = match self.phase {
            Phase::Handshaking => if ok {
                Phase::Framing
            } else {
                Phase::Closed
            },
            p => p,
        };
    }

    /// A read returned `chunk` (empty when the peer closed). Tells whether to read again.
    pub fn on_read(&mut self, chunk: &[u8]) -> (more: bool)
        requires
            old(self).wf(),
        ensures
            final(self).wf(),
            old(self).phase() == Phase::Framing && chunk@.len() > 0 ==> final(self).received()
                == old(self).received() + chunk@,
            !(old(self).phase() == Phase::Framing && chunk@.len() > 0) ==> final(self).received()
                == old(self).received(),
            final(self).phase() == next_phase(
                old(self).phase(),
                Event::Read(chunk@.len() == 0, frame_done(final(self).received())),
            ),
            more == (final(self).phase() == Phase::Framing),
    {
        if self.phase != Phase::Framing {
            return false;
        }
        if chunk.len() == 0 {
            self.phase = Phase::Parsing;
            return false;
        }
        let done = self.buffer.feed(chunk);
        if done {
            self.phase = Phase::Parsing;
        }
        !done
    }

    /// A read, write or flush failed: the connection is closed.
    pub fn on_failure(&mut self)
        requires
            old(self).wf(),
        ensures
            final(self).wf(),
            final(self).phase() == next_phase(old(self).phase(), Event::Failure),
            final(self).received() == old(self).received(),
    {
        self.phase = Phase::Closed;
    }

    /// Parses the request read, from the peer at `socket`. A request that does not parse
    /// closes the connection, with no response.
    pub fn take_request(&mut self, socket: String) -> (r: Result<HttpRequest, ParseError>)
        requires
            old(self).wf(),
            old(self).phase() == Phase::Parsing,
        ensures
            final(self).wf(),
            parsed_as(r, old(self).received(), socket),
            final(self).phase() == next_phase(old(self).phase(), Event::Parsed(r is Ok)),
    {
        let mut taken = DynamicBuffer::new();
        core::mem::swap(&mut self.buffer, &mut taken);
        let r = HttpRequest::parser(taken, socket);
        self.phase = if r.is_ok() { Phase::Dispatching } else { Phase::Closed };
        r
    }

    /// Offers the handler's response; gives the bytes to send only while the request is being
    /// dispatched, and closes the connection.
    pub fn respond(&mut self, w: Writer) -> (r: Option<Vec<u8>>)
        requires
            old(self).wf(),
        ensures
            final(self).wf(),
            final(self).phase() == next_phase(old(self).phase(), Event::Respond),
            r is Some <==> sends(old(self).phase(), Event::Respond),
            r matches Some(b) ==> b@ == response_bytes(w.status(), w.fields().fields(), w.content()),
    {
        if self.phase != Phase::Dispatching {
            return None;
        }
        self.phase = Phase::Closed;
        let resp = w.into_response();
        Some(resp.to_bytes())
    }
}

} // verus!
