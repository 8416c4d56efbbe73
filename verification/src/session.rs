//! The per-connection state machine. Each step takes the session (and,
//! for the handshake and the disconnect, the shared registry) together
//! with one input — the welcome point, the candidate-name line, a client
//! line, a bus event, or end-of-stream — and returns what the connection
//! loop must do: lines to write and events to publish. The loop around it
//! (transport reads and writes, the select between the two event sources)
//! stays outside; every decision stands here.
use vstd::prelude::*;
use vstd::pervasive::unreached;
use crate::event::Event;
use crate::event::spec_event_name;
use crate::name::valid_name;
use crate::name::is_valid_name;
use crate::registry::Registry;
use crate::render::spec_welcome;
use crate::render::welcome_line;
use crate::render::spec_presence_line;
use crate::render::spec_notice;
use crate::render::presence_line;
use crate::render::filter_others;
use crate::render::render_event_for;
use crate::text::views_of;
use crate::text::lemma_without_push_removed;
use crate::text::lemma_without_absent;

verus! {

/// Where a session stands in its lifecycle.
#[derive(Debug)]
pub enum Phase {
    /// Transport open, welcome not yet sent.
    Connecting,
    /// Welcome sent, awaiting the candidate-name line.
    Naming,
    /// Name claimed and `Join` published; relaying until disconnect.
    Active(String),
    /// Terminal: the connection is torn down.
    Closed,
}

/// Why a handshake was rejected. Either way the connection closes and
/// nothing is broadcast.
#[derive(Clone, Copy, Debug, PartialEq, Eq, Structural)]
pub enum HandshakeError {
    /// The name line was empty or held a character outside ASCII
    /// alphanumeric.
    InvalidName,
    /// Another active session already owns the name.
    NameTaken,
}

/// What a successful handshake hands back to the connection loop.
pub struct Handshake {
    /// The claimed name.
    pub name: String,
    /// The `Join` event the loop must publish on the bus.
    pub join: Event,
    /// The presence listing to write to the new client.
    pub presence: String,
}

/// The state machine of one connection.
pub struct Session {
    phase: Phase,
}

impl Session {
    /// The current lifecycle phase.
    pub closed spec fn spec_phase(&self) -> Phase {
        self.phase
    }

    /// Whether the session has claimed a name and is relaying.
    pub open spec fn is_active(&self) -> bool {
        self.spec_phase() is Active
    }

    /// The claimed name of an active session.
    pub open spec fn active_name(&self) -> Seq<char> {
        self.spec_phase()->Active_0@
    }

    /// A fresh session for a newly accepted transport.
    pub fn new() -> (s: Session)
        ensures
            s.spec_phase() is Connecting,
    {
        Session { phase: Phase::Connecting }
    }

    /// Produces the welcome line and moves to `Naming`. The caller must
    /// subscribe its bus cursor before reading the name line, so that no
    /// event between subscription and activation is missed.
    pub fn on_connect(&mut self) -> (line: String)
        requires
            old(self).spec_phase() is Connecting,
        ensures
            final(self).spec_phase() is Naming,
            line@ == spec_welcome(),
    {
        self.phase = Phase::Naming;
        welcome_line()
    }

    /// Handles the one line read as the candidate name. On success the
    /// name is claimed atomically, the session becomes `Active`, and the
    /// caller gets the `Join` event to publish and the presence listing —
    /// exactly the names active at the instant of the claim, never
    /// including the joiner itself. An empty or non-alphanumeric name, or
    /// one already taken, closes the session with nothing claimed and
    /// nothing broadcast.
    pub fn on_name_line(&mut self, registry: &mut Registry, line: String) -> (r: Result<
        Handshake,
        HandshakeError,
    >)
        requires
            old(self).spec_phase() is Naming,
            old(registry).wf(),
        ensures
            final(registry).wf(),
            ({
                let ok = valid_name(line@) && !old(registry)@.contains(line@);
                match r {
                    Ok(h) => {
                        &&& ok
                        &&& final(self).is_active()
                        &&& final(self).active_name() == line@
                        &&& final(registry)@ == old(registry)@.push(line@)
                        &&& h.name@ == line@
                        &&& h.join matches Event::Join(jn) && jn@ == line@
                        &&& h.presence@ == spec_presence_line(old(registry)@)
                    },
                    Err(e) => {
                        &&& !ok
                        &&& (e == HandshakeError::InvalidName <==> !valid_name(line@))
                        &&& (e == HandshakeError::NameTaken <==> valid_name(line@) && old(
                            registry,
                        )@.contains(line@))
                        &&& final(self).spec_phase() is Closed
                        &&& *final(registry) == *old(registry)
                    },
                }
            }),
    {
        if !is_valid_name(line.as_str()) {
            self.phase = Phase::Closed;
            return Err(HandshakeError::InvalidName);
        }
        if !registry.try_claim(&line) {
            self.phase = Phase::Closed;
            return Err(HandshakeError::NameTaken);
        }
        let snap = registry.snapshot();
        let others = filter_others(&snap, &line);
        proof {
            lemma_without_push_removed(old(registry)@, line@);
            lemma_without_absent(old(registry)@, line@);
            assert(views_of(others@) == old(registry)@);
        }
        let presence = presence_line(&others);
        let name = line.clone();
        let join = Event::Join(line.clone());
        self.phase = Phase::Active(line);
        Ok(Handshake { name, join, presence })
    }

    /// Republishes one line from the client as this session's text event.
    pub fn on_client_line(&self, body: String) -> (e: Event)
        requires
            self.is_active(),
        ensures
            e matches Event::Text { name, body: b } && name@ == self.active_name() && b == body,
    {
        match &self.phase {
            Phase::Active(n) => Event::Text { name: n.clone(), body },
            _ => unreached(),
        }
    }

    /// Handles one event from the session's bus cursor: renders it unless
    /// it carries the session's own name.
    pub fn on_bus_event(&self, e: &Event) -> (r: Option<String>)
        requires
            self.is_active(),
        ensures
            r is Some <==> spec_event_name(*e) != self.active_name(),
            r matches Some(line) ==> line@ == spec_notice(*e),
    {
        match &self.phase {
            Phase::Active(me) => render_event_for(e, me),
            _ => unreached(),
        }
    }

    /// End-of-stream, a read error or a write error: all close the session
    /// the same way. An active session releases its name — making it
    /// claimable again at once — and hands back the `Leave` event to
    /// publish; a session that never activated has nothing to release or
    /// announce.
    pub fn on_disconnect(&mut self, registry: &mut Registry) -> (e: Option<Event>)
        requires
            old(registry).wf(),
        ensures
            final(self).spec_phase() is Closed,
            final(registry).wf(),
            ({
                match old(self).spec_phase() {
                    Phase::Active(n) => {
                        &&& e matches Some(ev)
                        &&& ev matches Event::Leave(m) && m@ == n@
                        &&& final(registry)@ == old(registry)@.remove_value(n@)
                        &&& !final(registry)@.contains(n@)
                    },
                    _ => {
                        &&& e is None
                        &&& *final(registry) == *old(registry)
                    },
                }
            }),
    {
        match &self.phase {
            Phase::Active(n) => {
                let name = n.clone();
                registry.release(&name);
                self.phase = Phase::Closed;
                Some(Event::Leave(name))
            }
            _ => {
                self.phase = Phase::Closed;
                None
            }
        }
    }
}

/// The presence listing never shows the joiner: every listed name differs
/// from `me`, and with no others it is the fixed sentinel line.
pub proof fn lemma_presence_excludes_joiner(others: Seq<Seq<char>>, me: Seq<char>)
    requires
        !others.contains(me),
    ensures
        forall|i: int| 0 <= i < others.len() ==> others[i] != me,
        others.len() == 0 ==> spec_presence_line(others) == "* The room contains: just you!"@,
{
    assert forall|i: int| 0 <= i < others.len() implies others[i] != me by {
        if others[i] == me {
            assert(others.contains(me));
        }
    }
}

} // verus!
