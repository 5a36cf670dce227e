//! The per-connection session state machine: it decides what each transport
//! event means — heartbeats, inbound frames, hub pushes, closure — while the
//! caller owns the physical socket and the timers and carries the decisions
//! out.

use vstd::prelude::*;

use crate::encode::{outbound_text, outbound_text_spec};
use crate::events::{Event, EventV};
use crate::protocol::{decode_text, EnvelopeAction};

verus! {

/// How often the server pings the peer, in time units.
pub const HEARTBEAT_INTERVAL: u64 = 5;

/// How long the peer may stay silent before the connection is dropped.
pub const CLIENT_TIMEOUT: u64 = 10;

/// How long an anonymous connection may stay unauthenticated.
pub const AUTH_TIMEOUT: u64 = 30;

/// The phases of a connection's life.
#[derive(Clone, Copy, PartialEq, Eq, Structural, Debug)]
pub enum Phase {
    /// The transport is open but the hub has not acknowledged registration.
    Connecting,
    /// Registered with the hub, not yet authenticated.
    Anonymous,
    /// Registered and carrying a bearer token.
    Authenticated,
    /// Torn down; no further activity is expected.
    Closed,
}

/// One connection's state machine.
pub struct GatewaySession {
    pub phase: Phase,
    /// The id the hub assigned on registration.
    pub session_id: u64,
    /// When the last liveness signal from the peer was seen.
    pub last_heartbeat: u64,
    /// The bearer token observed in a `SetToken` push, once authenticated.
    pub token: Option<String>,
    /// Whether `Disconnect` has already been issued to the hub.
    pub disconnect_sent: bool,
}

/// Mathematical model of a session.
#[verifier::ext_equal]
pub struct GatewaySessionV {
    pub phase: Phase,
    pub session_id: u64,
    pub last_heartbeat: u64,
    pub token: Option<Seq<char>>,
    pub disconnect_sent: bool,
}

impl View for GatewaySession {
    type V = GatewaySessionV;

    open spec fn view(&self) -> GatewaySessionV {
        GatewaySessionV {
            phase: self.phase,
            session_id: self.session_id,
            last_heartbeat: self.last_heartbeat,
            token: self.token.deep_view(),
            disconnect_sent: self.disconnect_sent,
        }
    }
}

/// Whether the peer has been silent past the timeout window at `now`.
/// A clock that runs backwards counts as no silence at all.
pub open spec fn heartbeat_timed_out(s: GatewaySessionV, now: u64) -> bool {
    now >= s.last_heartbeat && now - s.last_heartbeat > CLIENT_TIMEOUT
}

/// What the recurring heartbeat timer decides.
#[derive(Clone, Copy, PartialEq, Eq, Structural, Debug)]
pub enum HeartbeatAction {
    /// The peer timed out: issue `Disconnect` to the hub and stop.
    Disconnect,
    /// The peer is alive: send a ping control frame.
    Ping,
}

/// A session as it looks after an event is encoded for the peer: observing
/// `SetToken` records the token and marks an anonymous session
/// authenticated; every other event leaves the session as it was.
pub open spec fn session_after_event(s: GatewaySessionV, e: EventV) -> GatewaySessionV {
    match e {
        EventV::SetToken(t) => GatewaySessionV {
            phase: if s.phase == Phase::Anonymous {
                Phase::Authenticated
            } else {
                s.phase
            },
            session_id: s.session_id,
            last_heartbeat: s.last_heartbeat,
            token: Some(t),
            disconnect_sent: s.disconnect_sent,
        },
        _ => s,
    }
}

impl GatewaySession {
    /// A session whose transport has just opened, before the hub has
    /// acknowledged registration.
    pub fn new(now: u64) -> (r: Self)
        ensures
            r@ == (GatewaySessionV {
                phase: Phase::Connecting,
                session_id: 0,
                last_heartbeat: now,
                token: None,
                disconnect_sent: false,
            }),
    {
        GatewaySession {
            phase: Phase::Connecting,
            session_id: 0,
            last_heartbeat: now,
            token: None,
            disconnect_sent: false,
        }
    }

    /// The hub acknowledged registration with an assigned id.
    pub fn on_connected(&mut self, id: u64)
        requires
            old(self)@.phase == Phase::Connecting,
        ensures
            final(self)@ == (GatewaySessionV {
                phase: Phase::Anonymous,
                session_id: id,
                ..old(self)@
            }),
    {
        self.phase = Phase::Anonymous;
        self.session_id = id;
    }

    /// The recurring heartbeat timer fired at `now`: a peer silent past the
    /// timeout window is disconnected — fatally, the session closes and the
    /// hub is told exactly once — and a live peer is pinged.
    pub fn on_heartbeat_tick(&mut self, now: u64) -> (r: HeartbeatAction)
        ensures
            r == (if heartbeat_timed_out(old(self)@, now) {
                HeartbeatAction::Disconnect
            } else {
                HeartbeatAction::Ping
            }),
            heartbeat_timed_out(old(self)@, now) ==> final(self)@ == (GatewaySessionV {
                phase: Phase::Closed,
                disconnect_sent: true,
                ..old(self)@
            }),
            !heartbeat_timed_out(old(self)@, now) ==> final(self)@ == old(self)@,
    {
        if now >= self.last_heartbeat && now - self.last_heartbeat > CLIENT_TIMEOUT {
            self.phase = Phase::Closed;
            self.disconnect_sent = true;
            HeartbeatAction::Disconnect
        } else {
            HeartbeatAction::Ping
        }
    }

    /// A ping control frame arrived at `now`: note the liveness signal and
    /// answer with the paired pong, carrying the ping's own payload back.
    pub fn on_ping(&mut self, now: u64, payload: Vec<u8>) -> (r: Vec<u8>)
        ensures
            r@ == payload@,
            final(self)@ == (GatewaySessionV { last_heartbeat: now, ..old(self)@ }),
    {
        self.last_heartbeat = now;
        payload
    }

    /// A pong control frame arrived at `now`: note the liveness signal.
    pub fn on_pong(&mut self, now: u64)
        ensures
            final(self)@ == (GatewaySessionV { last_heartbeat: now, ..old(self)@ }),
    {
        self.last_heartbeat = now;
    }

    /// The one-shot authentication timer fired: a session that still has no
    /// token is disconnected, exactly as a heartbeat timeout would.
    pub fn on_auth_timeout(&mut self) -> (r: bool)
        ensures
            r == (old(self)@.token is None),
            old(self)@.token is None ==> final(self)@ == (GatewaySessionV {
                phase: Phase::Closed,
                disconnect_sent: true,
                ..old(self)@
            }),
            old(self)@.token is Some ==> final(self)@ == old(self)@,
    {
        if self.token.is_none() {
            self.phase = Phase::Closed;
            self.disconnect_sent = true;
            true
        } else {
            false
        }
    }

    /// A text frame arrived: decode it under the envelope rule. A rejected
    /// frame is fatal: the session closes, and the caller reports the
    /// diagnostic to the peer before releasing the transport.
    pub fn on_text(&mut self, text: &str) -> (r: EnvelopeAction)
        ensures
            r@ matches crate::protocol::EnvelopeActionV::Reject(_) ==> final(self)@
                == (GatewaySessionV { phase: Phase::Closed, ..old(self)@ }),
            !(r@ matches crate::protocol::EnvelopeActionV::Reject(_)) ==> final(self)@ == old(
                self,
            )@,
            !crate::ext::json_well_formed(text@) ==> r@
                == crate::protocol::EnvelopeActionV::Reject(
                crate::protocol::ParseError::InvalidJson,
            ),
            crate::ext::json_well_formed(text@) ==> r@ == crate::protocol::envelope_action(
                crate::ext::envelope_op_of(text@),
                crate::ext::envelope_has_d(text@),
                crate::ext::envelope_token_of(text@),
            ),
    {
        let r = decode_text(text);
        if let EnvelopeAction::Reject(_) = &r {
            self.phase = Phase::Closed;
        }
        r
    }

    /// A binary frame arrived: it is echoed back unchanged.
    pub fn on_binary(&self, data: Vec<u8>) -> (r: Vec<u8>)
        ensures
            r@ == data@,
    {
        data
    }

    /// An event pushed by the hub: encode it for the wire. Observing
    /// `SetToken` records the token and marks the session authenticated.
    pub fn on_event(&mut self, e: &Event) -> (r: String)
        ensures
            r@ == outbound_text_spec(e@),
            final(self)@ == session_after_event(old(self)@, e@),
    {
        if let Event::SetToken(t) = e {
            self.token = Some(t.clone());
            if let Phase::Anonymous = self.phase {
                self.phase = Phase::Authenticated;
            }
        }
        outbound_text(e)
    }

    /// The transport is closing, peer-initiated or timer-driven: `Disconnect`
    /// is issued to the hub exactly once over the session's whole life, so
    /// this says whether the caller must issue it now.
    pub fn on_close(&mut self) -> (r: bool)
        ensures
            r == !old(self)@.disconnect_sent,
            final(self)@ == (GatewaySessionV {
                phase: Phase::Closed,
                disconnect_sent: true,
                ..old(self)@
            }),
    {
        let emit = !self.disconnect_sent;
        self.phase = Phase::Closed;
        self.disconnect_sent = true;
        emit
    }
}

} // verus!
