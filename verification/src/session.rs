//! Per-client control session: the state machine that accepts tunnel
//! registrations, demultiplexes inbound frames onto the bridge registry,
//! and on close returns every owned resource.
//!
//! The session starts `Connecting`, moves to `Serving` on its first
//! successful registration, and enters `Closing` on client disconnect,
//! server shutdown or a fatal frame error.  Closing cancels every owned
//! bridge, drains the registry, and releases every dynamically allocated
//! port back to the port manager.
use vstd::prelude::*;

use crate::port::PortManager;
use crate::registry::count_adds;
use crate::registry::count_removes;
use crate::registry::same_bridge_state;
use crate::registry::TrafficToServer;
use crate::registry::UserIncomingRegistry;
use crate::registry::lemma_drained_registry_balanced;

verus! {

/// Lifecycle phase of one control session.
#[derive(Clone, Copy, Debug, PartialEq, Eq, Structural)]
pub enum SessionPhase {
    Connecting,
    Serving,
    Closing,
}

/// Protocol of a registered tunnel.
#[derive(Clone, Copy, Debug, PartialEq, Eq, Structural)]
pub enum TunnelProtocol {
    Tcp,
    Udp,
    Http,
}

/// One tunnel owned by the session: its protocol, its public port, and
/// whether the port was taken from the port manager (and so must go back
/// to it on close).
#[derive(Clone, Copy, Debug, PartialEq, Eq, Structural)]
pub struct TunnelEntry {
    pub protocol: TunnelProtocol,
    pub port: u16,
    pub dynamic: bool,
}

/// What the session decides for one inbound frame.
#[derive(Clone, Copy, Debug, PartialEq, Eq, Structural)]
pub enum InboundVerdict {
    /// The frame reached its bridge.
    Routed,
    /// The frame named no live bridge, or the session is closing; it is
    /// dropped, which is normal at end-of-stream.
    Dropped,
    /// A traffic frame arrived before any registration: a protocol
    /// violation; the caller must close the session.
    Violation,
}

/// A registration request from the client: expose a protocol on a
/// chosen public port (zero asks for any free one) or, for HTTP, under
/// a chosen subdomain or domain.
pub enum TunnelRegistration {
    Tcp { port: u16 },
    Udp { port: u16 },
    Http { port: u16, subdomain: Vec<u8>, domain: Vec<u8> },
}

/// The tunnel worker a registration is dispatched to.
pub fn protocol_of(r: &TunnelRegistration) -> (p: TunnelProtocol)
    ensures
        p is Tcp <==> r is Tcp,
        p is Udp <==> r is Udp,
        p is Http <==> r is Http,
{
    match r {
        TunnelRegistration::Tcp { .. } => TunnelProtocol::Tcp,
        TunnelRegistration::Udp { .. } => TunnelProtocol::Udp,
        TunnelRegistration::Http { .. } => TunnelProtocol::Http,
    }
}

/// The public port a registration asks for; zero means any free port.
pub fn requested_port(r: &TunnelRegistration) -> (p: u16)
    ensures
        r matches TunnelRegistration::Tcp { port } ==> p == port,
        r matches TunnelRegistration::Udp { port } ==> p == port,
        r matches TunnelRegistration::Http { port, .. } ==> p == port,
{
    match r {
        TunnelRegistration::Tcp { port } => *port,
        TunnelRegistration::Udp { port } => *port,
        TunnelRegistration::Http { port, .. } => *port,
    }
}

/// Per-client control session state.
pub struct ControlSession {
    pub phase: SessionPhase,
    pub registry: UserIncomingRegistry,
    pub tunnels: Vec<TunnelEntry>,
}

impl ControlSession {
    /// The session's registry is well formed.
    pub open spec fn wf(self) -> bool {
        self.registry.wf()
    }

    /// Whether the session owns the dynamically allocated port `p`.
    pub open spec fn owns_dynamic_port(self, p: u16) -> bool {
        exists|i: int|
            0 <= i < self.tunnels@.len() && self.tunnels@[i].dynamic && self.tunnels@[i].port == p
    }

    /// A fresh session: connecting, no registrations, empty registry.
    pub fn new() -> (s: ControlSession)
        ensures
            s.wf(),
            s.phase is Connecting,
            s.tunnels@.len() == 0,
            forall|q: u128| !s.registry.contains_id(q),
            s.registry.trace() == Seq::<crate::registry::UserIncoming>::empty(),
    {
        ControlSession {
            phase: SessionPhase::Connecting,
            registry: UserIncomingRegistry::new(),
            tunnels: Vec::new(),
        }
    }

    /// Records one successful registration.  The first success moves the
    /// session from `Connecting` to `Serving`; later ones keep it there.
    pub fn record_tunnel(&mut self, t: TunnelEntry)
        requires
            old(self).wf(),
            !(old(self).phase is Closing),
        ensures
            final(self).wf(),
            final(self).phase is Serving,
            final(self).tunnels@ == old(self).tunnels@.push(t),
            final(self).registry == old(self).registry,
    {
        self.phase = SessionPhase::Serving;
        self.tunnels.push(t);
    }

    /// Demultiplexes one inbound frame.  While serving, the frame is
    /// routed to the bridge it names: `Start` delivers the `Sender`
    /// handshake carrying `handle`, `Sending` delivers the payload as
    /// `Data`, `Close` raises the bridge's client-cancel signal.  Before
    /// the first registration any traffic frame is a protocol violation;
    /// while closing, frames are dropped.
    pub fn on_inbound(&mut self, frame: TrafficToServer, handle: u64) -> (r: InboundVerdict)
        requires
            old(self).wf(),
        ensures
            final(self).wf(),
            final(self).phase == old(self).phase,
            final(self).tunnels == old(self).tunnels,
            final(self).registry.trace() == old(self).registry.trace(),
            r is Violation <==> old(self).phase is Connecting,
            r is Routed <==> old(self).phase is Serving && old(self).registry.contains_id(
                frame.stream_id,
            ),
            !(old(self).phase is Serving) ==> final(self).registry == old(self).registry,
            forall|q: u128|
                final(self).registry.contains_id(q) == old(self).registry.contains_id(q),
            forall|q: u128|
                q != frame.stream_id && old(self).registry.contains_id(q) ==> same_bridge_state(
                    old(self).registry,
                    final(self).registry,
                    q,
                ),
            r is Routed && frame.action is Start ==> {
                &&& final(self).registry.pending_of(frame.stream_id) == old(
                    self,
                ).registry.pending_of(frame.stream_id).push(
                    crate::bridge::BridgeData::Sender(handle),
                )
                &&& final(self).registry.sender_delivered_of(frame.stream_id)
                &&& final(self).registry.cancel_of(frame.stream_id) == old(
                    self,
                ).registry.cancel_of(frame.stream_id)
            },
            r is Routed && frame.action is Sending ==> {
                &&& final(self).registry.pending_of(frame.stream_id) == old(
                    self,
                ).registry.pending_of(frame.stream_id).push(
                    crate::bridge::BridgeData::Data(frame.payload),
                )
                &&& final(self).registry.sender_delivered_of(frame.stream_id) == old(
                    self,
                ).registry.sender_delivered_of(frame.stream_id)
                &&& final(self).registry.cancel_of(frame.stream_id) == old(
                    self,
                ).registry.cancel_of(frame.stream_id)
            },
            r is Routed && frame.action is Close ==> {
                &&& final(self).registry.cancel_of(frame.stream_id)
                &&& final(self).registry.pending_of(frame.stream_id) == old(
                    self,
                ).registry.pending_of(frame.stream_id)
                &&& final(self).registry.sender_delivered_of(frame.stream_id) == old(
                    self,
                ).registry.sender_delivered_of(frame.stream_id)
            },
            old(self).phase is Serving && !old(self).registry.contains_id(frame.stream_id)
                ==> final(self).registry == old(self).registry,
    {
        match self.phase {
            SessionPhase::Connecting => InboundVerdict::Violation,
            SessionPhase::Closing => InboundVerdict::Dropped,
            SessionPhase::Serving => {
                let delivered = self.registry.route(frame, handle);
                if delivered {
                    InboundVerdict::Routed
                } else {
                    InboundVerdict::Dropped
                }
            },
        }
    }

    /// Closes the session: cancels every owned bridge, drains the
    /// registry (recording a `Remove` for each entry), and releases every
    /// dynamically allocated port back to the port manager.  Afterwards
    /// the registry's whole trace is balanced: each `Add` it ever
    /// accepted is matched by exactly one `Remove`.
    pub fn close(&mut self, pm: &mut PortManager)
        requires
            old(self).wf(),
            old(pm).wf(),
        ensures
            final(self).wf(),
            final(pm).wf(),
            final(self).phase is Closing,
            final(self).tunnels@.len() == 0,
            forall|q: u128| !final(self).registry.contains_id(q),
            forall|q: u128|
                count_adds(final(self).registry.trace(), q) == count_removes(
                    final(self).registry.trace(),
                    q,
                ),
            forall|p: u16|
                final(pm).is_free(p) == (old(pm).is_free(p) || old(self).owns_dynamic_port(p)),
    {
        self.phase = SessionPhase::Closing;
        self.registry.cancel_all();
        self.registry.clear();
        proof {
            assert forall|q: u128|
                count_adds(self.registry.trace(), q) == count_removes(
                    self.registry.trace(),
                    q,
                ) by {
                lemma_drained_registry_balanced(self.registry, q);
            }
        }
        let ghost ts = self.tunnels@;
        let n = self.tunnels.len();
        let mut i: usize = 0;
        while i < n
            invariant
                pm.wf(),
                n == ts.len(),
                i <= n,
                self.tunnels@ == ts,
                forall|p: u16|
                    pm.is_free(p) == (old(pm).is_free(p) || exists|j: int|
                        0 <= j < i && ts[j].dynamic && ts[j].port == p),
            decreases n - i,
        {
            let t = self.tunnels[i];
            let ghost pm0 = *pm;
            if t.dynamic {
                pm.release(t.port);
            }
            proof {
                assert forall|p: u16|
                    pm.is_free(p) == (old(pm).is_free(p) || exists|j: int|
                        0 <= j < i + 1 && ts[j].dynamic && ts[j].port == p) by {
                    if t.dynamic {
                        if p == t.port {
                            assert(pm.is_free(p));
                            assert(ts[i as int].dynamic && ts[i as int].port == p);
                        } else {
                            assert(pm.is_free(p) == pm0.is_free(p));
                            if exists|j: int| 0 <= j < i + 1 && ts[j].dynamic && ts[j].port == p {
                                let j = choose|j: int|
                                    0 <= j < i + 1 && ts[j].dynamic && ts[j].port == p;
                                assert(j < i);
                            }
                        }
                    } else {
                        if exists|j: int| 0 <= j < i + 1 && ts[j].dynamic && ts[j].port == p {
                            let j = choose|j: int|
                                0 <= j < i + 1 && ts[j].dynamic && ts[j].port == p;
                            assert(j < i);
                        }
                    }
                }
            }
            i = i + 1;
        }
        self.tunnels.clear();
    }
}

} // verus!
