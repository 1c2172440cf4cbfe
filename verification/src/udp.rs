//! UDP tunnel worker decisions: one datagram, one bridge, one reply.
//!
//! The worker's loop races shutdown against the next datagram; each
//! datagram gets its own bridge and a single request/response exchange.
//! Every await of the exchange also races the bridge's client-cancel
//! signal, and a cancel exits the exchange silently.  These functions
//! are the worker's decision table; the surrounding task performs the
//! socket and channel operations they call for.
use vstd::prelude::*;

use crate::bridge::BridgeData;

verus! {

/// Largest UDP payload the worker accepts.
pub const MAX_DATAGRAM_SIZE: usize = 65507;

/// What the worker's main loop observes next.
pub enum UdpServeEvent {
    /// The shutdown token fired.
    Shutdown,
    /// A datagram arrived with this payload.
    Datagram(Vec<u8>),
    /// The receive failed; the datagram is lost.
    RecvFailed,
}

/// What the worker's main loop does next.
pub enum UdpServeAction {
    /// Leave the loop and release the socket.
    Stop,
    /// Open a bridge and run one exchange for this payload.
    OpenExchange(Vec<u8>),
    /// Log the failure and wait for the next datagram.
    KeepServing,
}

/// The main-loop decision: shutdown stops the worker, a datagram opens
/// one exchange carrying its payload, a failed receive is logged and
/// the loop goes on.
pub fn udp_serve_step(ev: UdpServeEvent) -> (a: UdpServeAction)
    ensures
        a is Stop <==> ev is Shutdown,
        a is KeepServing <==> ev is RecvFailed,
        forall|d: Vec<u8>|
            a == UdpServeAction::OpenExchange(d) <==> ev == UdpServeEvent::Datagram(d),
{
    match ev {
        UdpServeEvent::Shutdown => UdpServeAction::Stop,
        UdpServeEvent::Datagram(d) => UdpServeAction::OpenExchange(d),
        UdpServeEvent::RecvFailed => UdpServeAction::KeepServing,
    }
}

/// Phase of one request/response exchange.
#[derive(Clone, Copy, Debug, PartialEq, Eq, Structural)]
pub enum UdpPhase {
    /// Forwarding the datagram payload to the client.
    SendRequest,
    /// Waiting for exactly one reply frame.
    AwaitReply,
    /// Writing the reply datagram back to the peer.
    WriteResponse,
    /// The exchange is over.
    Done,
}

/// What the exchange task observes at its current await.
pub enum UdpEvent {
    /// The bridge's client-cancel signal fired.
    ClientCancelled,
    /// The payload reached the client side.
    RequestSent,
    /// The payload could not be handed to the client side.
    RequestSendFailed,
    /// The await for the reply ended with this frame, or with a closed
    /// channel.
    FrameReceived(Option<BridgeData>),
    /// The reply datagram reached the peer.
    ResponseSent,
    /// The reply datagram could not be written.
    ResponseSendFailed,
}

/// What the exchange task must do after a step.
pub enum UdpTransferAction {
    /// Await the single reply frame.
    AwaitFrame,
    /// Send this reply to the peer address the datagram came from.
    WriteDatagram(Vec<u8>),
    /// Exit without a word: the client cancelled.
    ExitSilently,
    /// Exit reporting a failure.
    ExitWithError,
    /// Exit reporting a protocol violation: a `Sender` frame arrived at
    /// the reply position.
    ExitProtocolViolation,
    /// The exchange completed; raise the remove signal.
    Finished,
}

/// The transition table of one exchange.
pub open spec fn spec_udp_transfer_step(phase: UdpPhase, ev: UdpEvent) -> (UdpPhase, UdpTransferAction) {
    match ev {
        UdpEvent::ClientCancelled => (UdpPhase::Done, UdpTransferAction::ExitSilently),
        UdpEvent::RequestSent => if phase is SendRequest {
            (UdpPhase::AwaitReply, UdpTransferAction::AwaitFrame)
        } else {
            (UdpPhase::Done, UdpTransferAction::ExitWithError)
        },
        UdpEvent::FrameReceived(f) => if phase is AwaitReply {
            match f {
                Some(BridgeData::Data(d)) => (
                    UdpPhase::WriteResponse,
                    UdpTransferAction::WriteDatagram(d),
                ),
                Some(BridgeData::Sender(_)) => (
                    UdpPhase::Done,
                    UdpTransferAction::ExitProtocolViolation,
                ),
                None => (UdpPhase::Done, UdpTransferAction::ExitWithError),
            }
        } else {
            (UdpPhase::Done, UdpTransferAction::ExitWithError)
        },
        UdpEvent::ResponseSent => if phase is WriteResponse {
            (UdpPhase::Done, UdpTransferAction::Finished)
        } else {
            (UdpPhase::Done, UdpTransferAction::ExitWithError)
        },
        UdpEvent::RequestSendFailed => (UdpPhase::Done, UdpTransferAction::ExitWithError),
        UdpEvent::ResponseSendFailed => (UdpPhase::Done, UdpTransferAction::ExitWithError),
    }
}

/// One step of the exchange: a cancel at any await exits silently; the
/// sent request arms the wait for exactly one reply frame, which must be
/// `Data` (a `Sender` frame here is a protocol violation); the written
/// response finishes the exchange and raises the remove signal.
pub fn udp_transfer_step(phase: UdpPhase, ev: UdpEvent) -> (r: (UdpPhase, UdpTransferAction))
    ensures
        r == spec_udp_transfer_step(phase, ev),
{
    match ev {
        UdpEvent::ClientCancelled => (UdpPhase::Done, UdpTransferAction::ExitSilently),
        UdpEvent::RequestSent => {
            if phase == UdpPhase::SendRequest {
                (UdpPhase::AwaitReply, UdpTransferAction::AwaitFrame)
            } else {
                (UdpPhase::Done, UdpTransferAction::ExitWithError)
            }
        },
        UdpEvent::FrameReceived(f) => {
            if phase == UdpPhase::AwaitReply {
                match f {
                    Some(BridgeData::Data(d)) => (
                        UdpPhase::WriteResponse,
                        UdpTransferAction::WriteDatagram(d),
                    ),
                    Some(BridgeData::Sender(_)) => (
                        UdpPhase::Done,
                        UdpTransferAction::ExitProtocolViolation,
                    ),
                    None => (UdpPhase::Done, UdpTransferAction::ExitWithError),
                }
            } else {
                (UdpPhase::Done, UdpTransferAction::ExitWithError)
            }
        },
        UdpEvent::ResponseSent => {
            if phase == UdpPhase::WriteResponse {
                (UdpPhase::Done, UdpTransferAction::Finished)
            } else {
                (UdpPhase::Done, UdpTransferAction::ExitWithError)
            }
        },
        UdpEvent::RequestSendFailed => (UdpPhase::Done, UdpTransferAction::ExitWithError),
        UdpEvent::ResponseSendFailed => (UdpPhase::Done, UdpTransferAction::ExitWithError),
    }
}

/// Every exchange ends after at most three steps: each step either
/// finishes or advances the phase strictly towards `Done`.
pub proof fn lemma_udp_exchange_advances(phase: UdpPhase, ev: UdpEvent)
    ensures
        ({
            let (next, _) = spec_udp_transfer_step(phase, ev);
            next is Done || (phase is SendRequest && next is AwaitReply) || (phase is AwaitReply
                && next is WriteResponse)
        }),
{
}

} // verus!
