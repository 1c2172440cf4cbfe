//! The bridge: the coupling object for one user connection.
//!
//! A worker mints a stream id, registers the bridge, and then waits for
//! the first message on the bridge's `to_client` queue, which must be the
//! `Sender` handshake frame.  Afterwards the worker pumps bytes read from
//! the user connection into `TrafficToClient` frames, one frame per read,
//! in read order.
use vstd::prelude::*;

verus! {

/// A message on a bridge's `to_client` queue.
///
/// `Sender` carries the handle by which the control session pushes
/// user-bound bytes back into the worker; it is delivered exactly once,
/// before any `Data`.  `Data` carries one chunk of client-bound bytes.
pub enum BridgeData {
    Sender(u64),
    Data(Vec<u8>),
}

/// Relies on `uuid::Uuid::new_v4`, a random 128-bit UUID: a fresh stream
/// id for a new user connection.  Nothing is promised of the value; the
/// registry refuses a duplicate on `add`.
#[verifier::external_body]
pub(crate) fn mint_stream_id() -> (r: u128) {
    uuid::Uuid::new_v4().as_u128()
}

/// What a worker blocked on the first `to_client` message may observe:
/// either a frame arrives, or the client cancels the stream first.
pub enum FirstEvent {
    Frame(BridgeData),
    Cancelled,
}

/// The worker's verdict on its first observation.
pub enum HandshakeOutcome {
    /// The handshake frame arrived; the worker keeps the sender handle.
    Ready(u64),
    /// The client closed its half before the handshake; the worker must
    /// raise the remove signal and abort without any user I/O.
    CancelledByClient,
    /// The first frame was not `Sender`: a protocol violation that
    /// terminates the bridge.
    ProtocolViolation,
}

/// Decides the bridge handshake from the first event the worker observes.
///
/// The worker proceeds exactly when the first frame is `Sender`; a bridge
/// never consumes any other frame as its first `to_client` message.
pub fn decide_first_event(ev: FirstEvent) -> (r: HandshakeOutcome)
    ensures
        forall|h: u64| r == HandshakeOutcome::Ready(h) <==> ev == FirstEvent::Frame(
            BridgeData::Sender(h),
        ),
        r == HandshakeOutcome::CancelledByClient <==> ev == FirstEvent::Cancelled,
        r == HandshakeOutcome::ProtocolViolation <==> (ev matches FirstEvent::Frame(f)
            && f matches BridgeData::Data(_)),
{
    match ev {
        FirstEvent::Frame(BridgeData::Sender(h)) => HandshakeOutcome::Ready(h),
        FirstEvent::Frame(BridgeData::Data(_)) => HandshakeOutcome::ProtocolViolation,
        FirstEvent::Cancelled => HandshakeOutcome::CancelledByClient,
    }
}

/// Whether the worker must raise the remove signal itself after the
/// first event: on every abort path it does, while after a successful
/// handshake the signal is raised later, when the transfer finishes.
pub fn must_raise_remove(r: &HandshakeOutcome) -> (b: bool)
    ensures
        b <==> !(r is Ready),
{
    match r {
        HandshakeOutcome::Ready(_) => false,
        HandshakeOutcome::CancelledByClient => true,
        HandshakeOutcome::ProtocolViolation => true,
    }
}

/// One multiplexed frame from the server to the client: a chunk of
/// user-side bytes for the stream `stream_id`.
pub struct TrafficToClient {
    pub stream_id: u128,
    pub payload: Vec<u8>,
}

/// The frame sequence `frames` is exactly what the remote-to-client pump
/// emits for the read chunks `chunks` of stream `id`: one frame per chunk,
/// in read order, payloads unchanged.
pub open spec fn pump_emits(id: u128, chunks: Seq<Seq<u8>>, frames: Seq<TrafficToClient>) -> bool {
    &&& frames.len() == chunks.len()
    &&& forall|i: int|
        0 <= i < frames.len() ==> (#[trigger] frames[i]).stream_id == id && frames[i].payload@
            == chunks[i]
}

/// The client-visible byte stream of a frame sequence: the payloads
/// concatenated in delivery order.
pub open spec fn delivered_bytes(frames: Seq<TrafficToClient>) -> Seq<u8> {
    frames.map_values(|f: TrafficToClient| f.payload@).flatten()
}

/// Wraps one chunk read from the user connection into the frame the
/// session forwards to the client.
pub fn frame_chunk(id: u128, chunk: Vec<u8>) -> (f: TrafficToClient)
    ensures
        f.stream_id == id,
        f.payload@ == chunk@,
{
    TrafficToClient { stream_id: id, payload: chunk }
}

/// The remote-to-client pump over a whole transfer: each chunk read from
/// the user socket becomes one `TrafficToClient` frame, in read order.
pub fn frames_for_chunks(id: u128, chunks: &Vec<Vec<u8>>) -> (frames: Vec<TrafficToClient>)
    ensures
        pump_emits(id, chunks@.map_values(|c: Vec<u8>| c@), frames@),
{
    let mut frames: Vec<TrafficToClient> = Vec::new();
    let mut i: usize = 0;
    while i < chunks.len()
        invariant
            i <= chunks@.len(),
            frames@.len() == i,
            forall|j: int|
                0 <= j < i ==> (#[trigger] frames@[j]).stream_id == id && frames@[j].payload@
                    == chunks@[j]@,
        decreases chunks@.len() - i,
    {
        let chunk = chunks[i].clone();
        proof {
            assert(chunk@ =~= chunks@[i as int]@);
        }
        let f = frame_chunk(id, chunk);
        frames.push(f);
        i = i + 1;
    }
    proof {
        let cs = chunks@.map_values(|c: Vec<u8>| c@);
        assert(cs.len() == chunks@.len());
        assert(forall|j: int| 0 <= j < cs.len() ==> cs[j] == chunks@[j]@);
    }
    frames
}

/// Within one direction of one bridge, bytes are delivered in order: the
/// byte stream the client sees is exactly the bytes the worker read, in
/// read order.
pub proof fn lemma_pump_preserves_order(
    id: u128,
    chunks: Seq<Seq<u8>>,
    frames: Seq<TrafficToClient>,
)
    requires
        pump_emits(id, chunks, frames),
    ensures
        delivered_bytes(frames) == chunks.flatten(),
{
    let payloads = frames.map_values(|f: TrafficToClient| f.payload@);
    assert(payloads =~= chunks);
}

} // verus!
