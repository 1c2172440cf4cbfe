//! One TCP echo exchange, walked through the library the way the
//! server tasks drive it: register a tunnel, open a bridge, run the
//! handshake, pump one chunk each way, and tear everything down.
use tunneld::bridge::decide_first_event;
use tunneld::bridge::frame_chunk;
use tunneld::bridge::BridgeData;
use tunneld::bridge::FirstEvent;
use tunneld::bridge::HandshakeOutcome;
use tunneld::manager::choose_port;
use tunneld::manager::PortChoice;
use tunneld::port::PortManager;
use tunneld::registry::open_bridge;
use tunneld::registry::StreamAction;
use tunneld::registry::TrafficToServer;
use tunneld::session::ControlSession;
use tunneld::session::InboundVerdict;
use tunneld::session::SessionPhase;
use tunneld::session::TunnelEntry;
use tunneld::session::TunnelProtocol;

#[test]
fn tcp_echo_round_trip() {
    // Register a TCP tunnel on any free port.
    let mut pm = PortManager::new(30000, 30010);
    let mut session = ControlSession::new();
    let (port, dynamic) = match choose_port(&mut pm, 0) {
        PortChoice::Bind(p, d) => (p, d),
        PortChoice::Exhausted => panic!("the range was free"),
    };
    session.record_tunnel(TunnelEntry { protocol: TunnelProtocol::Tcp, port, dynamic });
    assert_eq!(session.phase, SessionPhase::Serving);

    // A user connects: the worker opens a bridge and registers it.
    let bridge = open_bridge();
    let id = bridge.id;
    assert!(session.registry.add(bridge));

    // The client arms the stream; the session answers with the Sender
    // handshake, which the worker must see first.
    let start = TrafficToServer { stream_id: id, action: StreamAction::Start, payload: vec![] };
    assert_eq!(session.on_inbound(start, 7), InboundVerdict::Routed);
    let first = session.registry.pop_frame(id).expect("the handshake frame");
    let outcome = decide_first_event(FirstEvent::Frame(first));
    let handle = match outcome {
        HandshakeOutcome::Ready(h) => h,
        _ => panic!("the first frame was the Sender"),
    };
    assert_eq!(handle, 7);

    // The user sends "PING\n"; the worker emits it as one frame.
    let out = frame_chunk(id, b"PING\n".to_vec());
    assert_eq!(out.stream_id, id);
    assert_eq!(out.payload, b"PING\n".to_vec());

    // The client replies "PONG\n" and closes its half.
    let reply = TrafficToServer {
        stream_id: id,
        action: StreamAction::Sending,
        payload: b"PONG\n".to_vec(),
    };
    assert_eq!(session.on_inbound(reply, 0), InboundVerdict::Routed);
    let close = TrafficToServer { stream_id: id, action: StreamAction::Close, payload: vec![] };
    assert_eq!(session.on_inbound(close, 0), InboundVerdict::Routed);

    // The worker drains exactly "PONG\n" and sees the cancel.
    match session.registry.pop_frame(id) {
        Some(BridgeData::Data(d)) => assert_eq!(d, b"PONG\n".to_vec()),
        _ => panic!("expected the reply bytes"),
    }
    assert!(session.registry.pop_frame(id).is_none());
    assert!(session.registry.cancelled(id));

    // The worker finishes; the bridge is removed exactly once.
    assert!(session.registry.remove(id));
    assert!(!session.registry.remove(id));

    // The session closes; its port returns to the manager.
    session.close(&mut pm);
    assert!(pm.holds(port));
    assert_eq!(pm.available(), 11);
}
