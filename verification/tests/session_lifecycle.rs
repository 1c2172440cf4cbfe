use tunneld::port::PortManager;
use tunneld::registry::StreamAction;
use tunneld::registry::TrafficToServer;
use tunneld::session::protocol_of;
use tunneld::session::requested_port;
use tunneld::session::ControlSession;
use tunneld::session::InboundVerdict;
use tunneld::session::SessionPhase;
use tunneld::session::TunnelEntry;
use tunneld::session::TunnelProtocol;
use tunneld::session::TunnelRegistration;

fn frame(id: u128, action: StreamAction, payload: &[u8]) -> TrafficToServer {
    TrafficToServer { stream_id: id, action, payload: payload.to_vec() }
}

fn bridge(id: u128) -> tunneld::registry::BridgeEntry {
    tunneld::registry::BridgeEntry {
        id,
        pending: Vec::new(),
        sender_delivered: false,
        client_cancel: false,
    }
}

#[test]
fn first_registration_moves_session_to_serving() {
    let mut s = ControlSession::new();
    assert_eq!(s.phase, SessionPhase::Connecting);
    s.record_tunnel(TunnelEntry { protocol: TunnelProtocol::Tcp, port: 30001, dynamic: true });
    assert_eq!(s.phase, SessionPhase::Serving);
    s.record_tunnel(TunnelEntry { protocol: TunnelProtocol::Udp, port: 30002, dynamic: true });
    assert_eq!(s.phase, SessionPhase::Serving);
}

#[test]
fn traffic_before_any_registration_is_a_violation() {
    let mut s = ControlSession::new();
    let v = s.on_inbound(frame(1, StreamAction::Start, b""), 0);
    assert_eq!(v, InboundVerdict::Violation);
}

#[test]
fn serving_session_routes_frames_to_live_bridges() {
    let mut s = ControlSession::new();
    s.record_tunnel(TunnelEntry { protocol: TunnelProtocol::Tcp, port: 30001, dynamic: true });
    assert!(s.registry.add(bridge(9)));
    let v = s.on_inbound(frame(9, StreamAction::Start, b""), 7);
    assert_eq!(v, InboundVerdict::Routed);
    let v = s.on_inbound(frame(8, StreamAction::Sending, b"x"), 0);
    assert_eq!(v, InboundVerdict::Dropped);
}

#[test]
fn close_releases_every_dynamic_port() {
    // Both dynamically allocated ports go back to the manager; the
    // fixed-port tunnel releases nothing.
    let mut pm = PortManager::new(40000, 40001);
    let p1 = pm.allocate().unwrap();
    let p2 = pm.allocate().unwrap();
    assert!(pm.allocate().is_none());
    let mut s = ControlSession::new();
    s.record_tunnel(TunnelEntry { protocol: TunnelProtocol::Tcp, port: p1, dynamic: true });
    s.record_tunnel(TunnelEntry { protocol: TunnelProtocol::Udp, port: p2, dynamic: true });
    s.record_tunnel(TunnelEntry { protocol: TunnelProtocol::Http, port: 8080, dynamic: false });
    assert!(s.registry.add(bridge(1)));
    assert!(s.registry.add(bridge(2)));
    s.close(&mut pm);
    assert_eq!(s.phase, SessionPhase::Closing);
    assert!(s.registry.is_empty());
    assert!(pm.holds(p1));
    assert!(pm.holds(p2));
    assert!(!pm.holds(8080));
    assert_eq!(pm.available(), 2);
}

#[test]
fn port_freed_by_close_serves_a_new_session() {
    // After a session is torn down mid-stream, a new registration can
    // take the same public port.
    let mut pm = PortManager::new(40000, 40000);
    let p = pm.allocate().unwrap();
    let mut s = ControlSession::new();
    s.record_tunnel(TunnelEntry { protocol: TunnelProtocol::Tcp, port: p, dynamic: true });
    s.close(&mut pm);
    assert_eq!(pm.allocate(), Some(p));
}

#[test]
fn frames_after_close_are_dropped() {
    let mut pm = PortManager::new(40000, 40001);
    let mut s = ControlSession::new();
    s.record_tunnel(TunnelEntry { protocol: TunnelProtocol::Tcp, port: 40000, dynamic: false });
    s.close(&mut pm);
    let v = s.on_inbound(frame(9, StreamAction::Sending, b"x"), 0);
    assert_eq!(v, InboundVerdict::Dropped);
}

#[test]
fn registrations_dispatch_to_their_worker() {
    let tcp = TunnelRegistration::Tcp { port: 30001 };
    let udp = TunnelRegistration::Udp { port: 0 };
    let http = TunnelRegistration::Http {
        port: 0,
        subdomain: b"a".to_vec(),
        domain: Vec::new(),
    };
    assert_eq!(protocol_of(&tcp), TunnelProtocol::Tcp);
    assert_eq!(protocol_of(&udp), TunnelProtocol::Udp);
    assert_eq!(protocol_of(&http), TunnelProtocol::Http);
    assert_eq!(requested_port(&tcp), 30001);
    assert_eq!(requested_port(&udp), 0);
    assert_eq!(requested_port(&http), 0);
}
