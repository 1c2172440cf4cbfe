use tunneld::bridge::BridgeData;
use tunneld::udp::udp_serve_step;
use tunneld::udp::udp_transfer_step;
use tunneld::udp::UdpEvent;
use tunneld::udp::UdpPhase;
use tunneld::udp::UdpServeAction;
use tunneld::udp::UdpServeEvent;
use tunneld::udp::UdpTransferAction;
use tunneld::udp::MAX_DATAGRAM_SIZE;

#[test]
fn serve_loop_stops_on_shutdown() {
    assert!(matches!(udp_serve_step(UdpServeEvent::Shutdown), UdpServeAction::Stop));
}

#[test]
fn serve_loop_opens_one_exchange_per_datagram() {
    let a = udp_serve_step(UdpServeEvent::Datagram(b"hello".to_vec()));
    match a {
        UdpServeAction::OpenExchange(d) => assert_eq!(d, b"hello".to_vec()),
        _ => panic!("expected an exchange"),
    }
}

#[test]
fn serve_loop_survives_a_failed_receive() {
    assert!(matches!(udp_serve_step(UdpServeEvent::RecvFailed), UdpServeAction::KeepServing));
}

#[test]
fn one_request_one_response_runs_to_completion() {
    // The "hello" datagram goes out, the "world" reply comes back as a
    // Data frame, the reply datagram is written, and the exchange ends.
    let (p, a) = udp_transfer_step(UdpPhase::SendRequest, UdpEvent::RequestSent);
    assert_eq!(p, UdpPhase::AwaitReply);
    assert!(matches!(a, UdpTransferAction::AwaitFrame));
    let reply = Some(BridgeData::Data(b"world".to_vec()));
    let (p, a) = udp_transfer_step(p, UdpEvent::FrameReceived(reply));
    assert_eq!(p, UdpPhase::WriteResponse);
    match a {
        UdpTransferAction::WriteDatagram(d) => assert_eq!(d, b"world".to_vec()),
        _ => panic!("expected the reply datagram"),
    }
    let (p, a) = udp_transfer_step(p, UdpEvent::ResponseSent);
    assert_eq!(p, UdpPhase::Done);
    assert!(matches!(a, UdpTransferAction::Finished));
}

#[test]
fn sender_frame_at_reply_position_is_a_violation() {
    let reply = Some(BridgeData::Sender(7));
    let (p, a) = udp_transfer_step(UdpPhase::AwaitReply, UdpEvent::FrameReceived(reply));
    assert_eq!(p, UdpPhase::Done);
    assert!(matches!(a, UdpTransferAction::ExitProtocolViolation));
}

#[test]
fn closed_channel_at_reply_position_fails_the_exchange() {
    let (p, a) = udp_transfer_step(UdpPhase::AwaitReply, UdpEvent::FrameReceived(None));
    assert_eq!(p, UdpPhase::Done);
    assert!(matches!(a, UdpTransferAction::ExitWithError));
}

#[test]
fn cancel_exits_silently_at_every_await() {
    for phase in [UdpPhase::SendRequest, UdpPhase::AwaitReply, UdpPhase::WriteResponse] {
        let (p, a) = udp_transfer_step(phase, UdpEvent::ClientCancelled);
        assert_eq!(p, UdpPhase::Done);
        assert!(matches!(a, UdpTransferAction::ExitSilently));
    }
}

#[test]
fn failed_sends_end_the_exchange() {
    let (_, a) = udp_transfer_step(UdpPhase::SendRequest, UdpEvent::RequestSendFailed);
    assert!(matches!(a, UdpTransferAction::ExitWithError));
    let (_, a) = udp_transfer_step(UdpPhase::WriteResponse, UdpEvent::ResponseSendFailed);
    assert!(matches!(a, UdpTransferAction::ExitWithError));
}

#[test]
fn max_datagram_size_matches_udp_payload_limit() {
    assert_eq!(MAX_DATAGRAM_SIZE, 65507);
}
