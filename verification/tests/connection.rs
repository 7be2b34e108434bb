use str0m::channel::ChannelId;
use str0m::Rtc;
use std::time::Instant;
use str0m::net::{Protocol, Transmit};
use str0m::RtcError;
use webrtc_server::connection::{
    Connection, ConnectionError, IceState, Phase, Polled, RtcEvent, Step, WriteError,
};
use webrtc_server::frame::{FrameError, RequestFrame};

fn two_ids() -> (Rtc, ChannelId, ChannelId) {
    let mut rtc = Rtc::new();
    let mut api = rtc.sdp_api();
    let a = api.add_channel("a".to_string());
    let b = api.add_channel("b".to_string());
    drop(api);
    (rtc, a, b)
}

fn handshaken(rtc: Rtc, id: ChannelId) -> Connection<u8, u32> {
    let mut conn: Connection<u8, u32> = Connection::new(rtc, 7);
    assert!(matches!(conn.handle_event(RtcEvent::ChannelOpen(id)), Ok(Step::Continue)));
    match conn.handle_event(RtcEvent::ChannelData { binary: true, data: vec![1, 2] }) {
        Ok(Step::Handshake(f)) => assert_eq!(f.bytes, vec![1, 2]),
        _ => panic!("expected a handshake"),
    }
    assert_eq!(conn.phase(), Phase::AwaitingHandshake);
    conn.accept_handshake(42);
    conn
}

#[test]
fn new_connection_awaits_channel() {
    let conn: Connection<u8, u32> = Connection::new(Rtc::new(), 3);
    assert_eq!(conn.phase(), Phase::AwaitingDataChannel);
    assert_eq!(*conn.addr(), 3);
    assert_eq!(conn.request_sender(), None);
}

#[test]
fn write_before_channel_is_refused() {
    let mut conn: Connection<u8, u32> = Connection::new(Rtc::new(), 3);
    assert!(matches!(conn.write(&[1, 2, 3]), Err(WriteError::NotOpened)));
}

#[test]
fn fresh_engine_is_idle() {
    let mut conn: Connection<u8, u32> = Connection::new(Rtc::new(), 3);
    assert!(matches!(conn.handle_output(), Ok(Step::Idle(_))));
    assert_eq!(conn.phase(), Phase::AwaitingDataChannel);
}

#[test]
fn data_before_open_is_detected() {
    let conn: Connection<u8, u32> = Connection::new(Rtc::new(), 3);
    assert!(conn.is_data_before_open(&RtcEvent::ChannelData { binary: true, data: vec![] }));
    assert!(!conn.is_data_before_open(&RtcEvent::ChannelData { binary: false, data: vec![] }));
    assert!(!conn.is_data_before_open(&RtcEvent::Other));
}

#[test]
fn text_data_is_ignored() {
    let mut conn: Connection<u8, u32> = Connection::new(Rtc::new(), 3);
    let r = conn.handle_event(RtcEvent::ChannelData { binary: false, data: vec![1] });
    assert!(matches!(r, Ok(Step::Continue)));
    assert_eq!(conn.phase(), Phase::AwaitingDataChannel);
}

#[test]
fn handshake_then_requests() {
    let (rtc, a, _) = two_ids();
    let mut conn = handshaken(rtc, a);
    assert_eq!(conn.phase(), Phase::AwaitingRequest);
    assert_eq!(conn.request_sender(), Some(&42));
    match conn.handle_event(RtcEvent::ChannelData { binary: true, data: vec![0, 7] }) {
        Ok(Step::Request(f)) => assert_eq!(f, RequestFrame::ServicePayload { bytes: vec![7] }),
        _ => panic!("expected a request"),
    }
    assert!(matches!(
        conn.handle_event(RtcEvent::ChannelData { binary: true, data: vec![9] }),
        Err(ConnectionError::Frame(FrameError::UnknownTag(9)))
    ));
    assert!(matches!(
        conn.handle_event(RtcEvent::ChannelData { binary: true, data: vec![] }),
        Err(ConnectionError::Frame(FrameError::Empty))
    ));
    assert_eq!(conn.phase(), Phase::AwaitingRequest);
}

#[test]
fn second_channel_open_is_ignored() {
    let (rtc, a, b) = two_ids();
    let mut conn: Connection<u8, u32> = Connection::new(rtc, 1);
    conn.handle_event(RtcEvent::ChannelOpen(a)).ok();
    conn.handle_event(RtcEvent::ChannelOpen(b)).ok();
    // Closing the ignored channel leaves the connection as it is.
    conn.handle_event(RtcEvent::ChannelClose(b)).ok();
    assert_eq!(conn.phase(), Phase::AwaitingHandshake);
    conn.handle_event(RtcEvent::ChannelClose(a)).ok();
    assert_eq!(conn.phase(), Phase::Disconnected);
}

#[test]
fn write_without_engine_channel_fails() {
    let (rtc, a, _) = two_ids();
    let mut conn = handshaken(rtc, a);
    assert!(matches!(conn.write(&[1]), Err(WriteError::NoChannel)));
}

#[test]
fn close_of_current_channel_disconnects_for_good() {
    let (rtc, a, _) = two_ids();
    let mut conn = handshaken(rtc, a);
    conn.handle_event(RtcEvent::ChannelClose(a)).ok();
    assert_eq!(conn.phase(), Phase::Disconnected);
    assert_eq!(conn.request_sender(), None);
    conn.handle_event(RtcEvent::ChannelOpen(a)).ok();
    assert_eq!(conn.phase(), Phase::Disconnected);
    let r = conn.handle_event(RtcEvent::ChannelData { binary: true, data: vec![0, 1] });
    assert!(matches!(r, Ok(Step::Continue)));
    assert!(matches!(conn.write(&[1]), Err(WriteError::Disconnected)));
}

#[test]
fn ice_disconnect_ends_connection() {
    let mut conn: Connection<u8, u32> = Connection::new(Rtc::new(), 3);
    conn.handle_event(RtcEvent::IceStateChange(IceState::Disconnected)).ok();
    assert_eq!(conn.phase(), Phase::Disconnected);
    assert!(matches!(conn.write(&[1]), Err(WriteError::Disconnected)));
}

#[test]
fn other_events_change_nothing() {
    let (rtc, a, _) = two_ids();
    let mut conn = handshaken(rtc, a);
    assert!(matches!(conn.handle_event(RtcEvent::Other), Ok(Step::Continue)));
    assert_eq!(conn.phase(), Phase::AwaitingRequest);
}

#[test]
fn other_ice_states_keep_connection() {
    let (rtc, a, _) = two_ids();
    let mut conn = handshaken(rtc, a);
    for s in [IceState::New, IceState::Checking, IceState::Connected, IceState::Completed] {
        assert!(matches!(conn.handle_event(RtcEvent::IceStateChange(s)), Ok(Step::Continue)));
        assert_eq!(conn.phase(), Phase::AwaitingRequest);
    }
}

#[test]
fn polled_timeout_is_idle_with_its_instant() {
    let mut conn: Connection<u8, u32> = Connection::new(Rtc::new(), 3);
    let t = Instant::now();
    match conn.handle_polled(Ok(Polled::Timeout(t))) {
        Ok(Step::Idle(u)) => assert_eq!(u, t),
        _ => panic!("expected idle"),
    }
    assert_eq!(conn.phase(), Phase::AwaitingDataChannel);
}

#[test]
fn polled_datagram_is_handed_on() {
    let mut conn: Connection<u8, u32> = Connection::new(Rtc::new(), 3);
    let source = "127.0.0.1:1000".parse().unwrap();
    let destination = "127.0.0.1:2000".parse().unwrap();
    let t = Transmit { proto: Protocol::Udp, source, destination, contents: vec![1, 2, 3].into() };
    match conn.handle_polled(Ok(Polled::Transmit(t))) {
        Ok(Step::Transmit(t)) => {
            assert_eq!(t.destination, destination);
            assert_eq!(&t.contents[..], &[1, 2, 3]);
        }
        _ => panic!("expected a datagram"),
    }
}

#[test]
fn engine_error_ends_connection() {
    let (rtc, a, _) = two_ids();
    let mut conn = handshaken(rtc, a);
    let r = conn.handle_polled(Err(RtcError::RemoteSdp("bad".to_string())));
    assert!(matches!(r, Err(ConnectionError::Rtc(_))));
    assert_eq!(conn.phase(), Phase::Disconnected);
}

#[test]
fn undecodable_request_ends_connection_when_polled() {
    let (rtc, a, _) = two_ids();
    let mut conn = handshaken(rtc, a);
    let ev = RtcEvent::ChannelData { binary: true, data: vec![3] };
    let r = conn.handle_polled(Ok(Polled::Event(ev)));
    assert!(matches!(r, Err(ConnectionError::Frame(FrameError::UnknownTag(3)))));
    assert_eq!(conn.phase(), Phase::Disconnected);
}

#[test]
fn polled_data_before_open_is_reported() {
    let mut conn: Connection<u8, u32> = Connection::new(Rtc::new(), 3);
    let ev = RtcEvent::ChannelData { binary: true, data: vec![0] };
    let r = conn.handle_polled(Ok(Polled::Event(ev)));
    assert!(matches!(r, Err(ConnectionError::DataBeforeChannelOpen)));
    assert_eq!(conn.phase(), Phase::AwaitingDataChannel);
}

#[test]
fn polled_request_is_forwarded() {
    let (rtc, a, _) = two_ids();
    let mut conn = handshaken(rtc, a);
    let ev = RtcEvent::ChannelData { binary: true, data: vec![0, 4, 5] };
    match conn.handle_polled(Ok(Polled::Event(ev))) {
        Ok(Step::Request(f)) => assert_eq!(f, RequestFrame::ServicePayload { bytes: vec![4, 5] }),
        _ => panic!("expected a request"),
    }
    assert_eq!(conn.phase(), Phase::AwaitingRequest);
}

#[test]
fn disconnect_ends_connection() {
    let (rtc, a, _) = two_ids();
    let mut conn = handshaken(rtc, a);
    conn.disconnect();
    assert_eq!(conn.phase(), Phase::Disconnected);
    assert!(matches!(conn.write(&[1]), Err(WriteError::Disconnected)));
}

#[test]
fn fresh_engine_is_alive_and_ticks() {
    let mut conn: Connection<u8, u32> = Connection::new(Rtc::new(), 3);
    assert!(conn.is_alive());
    assert!(conn.handle_timeout(Instant::now()).is_ok());
    assert_eq!(conn.phase(), Phase::AwaitingDataChannel);
}

#[test]
fn disconnected_engine_is_not_alive() {
    let mut rtc = Rtc::new();
    rtc.disconnect();
    let conn: Connection<u8, u32> = Connection::new(rtc, 3);
    assert!(!conn.is_alive());
}

