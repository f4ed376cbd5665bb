use expose::client::{Client, UpstreamAction};
use expose::conn_table::ConnTable;
use expose::heartbeat::{HeartbeatAction, HeartbeatConfig};
use expose::reader::{ReaderAction, ReaderEvent};
use expose::server::{AppState, PEEK_LEN};
use expose::tunnel::{Ignored, TunnelAction, TunnelEvent};
use expose::writer::{ProxyMsg, Writer, WriterAction, WriterEvent, WriterPhase};
use expose::{CapacityConfig, FlowAck, Frame, FrameError};
use std::sync::Arc;
use std::time::Duration;
use tokio::sync::Semaphore;

fn client() -> Client<u8> {
    Client::new(CapacityConfig::default(), HeartbeatConfig::default())
}

fn server() -> AppState<&'static str, u8> {
    AppState::new(CapacityConfig::default())
}

fn is_ignored(action: TunnelAction, why: Ignored) -> bool {
    match action {
        TunnelAction::Ignore(w) => w == why,
        _ => false,
    }
}

fn delivered_data(action: TunnelAction, id: u32) -> Vec<u8> {
    match action {
        TunnelAction::Deliver {
            conn_id,
            msg: ProxyMsg::Data(bytes),
        } => {
            assert_eq!(conn_id, id);
            bytes
        }
        other => panic!("unexpected action {:?}", other),
    }
}

fn is_close(action: TunnelAction, id: u32) -> bool {
    matches!(action, TunnelAction::Deliver { conn_id, msg: ProxyMsg::Close } if conn_id == id)
}

#[test]
fn visitor_without_tunnel_is_turned_away() {
    let mut state = server();
    assert!(state.open_visitor(1).is_none());
    assert_eq!(state.next_id, 1);
    assert!(!state.conns.contains(1));
}

#[test]
fn visitors_get_ids_in_a_row() {
    let mut state = server();
    assert_eq!(state.register_tunnel("a"), 1);
    for id in 1..4 {
        let admission = state.open_visitor(9).unwrap();
        assert_eq!(admission.conn_id, id);
        assert_eq!(admission.open, Frame::open(id).encode());
        assert_eq!(admission.inflight.unwrap().available_permits(), 256);
        assert_eq!(admission.reader.conn_id, id);
        assert_eq!(admission.writer.conn_id, id);
        assert!(!admission.writer.report_errors);
        assert_eq!(state.conns.get(id).unwrap().handle, 9);
        assert!(!state.conns.get(id).unwrap().remote_closed);
    }
    state.close_visitor(2);
    assert!(state.conns.contains(1) && !state.conns.contains(2) && state.conns.contains(3));
}

#[test]
fn ids_wrap_around() {
    let mut state = server();
    state.next_id = u32::MAX;
    assert_eq!(state.next_conn_id(), u32::MAX);
    assert_eq!(state.next_conn_id(), 0);
    assert_eq!(state.next_conn_id(), 1);
}

#[test]
fn unlimited_window_has_no_semaphore() {
    let mut state: AppState<u8, u8> = AppState::new(CapacityConfig {
        max_pending_messages_per_connection: 0,
    });
    state.register_tunnel(1);
    let admission = state.open_visitor(1).unwrap();
    assert!(admission.inflight.is_none());
    assert!(matches!(
        state.dispatch_from_tunnel(Frame::ack(1, 5)),
        TunnelAction::Credit {
            conn_id: 1,
            count: 5,
            outcome: FlowAck::Added(0)
        }
    ));
}

#[test]
fn new_tunnel_replaces_the_old_one() {
    let mut state = server();
    state.register_tunnel("a");
    state.open_visitor(1).unwrap();
    assert_eq!(state.register_tunnel("b"), 2);
    assert_eq!(state.tunnel.tx, Some("b"));
    assert!(!state.conns.contains(1));
}

#[test]
fn stale_cleanup_leaves_the_newer_tunnel_alone() {
    let mut state = server();
    let a = state.register_tunnel("a");
    let b = state.register_tunnel("b");
    let visitor = state.open_visitor(5).unwrap().conn_id;
    assert!(!state.unregister_tunnel(a));
    assert_eq!(state.tunnel.tx, Some("b"));
    assert!(state.conns.contains(visitor));
    assert!(state.unregister_tunnel(b));
    assert_eq!(state.tunnel.tx, None);
    assert!(!state.conns.contains(visitor));
    assert!(state.open_visitor(6).is_none());
}

#[test]
fn session_wraps_around() {
    let mut state = server();
    state.tunnel.session = u64::MAX;
    assert_eq!(state.register_tunnel("a"), 0);
    assert_eq!(state.register_tunnel("b"), 1);
}

#[test]
fn server_delivers_data_of_known_visitors() {
    let mut state = server();
    state.register_tunnel("a");
    state.open_visitor(1).unwrap();
    state.open_visitor(2).unwrap();
    let action = state.dispatch_from_tunnel(Frame::data(2, b"abc".to_vec()));
    assert_eq!(delivered_data(action, 2), b"abc".to_vec());
    assert!(is_ignored(
        state.dispatch_from_tunnel(Frame::data(3, vec![1])),
        Ignored::UnknownConn
    ));
}

#[test]
fn server_notes_the_first_close_only() {
    let mut state = server();
    state.register_tunnel("a");
    state.open_visitor(1).unwrap();
    state.open_visitor(2).unwrap();
    assert!(is_close(state.dispatch_from_tunnel(Frame::close(1)), 1));
    assert!(state.conns.get(1).unwrap().remote_closed);
    assert!(!state.conns.get(2).unwrap().remote_closed);
    assert!(is_ignored(
        state.dispatch_from_tunnel(Frame::close(1)),
        Ignored::RemoteClosed
    ));
    assert!(is_ignored(
        state.dispatch_from_tunnel(Frame::data(1, vec![1])),
        Ignored::RemoteClosed
    ));
    assert!(is_ignored(
        state.dispatch_from_tunnel(Frame::close(8)),
        Ignored::UnknownConn
    ));
}

#[test]
fn acks_bring_credits_also_after_close() {
    let mut state = server();
    state.register_tunnel("a");
    let window = state.open_visitor(1).unwrap().inflight.unwrap();
    for _ in 0..10 {
        window.try_acquire().unwrap().forget();
    }
    assert_eq!(window.available_permits(), 246);
    assert!(matches!(
        state.dispatch_from_tunnel(Frame::ack(1, 4)),
        TunnelAction::Credit {
            conn_id: 1,
            count: 4,
            outcome: FlowAck::Added(4)
        }
    ));
    assert_eq!(window.available_permits(), 250);
    state.dispatch_from_tunnel(Frame::close(1));
    state.dispatch_from_tunnel(Frame::ack(1, 6));
    assert_eq!(window.available_permits(), 256);
    assert!(matches!(
        state.dispatch_from_tunnel(Frame::ack(2, 6)),
        TunnelAction::Credit {
            conn_id: 2,
            count: 6,
            outcome: FlowAck::Added(0)
        }
    ));
}

#[test]
fn server_does_not_take_open_or_write_error() {
    let mut state = server();
    state.register_tunnel("a");
    state.open_visitor(1).unwrap();
    assert!(is_ignored(
        state.dispatch_from_tunnel(Frame::open(1)),
        Ignored::UnexpectedType(1)
    ));
    assert!(is_ignored(
        state.dispatch_from_tunnel(Frame::write_error(1)),
        Ignored::UnexpectedType(5)
    ));
}

#[test]
fn malformed_ack_is_ignored() {
    let mut bad = Frame::ack(1, 1);
    bad.payload.push(0);
    let why = Ignored::BadAck(FrameError::BadAckPayload { len: 5 });
    assert!(is_ignored(server().dispatch_from_tunnel(bad.clone()), why));
    assert!(is_ignored(client().handle_frame(bad), why));
}

#[test]
fn server_events() {
    let mut state = server();
    state.register_tunnel("a");
    state.open_visitor(1).unwrap();
    let action = state.on_event(TunnelEvent::Binary(Frame::data(1, vec![7]).encode()));
    assert_eq!(delivered_data(action, 1), vec![7]);
    assert!(is_ignored(
        state.on_event(TunnelEvent::Binary(vec![0; 4])),
        Ignored::BadFrame(FrameError::TooShort { len: 4 })
    ));
    assert!(is_ignored(
        state.on_event(TunnelEvent::Pong),
        Ignored::NoFrame
    ));
    assert!(is_ignored(
        state.on_event(TunnelEvent::Other),
        Ignored::NoFrame
    ));
    for event in [TunnelEvent::Close, TunnelEvent::Failed, TunnelEvent::Ended] {
        assert!(matches!(state.on_event(event), TunnelAction::Leave));
    }
    assert!(state.conns.contains(1));
    assert_eq!(PEEK_LEN, 512);
}

#[test]
fn client_opens_then_takes_data_before_the_upstream_answers() {
    let mut client = client();
    assert!(is_ignored(
        client.handle_frame(Frame::data(1, vec![1])),
        Ignored::UnknownConn
    ));
    assert!(matches!(
        client.handle_frame(Frame::open(1)),
        TunnelAction::Open { conn_id: 1 }
    ));
    let window = client.open_conn(1, 77).unwrap();
    assert_eq!(window.available_permits(), 256);
    assert_eq!(client.conns.get(1).unwrap().handle, 77);
    let action = client.handle_frame(Frame::data(1, vec![5]));
    assert_eq!(delivered_data(action, 1), vec![5]);
    match client.on_upstream(1, true) {
        UpstreamAction::Relay { reader, writer } => {
            assert_eq!(reader.conn_id, 1);
            assert_eq!(writer.conn_id, 1);
            assert!(writer.report_errors);
        }
        other => panic!("unexpected action {:?}", other),
    }
    client.finish_conn(1);
    assert!(!client.conns.contains(1));
}

#[test]
fn refused_upstream_closes_the_connection() {
    let mut client = client();
    client.open_conn(4, 0);
    match client.on_upstream(4, false) {
        UpstreamAction::Send(bytes) => assert_eq!(bytes, Frame::close(4).encode()),
        other => panic!("unexpected action {:?}", other),
    }
    assert!(!client.conns.contains(4));
}

#[test]
fn upstream_of_a_forgotten_connection_is_dropped() {
    let mut client = client();
    client.open_conn(4, 0);
    client.on_event(TunnelEvent::Close);
    assert!(matches!(client.on_upstream(4, true), UpstreamAction::Drop));
}

#[test]
fn client_close_ack_and_write_error() {
    let mut client = client();
    let window = client.open_conn(4, 0).unwrap();
    window.try_acquire().unwrap().forget();
    assert!(matches!(
        client.handle_frame(Frame::ack(4, 1)),
        TunnelAction::Credit { outcome: FlowAck::Added(1), .. }
    ));
    assert_eq!(window.available_permits(), 256);
    assert!(is_close(client.handle_frame(Frame::close(4)), 4));
    assert!(is_ignored(
        client.handle_frame(Frame::close(4)),
        Ignored::RemoteClosed
    ));
    assert!(is_ignored(
        client.handle_frame(Frame::data(4, vec![1])),
        Ignored::RemoteClosed
    ));
    assert!(matches!(
        client.handle_frame(Frame::write_error(4)),
        TunnelAction::StopReader { conn_id: 4 }
    ));
    assert!(client.conns.contains(4));
    assert!(is_ignored(
        client.handle_frame(Frame::write_error(5)),
        Ignored::UnknownConn
    ));
    let strange = Frame {
        conn_id: 4,
        frame_type: 0x2a,
        payload: vec![],
    };
    assert!(is_ignored(
        client.handle_frame(strange),
        Ignored::UnexpectedType(0x2a)
    ));
}

#[test]
fn client_leaves_and_forgets_its_connections() {
    for event in [TunnelEvent::Close, TunnelEvent::Failed, TunnelEvent::Ended] {
        let mut client = client();
        client.open_conn(1, 0);
        assert!(matches!(client.on_event(event), TunnelAction::Leave));
        assert!(!client.conns.contains(1));
    }
}

#[test]
fn client_heartbeat() {
    let mut client: Client<u8> = Client::new(
        CapacityConfig::default(),
        HeartbeatConfig {
            interval: Duration::from_secs(5),
            max_missed: 2,
        },
    );
    client.open_conn(1, 0);
    assert!(client.heartbeat.enabled());
    assert_eq!(client.on_tick(), HeartbeatAction::Ping);
    assert_eq!(client.on_tick(), HeartbeatAction::Ping);
    client.on_event(TunnelEvent::Pong);
    assert_eq!(client.on_tick(), HeartbeatAction::Ping);
    client.on_event(TunnelEvent::Other);
    assert_eq!(client.on_tick(), HeartbeatAction::Ping);
    assert!(client.conns.contains(1));
    assert_eq!(client.on_tick(), HeartbeatAction::Close);
    assert!(!client.conns.contains(1));
}

#[test]
fn table_replaces_an_entry_of_the_same_id() {
    let mut table: ConnTable<&str> = ConnTable::new();
    table.open(1, "old", 3);
    table.close_remote(1);
    let window = table.open(1, "new", 5).unwrap();
    let entry = table.get(1).unwrap();
    assert_eq!(entry.handle, "new");
    assert!(!entry.remote_closed);
    assert_eq!(window.available_permits(), 5);
    assert_eq!(table.credit(1, 2), FlowAck::Added(2));
    assert_eq!(table.credit(9, 2), FlowAck::Added(0));
    assert_eq!(window.available_permits(), 7);
    table.clear();
    assert!(table.get(1).is_none());
}

/// Visitor to upstream: what the server's reader reads, the client's writer writes, and its ACKs
/// bring the credits back.
#[test]
fn stream_crosses_the_tunnel() {
    let payload: Vec<u8> = (0u32..300_000).map(|i| (i % 251) as u8).collect();
    let limit = 80;
    let mut state: AppState<(), ()> = AppState::new(CapacityConfig {
        max_pending_messages_per_connection: limit,
    });
    state.register_tunnel(());
    let admission = state.open_visitor(()).unwrap();
    let window = admission.inflight.unwrap();
    let mut client: Client<()> =
        Client::new(CapacityConfig::default(), HeartbeatConfig::default());
    match client.on_event(TunnelEvent::Binary(admission.open)) {
        TunnelAction::Open { conn_id } => {
            client.open_conn(conn_id, ());
        }
        other => panic!("unexpected action {:?}", other),
    }

    let mut reader = admission.reader;
    let mut writer = match client.on_upstream(admission.conn_id, true) {
        UpstreamAction::Relay { writer, .. } => writer,
        other => panic!("unexpected action {:?}", other),
    };
    let mut written = Vec::new();
    let mut chunks = payload.chunks(1000);
    let mut stopped = false;
    while !stopped {
        let permit = window
            .clone()
            .try_acquire_owned()
            .expect("the window must not stall");
        assert!(state.spend(admission.conn_id, permit).is_none());
        assert!(matches!(reader.step(ReaderEvent::Permit), ReaderAction::Read));
        let frame = match reader.step(ReaderEvent::Read(chunks.next().unwrap_or(&[]))) {
            ReaderAction::Send(frame) => {
                assert!(matches!(reader.step(ReaderEvent::Sent), ReaderAction::Acquire));
                frame
            }
            ReaderAction::Stop {
                refund: true,
                close: Some(frame),
            } => {
                assert_eq!(
                    state.refund(admission.conn_id, &window),
                    FlowAck::Added(1)
                );
                stopped = true;
                frame
            }
            other => panic!("unexpected action {:?}", other),
        };
        let msg = match client.on_event(TunnelEvent::Binary(frame)) {
            TunnelAction::Deliver { conn_id: 1, msg } => msg,
            other => panic!("unexpected action {:?}", other),
        };
        let ack = match writer.step(WriterEvent::Message(msg)) {
            WriterAction::Write(bytes) => {
                written.extend_from_slice(&bytes);
                match writer.step(WriterEvent::Written) {
                    WriterAction::Receive { ack } => ack,
                    other => panic!("unexpected action {:?}", other),
                }
            }
            WriterAction::Finish {
                write_error: None,
                ack,
            } => ack,
            other => panic!("unexpected action {:?}", other),
        };
        if let Some(ack) = ack {
            state.on_event(TunnelEvent::Binary(ack));
        }
    }
    assert_eq!(written, payload);
    assert_eq!(writer.phase, WriterPhase::Stopped);
    assert_eq!(window.available_permits(), limit);
}

/// With a window smaller than a batch the reader runs out of permits and no ACK comes.
#[test]
fn window_below_a_batch_stalls() {
    let mut table: ConnTable<()> = ConnTable::new();
    let window = table.open(1, (), 63).unwrap();
    let mut writer = Writer::new(1, true);
    for _ in 0..63 {
        window.try_acquire().unwrap().forget();
        writer.step(WriterEvent::Message(ProxyMsg::Data(vec![0])));
        assert!(matches!(
            writer.step(WriterEvent::Written),
            WriterAction::Receive { ack: None }
        ));
    }
    assert!(window.try_acquire().is_err());
}

fn available(window: &Arc<Semaphore>) -> usize {
    window.available_permits()
}

#[test]
fn an_ack_credits_one_window_at_the_server() {
    let mut state = server();
    state.register_tunnel("a");
    let one = state.open_visitor(1).unwrap().inflight.unwrap();
    let two = state.open_visitor(2).unwrap().inflight.unwrap();
    one.try_acquire_many(100).unwrap().forget();
    two.try_acquire_many(100).unwrap().forget();
    state.on_event(TunnelEvent::Binary(Frame::ack(2, 30).encode()));
    assert_eq!((available(&one), available(&two)), (156, 186));
    let mut bad = Frame::ack(1, 30);
    bad.payload.pop();
    state.on_event(TunnelEvent::Binary(bad.encode()));
    state.on_event(TunnelEvent::Binary(Frame::ack(3, 30).encode()));
    state.on_event(TunnelEvent::Binary(Frame::data(1, vec![0, 0, 0, 30]).encode()));
    assert_eq!((available(&one), available(&two)), (156, 186));
}

#[test]
fn an_ack_credits_one_window_at_the_client() {
    let mut client = client();
    let one = client.open_conn(1, 0).unwrap();
    let two = client.open_conn(2, 0).unwrap();
    one.try_acquire_many(100).unwrap().forget();
    two.try_acquire_many(100).unwrap().forget();
    client.on_event(TunnelEvent::Binary(Frame::ack(1, 40).encode()));
    client.on_event(TunnelEvent::Binary(Frame::ack(1, 20).encode()));
    assert_eq!((available(&one), available(&two)), (216, 156));
    client.on_event(TunnelEvent::Binary(Frame::ack(7, 1).encode()));
    let mut bad = Frame::ack(2, 1);
    bad.payload.push(1);
    client.on_event(TunnelEvent::Binary(bad.encode()));
    assert_eq!((available(&one), available(&two)), (216, 156));
}

#[test]
fn a_full_window_is_reported() {
    let mut state: AppState<u8, u8> = AppState::new(CapacityConfig {
        max_pending_messages_per_connection: Semaphore::MAX_PERMITS,
    });
    state.register_tunnel(1);
    let window = state.open_visitor(1).unwrap().inflight.unwrap();
    assert!(matches!(
        state.dispatch_from_tunnel(Frame::ack(1, 1)),
        TunnelAction::Credit {
            conn_id: 1,
            count: 1,
            outcome: FlowAck::Full
        }
    ));
    assert_eq!(window.available_permits(), Semaphore::MAX_PERMITS);
}

#[test]
fn a_visitor_without_tunnel_needs_no_window() {
    let mut state: AppState<u8, u8> = AppState::new(CapacityConfig {
        max_pending_messages_per_connection: usize::MAX,
    });
    assert!(state.open_visitor(1).is_none());
}

/// Ten visitors whose frames come interleaved, while others come and go: each writer gets its own.
#[test]
fn streams_do_not_mix_in_a_shared_tunnel() {
    let mut client: Client<u32> =
        Client::new(CapacityConfig::default(), HeartbeatConfig::default());
    for id in 0..10 {
        client.open_conn(id, id);
    }
    let texts: Vec<Vec<u8>> = (0..10)
        .map(|i| format!("connection-{}", i).into_bytes())
        .collect();
    let mut got: Vec<Vec<u8>> = vec![vec![]; 10];
    for round in 0..12 {
        client.open_conn(100 + round, 0);
        for id in 0..10u32 {
            let chunk = vec![texts[id as usize][round as usize]];
            let frame = Frame::data(id, chunk).encode();
            let action = client.on_event(TunnelEvent::Binary(frame));
            got[id as usize].extend(delivered_data(action, id));
            client.on_event(TunnelEvent::Binary(Frame::ack(9 - id, 1).encode()));
            client.on_event(TunnelEvent::Binary(
                Frame::data(100 + round, vec![id as u8]).encode(),
            ));
        }
        client.on_event(TunnelEvent::Binary(Frame::close(100 + round).encode()));
        client.finish_conn(100 + round);
    }
    assert_eq!(got, texts);
}

#[test]
fn nothing_is_delivered_after_the_first_close() {
    let mut state = server();
    state.register_tunnel("a");
    state.open_visitor(1).unwrap();
    state.open_visitor(2).unwrap();
    assert!(is_close(state.dispatch_from_tunnel(Frame::close(1)), 1));
    for frame in [
        Frame::data(1, vec![1]),
        Frame::close(1),
        Frame::data(1, vec![2]),
        Frame::ack(1, 1),
        Frame::data(1, vec![]),
        Frame::close(1),
    ] {
        let action = state.dispatch_from_tunnel(frame);
        assert!(!matches!(action, TunnelAction::Deliver { .. }));
        let action = state.dispatch_from_tunnel(Frame::data(2, vec![3]));
        assert_eq!(delivered_data(action, 2), vec![3]);
    }
}

/// Each frame takes a permit that is there, so at most a window's worth is in flight.
#[test]
fn no_more_in_flight_than_the_window() {
    let mut state: AppState<(), ()> = AppState::new(CapacityConfig {
        max_pending_messages_per_connection: 5,
    });
    state.register_tunnel(());
    let admission = state.open_visitor(()).unwrap();
    let window = admission.inflight.unwrap();
    let mut reader = admission.reader;
    let mut sent = 0;
    let mut acked = 0;
    for ack in [0u32, 3, 1, 0, 2, 5] {
        state.dispatch_from_tunnel(Frame::ack(1, ack));
        acked += ack;
        while let Ok(permit) = window.clone().try_acquire_owned() {
            assert!(state.spend(1, permit).is_none());
            reader.step(ReaderEvent::Permit);
            reader.step(ReaderEvent::Read(&[1]));
            reader.step(ReaderEvent::Sent);
            sent += 1;
        }
        assert_eq!(sent - acked, 5);
    }
}

#[test]
fn spent_permits_make_room_at_both_ends() {
    let config = CapacityConfig {
        max_pending_messages_per_connection: Semaphore::MAX_PERMITS,
    };
    let mut state: AppState<u8, u8> = AppState::new(config);
    state.register_tunnel(1);
    let window = state.open_visitor(1).unwrap().inflight.unwrap();
    let permit = window.clone().try_acquire_owned().unwrap();
    assert!(state.spend(1, permit).is_none());
    assert_eq!(available(&window), Semaphore::MAX_PERMITS - 1);
    assert!(matches!(
        state.dispatch_from_tunnel(Frame::ack(1, 1)),
        TunnelAction::Credit {
            outcome: FlowAck::Added(1),
            ..
        }
    ));
    assert_eq!(available(&window), Semaphore::MAX_PERMITS);

    let mut client: Client<u8> = Client::new(config, HeartbeatConfig::default());
    let window = client.open_conn(1, 0).unwrap();
    let permit = window.clone().try_acquire_owned().unwrap();
    assert!(client.spend(1, permit).is_none());
    assert!(matches!(
        client.handle_frame(Frame::ack(1, 1)),
        TunnelAction::Credit {
            outcome: FlowAck::Added(1),
            ..
        }
    ));
    assert_eq!(available(&window), Semaphore::MAX_PERMITS);
}

#[test]
fn a_refund_goes_to_the_window_of_the_permit() {
    let mut client = client();
    let one = client.open_conn(1, 0).unwrap();
    let two = client.open_conn(2, 0).unwrap();
    for _ in 0..3 {
        let permit = one.clone().try_acquire_owned().unwrap();
        assert!(client.spend(1, permit).is_none());
    }
    assert_eq!((available(&one), available(&two)), (253, 256));
    assert_eq!(client.refund(1, &one), FlowAck::Added(1));
    assert_eq!((available(&one), available(&two)), (254, 256));
    assert_eq!(client.refund(1, &two), FlowAck::Added(0));
    assert_eq!(client.refund(7, &one), FlowAck::Added(0));
    assert_eq!((available(&one), available(&two)), (254, 256));
}

/// An id may be handed out again: the permits of the old connection do not touch the new one.
#[test]
fn a_permit_of_a_gone_connection_is_handed_back() {
    let mut state = server();
    state.register_tunnel("a");
    let old = state.open_visitor(1).unwrap().inflight.unwrap();
    state.close_visitor(1);
    let permit = old.clone().try_acquire_owned().unwrap();
    let permit = state.spend(1, permit).unwrap();
    state.next_id = 1;
    let new = state.open_visitor(2).unwrap().inflight.unwrap();
    let permit = state.spend(1, permit).unwrap();
    permit.forget();
    assert_eq!(state.refund(1, &old), FlowAck::Added(0));
    assert_eq!((available(&old), available(&new)), (255, 256));
}

/// What the upstream sends back reaches its visitor, and no other.
#[test]
fn echoes_come_back_to_their_visitors() {
    let mut state: AppState<(), u32> = AppState::new(CapacityConfig::default());
    state.register_tunnel(());
    let mut client: Client<u32> =
        Client::new(CapacityConfig::default(), HeartbeatConfig::default());
    let mut ends = Vec::new();
    for i in 0..10u32 {
        let admission = state.open_visitor(i).unwrap();
        match client.on_event(TunnelEvent::Binary(admission.open)) {
            TunnelAction::Open { conn_id } => client.open_conn(conn_id, i),
            other => panic!("unexpected action {:?}", other),
        };
        ends.push((admission.conn_id, admission.reader));
    }
    let mut read_back = vec![vec![]; 10];
    for (i, (id, reader)) in ends.iter_mut().enumerate().rev() {
        let text = format!("connection-{}", i).into_bytes();
        reader.step(ReaderEvent::Permit);
        let frame = match reader.step(ReaderEvent::Read(&text)) {
            ReaderAction::Send(frame) => frame,
            other => panic!("unexpected action {:?}", other),
        };
        let upstream = delivered_data(client.on_event(TunnelEvent::Binary(frame)), *id);
        let mut echo = match client.on_upstream(*id, true) {
            UpstreamAction::Relay { reader, .. } => reader,
            other => panic!("unexpected action {:?}", other),
        };
        echo.step(ReaderEvent::Permit);
        let frame = match echo.step(ReaderEvent::Read(&upstream)) {
            ReaderAction::Send(frame) => frame,
            other => panic!("unexpected action {:?}", other),
        };
        let visitor = delivered_data(state.on_event(TunnelEvent::Binary(frame)), *id);
        read_back[i].extend(visitor);
    }
    for (i, bytes) in read_back.iter().enumerate() {
        assert_eq!(*bytes, format!("connection-{}", i).into_bytes());
    }
}
