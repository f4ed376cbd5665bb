use expose::reader::{Reader, ReaderAction, ReaderEvent, ReaderPhase, READ_BUFFER_LEN};
use expose::writer::{ProxyMsg, Writer, WriterAction, WriterEvent, WriterPhase};
use expose::{Frame, ACK_BATCH_SIZE, FRAME_ACK, FRAME_CLOSE, FRAME_DATA, FRAME_WRITE_ERROR};

fn write_one(writer: &mut Writer, byte: u8) -> Option<Vec<u8>> {
    match writer.step(WriterEvent::Message(ProxyMsg::Data(vec![byte]))) {
        WriterAction::Write(bytes) => assert_eq!(bytes, vec![byte]),
        other => panic!("unexpected action {:?}", other),
    }
    match writer.step(WriterEvent::Written) {
        WriterAction::Receive { ack } => ack,
        other => panic!("unexpected action {:?}", other),
    }
}

#[test]
fn reader_sends_what_it_reads_and_uses_the_credit_up() {
    let mut reader = Reader::new(7);
    assert_eq!(reader.phase, ReaderPhase::AwaitPermit);
    assert!(matches!(reader.step(ReaderEvent::Permit), ReaderAction::Read));
    let mut buf = [0u8; 16];
    buf[..5].copy_from_slice(b"hello");
    match reader.step(ReaderEvent::Read(&buf[..5])) {
        ReaderAction::Send(bytes) => {
            assert_eq!(bytes, Frame::data(7, b"hello".to_vec()).encode())
        }
        other => panic!("unexpected action {:?}", other),
    }
    assert!(matches!(reader.step(ReaderEvent::Sent), ReaderAction::Acquire));
    assert_eq!(reader.phase, ReaderPhase::AwaitPermit);
    assert_eq!(reader.conn_id, 7);
}

#[test]
fn reader_closes_at_the_end_of_the_stream() {
    let mut reader = Reader::new(3);
    reader.step(ReaderEvent::Permit);
    match reader.step(ReaderEvent::Read(&[])) {
        ReaderAction::Stop {
            refund: true,
            close: Some(bytes),
        } => assert_eq!(bytes, Frame::close(3).encode()),
        other => panic!("unexpected action {:?}", other),
    }
    assert_eq!(reader.phase, ReaderPhase::Stopped);
    assert!(matches!(
        reader.step(ReaderEvent::Permit),
        ReaderAction::Ignore
    ));
}

#[test]
fn reader_closes_on_a_read_error() {
    let mut reader = Reader::new(3);
    reader.step(ReaderEvent::Permit);
    match reader.step(ReaderEvent::ReadFailed) {
        ReaderAction::Stop {
            refund: true,
            close: Some(bytes),
        } => assert_eq!(Frame::decode(&bytes).unwrap().frame_type, FRAME_CLOSE),
        other => panic!("unexpected action {:?}", other),
    }
}

#[test]
fn reader_gives_the_credit_back_when_sending_fails() {
    let mut reader = Reader::new(3);
    reader.step(ReaderEvent::Permit);
    reader.step(ReaderEvent::Read(b"x"));
    match reader.step(ReaderEvent::SendFailed) {
        ReaderAction::Stop {
            refund: true,
            close: Some(bytes),
        } => assert_eq!(bytes, Frame::close(3).encode()),
        other => panic!("unexpected action {:?}", other),
    }
}

#[test]
fn reader_stopped_by_the_peer_sends_no_close() {
    let mut waiting = Reader::new(3);
    assert!(matches!(
        waiting.step(ReaderEvent::PeerWriteError),
        ReaderAction::Stop {
            refund: false,
            close: None
        }
    ));
    let mut reading = Reader::new(3);
    reading.step(ReaderEvent::Permit);
    assert!(matches!(
        reading.step(ReaderEvent::PeerWriteError),
        ReaderAction::Stop {
            refund: true,
            close: None
        }
    ));
}

#[test]
fn reader_ignores_what_it_does_not_wait_for() {
    let mut reader = Reader::new(3);
    assert!(matches!(
        reader.step(ReaderEvent::Read(b"x")),
        ReaderAction::Ignore
    ));
    assert!(matches!(reader.step(ReaderEvent::Sent), ReaderAction::Ignore));
    assert_eq!(reader.phase, ReaderPhase::AwaitPermit);
    reader.step(ReaderEvent::Permit);
    reader.step(ReaderEvent::Read(b"x"));
    assert!(matches!(
        reader.step(ReaderEvent::PeerWriteError),
        ReaderAction::Ignore
    ));
    assert_eq!(reader.phase, ReaderPhase::AwaitSend);
    assert_eq!(READ_BUFFER_LEN, 16 * 1024);
}

#[test]
fn writer_acks_each_full_batch() {
    let mut writer = Writer::new(9, true);
    for round in 0..3 {
        for i in 0..ACK_BATCH_SIZE - 1 {
            assert_eq!(write_one(&mut writer, i as u8), None, "round {}", round);
        }
        let ack = write_one(&mut writer, 63).unwrap();
        let frame = Frame::decode(&ack).unwrap();
        assert_eq!(frame.conn_id, 9);
        assert_eq!(frame.frame_type, FRAME_ACK);
        assert_eq!(frame.ack_count(), Ok(64));
    }
}

#[test]
fn writer_acks_the_rest_at_the_end() {
    for closed in [false, true] {
        let mut writer = Writer::new(9, true);
        for _ in 0..70 {
            write_one(&mut writer, 1);
        }
        let event = if closed {
            WriterEvent::ChannelClosed
        } else {
            WriterEvent::Message(ProxyMsg::Close)
        };
        match writer.step(event) {
            WriterAction::Finish {
                write_error: None,
                ack: Some(bytes),
            } => assert_eq!(bytes, Frame::ack(9, 6).encode()),
            other => panic!("unexpected action {:?}", other),
        }
        assert_eq!(writer.phase, WriterPhase::Stopped);
        assert_eq!(writer.unacked, 0);
    }
}

#[test]
fn writer_with_nothing_written_sends_no_ack() {
    let mut writer = Writer::new(9, true);
    assert!(matches!(
        writer.step(WriterEvent::ChannelClosed),
        WriterAction::Finish {
            write_error: None,
            ack: None
        }
    ));
    assert!(matches!(
        writer.step(WriterEvent::Message(ProxyMsg::Data(vec![1]))),
        WriterAction::Ignore
    ));
}

#[test]
fn failed_write_is_reported_and_not_acked() {
    let mut writer = Writer::new(4, true);
    write_one(&mut writer, 1);
    writer.step(WriterEvent::Message(ProxyMsg::Data(vec![2])));
    match writer.step(WriterEvent::WriteFailed) {
        WriterAction::Finish {
            write_error: Some(error),
            ack: Some(ack),
        } => {
            let error = Frame::decode(&error).unwrap();
            assert_eq!(error.frame_type, FRAME_WRITE_ERROR);
            assert_eq!(error.conn_id, 4);
            assert_eq!(Frame::decode(&ack).unwrap().ack_count(), Ok(1));
        }
        other => panic!("unexpected action {:?}", other),
    }
}

#[test]
fn failed_write_is_not_reported_where_it_should_not_be() {
    let mut writer = Writer::new(4, false);
    writer.step(WriterEvent::Message(ProxyMsg::Data(vec![2])));
    assert!(matches!(
        writer.step(WriterEvent::WriteFailed),
        WriterAction::Finish {
            write_error: None,
            ack: None
        }
    ));
}

#[test]
fn writer_ignores_what_it_does_not_wait_for() {
    let mut writer = Writer::new(4, false);
    assert!(matches!(
        writer.step(WriterEvent::Written),
        WriterAction::Ignore
    ));
    assert!(matches!(
        writer.step(WriterEvent::WriteFailed),
        WriterAction::Ignore
    ));
    assert_eq!(writer.unacked, 0);
    writer.step(WriterEvent::Message(ProxyMsg::Data(vec![2])));
    assert!(matches!(
        writer.step(WriterEvent::Message(ProxyMsg::Close)),
        WriterAction::Ignore
    ));
    assert_eq!(writer.phase, WriterPhase::AwaitWrite);
}

#[test]
fn reader_frames_carry_what_was_read_then_one_close() {
    let mut reader = Reader::new(6);
    let mut frames = Vec::new();
    for chunk in [&b"ab"[..], b"c", b"def", b""] {
        reader.step(ReaderEvent::Permit);
        match reader.step(ReaderEvent::Read(chunk)) {
            ReaderAction::Send(bytes) => {
                frames.push(Frame::decode(&bytes).unwrap());
                reader.step(ReaderEvent::Sent);
            }
            ReaderAction::Stop {
                close: Some(bytes), ..
            } => frames.push(Frame::decode(&bytes).unwrap()),
            other => panic!("unexpected action {:?}", other),
        }
    }
    let close = frames.pop().unwrap();
    assert_eq!((close.conn_id, close.frame_type), (6, FRAME_CLOSE));
    assert!(frames.iter().all(|f| f.conn_id == 6 && f.frame_type == FRAME_DATA));
    let carried: Vec<u8> = frames.iter().flat_map(|f| f.payload.clone()).collect();
    assert_eq!(carried, b"abcdef".to_vec());
    for event in [ReaderEvent::Permit, ReaderEvent::Read(b"x"), ReaderEvent::ReadFailed] {
        assert!(matches!(reader.step(event), ReaderAction::Ignore));
    }
}

#[test]
fn unhindered_reader_sends_all() {
    let mut reader = Reader::new(6);
    for _ in 0..1000 {
        assert!(matches!(reader.step(ReaderEvent::Permit), ReaderAction::Read));
        assert!(matches!(reader.step(ReaderEvent::Read(b"x")), ReaderAction::Send(_)));
        assert!(matches!(reader.step(ReaderEvent::Sent), ReaderAction::Acquire));
    }
}

#[test]
fn writer_reports_an_error_once() {
    let mut writer = Writer::new(4, true);
    writer.step(WriterEvent::Message(ProxyMsg::Data(vec![1])));
    match writer.step(WriterEvent::WriteFailed) {
        WriterAction::Finish {
            write_error: Some(bytes),
            ack: None,
        } => assert_eq!(bytes, Frame::write_error(4).encode()),
        other => panic!("unexpected action {:?}", other),
    }
    for event in [
        WriterEvent::WriteFailed,
        WriterEvent::Message(ProxyMsg::Data(vec![2])),
        WriterEvent::WriteFailed,
        WriterEvent::Message(ProxyMsg::Close),
        WriterEvent::ChannelClosed,
    ] {
        assert!(matches!(writer.step(event), WriterAction::Ignore));
    }
}
