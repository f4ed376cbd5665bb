use expose::{
    Frame, FrameError, FRAME_ACK, FRAME_CLOSE, FRAME_DATA, FRAME_HEADER_LEN, FRAME_OPEN,
    FRAME_WRITE_ERROR,
};

#[test]
fn roundtrip_open() {
    let f = Frame::open(42);
    let enc = f.encode();
    let dec = Frame::decode(&enc).unwrap();
    assert_eq!(dec.conn_id, 42);
    assert_eq!(dec.frame_type, FRAME_OPEN);
    assert!(dec.payload.is_empty());
}

#[test]
fn roundtrip_data() {
    let payload = b"hello world".to_vec();
    let f = Frame::data(7, payload.clone());
    let enc = f.encode();
    let dec = Frame::decode(&enc).unwrap();
    assert_eq!(dec.conn_id, 7);
    assert_eq!(dec.frame_type, FRAME_DATA);
    assert_eq!(dec.payload, payload);
}

#[test]
fn roundtrip_close() {
    let f = Frame::close(1);
    let enc = f.encode();
    let dec = Frame::decode(&enc).unwrap();
    assert_eq!(dec.conn_id, 1);
    assert_eq!(dec.frame_type, FRAME_CLOSE);
    assert!(dec.payload.is_empty());
}

#[test]
fn decode_too_short() {
    assert!(Frame::decode(&[0u8; 4]).is_err());
}

#[test]
fn frame_types_on_the_wire() {
    assert_eq!(FRAME_OPEN, 0x01);
    assert_eq!(FRAME_DATA, 0x02);
    assert_eq!(FRAME_CLOSE, 0x03);
    assert_eq!(FRAME_ACK, 0x04);
    assert_eq!(FRAME_WRITE_ERROR, 0x05);
    assert_eq!(FRAME_HEADER_LEN, 9);
}

#[test]
fn encoding_is_big_endian() {
    let enc = Frame::data(0x0102_0304, b"ab".to_vec()).encode();
    assert_eq!(enc, vec![1, 2, 3, 4, 2, 0, 0, 0, 2, b'a', b'b']);
    let enc = Frame::ack(0xfffe_fdfc, 0x8000_0140).encode();
    assert_eq!(
        enc,
        vec![0xff, 0xfe, 0xfd, 0xfc, 4, 0, 0, 0, 4, 0x80, 0, 1, 0x40]
    );
    assert_eq!(Frame::open(1).encode(), vec![0, 0, 0, 1, 1, 0, 0, 0, 0]);
    assert_eq!(Frame::close(2).encode(), vec![0, 0, 0, 2, 3, 0, 0, 0, 0]);
    assert_eq!(
        Frame::write_error(3).encode(),
        vec![0, 0, 0, 3, 5, 0, 0, 0, 0]
    );
}

#[test]
fn bytes_behind_a_frame_are_ignored() {
    let mut enc = Frame::data(9, vec![1, 2, 3]).encode();
    enc.extend_from_slice(&[7, 7, 7]);
    let dec = Frame::decode(&enc).unwrap();
    assert_eq!(dec.payload, vec![1, 2, 3]);
    assert_eq!(dec.encode(), enc[..12].to_vec());
}

#[test]
fn every_cut_of_a_frame_is_rejected() {
    let enc = Frame::data(9, vec![1, 2, 3]).encode();
    for n in 0..9 {
        assert_eq!(
            Frame::decode(&enc[..n]).unwrap_err(),
            FrameError::TooShort { len: n }
        );
    }
    for n in 9..12 {
        assert_eq!(
            Frame::decode(&enc[..n]).unwrap_err(),
            FrameError::PayloadTruncated
        );
    }
    assert!(Frame::decode(&enc).is_ok());
}

#[test]
fn largest_announced_payload_is_truncated() {
    let bytes = [0, 0, 0, 1, 2, 0xff, 0xff, 0xff, 0xff, 0, 0];
    assert_eq!(
        Frame::decode(&bytes).unwrap_err(),
        FrameError::PayloadTruncated
    );
}

#[test]
fn ack_carries_its_count() {
    let dec = Frame::decode(&Frame::ack(5, 64).encode()).unwrap();
    assert_eq!(dec.frame_type, FRAME_ACK);
    assert_eq!(dec.payload, vec![0, 0, 0, 64]);
    assert_eq!(dec.ack_count(), Ok(64));
    assert_eq!(Frame::ack(5, u32::MAX).ack_count(), Ok(u32::MAX));
}

#[test]
fn malformed_ack_is_an_error() {
    let f = Frame {
        conn_id: 1,
        frame_type: FRAME_ACK,
        payload: vec![1, 2, 3],
    };
    assert_eq!(f.ack_count(), Err(FrameError::BadAckPayload { len: 3 }));
    let f = Frame {
        conn_id: 1,
        frame_type: FRAME_ACK,
        payload: vec![0; 5],
    };
    assert_eq!(f.ack_count(), Err(FrameError::BadAckPayload { len: 5 }));
}

#[test]
fn errors_in_words() {
    assert_eq!(
        FrameError::TooShort { len: 4 }.message(),
        "frame too short: 4 bytes"
    );
    assert_eq!(
        FrameError::TooShort { len: 0 }.message(),
        "frame too short: 0 bytes"
    );
    assert_eq!(
        FrameError::PayloadTruncated.message(),
        "frame payload truncated"
    );
    assert_eq!(
        FrameError::BadAckPayload { len: 9876543210 }.message(),
        "ACK payload must be 4 bytes, got 9876543210"
    );
}

#[test]
fn frames_can_be_cloned() {
    let f = Frame::data(1, vec![1, 2]);
    let g = f.clone();
    assert_eq!(g.encode(), f.encode());
}
