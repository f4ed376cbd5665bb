//! The binary frame that each WebSocket message of the tunnel carries.

use crate::bigendian::{push_be, read_be};
use vstd::prelude::*;

verus! {

/// Server to client: a new TCP connection has been accepted. The payload is empty.
pub const FRAME_OPEN: u8 = 0x01;

/// Both ways: raw TCP bytes, which are the payload.
pub const FRAME_DATA: u8 = 0x02;

/// Both ways: the TCP connection is closed. The payload is empty.
pub const FRAME_CLOSE: u8 = 0x03;

/// Both ways: DATA frames were written to TCP. The payload is their number, four bytes.
pub const FRAME_ACK: u8 = 0x04;

/// Both ways: the local TCP socket could not be written to. The payload is empty.
pub const FRAME_WRITE_ERROR: u8 = 0x05;

/// Bytes before the payload: connection id (4), type (1), payload length (4).
pub const FRAME_HEADER_LEN: usize = 9;

/// One tunnel frame.
#[derive(Debug, Clone)]
pub struct Frame {
    pub conn_id: u32,
    pub frame_type: u8,
    pub payload: Vec<u8>,
}

/// What a frame says, its payload as a sequence.
#[verifier::ext_equal]
pub struct FrameView {
    pub conn_id: u32,
    pub frame_type: u8,
    pub payload: Seq<u8>,
}

impl View for Frame {
    type V = FrameView;

    open spec fn view(&self) -> FrameView {
        FrameView {
            conn_id: self.conn_id,
            frame_type: self.frame_type,
            payload: self.payload@,
        }
    }
}

/// Why bytes are no frame, or a frame no acknowledgement.
#[derive(Debug, Clone, Copy, PartialEq, Eq, Structural)]
pub enum FrameError {
    /// Fewer bytes than a header has.
    TooShort { len: usize },
    /// Fewer bytes than the header announces.
    PayloadTruncated,
    /// The payload of an ACK is not four bytes long.
    BadAckPayload { len: usize },
}

/// The decimal digits of `n`.
pub open spec fn decimal(n: nat) -> Seq<char>
    decreases n,
{
    if n < 10 {
        seq![digit(n)]
    } else {
        decimal(n / 10).push(digit(n % 10))
    }
}

/// The character of a digit below ten.
pub open spec fn digit(d: nat) -> char {
    (d + '0' as nat) as char
}

fn digit_str(d: usize) -> (s: &'static str)
    requires
        d < 10,
    ensures
        s@ == seq![digit(d as nat)],
{
    proof {
        reveal_strlit("0");
        reveal_strlit("1");
        reveal_strlit("2");
        reveal_strlit("3");
        reveal_strlit("4");
        reveal_strlit("5");
        reveal_strlit("6");
        reveal_strlit("7");
        reveal_strlit("8");
        reveal_strlit("9");
    }
    let s = match d {
        0 => "0",
        1 => "1",
        2 => "2",
        3 => "3",
        4 => "4",
        5 => "5",
        6 => "6",
        7 => "7",
        8 => "8",
        _ => "9",
    };
    assert(s@ =~= seq![digit(d as nat)]);
    s
}

fn push_decimal(out: &mut String, n: usize)
    ensures
        final(out)@ == old(out)@ + decimal(n as nat),
    decreases n,
{
    if n >= 10 {
        push_decimal(out, n / 10);
    }
    out.append(digit_str(n % 10));
    assert(out@ =~= old(out)@ + decimal(n as nat));
}

impl FrameError {
    /// The text of `message`.
    pub open spec fn text(self) -> Seq<char> {
        match self {
            FrameError::TooShort { len } => "frame too short: "@ + decimal(len as nat)
                + " bytes"@,
            FrameError::PayloadTruncated => "frame payload truncated"@,
            FrameError::BadAckPayload { len } => "ACK payload must be 4 bytes, got "@
                + decimal(len as nat),
        }
    }

    /// The error in words.
    pub fn message(&self) -> (text: String)
        ensures
            text@ == self.text(),
    {
        let mut text: String = String::new();
        match *self {
            FrameError::TooShort { len } => {
                text.append("frame too short: ");
                push_decimal(&mut text, len);
                text.append(" bytes");
            },
            FrameError::PayloadTruncated => {
                text.append("frame payload truncated");
            },
            FrameError::BadAckPayload { len } => {
                text.append("ACK payload must be 4 bytes, got ");
                push_decimal(&mut text, len);
            },
        }
        assert(text@ =~= self.text());
        text
    }
}

impl FrameView {
    pub open spec fn open(conn_id: u32) -> FrameView {
        FrameView { conn_id, frame_type: FRAME_OPEN, payload: Seq::empty() }
    }

    pub open spec fn data(conn_id: u32, payload: Seq<u8>) -> FrameView {
        FrameView { conn_id, frame_type: FRAME_DATA, payload }
    }

    pub open spec fn close(conn_id: u32) -> FrameView {
        FrameView { conn_id, frame_type: FRAME_CLOSE, payload: Seq::empty() }
    }

    pub open spec fn ack(conn_id: u32, count: u32) -> FrameView {
        FrameView {
            conn_id,
            frame_type: FRAME_ACK,
            payload: crate::bigendian::be_bytes(count),
        }
    }

    pub open spec fn write_error(conn_id: u32) -> FrameView {
        FrameView { conn_id, frame_type: FRAME_WRITE_ERROR, payload: Seq::empty() }
    }

    /// The length field: the payload's length, of which the field keeps the low 32 bits.
    pub open spec fn length_field(self) -> u32 {
        (self.payload.len() % 0x1_0000_0000) as u32
    }

    /// The frame on the wire.
    pub open spec fn encoded(self) -> Seq<u8> {
        crate::bigendian::be_bytes(self.conn_id) + seq![self.frame_type]
            + crate::bigendian::be_bytes(self.length_field()) + self.payload
    }

    /// The number that the payload of an ACK holds.
    pub open spec fn ack_count(self) -> Result<u32, FrameError> {
        if self.payload.len() == 4 {
            Ok(crate::bigendian::be_value(self.payload))
        } else {
            Err(FrameError::BadAckPayload { len: self.payload.len() as usize })
        }
    }
}

/// Encoded bytes that may be there, as a sequence.
pub open spec fn optional_bytes(bytes: Option<Vec<u8>>) -> Option<Seq<u8>> {
    match bytes {
        Some(b) => Some(b@),
        None => None,
    }
}

/// Whether encoded bytes that may be there are these.
pub open spec fn same_bytes(bytes: Option<Vec<u8>>, view: Option<Seq<u8>>) -> bool {
    &&& bytes is Some <==> view is Some
    &&& bytes matches Some(b) ==> b@ == view->0
}

/// The payload length that the header of `bytes` announces.
pub open spec fn announced_len(bytes: Seq<u8>) -> nat
    recommends
        bytes.len() >= FRAME_HEADER_LEN,
{
    crate::bigendian::be_value(bytes.subrange(5, 9)) as nat
}

/// The frame that `bytes` start with. What follows the announced payload is not looked at.
pub open spec fn decoded(bytes: Seq<u8>) -> Result<FrameView, FrameError> {
    if bytes.len() < FRAME_HEADER_LEN {
        Err(FrameError::TooShort { len: bytes.len() as usize })
    } else if bytes.len() < FRAME_HEADER_LEN + announced_len(bytes) {
        Err(FrameError::PayloadTruncated)
    } else {
        Ok(
            FrameView {
                conn_id: crate::bigendian::be_value(bytes.subrange(0, 4)),
                frame_type: bytes[4],
                payload: bytes.subrange(
                    FRAME_HEADER_LEN as int,
                    FRAME_HEADER_LEN + announced_len(bytes),
                ),
            },
        )
    }
}

impl Frame {
    /// A new TCP connection has been accepted.
    pub fn open(conn_id: u32) -> (f: Frame)
        ensures
            f@ == FrameView::open(conn_id),
            f.conn_id == conn_id,
            f.frame_type == 0x01,
            f.payload@.len() == 0,
    {
        Frame { conn_id, frame_type: FRAME_OPEN, payload: Vec::new() }
    }

    /// Raw TCP bytes.
    pub fn data(conn_id: u32, payload: Vec<u8>) -> (f: Frame)
        ensures
            f@ == FrameView::data(conn_id, payload@),
            f.conn_id == conn_id,
            f.frame_type == 0x02,
            f.payload@ == payload@,
    {
        Frame { conn_id, frame_type: FRAME_DATA, payload }
    }

    /// The TCP connection is closed.
    pub fn close(conn_id: u32) -> (f: Frame)
        ensures
            f@ == FrameView::close(conn_id),
            f.conn_id == conn_id,
            f.frame_type == 0x03,
            f.payload@.len() == 0,
    {
        Frame { conn_id, frame_type: FRAME_CLOSE, payload: Vec::new() }
    }

    /// `count` DATA frames were written to the local TCP stream since the previous ACK.
    pub fn ack(conn_id: u32, count: u32) -> (f: Frame)
        ensures
            f@ == FrameView::ack(conn_id, count),
            f.conn_id == conn_id,
            f.frame_type == 0x04,
            f.payload@.len() == 4,
            number_at(f.payload@, 0) == count,
    {
        let mut payload: Vec<u8> = Vec::with_capacity(4);
        push_be(&mut payload, count);
        assert(payload@ =~= crate::bigendian::be_bytes(count));
        Frame { conn_id, frame_type: FRAME_ACK, payload }
    }

    /// The local TCP stream could not be written to.
    pub fn write_error(conn_id: u32) -> (f: Frame)
        ensures
            f@ == FrameView::write_error(conn_id),
            f.conn_id == conn_id,
            f.frame_type == 0x05,
            f.payload@.len() == 0,
    {
        Frame { conn_id, frame_type: FRAME_WRITE_ERROR, payload: Vec::new() }
    }

    /// The number of written DATA frames that an ACK reports.
    pub fn ack_count(&self) -> (count: Result<u32, FrameError>)
        ensures
            count == self@.ack_count(),
            self.payload@.len() == 4 ==> (count matches Ok(n) && n == number_at(self.payload@, 0)),
            self.payload@.len() != 4 ==> count is Err,
    {
        let len: usize = self.payload.len();
        if len != 4 {
            return Err(FrameError::BadAckPayload { len });
        }
        assert(self.payload@.subrange(0, 4) =~= self.payload@);
        Ok(read_be(self.payload.as_slice(), 0))
    }

    /// The bytes to send as one binary WebSocket message.
    pub fn encode(&self) -> (buf: Vec<u8>)
        ensures
            buf@ == self@.encoded(),
            buf@.len() == 9 + self.payload@.len(),
            number_at(buf@, 0) == self.conn_id,
            buf@[4] == self.frame_type,
            number_at(buf@, 5) == self.payload@.len() % 0x1_0000_0000,
            buf@.skip(9) == self.payload@,
    {
        let len: usize = self.payload.len();
        let mut buf: Vec<u8> = Vec::with_capacity(FRAME_HEADER_LEN.saturating_add(len));
        push_be(&mut buf, self.conn_id);
        buf.push(self.frame_type);
        push_be(&mut buf, (len as u64 % 0x1_0000_0000u64) as u32);
        buf.extend_from_slice(self.payload.as_slice());
        assert(buf@ =~= self@.encoded());
        proof {
            law_wire_layout(self@);
        }
        buf
    }

    /// The frame that `bytes` start with.
    pub fn decode(bytes: &[u8]) -> (result: Result<Frame, FrameError>)
        ensures
            match result {
                Ok(frame) => decoded(bytes@) == Ok::<FrameView, FrameError>(frame@),
                Err(error) => decoded(bytes@) == Err::<FrameView, FrameError>(error),
            },
            result is Ok <==> bytes@.len() >= 9 && bytes@.len() >= 9 + number_at(bytes@, 5),
            result matches Ok(frame) ==> {
                &&& frame.conn_id == number_at(bytes@, 0)
                &&& frame.frame_type == bytes@[4]
                &&& frame.payload@ == bytes@.subrange(9, 9 + number_at(bytes@, 5))
            },
            result matches Err(error) ==> error == if bytes@.len() < 9 {
                FrameError::TooShort { len: bytes@.len() as usize }
            } else {
                FrameError::PayloadTruncated
            },
    {
        let len: usize = bytes.len();
        if len < FRAME_HEADER_LEN {
            return Err(FrameError::TooShort { len });
        }
        let conn_id: u32 = read_be(bytes, 0);
        let frame_type: u8 = bytes[4];
        let announced: u32 = read_be(bytes, 5);
        if ((len - FRAME_HEADER_LEN) as u64) < announced as u64 {
            return Err(FrameError::PayloadTruncated);
        }
        let end: usize = FRAME_HEADER_LEN + announced as usize;
        let payload: Vec<u8> = vstd::slice::slice_to_vec(
            vstd::slice::slice_subrange(bytes, FRAME_HEADER_LEN, end),
        );
        Ok(Frame { conn_id, frame_type, payload })
    }
}

/// The integer that four bytes from `at` on stand for, the first having the largest weight.
pub open spec fn number_at(bytes: Seq<u8>, at: int) -> int {
    bytes[at] * 0x100_0000 + bytes[at + 1] * 0x1_0000 + bytes[at + 2] * 0x100 + bytes[at + 3]
}

/// Whether bytes are a frame of this connection, type and payload on the wire.
pub open spec fn is_on_wire(
    bytes: Seq<u8>,
    conn_id: u32,
    frame_type: u8,
    payload: Seq<u8>,
) -> bool {
    &&& bytes.len() == 9 + payload.len()
    &&& number_at(bytes, 0) == conn_id
    &&& bytes[4] == frame_type
    &&& number_at(bytes, 5) == payload.len() % 0x1_0000_0000
    &&& bytes.skip(9) == payload
}

/// A frame on the wire: four bytes of connection id, one of type, four of payload length, and the
/// payload. The integers are big-endian, and the length is counted modulo 2^32.
pub proof fn law_wire_layout(f: FrameView)
    ensures
        f.encoded().len() == 9 + f.payload.len(),
        number_at(f.encoded(), 0) == f.conn_id,
        f.encoded()[4] == f.frame_type,
        number_at(f.encoded(), 5) == f.payload.len() % 0x1_0000_0000,
        f.encoded().skip(9) == f.payload,
{
    let bytes = f.encoded();
    let id = crate::bigendian::be_bytes(f.conn_id);
    let len = crate::bigendian::be_bytes(f.length_field());
    crate::bigendian::law_written_bytes_are_digits(f.conn_id);
    crate::bigendian::law_written_bytes_are_digits(f.length_field());
    assert(bytes[0] == id[0] && bytes[1] == id[1] && bytes[2] == id[2] && bytes[3] == id[3]);
    assert(bytes[5] == len[0] && bytes[6] == len[1] && bytes[7] == len[2] && bytes[8] == len[3]);
    assert(bytes.skip(9) =~= f.payload);
}

/// What bytes decode to is read off the same places. They are a frame if and only if the header is
/// whole and so is the payload that it announces, however long.
pub proof fn law_decode_reads_the_layout(bytes: Seq<u8>)
    ensures
        bytes.len() < 9 ==> decoded(bytes) == Err::<FrameView, FrameError>(
            FrameError::TooShort { len: bytes.len() as usize },
        ),
        9 <= bytes.len() < 9 + number_at(bytes, 5) ==> decoded(bytes) == Err::<
            FrameView,
            FrameError,
        >(FrameError::PayloadTruncated),
        bytes.len() >= 9 && bytes.len() >= 9 + number_at(bytes, 5) ==> {
            &&& decoded(bytes) matches Ok(frame)
            &&& frame.conn_id == number_at(bytes, 0)
            &&& frame.frame_type == bytes[4]
            &&& frame.payload.len() == number_at(bytes, 5)
            &&& forall|i: int|
                0 <= i < frame.payload.len() ==> #[trigger] frame.payload[i] == bytes[9 + i]
        },
{
    if bytes.len() >= 9 {
        crate::bigendian::law_read_bytes_are_digits(bytes.subrange(0, 4));
        crate::bigendian::law_read_bytes_are_digits(bytes.subrange(5, 9));
    }
}

/// The frames that are made are of the types that the wire format numbers, of the connection that
/// they are made for, and carry what they are made with.
pub proof fn law_frames_say_what_they_are_made_for(conn_id: u32, payload: Seq<u8>, count: u32)
    ensures
        FrameView::open(conn_id) == (FrameView { conn_id, frame_type: 1, payload: Seq::empty() }),
        FrameView::data(conn_id, payload) == (FrameView { conn_id, frame_type: 2, payload }),
        FrameView::close(conn_id) == (FrameView { conn_id, frame_type: 3, payload: Seq::empty() }),
        FrameView::ack(conn_id, count).conn_id == conn_id,
        FrameView::ack(conn_id, count).frame_type == 4,
        FrameView::ack(conn_id, count).payload.len() == 4,
        number_at(FrameView::ack(conn_id, count).payload, 0) == count,
        FrameView::write_error(conn_id) == (FrameView {
            conn_id,
            frame_type: 5,
            payload: Seq::empty(),
        }),
{
    crate::bigendian::law_written_bytes_are_digits(count);
}

/// An ACK counts what its payload says, and no payload of another length is a count.
pub proof fn law_ack_count_is_the_payload(f: FrameView)
    requires
        f.payload.len() <= usize::MAX,
    ensures
        f.payload.len() == 4 ==> (f.ack_count() matches Ok(count) && count == number_at(
            f.payload,
            0,
        )),
        f.payload.len() != 4 ==> f.ack_count() == Err::<u32, FrameError>(
            FrameError::BadAckPayload { len: f.payload.len() as usize },
        ),
{
    if f.payload.len() == 4 {
        crate::bigendian::law_read_bytes_are_digits(f.payload);
    }
}

/// The number that decimal digits stand for.
pub open spec fn number_of(digits: Seq<char>) -> int
    decreases digits.len(),
{
    if digits.len() == 0 {
        0
    } else {
        10 * number_of(digits.drop_last()) + (digits.last() as int - '0' as int)
    }
}

/// Whether a text is decimal digits without leading zeros.
pub open spec fn is_decimal(text: Seq<char>) -> bool {
    &&& text.len() > 0
    &&& forall|i: int| 0 <= i < text.len() ==> '0' <= #[trigger] text[i] <= '9'
    &&& text.len() > 1 ==> text[0] != '0'
}

/// A length in a text is its decimal digits.
pub proof fn law_decimal_reads_back(n: nat)
    ensures
        is_decimal(decimal(n)),
        number_of(decimal(n)) == n,
        n > 0 ==> decimal(n)[0] != '0',
    decreases n,
{
    let text = decimal(n);
    if n >= 10 {
        law_decimal_reads_back(n / 10);
        assert(text.drop_last() =~= decimal(n / 10));
        assert(text[0] == decimal(n / 10)[0]);
    } else {
        assert(text.drop_last() =~= Seq::<char>::empty());
        assert(number_of(text.drop_last()) == 0);
    }
}

/// An error's text names it, and gives the length where there is one.
pub proof fn law_error_texts(len: usize)
    ensures
        exists|digits: Seq<char>|
            is_decimal(digits) && #[trigger] number_of(digits) == len
                && (FrameError::TooShort { len }).text() == "frame too short: "@ + digits
                + " bytes"@,
        exists|digits: Seq<char>|
            is_decimal(digits) && #[trigger] number_of(digits) == len
                && (FrameError::BadAckPayload { len }).text()
                == "ACK payload must be 4 bytes, got "@ + digits,
        FrameError::PayloadTruncated.text() == "frame payload truncated"@,
{
    law_decimal_reads_back(len as nat);
    assert(number_of(decimal(len as nat)) == len);
}

/// Decoding an encoded frame gives the frame back, with as much of the payload as the length field
/// counts.
pub proof fn law_decode_of_encode(f: FrameView)
    ensures
        decoded(f.encoded()) == Ok::<FrameView, FrameError>(
            (FrameView { payload: f.payload.take(f.length_field() as int), ..f }),
        ),
{
    let bytes = f.encoded();
    crate::bigendian::lemma_be_value_of_bytes(f.conn_id);
    crate::bigendian::lemma_be_value_of_bytes(f.length_field());
    assert(bytes.len() == FRAME_HEADER_LEN + f.payload.len());
    assert(bytes.subrange(0, 4) =~= crate::bigendian::be_bytes(f.conn_id));
    assert(bytes.subrange(5, 9) =~= crate::bigendian::be_bytes(f.length_field()));
    assert(bytes.subrange(9, 9 + f.length_field()) =~= f.payload.take(f.length_field() as int));
}

/// A frame whose payload the length field can count survives the wire unchanged.
pub proof fn law_roundtrip(f: FrameView)
    requires
        f.payload.len() <= u32::MAX,
    ensures
        decoded(f.encoded()) == Ok::<FrameView, FrameError>(f),
{
    law_decode_of_encode(f);
    assert(f.payload.take(f.length_field() as int) =~= f.payload);
}

/// Two frames whose payloads the length field can count and that look the same on the wire are
/// the same frame.
pub proof fn law_encoding_is_injective(f: FrameView, g: FrameView)
    requires
        f.payload.len() <= u32::MAX,
        g.payload.len() <= u32::MAX,
        f.encoded() == g.encoded(),
    ensures
        f == g,
{
    law_roundtrip(f);
    law_roundtrip(g);
}

/// Encoding a decoded frame gives back the bytes that it was read from.
pub proof fn law_encode_of_decode(bytes: Seq<u8>)
    ensures
        decoded(bytes) matches Ok(f) ==> f.encoded() == bytes.take(
            FRAME_HEADER_LEN + announced_len(bytes),
        ),
{
    if let Ok(f) = decoded(bytes) {
        crate::bigendian::lemma_be_bytes_of_value(bytes.subrange(0, 4));
        crate::bigendian::lemma_be_bytes_of_value(bytes.subrange(5, 9));
        assert(f.length_field() == announced_len(bytes));
        assert(f.encoded() =~= bytes.take(FRAME_HEADER_LEN + announced_len(bytes)));
    }
}

/// Bytes behind a whole frame do not change what it decodes to.
pub proof fn law_decode_ignores_what_follows(bytes: Seq<u8>, more: Seq<u8>)
    requires
        decoded(bytes) is Ok,
    ensures
        decoded(bytes + more) == decoded(bytes),
{
    let longer = bytes + more;
    assert(longer.subrange(0, 4) =~= bytes.subrange(0, 4));
    assert(longer.subrange(5, 9) =~= bytes.subrange(5, 9));
    let end = FRAME_HEADER_LEN + announced_len(bytes);
    assert(longer.subrange(9, end) =~= bytes.subrange(9, end));
}

/// No part of an encoded frame that ends early is taken for a frame.
pub proof fn law_cut_frame_is_rejected(f: FrameView, n: nat)
    requires
        f.payload.len() <= u32::MAX,
        n < f.encoded().len(),
    ensures
        n < FRAME_HEADER_LEN ==> decoded(f.encoded().take(n as int)) == Err::<
            FrameView,
            FrameError,
        >(FrameError::TooShort { len: n as usize }),
        n >= FRAME_HEADER_LEN ==> decoded(f.encoded().take(n as int)) == Err::<
            FrameView,
            FrameError,
        >(FrameError::PayloadTruncated),
{
    let cut = f.encoded().take(n as int);
    crate::bigendian::lemma_be_value_of_bytes(f.conn_id);
    crate::bigendian::lemma_be_value_of_bytes(f.length_field());
    if n >= FRAME_HEADER_LEN {
        assert(cut.subrange(5, 9) =~= crate::bigendian::be_bytes(f.length_field()));
    }
}

/// An acknowledgement reports the count that it was made with, also behind the wire.
pub proof fn law_ack_reports_its_count(conn_id: u32, count: u32)
    ensures
        FrameView::ack(conn_id, count).ack_count() == Ok::<u32, FrameError>(count),
        decoded(FrameView::ack(conn_id, count).encoded()) == Ok::<FrameView, FrameError>(
            FrameView::ack(conn_id, count),
        ),
{
    crate::bigendian::lemma_be_value_of_bytes(count);
    law_roundtrip(FrameView::ack(conn_id, count));
}

} // verus!
