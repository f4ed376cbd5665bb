//! One direction of a relayed connection, from the reader at one end of the tunnel to the writer at
//! the other.

use crate::capacity::{FlowAck, WindowChange, WindowView};
use crate::conn_table::ConnView;
use crate::flow::FlowEvent;
use crate::frame::{FrameView, FRAME_ACK, FRAME_CLOSE, FRAME_DATA};
use crate::reader::{ReaderActionView, ReaderEventView};
use crate::tunnel::{Ignored, TunnelActionView, TunnelEventView};
use crate::writer::{ProxyMsgView, WriterEventView};
use vstd::prelude::*;

verus! {

/// What an end of the tunnel does about a binary message.
pub open spec fn action_at<H>(
    at_client: bool,
    conns: Map<u32, ConnView<H>>,
    bytes: Seq<u8>,
) -> TunnelActionView {
    if at_client {
        crate::client::client_event_action(conns, TunnelEventView::Binary(bytes))
    } else {
        crate::server::server_event_action(conns, TunnelEventView::Binary(bytes))
    }
}

/// The connections of an end of the tunnel after a binary message.
pub open spec fn conns_at<H>(
    at_client: bool,
    conns: Map<u32, ConnView<H>>,
    bytes: Seq<u8>,
) -> Map<u32, ConnView<H>> {
    if at_client {
        crate::client::client_event_conns(conns, TunnelEventView::Binary(bytes))
    } else {
        crate::server::server_event_conns(conns, TunnelEventView::Binary(bytes))
    }
}

/// What an end of the tunnel does about a frame.
pub open spec fn answer_at<H>(
    at_client: bool,
    conns: Map<u32, ConnView<H>>,
    frame: FrameView,
) -> TunnelActionView {
    if at_client {
        crate::client::client_action(conns, frame)
    } else {
        crate::server::server_action(conns, frame)
    }
}

/// A message is answered as the frame that it decodes to, and one that is no frame is not.
pub proof fn law_message_is_answered_as_its_frame<H>(
    at_client: bool,
    conns: Map<u32, ConnView<H>>,
    bytes: Seq<u8>,
)
    ensures
        match crate::frame::decoded(bytes) {
            Ok(frame) => {
                &&& action_at(at_client, conns, bytes) == answer_at(at_client, conns, frame)
                &&& conns_at(at_client, conns, bytes) == crate::tunnel::conns_after(conns, frame)
            },
            Err(error) => {
                &&& action_at(at_client, conns, bytes) == TunnelActionView::Ignore(
                    Ignored::BadFrame(error),
                )
                &&& conns_at(at_client, conns, bytes) == conns
            },
        },
{
}

/// A frame that announces a connection makes the client open just that one, whatever its id and
/// whatever is relayed already, and nothing else makes it open any. A server opens none.
pub proof fn law_open_is_answered<H>(
    at_client: bool,
    conns: Map<u32, ConnView<H>>,
    frame: FrameView,
)
    ensures
        at_client && frame.frame_type == 1 ==> answer_at(at_client, conns, frame) == (
        TunnelActionView::Open { conn_id: frame.conn_id }),
        answer_at(at_client, conns, frame) is Open ==> at_client && frame.frame_type == 1,
        frame.frame_type == 1 ==> crate::tunnel::conns_after(conns, frame) == conns,
{
}

/// An OPEN message on the wire: the connection that the client opens is the one whose id the first
/// four bytes give.
pub proof fn law_open_message_opens_its_connection<H>(
    conns: Map<u32, ConnView<H>>,
    bytes: Seq<u8>,
)
    requires
        crate::frame::decoded(bytes) is Ok,
        bytes[4] == 1,
    ensures
        action_at(true, conns, bytes) matches TunnelActionView::Open { conn_id } && conn_id
            == crate::frame::number_at(bytes, 0),
        conns_at(true, conns, bytes) == conns,
{
    crate::frame::law_decode_reads_the_layout(bytes);
}

/// The payload of a DATA frame goes to the writer of the frame's connection, all of it, as long as
/// the connection is relayed and the peer has not closed it. Nothing changes.
pub proof fn law_data_is_answered<H>(
    at_client: bool,
    conns: Map<u32, ConnView<H>>,
    frame: FrameView,
)
    requires
        frame.frame_type == 2,
    ensures
        crate::tunnel::conns_after(conns, frame) == conns,
        answer_at(at_client, conns, frame) == if !conns.contains_key(frame.conn_id) {
            TunnelActionView::Ignore(Ignored::UnknownConn)
        } else if conns[frame.conn_id].remote_closed {
            TunnelActionView::Ignore(Ignored::RemoteClosed)
        } else {
            TunnelActionView::Deliver {
                conn_id: frame.conn_id,
                msg: ProxyMsgView::Data(frame.payload),
            }
        },
{
}

/// The first CLOSE frame for a connection that is relayed ends its writer and is noted; the
/// connection keeps its handle and its window. Others are not heeded.
pub proof fn law_close_is_answered<H>(
    at_client: bool,
    conns: Map<u32, ConnView<H>>,
    frame: FrameView,
)
    requires
        frame.frame_type == 3,
    ensures
        answer_at(at_client, conns, frame) == if !conns.contains_key(frame.conn_id) {
            TunnelActionView::Ignore(Ignored::UnknownConn)
        } else if conns[frame.conn_id].remote_closed {
            TunnelActionView::Ignore(Ignored::RemoteClosed)
        } else {
            TunnelActionView::Deliver { conn_id: frame.conn_id, msg: ProxyMsgView::Close }
        },
        crate::tunnel::conns_after(conns, frame) == if conns.contains_key(frame.conn_id) {
            conns.insert(frame.conn_id, ConnView { remote_closed: true, ..conns[frame.conn_id] })
        } else {
            conns
        },
{
    if conns.contains_key(frame.conn_id) {
        assert(crate::tunnel::conns_after(conns, frame) =~= conns.insert(
            frame.conn_id,
            ConnView { remote_closed: true, ..conns[frame.conn_id] },
        ));
    }
}

/// An ACK frame of four bytes adds as many permits as they count to the window of the frame's
/// connection, where it has one and a semaphore can hold them, and to no other. An ACK frame of
/// another length adds none.
pub proof fn law_ack_is_answered<H>(
    at_client: bool,
    conns: Map<u32, ConnView<H>>,
    frame: FrameView,
)
    requires
        frame.frame_type == 4,
        frame.payload.len() <= usize::MAX,
    ensures
        ({
            let c = frame.conn_id;
            let after = crate::tunnel::conns_after(conns, frame);
            let count = crate::frame::number_at(frame.payload, 0);
            if frame.payload.len() != 4 {
                &&& after == conns
                &&& answer_at(at_client, conns, frame) == TunnelActionView::Ignore(
                    Ignored::BadAck(
                        crate::frame::FrameError::BadAckPayload {
                            len: frame.payload.len() as usize,
                        },
                    ),
                )
            } else {
                &&& answer_at(at_client, conns, frame) matches TunnelActionView::Credit {
                    conn_id,
                    count: n,
                    outcome,
                }
                &&& conn_id == c && n == count
                &&& if conns.contains_key(c) && conns[c].inflight is Some {
                    let window = conns[c].inflight->0;
                    if window.live + count <= usize::MAX / 8 {
                        &&& outcome == FlowAck::Added(count as usize)
                        &&& after == conns.insert(
                            c,
                            ConnView {
                                inflight: Some(
                                    WindowView { live: (window.live + count) as nat, ..window },
                                ),
                                ..conns[c]
                            },
                        )
                    } else {
                        &&& outcome is Full
                        &&& after == conns
                    }
                } else {
                    &&& outcome == FlowAck::Added(0)
                    &&& after == conns
                }
            }
        }),
{
    crate::frame::law_ack_count_is_the_payload(frame);
    assert(crate::tunnel::conns_after(conns, frame) =~= conns || frame.payload.len() == 4);
    if conns.contains_key(frame.conn_id) && frame.payload.len() == 4 {
        let window = conns[frame.conn_id].inflight->0;
        if conns[frame.conn_id].inflight is Some && window.live + crate::frame::number_at(
            frame.payload,
            0,
        ) > usize::MAX / 8 {
            assert(crate::tunnel::conns_after(conns, frame) =~= conns);
        }
    }
}

/// A frame that reports a failed write makes the client stop the reader of the frame's connection,
/// where that is relayed. A server is told of none, and a frame of any other type is for neither end.
pub proof fn law_other_frames_are_answered<H>(
    at_client: bool,
    conns: Map<u32, ConnView<H>>,
    frame: FrameView,
)
    requires
        !(1 <= frame.frame_type <= 4),
    ensures
        crate::tunnel::conns_after(conns, frame) == conns,
        answer_at(at_client, conns, frame) == if at_client && frame.frame_type == 5 {
            if conns.contains_key(frame.conn_id) {
                TunnelActionView::StopReader { conn_id: frame.conn_id }
            } else {
                TunnelActionView::Ignore(Ignored::UnknownConn)
            }
        } else {
            TunnelActionView::Ignore(Ignored::UnexpectedType(frame.frame_type))
        },
{
}

/// A server is not told to open a connection.
pub proof fn law_server_opens_nothing<H>(conns: Map<u32, ConnView<H>>, frame: FrameView)
    requires
        frame.frame_type == 1,
    ensures
        answer_at(false, conns, frame) == TunnelActionView::Ignore(Ignored::UnexpectedType(1)),
{
}

/// What is no binary message ends the tunnel or does nothing. A client that leaves forgets its
/// connections; a server forgets them when the tunnel is unregistered.
pub proof fn law_other_events_are_answered<H>(
    conns: Map<u32, ConnView<H>>,
    event: TunnelEventView,
)
    requires
        !(event is Binary),
    ensures
        ({
            let ends = event is Close || event is Failed || event is Ended;
            let answer = if ends {
                TunnelActionView::Leave
            } else {
                TunnelActionView::Ignore(Ignored::NoFrame)
            };
            &&& crate::client::client_event_action(conns, event) == answer
            &&& crate::server::server_event_action(conns, event) == answer
            &&& crate::client::client_event_conns(conns, event) == if ends {
                Map::empty()
            } else {
                conns
            }
            &&& crate::server::server_event_conns(conns, event) == conns
        }),
{
}

/// What happens at an end of the tunnel.
pub enum Step<H> {
    /// A binary message comes.
    Message(Seq<u8>),
    /// A connection is opened.
    Opened { conn_id: u32, conn: ConnView<H> },
    /// A connection is removed.
    Removed { conn_id: u32 },
    /// A permit of a connection's window is forgotten, for a frame that its reader may send.
    Spent { conn_id: u32 },
    /// The credit of a permit comes back that no frame was sent for.
    Refunded { conn_id: u32 },
}

/// Whether a connection is neither opened nor removed in the course of steps; others may be.
pub open spec fn stays<H>(conn_id: u32, steps: Seq<Step<H>>) -> bool {
    forall|i: int|
        0 <= i < steps.len() ==> match #[trigger] steps[i] {
            Step::Opened { conn_id: id, .. } => id != conn_id,
            Step::Removed { conn_id: id } => id != conn_id,
            _ => true,
        }
}

/// An end of the tunnel after steps: its connections, and the messages that it handed to the writer
/// of one of them.
#[verifier::ext_equal]
pub struct Inbox<H> {
    pub conns: Map<u32, ConnView<H>>,
    pub msgs: Seq<ProxyMsgView>,
}

/// What steps do at an end of the tunnel.
pub open spec fn received<H>(
    at_client: bool,
    conns: Map<u32, ConnView<H>>,
    conn_id: u32,
    steps: Seq<Step<H>>,
) -> Inbox<H>
    decreases steps.len(),
{
    if steps.len() == 0 {
        Inbox { conns, msgs: Seq::empty() }
    } else {
        let before = received(at_client, conns, conn_id, steps.drop_last());
        match steps.last() {
            Step::Message(bytes) => Inbox {
                conns: conns_at(at_client, before.conns, bytes),
                msgs: match action_at(at_client, before.conns, bytes) {
                    TunnelActionView::Deliver { conn_id: id, msg } => if id == conn_id {
                        before.msgs.push(msg)
                    } else {
                        before.msgs
                    },
                    _ => before.msgs,
                },
            },
            Step::Opened { conn_id: id, conn } => Inbox {
                conns: before.conns.insert(id, conn),
                ..before
            },
            Step::Removed { conn_id: id } => Inbox { conns: before.conns.remove(id), ..before },
            Step::Spent { conn_id: id } => Inbox {
                conns: crate::conn_table::with_spent(before.conns, id, 1),
                ..before
            },
            Step::Refunded { conn_id: id } => Inbox {
                conns: crate::conn_table::with_credits(before.conns, id, 1),
                ..before
            },
        }
    }
}

/// The connection that a message has something for the writer of, and what: DATA frames bring bytes,
/// and CLOSE frames the end.
pub open spec fn msg_of(bytes: Seq<u8>) -> Option<(u32, ProxyMsgView)> {
    match crate::frame::decoded(bytes) {
        Ok(frame) => if frame.frame_type == FRAME_DATA {
            Some((frame.conn_id, ProxyMsgView::Data(frame.payload)))
        } else if frame.frame_type == FRAME_CLOSE {
            Some((frame.conn_id, ProxyMsgView::Close))
        } else {
            None
        },
        Err(_) => None,
    }
}

/// The DATA and CLOSE messages for one connection, out of all that the tunnel brings.
pub open spec fn stream_of<H>(conn_id: u32, steps: Seq<Step<H>>) -> Seq<Seq<u8>>
    decreases steps.len(),
{
    if steps.len() == 0 {
        Seq::empty()
    } else {
        let before = stream_of(conn_id, steps.drop_last());
        match steps.last() {
            Step::Message(bytes) => match msg_of(bytes) {
                Some((id, _)) => if id == conn_id {
                    before.push(bytes)
                } else {
                    before
                },
                None => before,
            },
            _ => before,
        }
    }
}

/// What a stream of DATA and CLOSE messages brings to a writer: all up to the first CLOSE, and
/// nothing after it.
pub open spec fn up_to_close(messages: Seq<Seq<u8>>) -> Seq<ProxyMsgView>
    decreases messages.len(),
{
    if messages.len() == 0 {
        Seq::empty()
    } else {
        let before = up_to_close(messages.drop_last());
        if ends_with_close(before) {
            before
        } else {
            match msg_of(messages.last()) {
                Some((_, msg)) => before.push(msg),
                None => before,
            }
        }
    }
}

/// Whether the last message is CLOSE.
pub open spec fn ends_with_close(msgs: Seq<ProxyMsgView>) -> bool {
    msgs.len() > 0 && msgs.last() is Close
}

/// What a message does to the window of a connection: ACKs for it bring credits.
pub open spec fn change_by_message(conn_id: u32, bytes: Seq<u8>) -> Seq<WindowChange> {
    match crate::frame::decoded(bytes) {
        Ok(frame) => match frame.ack_count() {
            Ok(count) => if frame.frame_type == FRAME_ACK && frame.conn_id == conn_id {
                seq![WindowChange::Acked(count)]
            } else {
                Seq::empty()
            },
            Err(_) => Seq::empty(),
        },
        Err(_) => Seq::empty(),
    }
}

/// What a step does to the window of a connection.
pub open spec fn change_by_step<H>(conn_id: u32, step: Step<H>) -> Seq<WindowChange> {
    match step {
        Step::Message(bytes) => change_by_message(conn_id, bytes),
        Step::Spent { conn_id: id } => if id == conn_id {
            seq![WindowChange::Spent]
        } else {
            Seq::empty()
        },
        Step::Refunded { conn_id: id } => if id == conn_id {
            seq![WindowChange::Refunded]
        } else {
            Seq::empty()
        },
        _ => Seq::empty(),
    }
}

/// What steps do to the window of a connection, out of all that they do.
pub open spec fn window_changes<H>(conn_id: u32, steps: Seq<Step<H>>) -> Seq<WindowChange>
    decreases steps.len(),
{
    if steps.len() == 0 {
        Seq::empty()
    } else {
        window_changes(conn_id, steps.drop_last()) + change_by_step(conn_id, steps.last())
    }
}

/// What a writer sees of messages when the local stream takes all bytes.
pub open spec fn taken_by_stream(msgs: Seq<ProxyMsgView>) -> Seq<WriterEventView>
    decreases msgs.len(),
{
    if msgs.len() == 0 {
        Seq::empty()
    } else {
        let before = taken_by_stream(msgs.drop_last()).push(WriterEventView::Message(msgs.last()));
        match msgs.last() {
            ProxyMsgView::Data(_) => before.push(WriterEventView::Written),
            ProxyMsgView::Close => before,
        }
    }
}

/// The bytes that a connection's writer at an end of the tunnel puts on its local stream, where that
/// takes them all. Only a client's writer reports failed writes.
pub open spec fn written_at<H>(
    at_client: bool,
    conns: Map<u32, ConnView<H>>,
    conn_id: u32,
    steps: Seq<Step<H>>,
) -> Seq<u8> {
    crate::writer::bytes_written(
        crate::writer::writer_run(
            conn_id,
            at_client,
            taken_by_stream(received(at_client, conns, conn_id, steps).msgs),
        ).actions,
    )
}

/// The writer of a connection gets the DATA and CLOSE messages of that connection up to the first
/// CLOSE, in their order, and nothing else, whatever other connections the tunnel carries and
/// whether those come or go.
pub proof fn law_writer_gets_its_own_stream<H>(
    at_client: bool,
    conns: Map<u32, ConnView<H>>,
    conn_id: u32,
    steps: Seq<Step<H>>,
)
    requires
        crate::tunnel::refusal(conns, conn_id) is None,
        stays(conn_id, steps),
    ensures
        ({
            let inbox = received(at_client, conns, conn_id, steps);
            &&& inbox.msgs == up_to_close(stream_of(conn_id, steps))
            &&& inbox.conns.contains_key(conn_id)
            &&& inbox.conns[conn_id].handle == conns[conn_id].handle
            &&& inbox.conns[conn_id].remote_closed <==> ends_with_close(inbox.msgs)
        }),
    decreases steps.len(),
{
    if steps.len() > 0 {
        let front = steps.drop_last();
        lemma_stays_before(conn_id, steps);
        law_writer_gets_its_own_stream(at_client, conns, conn_id, front);
        let stream = stream_of(conn_id, steps);
        if stream.len() > stream_of(conn_id, front).len() {
            assert(stream.drop_last() =~= stream_of(conn_id, front));
        }
    }
}

/// Once the peer has closed its side of a connection, or where the connection is not relayed at
/// all, no message brings its writer anything.
pub proof fn law_nothing_after_close<H>(
    at_client: bool,
    conns: Map<u32, ConnView<H>>,
    conn_id: u32,
    steps: Seq<Step<H>>,
)
    requires
        crate::tunnel::refusal(conns, conn_id) is Some,
        stays(conn_id, steps),
    ensures
        received(at_client, conns, conn_id, steps).msgs == Seq::<ProxyMsgView>::empty(),
        crate::tunnel::refusal(received(at_client, conns, conn_id, steps).conns, conn_id)
            == crate::tunnel::refusal(conns, conn_id),
    decreases steps.len(),
{
    if steps.len() > 0 {
        lemma_stays_before(conn_id, steps);
        law_nothing_after_close(at_client, conns, conn_id, steps.drop_last());
    }
}

/// The window of a connection changes by the permits that are forgotten and refunded for that
/// connection and by the ACKs for it, in their order, and by nothing else, whatever other connections
/// the tunnel carries.
pub proof fn law_window_is_its_own<H>(
    at_client: bool,
    conns: Map<u32, ConnView<H>>,
    conn_id: u32,
    steps: Seq<Step<H>>,
)
    requires
        conns.contains_key(conn_id),
        stays(conn_id, steps),
    ensures
        ({
            let after = received(at_client, conns, conn_id, steps).conns;
            &&& after.contains_key(conn_id)
            &&& after[conn_id].inflight == match conns[conn_id].inflight {
                Some(window) => Some(
                    crate::capacity::window_after_all(window, window_changes(conn_id, steps)),
                ),
                None => None,
            }
        }),
    decreases steps.len(),
{
    if steps.len() > 0 {
        let front = steps.drop_last();
        lemma_stays_before(conn_id, steps);
        law_window_is_its_own(at_client, conns, conn_id, front);
        let before = received(at_client, conns, conn_id, front).conns;
        let after = received(at_client, conns, conn_id, steps).conns;
        let old_changes = window_changes(conn_id, front);
        let changes = window_changes(conn_id, steps);
        if changes.len() > old_changes.len() {
            assert(changes.drop_last() =~= old_changes);
        } else {
            assert(changes =~= old_changes);
        }
        match steps.last() {
            Step::Message(bytes) => {
                law_message_concerns_one_connection(at_client, before, bytes, conn_id);
                assert(after.dom().contains(conn_id));
            },
            _ => {},
        }
    }
}

/// The bytes that a reader reads are written at the other end of the tunnel, all of them and in
/// their order and no others, and each DATA frame is counted as written. The writer ends when the
/// reader sends its CLOSE frame, and has then acknowledged every frame.
///
/// The tunnel may carry any other connections beside, which come and go, and ACKs for this one. This
/// holds where it has brought every frame of the reader, no single read gives more bytes than the
/// length field counts, and the other end relays the connection and has had no CLOSE for it.
pub proof fn law_stream_crosses_the_tunnel<H>(
    conn_id: u32,
    events: Seq<ReaderEventView>,
    at_client: bool,
    conns: Map<u32, ConnView<H>>,
    steps: Seq<Step<H>>,
    report_errors: bool,
)
    requires
        crate::tunnel::refusal(conns, conn_id) is None,
        stays(conn_id, steps),
        stream_of(conn_id, steps) == crate::reader::frames_of(
            crate::reader::reader_run(conn_id, events).actions,
        ),
        crate::reader::reads_fit(events),
    ensures
        ({
            let run = crate::reader::reader_run(conn_id, events);
            let closed = crate::reader::has_closed(run.actions);
            let inbox = received(at_client, conns, conn_id, steps);
            let end = crate::writer::writer_run(
                conn_id,
                report_errors,
                taken_by_stream(inbox.msgs),
            );
            &&& crate::writer::bytes_written(end.actions) == run.read
            &&& end.written == crate::reader::frames_sent(run.actions)
            &&& end.writer.phase is Stopped <==> closed
            &&& closed ==> crate::writer::acked(conn_id, end.actions) == crate::reader::frames_sent(
                run.actions,
            )
        }),
{
    law_writer_gets_its_own_stream(at_client, conns, conn_id, steps);
    lemma_crossing(conn_id, events, report_errors);
    let seen = taken_by_stream(received(at_client, conns, conn_id, steps).msgs);
    crate::writer::law_bytes_are_written_in_order(conn_id, report_errors, seen);
    crate::writer::law_every_write_is_acked_once(conn_id, report_errors, seen);
}

/// An ACK for a connection gives its window all the credits that it counts, or none where no
/// semaphore could hold them, and no other window any. Nothing else changes, and where the connection
/// is not relayed or has no window, nothing does.
pub proof fn law_ack_credits_one_window<H>(
    at_client: bool,
    conns: Map<u32, ConnView<H>>,
    conn_id: u32,
    count: u32,
    id: u32,
)
    ensures
        ({
            let ack = crate::frame::FrameView::ack(conn_id, count).encoded();
            let window = crate::conn_table::window_of(conns, conn_id);
            let after = conns_at(at_client, conns, ack);
            &&& action_at(at_client, conns, ack) == (TunnelActionView::Credit {
                conn_id,
                count,
                outcome: crate::capacity::ack_outcome(window, count),
            })
            &&& after.dom() == conns.dom()
            &&& window is None ==> after == conns
            &&& window matches Some(w) ==> after[conn_id] == (ConnView {
                inflight: Some(crate::capacity::window_after(w, count)),
                ..conns[conn_id]
            })
            &&& id != conn_id && conns.contains_key(id) ==> after[id] == conns[id]
        }),
{
    crate::frame::law_ack_reports_its_count(conn_id, count);
    let ack = crate::frame::FrameView::ack(conn_id, count).encoded();
    assert(conns_at(at_client, conns, ack).dom() =~= conns.dom());
}

/// An upstream that sends back what it is sent: the visitor is written the bytes that it sent, all of
/// them and in their order, and no byte of any other connection, whatever others the tunnel carries
/// in either direction and whether those come or go.
///
/// `sent` is what happens to the reader of the visitor at the server, and `echoed` to that of the
/// upstream at the client, which reads what the client's writer writes.
pub proof fn law_echo_comes_back<H, J>(
    conn_id: u32,
    sent: Seq<ReaderEventView>,
    client_conns: Map<u32, ConnView<H>>,
    client_steps: Seq<Step<H>>,
    echoed: Seq<ReaderEventView>,
    server_conns: Map<u32, ConnView<J>>,
    server_steps: Seq<Step<J>>,
)
    requires
        crate::tunnel::refusal(client_conns, conn_id) is None,
        crate::tunnel::refusal(server_conns, conn_id) is None,
        stays(conn_id, client_steps),
        stays(conn_id, server_steps),
        crate::reader::reads_fit(sent),
        crate::reader::reads_fit(echoed),
        stream_of(conn_id, client_steps) == crate::reader::frames_of(
            crate::reader::reader_run(conn_id, sent).actions,
        ),
        crate::reader::reader_run(conn_id, echoed).read == written_at(
            true,
            client_conns,
            conn_id,
            client_steps,
        ),
        stream_of(conn_id, server_steps) == crate::reader::frames_of(
            crate::reader::reader_run(conn_id, echoed).actions,
        ),
    ensures
        written_at(false, server_conns, conn_id, server_steps) == crate::reader::reader_run(
            conn_id,
            sent,
        ).read,
{
    law_stream_crosses_the_tunnel(conn_id, sent, true, client_conns, client_steps, true);
    law_stream_crosses_the_tunnel(conn_id, echoed, false, server_conns, server_steps, false);
}

/// A sender keeps within its limit: of a connection that was opened with a limit, no more DATA frames
/// have been sent than that and those that the ACKs for the connection acknowledged, whatever other
/// connections the tunnel carries.
///
/// `history` is what happened to the connection's reader while the steps were taken: the changes to
/// the window are the same.
pub proof fn law_sender_keeps_within_its_limit<H>(
    at_client: bool,
    conns: Map<u32, ConnView<H>>,
    conn_id: u32,
    steps: Seq<Step<H>>,
    history: Seq<FlowEvent>,
    handle: H,
    limit: usize,
)
    requires
        limit > 0,
        conns.contains_key(conn_id),
        crate::conn_table::is_fresh(conns[conn_id], handle, limit),
        stays(conn_id, steps),
        crate::flow::changes_of(conn_id, history) == window_changes(conn_id, steps),
        crate::capacity::spends_are_live(
            conns[conn_id].inflight->0,
            window_changes(conn_id, steps),
        ),
    ensures
        crate::reader::frames_sent(crate::flow::reader_after(conn_id, history).actions)
            <= limit + crate::capacity::acked_in(window_changes(conn_id, steps)),
        crate::conn_table::window_of(
            received(at_client, conns, conn_id, steps).conns,
            conn_id,
        ) matches Some(window) && window.live == crate::flow::available(
            conn_id,
            conns[conn_id].inflight->0,
            history,
        ),
{
    law_window_is_its_own(at_client, conns, conn_id, steps);
    crate::flow::law_in_flight_within_window(conn_id, conns[conn_id].inflight->0, history);
}

/// An ACK whose payload is malformed changes nothing.
pub proof fn law_malformed_ack_changes_nothing<H>(
    at_client: bool,
    conns: Map<u32, ConnView<H>>,
    bytes: Seq<u8>,
)
    requires
        crate::frame::decoded(bytes) matches Ok(frame) && frame.frame_type == FRAME_ACK
            && frame.ack_count() is Err,
    ensures
        conns_at(at_client, conns, bytes) == conns,
        action_at(at_client, conns, bytes) is Ignore,
{
}

/// A message concerns one connection at most: the others keep their entries. No connection comes or
/// goes, or changes its handle or the semaphore of its window, and only an ACK changes how many permits
/// that has.
pub proof fn law_message_concerns_one_connection<H>(
    at_client: bool,
    conns: Map<u32, ConnView<H>>,
    bytes: Seq<u8>,
    id: u32,
)
    ensures
        conns_at(at_client, conns, bytes).dom() == conns.dom(),
        conns.contains_key(id) ==> {
            let after = conns_at(at_client, conns, bytes)[id];
            &&& after.handle == conns[id].handle
            &&& match (conns[id].inflight, after.inflight) {
                (Some(old_window), Some(window)) => {
                    &&& window.semaphore == old_window.semaphore
                    &&& window.live != old_window.live ==> (crate::frame::decoded(
                        bytes,
                    ) matches Ok(frame) && frame.frame_type == FRAME_ACK)
                },
                (None, None) => true,
                _ => false,
            }
            &&& conns[id].remote_closed ==> after.remote_closed
            &&& !(crate::frame::decoded(bytes) matches Ok(frame) && frame.conn_id == id) ==> after
                == conns[id]
        },
{
    assert(conns_at(at_client, conns, bytes).dom() =~= conns.dom());
}

/// A message that is no frame changes nothing.
pub proof fn law_bad_message_changes_nothing<H>(
    at_client: bool,
    conns: Map<u32, ConnView<H>>,
    bytes: Seq<u8>,
)
    requires
        crate::frame::decoded(bytes) is Err,
    ensures
        action_at(at_client, conns, bytes) == TunnelActionView::Ignore(
            Ignored::BadFrame(crate::frame::decoded(bytes)->Err_0),
        ),
        conns_at(at_client, conns, bytes) == conns,
{
}

/// Credits come from ACK frames, and from nothing else.
pub proof fn law_only_acks_bring_credits<H>(
    at_client: bool,
    conns: Map<u32, ConnView<H>>,
    bytes: Seq<u8>,
)
    requires
        !(crate::frame::decoded(bytes) matches Ok(frame) && frame.frame_type == FRAME_ACK),
    ensures
        !(action_at(at_client, conns, bytes) is Credit),
        forall|id: u32|
            #![trigger crate::conn_table::window_of(conns, id)]
            crate::conn_table::window_of(conns_at(at_client, conns, bytes), id)
                == crate::conn_table::window_of(conns, id),
{
}

/// Half-close: once the peer has closed its side of a connection, its further DATA and CLOSE frames
/// go nowhere, while the other direction goes on. The connection and its window stay, and ACKs still
/// bring the same credits.
pub proof fn law_half_close_keeps_the_other_direction<H>(
    at_client: bool,
    conns: Map<u32, ConnView<H>>,
    conn_id: u32,
    payload: Seq<u8>,
    count: u32,
)
    requires
        conns.contains_key(conn_id),
        payload.len() <= u32::MAX,
    ensures
        ({
            let close = crate::frame::FrameView::close(conn_id).encoded();
            let data = crate::frame::FrameView::data(conn_id, payload).encoded();
            let ack = crate::frame::FrameView::ack(conn_id, count).encoded();
            let after = conns_at(at_client, conns, close);
            &&& after == conns.insert(
                conn_id,
                ConnView { remote_closed: true, ..conns[conn_id] },
            )
            &&& action_at(at_client, after, data) == TunnelActionView::Ignore(
                Ignored::RemoteClosed,
            )
            &&& action_at(at_client, after, close) == TunnelActionView::Ignore(
                Ignored::RemoteClosed,
            )
            &&& conns_at(at_client, after, close) == after
            &&& action_at(at_client, after, ack) == action_at(at_client, conns, ack)
            &&& conns_at(at_client, after, ack)[conn_id].inflight == conns_at(
                at_client,
                conns,
                ack,
            )[conn_id].inflight
        }),
{
    crate::frame::law_roundtrip(crate::frame::FrameView::close(conn_id));
    crate::frame::law_roundtrip(crate::frame::FrameView::data(conn_id, payload));
    crate::frame::law_ack_reports_its_count(conn_id, count);
    let after = conns_at(
        at_client,
        conns,
        crate::frame::FrameView::close(conn_id).encoded(),
    );
    if conns[conn_id].remote_closed {
        assert(after =~= conns.insert(
            conn_id,
            ConnView { remote_closed: true, ..conns[conn_id] },
        ));
    }
}

/// What the server sends for a connection reaches its writer as soon as the connection is opened,
/// whether or not the upstream has been connected.
pub proof fn law_data_need_not_wait_for_upstream<H>(
    conns: Map<u32, ConnView<H>>,
    conn_id: u32,
    conn: ConnView<H>,
    handle: H,
    limit: usize,
    payload: Seq<u8>,
)
    requires
        crate::conn_table::is_fresh(conn, handle, limit),
        payload.len() <= u32::MAX,
    ensures
        action_at(
            true,
            conns.insert(conn_id, conn),
            crate::frame::FrameView::data(conn_id, payload).encoded(),
        ) == (TunnelActionView::Deliver { conn_id, msg: ProxyMsgView::Data(payload) }),
{
    crate::frame::law_roundtrip(crate::frame::FrameView::data(conn_id, payload));
}

proof fn lemma_stays_before<H>(conn_id: u32, steps: Seq<Step<H>>)
    requires
        stays(conn_id, steps),
        steps.len() > 0,
    ensures
        stays(conn_id, steps.drop_last()),
        steps.last() matches Step::Opened { conn_id: id, .. } ==> id != conn_id,
        steps.last() matches Step::Removed { conn_id: id } ==> id != conn_id,
{
    let front = steps.drop_last();
    assert forall|i: int| 0 <= i < front.len() implies match #[trigger] front[i] {
        Step::Opened { conn_id: id, .. } => id != conn_id,
        Step::Removed { conn_id: id } => id != conn_id,
        _ => true,
    } by {
        assert(front[i] == steps[i]);
    }
    assert(steps.last() == steps[steps.len() - 1]);
}

proof fn lemma_crossing(conn_id: u32, events: Seq<ReaderEventView>, report_errors: bool)
    requires
        crate::reader::reads_fit(events),
    ensures
        ({
            let run = crate::reader::reader_run(conn_id, events);
            let closed = crate::reader::has_closed(run.actions);
            let msgs = up_to_close(crate::reader::frames_of(run.actions));
            let end = crate::writer::writer_run(conn_id, report_errors, taken_by_stream(msgs));
            &&& end.given == run.read
            &&& end.written == crate::reader::frames_sent(run.actions)
            &&& closed <==> ends_with_close(msgs)
            &&& closed ==> run.reader.phase is Stopped && end.writer.phase is Stopped
            &&& !closed ==> end.writer.phase is AwaitMessage
        }),
    decreases events.len(),
{
    let run = crate::reader::reader_run(conn_id, events);
    let frames = crate::reader::frames_of(run.actions);
    let msgs = up_to_close(frames);
    let seen = taken_by_stream(msgs);
    if events.len() > 0 {
        let front = events.drop_last();
        assert forall|i: int| 0 <= i < front.len() implies (
        #[trigger] front[i] matches ReaderEventView::Read(bytes) ==> bytes.len() <= u32::MAX) by {
            assert(front[i] == events[i]);
        }
        lemma_crossing(conn_id, front, report_errors);
        let before = crate::reader::reader_run(conn_id, front);
        let event = events.last();
        assert(event == events[events.len() - 1]);
        let (phase, action) = crate::reader::reader_next(conn_id, before.reader.phase, event);
        crate::reader::law_reader_keeps_its_connection(conn_id, front);
        assert(run.actions.drop_last() =~= before.actions);
        assert(run.actions.last() == action);
        crate::reader::lemma_has_closed_push(before.actions, action);
        let old_frames = crate::reader::frames_of(before.actions);
        let old_msgs = up_to_close(old_frames);
        let old_seen = taken_by_stream(old_msgs);
        let old_end = crate::writer::writer_run(conn_id, report_errors, old_seen);
        match action {
            ReaderActionView::Send(bytes) => {
                let chunk = event->Read_0;
                crate::frame::law_roundtrip(crate::frame::FrameView::data(conn_id, chunk));
                assert(frames.drop_last() =~= old_frames);
                assert(msgs.drop_last() =~= old_msgs);
                assert(msgs.last() == ProxyMsgView::Data(chunk));
                let given = old_seen.push(WriterEventView::Message(ProxyMsgView::Data(chunk)));
                assert(given.drop_last() =~= old_seen);
                assert(seen == given.push(WriterEventView::Written));
                assert(seen.drop_last() =~= given);
                let mid = crate::writer::writer_run(conn_id, report_errors, given);
                assert(mid.writer.phase is AwaitWrite);
                assert(mid.given == old_end.given + chunk);
            },
            ReaderActionView::Stop { close: Some(bytes), .. } => {
                crate::frame::law_roundtrip(crate::frame::FrameView::close(conn_id));
                assert(frames.drop_last() =~= old_frames);
                assert(msgs.drop_last() =~= old_msgs);
                assert(msgs.last() == ProxyMsgView::Close);
                assert(seen.drop_last() =~= old_seen);
                assert(run.read =~= before.read);
            },
            _ => {
                assert(frames == old_frames);
                assert(run.read =~= before.read);
            },
        }
    }
}

} // verus!
