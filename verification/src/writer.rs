//! The half of a relayed TCP connection that writes the local stream: it puts the payloads of the
//! peer's DATA frames on it and acknowledges them in batches.

use crate::capacity::ACK_BATCH_SIZE;
use crate::frame::{Frame, FrameView, FRAME_ACK};
use vstd::prelude::*;

verus! {

/// What a connection's writer is told.
#[derive(Debug)]
pub enum ProxyMsg {
    /// Bytes for the local stream.
    Data(Vec<u8>),
    /// The peer will send no more.
    Close,
}

/// A message, its bytes as a sequence.
pub enum ProxyMsgView {
    Data(Seq<u8>),
    Close,
}

/// The views of messages, events and actions keep every field and every byte.
pub proof fn law_writer_views_keep_all(msg: ProxyMsg, event: WriterEvent, action: WriterAction)
    ensures
        match msg {
            ProxyMsg::Data(bytes) => msg@ == ProxyMsgView::Data(bytes@),
            ProxyMsg::Close => msg@ is Close,
        },
        match event {
            WriterEvent::Message(m) => event@ == WriterEventView::Message(m@),
            WriterEvent::ChannelClosed => event@ is ChannelClosed,
            WriterEvent::Written => event@ is Written,
            WriterEvent::WriteFailed => event@ is WriteFailed,
        },
        match action {
            WriterAction::Write(bytes) => action@ == WriterActionView::Write(bytes@),
            WriterAction::Receive { ack } => (action@ matches WriterActionView::Receive { ack: a }
                && crate::frame::same_bytes(ack, a)),
            WriterAction::Finish { write_error, ack } => (
            action@ matches WriterActionView::Finish { write_error: e, ack: a }
                && crate::frame::same_bytes(write_error, e) && crate::frame::same_bytes(ack, a)),
            WriterAction::Ignore => action@ is Ignore,
        },
{
}

impl View for ProxyMsg {
    type V = ProxyMsgView;

    open spec fn view(&self) -> ProxyMsgView {
        match *self {
            ProxyMsg::Data(bytes) => ProxyMsgView::Data(bytes@),
            ProxyMsg::Close => ProxyMsgView::Close,
        }
    }
}

/// What a writer waits for.
#[derive(Debug, Clone, Copy, PartialEq, Eq, Structural)]
pub enum WriterPhase {
    /// The next message.
    AwaitMessage,
    /// The outcome of a write to the local stream.
    AwaitWrite,
    /// Nothing: the writer is done.
    Stopped,
}

/// What can happen to a writer.
#[derive(Debug)]
pub enum WriterEvent {
    /// A message came.
    Message(ProxyMsg),
    /// No more messages will come.
    ChannelClosed,
    /// The local stream took the bytes.
    Written,
    /// The local stream did not take the bytes.
    WriteFailed,
}

/// An event, its bytes as a sequence.
pub enum WriterEventView {
    Message(ProxyMsgView),
    ChannelClosed,
    Written,
    WriteFailed,
}

impl View for WriterEvent {
    type V = WriterEventView;

    open spec fn view(&self) -> WriterEventView {
        match *self {
            WriterEvent::Message(msg) => WriterEventView::Message(msg@),
            WriterEvent::ChannelClosed => WriterEventView::ChannelClosed,
            WriterEvent::Written => WriterEventView::Written,
            WriterEvent::WriteFailed => WriterEventView::WriteFailed,
        }
    }
}

/// What a writer's driver has to do next.
#[derive(Debug)]
pub enum WriterAction {
    /// Write these bytes to the local stream.
    Write(Vec<u8>),
    /// Send this ACK frame, where there is one, and wait for the next message.
    Receive { ack: Option<Vec<u8>> },
    /// Send the WRITE_ERROR frame and then the ACK frame, where there are such, shut the local
    /// stream down for writing, and end.
    Finish { write_error: Option<Vec<u8>>, ack: Option<Vec<u8>> },
    /// Nothing: the event is not one that the writer waits for.
    Ignore,
}

/// An action, its bytes as a sequence.
pub enum WriterActionView {
    Write(Seq<u8>),
    Receive { ack: Option<Seq<u8>> },
    Finish { write_error: Option<Seq<u8>>, ack: Option<Seq<u8>> },
    Ignore,
}

impl View for WriterAction {
    type V = WriterActionView;

    open spec fn view(&self) -> WriterActionView {
        match *self {
            WriterAction::Write(bytes) => WriterActionView::Write(bytes@),
            WriterAction::Receive { ack } => WriterActionView::Receive {
                ack: crate::frame::optional_bytes(ack),
            },
            WriterAction::Finish { write_error, ack } => WriterActionView::Finish {
                write_error: crate::frame::optional_bytes(write_error),
                ack: crate::frame::optional_bytes(ack),
            },
            WriterAction::Ignore => WriterActionView::Ignore,
        }
    }
}

/// The half of a connection that writes the local stream.
#[derive(Debug)]
pub struct Writer {
    pub conn_id: u32,
    /// Whether the peer is told of a failed write.
    pub report_errors: bool,
    pub phase: WriterPhase,
    /// DATA frames written since the last ACK.
    pub unacked: u32,
}

/// The ACK frame for `count` written DATA frames, where there are any.
pub open spec fn ack_frame(conn_id: u32, count: u32) -> Option<Seq<u8>> {
    if count == 0 {
        None
    } else {
        Some(FrameView::ack(conn_id, count).encoded())
    }
}

/// The action that ends a writer: what was written is acknowledged, whatever ended it.
pub open spec fn writer_finish(w: Writer, failed: bool) -> (Writer, WriterActionView) {
    (
        Writer { phase: WriterPhase::Stopped, unacked: 0, ..w },
        WriterActionView::Finish {
            write_error: if failed && w.report_errors {
                Some(FrameView::write_error(w.conn_id).encoded())
            } else {
                None
            },
            ack: ack_frame(w.conn_id, w.unacked),
        },
    )
}

/// Where an event takes a writer, and what it makes its driver do.
pub open spec fn writer_next(w: Writer, event: WriterEventView) -> (Writer, WriterActionView) {
    match (w.phase, event) {
        (WriterPhase::AwaitMessage, WriterEventView::Message(ProxyMsgView::Data(bytes))) => (
            Writer { phase: WriterPhase::AwaitWrite, ..w },
            WriterActionView::Write(bytes),
        ),
        (WriterPhase::AwaitMessage, WriterEventView::Message(ProxyMsgView::Close)) => writer_finish(
            w,
            false,
        ),
        (WriterPhase::AwaitMessage, WriterEventView::ChannelClosed) => writer_finish(w, false),
        (WriterPhase::AwaitWrite, WriterEventView::Written) => if w.written() < ACK_BATCH_SIZE {
            (
                Writer { phase: WriterPhase::AwaitMessage, unacked: w.written(), ..w },
                WriterActionView::Receive { ack: None },
            )
        } else {
            (
                Writer { phase: WriterPhase::AwaitMessage, unacked: 0, ..w },
                WriterActionView::Receive { ack: ack_frame(w.conn_id, w.written()) },
            )
        },
        (WriterPhase::AwaitWrite, WriterEventView::WriteFailed) => writer_finish(w, true),
        _ => (w, WriterActionView::Ignore),
    }
}

/// The state of a new writer.
pub open spec fn new_writer(conn_id: u32, report_errors: bool) -> Writer {
    Writer { conn_id, report_errors, phase: WriterPhase::AwaitMessage, unacked: 0 }
}

impl Writer {
    /// Fewer frames are unacknowledged than an ACK counts.
    pub open spec fn wf(self) -> bool {
        self.unacked < ACK_BATCH_SIZE
    }

    /// The unacknowledged frames once one more is written.
    pub open spec fn written(self) -> u32 {
        if self.unacked < u32::MAX {
            (self.unacked + 1) as u32
        } else {
            u32::MAX
        }
    }

    /// A writer whose driver has to wait for a message.
    pub fn new(conn_id: u32, report_errors: bool) -> (writer: Writer)
        ensures
            writer == new_writer(conn_id, report_errors),
            writer.conn_id == conn_id,
            writer.report_errors == report_errors,
            writer.phase == WriterPhase::AwaitMessage,
            writer.unacked == 0,
            writer.wf(),
    {
        Writer { conn_id, report_errors, phase: WriterPhase::AwaitMessage, unacked: 0 }
    }

    /// Takes an event and says what to do.
    pub fn step(&mut self, event: WriterEvent) -> (action: WriterAction)
        ensures
            old(self).wf() ==> final(self).wf(),
            (*final(self), action@) == writer_next(*old(self), event@),
    {
        match (self.phase, event) {
            (WriterPhase::AwaitMessage, WriterEvent::Message(ProxyMsg::Data(bytes))) => {
                self.phase = WriterPhase::AwaitWrite;
                WriterAction::Write(bytes)
            },
            (WriterPhase::AwaitMessage, WriterEvent::Message(ProxyMsg::Close)) => self.finish(
                false,
            ),
            (WriterPhase::AwaitMessage, WriterEvent::ChannelClosed) => self.finish(false),
            (WriterPhase::AwaitWrite, WriterEvent::Written) => {
                self.phase = WriterPhase::AwaitMessage;
                self.unacked = self.unacked.saturating_add(1);
                if self.unacked >= ACK_BATCH_SIZE {
                    WriterAction::Receive { ack: self.take_ack() }
                } else {
                    WriterAction::Receive { ack: None }
                }
            },
            (WriterPhase::AwaitWrite, WriterEvent::WriteFailed) => self.finish(true),
            _ => WriterAction::Ignore,
        }
    }

    fn finish(&mut self, failed: bool) -> (action: WriterAction)
        ensures
            (*final(self), action@) == writer_finish(*old(self), failed),
    {
        self.phase = WriterPhase::Stopped;
        let write_error: Option<Vec<u8>> = if failed && self.report_errors {
            Some(Frame::write_error(self.conn_id).encode())
        } else {
            None
        };
        let ack: Option<Vec<u8>> = self.take_ack();
        WriterAction::Finish { write_error, ack }
    }

    /// The ACK frame for what was written since the last one.
    fn take_ack(&mut self) -> (ack: Option<Vec<u8>>)
        ensures
            *final(self) == (Writer { unacked: 0, ..*old(self) }),
            crate::frame::optional_bytes(ack) == ack_frame(old(self).conn_id, old(self).unacked),
            ack is Some <==> old(self).unacked > 0,
            ack matches Some(bytes) ==> is_ack_on_wire(
                bytes@,
                old(self).conn_id,
                old(self).unacked,
            ),
    {
        if self.unacked == 0 {
            return None;
        }
        proof {
            law_acks_are_of_the_connection(self.conn_id, self.unacked);
        }
        let frame: Frame = Frame::ack(self.conn_id, self.unacked);
        self.unacked = 0;
        Some(frame.encode())
    }
}

/// Whether bytes are an ACK frame of this connection and count on the wire.
pub open spec fn is_ack_on_wire(bytes: Seq<u8>, conn_id: u32, count: u32) -> bool {
    &&& bytes.len() == 13
    &&& crate::frame::number_at(bytes, 0) == conn_id
    &&& bytes[4] == 4
    &&& crate::frame::number_at(bytes, 5) == 4
    &&& crate::frame::number_at(bytes, 9) == count
}

/// Frames that were written are acknowledged by an ACK frame of their own connection that counts
/// them all; there is none where none were.
pub proof fn law_acks_are_of_the_connection(conn_id: u32, count: u32)
    ensures
        ack_frame(conn_id, count) is Some <==> count > 0,
        ack_frame(conn_id, count) matches Some(bytes) ==> is_ack_on_wire(bytes, conn_id, count),
{
    let f = FrameView::ack(conn_id, count);
    crate::frame::law_frames_say_what_they_are_made_for(conn_id, Seq::empty(), count);
    crate::frame::law_wire_layout(f);
    let bytes = f.encoded();
    assert(bytes.skip(9)[0] == bytes[9] && bytes.skip(9)[1] == bytes[10] && bytes.skip(9)[2]
        == bytes[11] && bytes.skip(9)[3] == bytes[12]);
}

/// A writer writes the bytes of a message as they are, and then waits for the outcome. It stops when
/// the peer has closed, no message can come any more, or a write has failed. Nothing else moves it,
/// and it stays with its connection.
pub proof fn law_writer_takes_turns(w: Writer, event: WriterEventView)
    ensures
        ({
            let (next, action) = writer_next(w, event);
            &&& next.conn_id == w.conn_id && next.report_errors == w.report_errors
            &&& action is Write <==> w.phase is AwaitMessage && (
            event matches WriterEventView::Message(ProxyMsgView::Data(_)))
            &&& action matches WriterActionView::Write(bytes) ==> {
                &&& event == WriterEventView::Message(ProxyMsgView::Data(bytes))
                &&& next.phase is AwaitWrite && next.unacked == w.unacked
            }
            &&& action is Receive <==> w.phase is AwaitWrite && event is Written
            &&& action is Receive ==> next.phase is AwaitMessage
            &&& action is Finish <==> {
                ||| w.phase is AwaitMessage && event == WriterEventView::Message(
                    ProxyMsgView::Close,
                )
                ||| w.phase is AwaitMessage && event is ChannelClosed
                ||| w.phase is AwaitWrite && event is WriteFailed
            }
            &&& action is Finish ==> next.phase is Stopped
            &&& action is Ignore ==> next == w
        }),
{
}

/// What a writer has written is acknowledged once it is a batch, or when the writer stops, in an ACK
/// frame of its own connection that counts exactly that. A failed write is reported in a
/// WRITE_ERROR frame of the connection, where the peer is told of such.
pub proof fn law_writer_acks_for_its_connection(w: Writer, event: WriterEventView)
    ensures
        ({
            let (next, action) = writer_next(w, event);
            &&& action matches WriterActionView::Receive { ack } ==> {
                &&& w.unacked + 1 < 64 ==> ack is None && next.unacked == w.unacked + 1
                &&& w.unacked + 1 >= 64 ==> next.unacked == 0 && (ack matches Some(bytes)
                    && exists|count: u32|
                    #[trigger] is_ack_on_wire(bytes, w.conn_id, count) && (count == w.unacked + 1
                        || count == w.unacked == u32::MAX))
            }
            &&& action matches WriterActionView::Finish { write_error, ack } ==> {
                &&& next.unacked == 0
                &&& ack is Some <==> w.unacked > 0
                &&& ack matches Some(bytes) ==> is_ack_on_wire(bytes, w.conn_id, w.unacked)
                &&& write_error is Some <==> event is WriteFailed && w.report_errors
                &&& write_error matches Some(bytes) ==> crate::frame::is_on_wire(
                    bytes,
                    w.conn_id,
                    5,
                    Seq::empty(),
                )
            }
        }),
{
    law_acks_are_of_the_connection(w.conn_id, w.unacked);
    law_acks_are_of_the_connection(w.conn_id, w.written());
    crate::frame::law_wire_layout(FrameView::write_error(w.conn_id));
}

/// A writer's past: its state, what it made its driver do, how many DATA frames were written, and
/// the bytes that it was given to write.
#[verifier::ext_equal]
pub struct WriterRun {
    pub writer: Writer,
    pub actions: Seq<WriterActionView>,
    pub written: nat,
    pub given: Seq<u8>,
}

/// The past of a new writer that took `events`.
pub open spec fn writer_run(
    conn_id: u32,
    report_errors: bool,
    events: Seq<WriterEventView>,
) -> WriterRun
    decreases events.len(),
{
    if events.len() == 0 {
        WriterRun {
            writer: new_writer(conn_id, report_errors),
            actions: Seq::empty(),
            written: 0,
            given: Seq::empty(),
        }
    } else {
        let before = writer_run(conn_id, report_errors, events.drop_last());
        let (writer, action) = writer_next(before.writer, events.last());
        WriterRun {
            writer,
            actions: before.actions.push(action),
            written: match (before.writer.phase, events.last()) {
                (WriterPhase::AwaitWrite, WriterEventView::Written) => before.written + 1,
                _ => before.written,
            },
            given: match (before.writer.phase, events.last()) {
                (
                    WriterPhase::AwaitMessage,
                    WriterEventView::Message(ProxyMsgView::Data(bytes)),
                ) => before.given + bytes,
                _ => before.given,
            },
        }
    }
}

/// How many DATA frames of a connection a frame that may be there acknowledges, as its receiver reads
/// it off the wire: only an ACK frame of that connection counts.
pub open spec fn count_of(conn_id: u32, ack: Option<Seq<u8>>) -> nat {
    match ack {
        Some(bytes) => match crate::frame::decoded(bytes) {
            Ok(frame) => if frame.conn_id == conn_id && frame.frame_type == FRAME_ACK {
                match frame.ack_count() {
                    Ok(count) => count as nat,
                    Err(_) => 0,
                }
            } else {
                0
            },
            Err(_) => 0,
        },
        None => 0,
    }
}

/// The ACK frame that an action sends, if it sends one.
pub open spec fn ack_of(action: WriterActionView) -> Option<Seq<u8>> {
    match action {
        WriterActionView::Receive { ack } => ack,
        WriterActionView::Finish { ack, .. } => ack,
        _ => None,
    }
}

/// The count of the ACK frame for a connection that an action sends.
pub open spec fn acked_by(conn_id: u32, action: WriterActionView) -> nat {
    count_of(conn_id, ack_of(action))
}

/// The sum of the counts of all ACK frames for a connection that the actions send.
pub open spec fn acked(conn_id: u32, actions: Seq<WriterActionView>) -> nat
    decreases actions.len(),
{
    if actions.len() == 0 {
        0
    } else {
        acked(conn_id, actions.drop_last()) + acked_by(conn_id, actions.last())
    }
}

/// The bytes that the actions put on the local stream, in their order.
pub open spec fn bytes_written(actions: Seq<WriterActionView>) -> Seq<u8>
    decreases actions.len(),
{
    if actions.len() == 0 {
        Seq::empty()
    } else {
        bytes_written(actions.drop_last()) + match actions.last() {
            WriterActionView::Write(bytes) => bytes,
            _ => Seq::empty(),
        }
    }
}

/// Every written DATA frame is acknowledged exactly once: by an ACK frame that has been sent, or by
/// the next one. Fewer than a batch wait for that, and none once the writer is done.
pub proof fn law_every_write_is_acked_once(
    conn_id: u32,
    report_errors: bool,
    events: Seq<WriterEventView>,
)
    ensures
        ({
            let run = writer_run(conn_id, report_errors, events);
            &&& run.written == acked(conn_id, run.actions) + run.writer.unacked
            &&& run.writer.unacked < ACK_BATCH_SIZE
            &&& run.writer.phase is Stopped ==> run.writer.unacked == 0
        }),
    decreases events.len(),
{
    if events.len() > 0 {
        let before = writer_run(conn_id, report_errors, events.drop_last());
        law_every_write_is_acked_once(conn_id, report_errors, events.drop_last());
        law_writer_keeps_its_connection(conn_id, report_errors, events.drop_last());
        lemma_push(conn_id, report_errors, events);
        lemma_count_of_ack_frame(conn_id, before.writer.unacked);
        lemma_count_of_ack_frame(conn_id, before.writer.written());
    }
}

/// While a writer goes on, it acknowledges whole batches only.
pub proof fn law_acks_come_in_batches(
    conn_id: u32,
    report_errors: bool,
    events: Seq<WriterEventView>,
)
    ensures
        ({
            let run = writer_run(conn_id, report_errors, events);
            !(run.writer.phase is Stopped) ==> {
                &&& run.writer.unacked == run.written % (ACK_BATCH_SIZE as nat)
                &&& acked(conn_id, run.actions) == run.written - run.written % (ACK_BATCH_SIZE as nat)
            }
        }),
    decreases events.len(),
{
    law_every_write_is_acked_once(conn_id, report_errors, events);
    if events.len() > 0 {
        law_acks_come_in_batches(conn_id, report_errors, events.drop_last());
        law_every_write_is_acked_once(conn_id, report_errors, events.drop_last());
    }
}

/// A writer writes the bytes that it is given, all of them and in their order.
pub proof fn law_bytes_are_written_in_order(
    conn_id: u32,
    report_errors: bool,
    events: Seq<WriterEventView>,
)
    ensures
        ({
            let run = writer_run(conn_id, report_errors, events);
            bytes_written(run.actions) == run.given
        }),
    decreases events.len(),
{
    if events.len() > 0 {
        law_bytes_are_written_in_order(conn_id, report_errors, events.drop_last());
        lemma_push(conn_id, report_errors, events);
        let run = writer_run(conn_id, report_errors, events);
        assert(bytes_written(run.actions) =~= run.given);
    }
}

/// The position of the event that ended a writer, if one did.
pub open spec fn writer_end(
    conn_id: u32,
    report_errors: bool,
    events: Seq<WriterEventView>,
) -> Option<int>
    decreases events.len(),
{
    if events.len() == 0 {
        None
    } else {
        match writer_end(conn_id, report_errors, events.drop_last()) {
            Some(i) => Some(i),
            None => if writer_run(conn_id, report_errors, events).writer.phase is Stopped {
                Some(events.len() - 1)
            } else {
                None
            },
        }
    }
}

/// A writer ends once, and with it its only chance to send a WRITE_ERROR frame: it does so if a
/// write failed and the peer is told of that. What comes later is ignored.
pub proof fn law_writer_ends_once(
    conn_id: u32,
    report_errors: bool,
    events: Seq<WriterEventView>,
)
    ensures
        ({
            let run = writer_run(conn_id, report_errors, events);
            let end = writer_end(conn_id, report_errors, events);
            &&& run.actions.len() == events.len()
            &&& run.writer.phase is Stopped <==> end is Some
            &&& forall|i: int|
                0 <= i < events.len() ==> (end == Some(i) <==> #[trigger] run.actions[i] is Finish)
            &&& end matches Some(i) ==> {
                &&& 0 <= i < events.len()
                &&& run.actions[i]->write_error == if events[i] is WriteFailed && report_errors {
                    Some(FrameView::write_error(conn_id).encoded())
                } else {
                    None
                }
                &&& forall|j: int| i < j < events.len() ==> #[trigger] run.actions[j] is Ignore
            }
        }),
    decreases events.len(),
{
    if events.len() > 0 {
        law_writer_ends_once(conn_id, report_errors, events.drop_last());
        law_writer_keeps_its_connection(conn_id, report_errors, events.drop_last());
    }
}

proof fn lemma_count_of_ack_frame(conn_id: u32, count: u32)
    ensures
        count_of(conn_id, ack_frame(conn_id, count)) == count,
{
    crate::frame::law_ack_reports_its_count(conn_id, count);
}

/// A writer that is made for a connection stays with it.
pub proof fn law_writer_keeps_its_connection(
    conn_id: u32,
    report_errors: bool,
    events: Seq<WriterEventView>,
)
    ensures
        writer_run(conn_id, report_errors, events).writer.conn_id == conn_id,
        writer_run(conn_id, report_errors, events).writer.report_errors == report_errors,
    decreases events.len(),
{
    if events.len() > 0 {
        law_writer_keeps_its_connection(conn_id, report_errors, events.drop_last());
    }
}

/// Every ACK frame that a writer made for a connection ever sends is one of that connection on the
/// wire, whatever happens to the writer, and acknowledges something.
pub proof fn law_writer_sends_only_its_own_acks(
    conn_id: u32,
    report_errors: bool,
    events: Seq<WriterEventView>,
    i: int,
)
    requires
        0 <= i < writer_run(conn_id, report_errors, events).actions.len(),
    ensures
        ack_of(writer_run(conn_id, report_errors, events).actions[i]) matches Some(bytes)
            ==> exists|count: u32|
            count > 0 && #[trigger] is_ack_on_wire(bytes, conn_id, count),
    decreases events.len(),
{
    if events.len() > 0 {
        let front = events.drop_last();
        let before = writer_run(conn_id, report_errors, front);
        let action = writer_run(conn_id, report_errors, events).actions[i];
        lemma_push(conn_id, report_errors, events);
        if i < before.actions.len() {
            law_writer_sends_only_its_own_acks(conn_id, report_errors, front, i);
            assert(action == before.actions[i]);
        } else {
            law_writer_keeps_its_connection(conn_id, report_errors, front);
            law_every_write_is_acked_once(conn_id, report_errors, front);
            law_writer_acks_for_its_connection(before.writer, events.last());
            if let Some(bytes) = ack_of(action) {
                if action is Finish {
                    assert(is_ack_on_wire(bytes, conn_id, before.writer.unacked));
                }
            }
        }
    }
}

proof fn lemma_push(conn_id: u32, report_errors: bool, events: Seq<WriterEventView>)
    requires
        events.len() > 0,
    ensures
        writer_run(conn_id, report_errors, events).actions.drop_last() == writer_run(
            conn_id,
            report_errors,
            events.drop_last(),
        ).actions,
{
    assert(writer_run(conn_id, report_errors, events).actions.drop_last() =~= writer_run(
        conn_id,
        report_errors,
        events.drop_last(),
    ).actions);
}

} // verus!
