//! The half of a relayed TCP connection that reads the local stream: it turns the bytes into DATA
//! frames, one credit of the window each.

use crate::frame::{Frame, FrameView};
use vstd::prelude::*;

verus! {

/// The size of the buffer that a reader reads into.
pub const READ_BUFFER_LEN: usize = 16384;

/// What a reader waits for.
#[derive(Debug, Clone, Copy, PartialEq, Eq, Structural)]
pub enum ReaderPhase {
    /// A credit of the window.
    AwaitPermit,
    /// Bytes of the local stream; a credit is held.
    AwaitRead,
    /// The outcome of sending a DATA frame; a credit is held.
    AwaitSend,
    /// Nothing: the reader is done.
    Stopped,
}

/// What can happen to a reader.
pub enum ReaderEvent<'a> {
    /// A permit was acquired and forgotten, or the window is unlimited.
    Permit,
    /// The local stream gave these bytes; none at its end.
    Read(&'a [u8]),
    /// The local stream could not be read.
    ReadFailed,
    /// The DATA frame was handed to the tunnel.
    Sent,
    /// The tunnel takes no more frames.
    SendFailed,
    /// The peer cannot write what it is sent.
    PeerWriteError,
}

/// An event, its bytes as a sequence.
pub enum ReaderEventView {
    Permit,
    Read(Seq<u8>),
    ReadFailed,
    Sent,
    SendFailed,
    PeerWriteError,
}

impl<'a> View for ReaderEvent<'a> {
    type V = ReaderEventView;

    open spec fn view(&self) -> ReaderEventView {
        match *self {
            ReaderEvent::Permit => ReaderEventView::Permit,
            ReaderEvent::Read(bytes) => ReaderEventView::Read(bytes@),
            ReaderEvent::ReadFailed => ReaderEventView::ReadFailed,
            ReaderEvent::Sent => ReaderEventView::Sent,
            ReaderEvent::SendFailed => ReaderEventView::SendFailed,
            ReaderEvent::PeerWriteError => ReaderEventView::PeerWriteError,
        }
    }
}

/// What a reader's driver has to do next.
#[derive(Debug)]
pub enum ReaderAction {
    /// Read the local stream.
    Read,
    /// Send these bytes through the tunnel.
    Send(Vec<u8>),
    /// Acquire another permit: the frame has used its credit up, and only an ACK brings it back.
    Acquire,
    /// Refund the credit where `refund` says that one is held, send the CLOSE frame where there is
    /// one, and end.
    Stop { refund: bool, close: Option<Vec<u8>> },
    /// Nothing: the event is not one that the reader waits for.
    Ignore,
}

/// An action, its bytes as a sequence.
pub enum ReaderActionView {
    Read,
    Send(Seq<u8>),
    Acquire,
    Stop { refund: bool, close: Option<Seq<u8>> },
    Ignore,
}

impl View for ReaderAction {
    type V = ReaderActionView;

    open spec fn view(&self) -> ReaderActionView {
        match *self {
            ReaderAction::Read => ReaderActionView::Read,
            ReaderAction::Send(bytes) => ReaderActionView::Send(bytes@),
            ReaderAction::Acquire => ReaderActionView::Acquire,
            ReaderAction::Stop { refund, close } => ReaderActionView::Stop {
                refund,
                close: crate::frame::optional_bytes(close),
            },
            ReaderAction::Ignore => ReaderActionView::Ignore,
        }
    }
}

/// The views of events and actions keep every field and every byte.
pub proof fn law_reader_views_keep_all(event: ReaderEvent<'_>, action: ReaderAction)
    ensures
        match event {
            ReaderEvent::Permit => event@ is Permit,
            ReaderEvent::Read(bytes) => event@ == ReaderEventView::Read(bytes@),
            ReaderEvent::ReadFailed => event@ is ReadFailed,
            ReaderEvent::Sent => event@ is Sent,
            ReaderEvent::SendFailed => event@ is SendFailed,
            ReaderEvent::PeerWriteError => event@ is PeerWriteError,
        },
        match action {
            ReaderAction::Read => action@ is Read,
            ReaderAction::Send(bytes) => action@ == ReaderActionView::Send(bytes@),
            ReaderAction::Acquire => action@ is Acquire,
            ReaderAction::Stop { refund, close } => (action@ matches ReaderActionView::Stop {
                refund: r,
                close: c,
            } && r == refund && crate::frame::same_bytes(close, c)),
            ReaderAction::Ignore => action@ is Ignore,
        },
{
}

/// The action that ends a reader and tells the peer so.
pub open spec fn reader_close(conn_id: u32) -> ReaderActionView {
    ReaderActionView::Stop { refund: true, close: Some(FrameView::close(conn_id).encoded()) }
}

/// Where an event takes a reader, and what it makes its driver do.
///
/// A credit is used up only once the frame that it was taken for has been sent, and refunded on every
/// other way out. A CLOSE frame ends the stream, unless it is the peer that reported an error: it
/// knows.
pub open spec fn reader_next(
    conn_id: u32,
    phase: ReaderPhase,
    event: ReaderEventView,
) -> (ReaderPhase, ReaderActionView) {
    match (phase, event) {
        (ReaderPhase::AwaitPermit, ReaderEventView::Permit) => (
            ReaderPhase::AwaitRead,
            ReaderActionView::Read,
        ),
        (ReaderPhase::AwaitPermit, ReaderEventView::PeerWriteError) => (
            ReaderPhase::Stopped,
            ReaderActionView::Stop { refund: false, close: None },
        ),
        (ReaderPhase::AwaitRead, ReaderEventView::Read(bytes)) => if bytes.len() == 0 {
            (ReaderPhase::Stopped, reader_close(conn_id))
        } else {
            (
                ReaderPhase::AwaitSend,
                ReaderActionView::Send(FrameView::data(conn_id, bytes).encoded()),
            )
        },
        (ReaderPhase::AwaitRead, ReaderEventView::ReadFailed) => (
            ReaderPhase::Stopped,
            reader_close(conn_id),
        ),
        (ReaderPhase::AwaitRead, ReaderEventView::PeerWriteError) => (
            ReaderPhase::Stopped,
            ReaderActionView::Stop { refund: true, close: None },
        ),
        (ReaderPhase::AwaitSend, ReaderEventView::Sent) => (
            ReaderPhase::AwaitPermit,
            ReaderActionView::Acquire,
        ),
        (ReaderPhase::AwaitSend, ReaderEventView::SendFailed) => (
            ReaderPhase::Stopped,
            reader_close(conn_id),
        ),
        _ => (phase, ReaderActionView::Ignore),
    }
}

/// The half of a connection that reads the local stream.
#[derive(Debug)]
pub struct Reader {
    pub conn_id: u32,
    pub phase: ReaderPhase,
}

/// The state of a new reader.
pub open spec fn new_reader(conn_id: u32) -> Reader {
    Reader { conn_id, phase: ReaderPhase::AwaitPermit }
}

impl Reader {
    /// A reader whose driver has to acquire a permit.
    pub fn new(conn_id: u32) -> (reader: Reader)
        ensures
            reader == new_reader(conn_id),
            reader.conn_id == conn_id,
            reader.phase == ReaderPhase::AwaitPermit,
    {
        Reader { conn_id, phase: ReaderPhase::AwaitPermit }
    }

    /// Takes an event and says what to do.
    pub fn step(&mut self, event: ReaderEvent<'_>) -> (action: ReaderAction)
        ensures
            final(self).conn_id == old(self).conn_id,
            (final(self).phase, action@) == reader_next(
                old(self).conn_id,
                old(self).phase,
                event@,
            ),
    {
        match (self.phase, event) {
            (ReaderPhase::AwaitPermit, ReaderEvent::Permit) => {
                self.phase = ReaderPhase::AwaitRead;
                ReaderAction::Read
            },
            (ReaderPhase::AwaitPermit, ReaderEvent::PeerWriteError) => {
                self.phase = ReaderPhase::Stopped;
                ReaderAction::Stop { refund: false, close: None }
            },
            (ReaderPhase::AwaitRead, ReaderEvent::Read(bytes)) => if bytes.len() == 0 {
                self.stop_and_close()
            } else {
                self.phase = ReaderPhase::AwaitSend;
                let payload: Vec<u8> = vstd::slice::slice_to_vec(bytes);
                ReaderAction::Send(Frame::data(self.conn_id, payload).encode())
            },
            (ReaderPhase::AwaitRead, ReaderEvent::ReadFailed) => self.stop_and_close(),
            (ReaderPhase::AwaitRead, ReaderEvent::PeerWriteError) => {
                self.phase = ReaderPhase::Stopped;
                ReaderAction::Stop { refund: true, close: None }
            },
            (ReaderPhase::AwaitSend, ReaderEvent::Sent) => {
                self.phase = ReaderPhase::AwaitPermit;
                ReaderAction::Acquire
            },
            (ReaderPhase::AwaitSend, ReaderEvent::SendFailed) => self.stop_and_close(),
            _ => ReaderAction::Ignore,
        }
    }

    fn stop_and_close(&mut self) -> (action: ReaderAction)
        ensures
            final(self).conn_id == old(self).conn_id,
            final(self).phase == ReaderPhase::Stopped,
            action@ == reader_close(old(self).conn_id),
    {
        self.phase = ReaderPhase::Stopped;
        ReaderAction::Stop { refund: true, close: Some(Frame::close(self.conn_id).encode()) }
    }
}

/// A reader goes round in turn: a permit makes it read, bytes make it send them, and once they are
/// sent it wants the next permit. It stops at the end of the local stream, on a failure, and when the
/// peer reports one while it waits for a permit or for bytes. Nothing else moves it.
pub proof fn law_reader_takes_turns(conn_id: u32, phase: ReaderPhase, event: ReaderEventView)
    ensures
        ({
            let (next, action) = reader_next(conn_id, phase, event);
            &&& action is Read <==> phase is AwaitPermit && event is Permit
            &&& action is Read ==> next is AwaitRead
            &&& action is Send <==> phase is AwaitRead && (event matches ReaderEventView::Read(b)
                && b.len() > 0)
            &&& action is Send ==> next is AwaitSend
            &&& action is Acquire <==> phase is AwaitSend && event is Sent
            &&& action is Acquire ==> next is AwaitPermit
            &&& action is Stop <==> {
                ||| phase is AwaitPermit && event is PeerWriteError
                ||| phase is AwaitRead && (event is PeerWriteError || event is ReadFailed)
                ||| phase is AwaitRead && (event matches ReaderEventView::Read(b) && b.len() == 0)
                ||| phase is AwaitSend && event is SendFailed
            }
            &&& action is Stop ==> next is Stopped
            &&& action is Ignore ==> next == phase
        }),
{
}

/// What a reader sends is of its own connection: DATA frames with the bytes that it was given, and a
/// CLOSE frame when it stops, unless the peer knows. It gives a credit back when it stops, unless it
/// was still waiting for one.
pub proof fn law_reader_sends_for_its_connection(
    conn_id: u32,
    phase: ReaderPhase,
    event: ReaderEventView,
)
    ensures
        ({
            let (_, action) = reader_next(conn_id, phase, event);
            &&& action matches ReaderActionView::Send(bytes) ==> (
            event matches ReaderEventView::Read(b) && crate::frame::is_on_wire(
                bytes,
                conn_id,
                2,
                b,
            ))
            &&& action matches ReaderActionView::Stop { refund, close } ==> {
                &&& refund <==> !(phase is AwaitPermit)
                &&& close is None <==> event is PeerWriteError
                &&& close matches Some(bytes) ==> crate::frame::is_on_wire(
                    bytes,
                    conn_id,
                    3,
                    Seq::empty(),
                )
            }
        }),
{
    if let ReaderEventView::Read(b) = event {
        crate::frame::law_wire_layout(FrameView::data(conn_id, b));
    }
    crate::frame::law_wire_layout(FrameView::close(conn_id));
}

/// A reader's past: where its events took it, what it made its driver do, and the bytes that the
/// local stream gave.
#[verifier::ext_equal]
pub struct ReaderRun {
    pub reader: Reader,
    pub actions: Seq<ReaderActionView>,
    pub read: Seq<u8>,
}

/// The past of a new reader that took `events`.
pub open spec fn reader_run(conn_id: u32, events: Seq<ReaderEventView>) -> ReaderRun
    decreases events.len(),
{
    if events.len() == 0 {
        ReaderRun {
            reader: new_reader(conn_id),
            actions: Seq::empty(),
            read: Seq::empty(),
        }
    } else {
        let before = reader_run(conn_id, events.drop_last());
        let (phase, action) = reader_next(
            before.reader.conn_id,
            before.reader.phase,
            events.last(),
        );
        ReaderRun {
            reader: Reader { phase, ..before.reader },
            actions: before.actions.push(action),
            read: match (before.reader.phase, events.last()) {
                (ReaderPhase::AwaitRead, ReaderEventView::Read(bytes)) => before.read + bytes,
                _ => before.read,
            },
        }
    }
}

/// How many credits are taken: one before each read.
pub open spec fn credits_taken(actions: Seq<ReaderActionView>) -> nat
    decreases actions.len(),
{
    if actions.len() == 0 {
        0
    } else {
        credits_taken(actions.drop_last()) + if actions.last() is Read {
            1nat
        } else {
            0
        }
    }
}

/// How many credits the actions use up.
pub open spec fn credits_used(actions: Seq<ReaderActionView>) -> nat
    decreases actions.len(),
{
    if actions.len() == 0 {
        0
    } else {
        credits_used(actions.drop_last()) + if actions.last() is Acquire {
            1nat
        } else {
            0
        }
    }
}

/// How many credits the actions give back.
pub open spec fn credits_refunded(actions: Seq<ReaderActionView>) -> nat
    decreases actions.len(),
{
    if actions.len() == 0 {
        0
    } else {
        credits_refunded(actions.drop_last()) + match actions.last() {
            ReaderActionView::Stop { refund: true, .. } => 1nat,
            _ => 0,
        }
    }
}

/// How many DATA frames the actions hand to the tunnel.
pub open spec fn frames_sent(actions: Seq<ReaderActionView>) -> nat
    decreases actions.len(),
{
    if actions.len() == 0 {
        0
    } else {
        frames_sent(actions.drop_last()) + if actions.last() is Send {
            1nat
        } else {
            0
        }
    }
}

/// The frames that the actions hand to the tunnel, in their order.
pub open spec fn frames_of(actions: Seq<ReaderActionView>) -> Seq<Seq<u8>>
    decreases actions.len(),
{
    if actions.len() == 0 {
        Seq::empty()
    } else {
        let before = frames_of(actions.drop_last());
        match actions.last() {
            ReaderActionView::Send(bytes) => before.push(bytes),
            ReaderActionView::Stop { close: Some(bytes), .. } => before.push(bytes),
            _ => before,
        }
    }
}

/// Whether a reader has sent its CLOSE frame.
pub open spec fn has_closed(actions: Seq<ReaderActionView>) -> bool {
    exists|i: int|
        0 <= i < actions.len() && (#[trigger] actions[i] matches ReaderActionView::Stop {
            close: Some(_),
            ..
        })
}

/// The payloads of frames, one after another, as their receiver reads them off the wire.
pub open spec fn payloads(frames: Seq<Seq<u8>>) -> Seq<u8>
    decreases frames.len(),
{
    if frames.len() == 0 {
        Seq::empty()
    } else {
        payloads(frames.drop_last()) + match crate::frame::decoded(frames.last()) {
            Ok(frame) => frame.payload,
            Err(_) => Seq::empty(),
        }
    }
}

/// Whether every read of a history gives no more bytes than the length field of a frame counts.
pub open spec fn reads_fit(events: Seq<ReaderEventView>) -> bool {
    forall|i: int|
        0 <= i < events.len() ==> (#[trigger] events[i] matches ReaderEventView::Read(bytes)
            ==> bytes.len() <= u32::MAX)
}

/// What happens to a reader that need not wait for permits: it gets one each time, reads a chunk,
/// and the tunnel takes the frame.
pub open spec fn unhindered(chunks: Seq<Seq<u8>>) -> Seq<ReaderEventView>
    decreases chunks.len(),
{
    if chunks.len() == 0 {
        Seq::empty()
    } else {
        unhindered(chunks.drop_last()).push(ReaderEventView::Permit).push(
            ReaderEventView::Read(chunks.last()),
        ).push(ReaderEventView::Sent)
    }
}

/// How many credits a reader holds.
pub open spec fn credits_held(phase: ReaderPhase) -> nat {
    match phase {
        ReaderPhase::AwaitRead | ReaderPhase::AwaitSend => 1,
        _ => 0,
    }
}

/// Every credit that a reader takes is held, given back or used up, exactly one of them.
pub proof fn law_no_credit_is_lost(conn_id: u32, events: Seq<ReaderEventView>)
    ensures
        ({
            let run = reader_run(conn_id, events);
            credits_taken(run.actions) == credits_held(run.reader.phase) + credits_refunded(run.actions)
                + credits_used(run.actions)
        }),
    decreases events.len(),
{
    if events.len() > 0 {
        law_no_credit_is_lost(conn_id, events.drop_last());
        lemma_push(conn_id, events);
    }
}

/// As many credits are used up as DATA frames are sent, but for the frame whose sending has not
/// ended, or has failed: a failed frame costs no credit.
pub proof fn law_one_credit_per_frame(conn_id: u32, events: Seq<ReaderEventView>)
    ensures
        ({
            let run = reader_run(conn_id, events);
            let forgotten = credits_used(run.actions);
            &&& run.reader.phase is AwaitSend ==> frames_sent(run.actions) == forgotten + 1
            &&& run.reader.phase is AwaitPermit || run.reader.phase is AwaitRead ==> frames_sent(run.actions)
                == forgotten
            &&& forgotten <= frames_sent(run.actions) <= forgotten + 1
        }),
    decreases events.len(),
{
    if events.len() > 0 {
        law_one_credit_per_frame(conn_id, events.drop_last());
        lemma_push(conn_id, events);
    }
}

/// The position of the event that ended a reader, if one did.
pub open spec fn reader_end(conn_id: u32, events: Seq<ReaderEventView>) -> Option<int>
    decreases events.len(),
{
    if events.len() == 0 {
        None
    } else {
        match reader_end(conn_id, events.drop_last()) {
            Some(i) => Some(i),
            None => if reader_run(conn_id, events).reader.phase is Stopped {
                Some(events.len() - 1)
            } else {
                None
            },
        }
    }
}

/// A reader ends once: with a CLOSE frame, unless the event that ended it is the peer's write
/// error. What comes later is ignored.
pub proof fn law_reader_ends_once(conn_id: u32, events: Seq<ReaderEventView>)
    ensures
        reader_run(conn_id, events).actions.len() == events.len(),
        reader_run(conn_id, events).reader.phase is Stopped <==> reader_end(conn_id, events) is Some,
        forall|i: int|
            0 <= i < events.len() ==> (reader_end(conn_id, events) == Some(i)
                <==> #[trigger] reader_run(conn_id, events).actions[i] is Stop),
        reader_end(conn_id, events) matches Some(i) ==> {
            let actions = reader_run(conn_id, events).actions;
            &&& 0 <= i < events.len()
            &&& events[i] is PeerWriteError ==> actions[i]->close is None
            &&& !(events[i] is PeerWriteError) ==> actions[i] == reader_close(conn_id)
            &&& forall|j: int| i < j < events.len() ==> #[trigger] actions[j] is Ignore
        },
    decreases events.len(),
{
    if events.len() > 0 {
        law_reader_ends_once(conn_id, events.drop_last());
        law_reader_keeps_its_connection(conn_id, events.drop_last());
    }
}

/// What a reader sends is DATA frames of its connection, whose payloads are the bytes that it read,
/// all of them and in their order. Then comes one CLOSE frame, unless the reader goes on or the peer
/// reported a write error.
pub proof fn law_frames_carry_what_was_read(conn_id: u32, events: Seq<ReaderEventView>)
    requires
        reads_fit(events),
    ensures
        ({
            let run = reader_run(conn_id, events);
            let frames = frames_of(run.actions);
            let n = frames_sent(run.actions);
            &&& frames.len() == if has_closed(run.actions) {
                n + 1
            } else {
                n
            }
            &&& forall|i: int|
                0 <= i < n ==> (crate::frame::decoded(#[trigger] frames[i]) matches Ok(frame)
                    && frame == FrameView::data(conn_id, frame.payload))
            &&& payloads(frames.take(n as int)) == run.read
            &&& has_closed(run.actions) ==> frames.last() == FrameView::close(conn_id).encoded()
            &&& has_closed(run.actions) <==> (reader_end(conn_id, events) matches Some(i)
                && !(events[i] is PeerWriteError))
        }),
    decreases events.len(),
{
    law_reader_ends_once(conn_id, events);
    let run = reader_run(conn_id, events);
    let frames = frames_of(run.actions);
    let n: int = frames_sent(run.actions) as int;
    if events.len() > 0 {
        let front = events.drop_last();
        assert(reads_fit(front)) by {
            assert forall|i: int| 0 <= i < front.len() implies (
            #[trigger] front[i] matches ReaderEventView::Read(bytes) ==> bytes.len() <= u32::MAX) by {
                assert(front[i] == events[i]);
            }
        }
        law_frames_carry_what_was_read(conn_id, front);
        law_reader_keeps_its_connection(conn_id, front);
        law_reader_ends_once(conn_id, front);
        lemma_push(conn_id, events);
        let before = reader_run(conn_id, front);
        let action = run.actions.last();
        assert(run.actions =~= before.actions.push(action));
        lemma_has_closed_push(before.actions, action);
        let old_frames = frames_of(before.actions);
        match action {
            ReaderActionView::Send(bytes) => {
                assert(events.last() == events[events.len() - 1]);
                let chunk = events.last()->Read_0;
                crate::frame::law_roundtrip(FrameView::data(conn_id, chunk));
                assert(frames.take(n) =~= frames);
                assert(frames.drop_last() =~= old_frames);
                assert(old_frames.take(n - 1) =~= old_frames);
            },
            ReaderActionView::Stop { close: Some(bytes), .. } => {
                assert(frames.take(n) =~= old_frames.take(n));
                assert(run.read =~= before.read);
            },
            _ => {
                assert(run.read =~= before.read);
            },
        }
    } else {
        assert(frames.take(n) =~= frames);
    }
}

/// A reader sets no limit of its own: where there is always a permit, as without a window, it sends
/// whatever the local stream gives.
pub proof fn law_unhindered_reader_sends_all(conn_id: u32, chunks: Seq<Seq<u8>>)
    requires
        forall|i: int| 0 <= i < chunks.len() ==> (#[trigger] chunks[i]).len() > 0,
    ensures
        ({
            let run = reader_run(conn_id, unhindered(chunks));
            &&& frames_sent(run.actions) == chunks.len()
            &&& run.read == chunks.flatten()
            &&& run.reader.phase is AwaitPermit
        }),
    decreases chunks.len(),
{
    if chunks.len() > 0 {
        let front = chunks.drop_last();
        assert forall|i: int| 0 <= i < front.len() implies (#[trigger] front[i]).len() > 0 by {
            assert(front[i] == chunks[i]);
        }
        law_unhindered_reader_sends_all(conn_id, front);
        assert(chunks.last() == chunks[chunks.len() - 1]);
        let before = unhindered(front);
        let one = before.push(ReaderEventView::Permit);
        let two = one.push(ReaderEventView::Read(chunks.last()));
        let three = two.push(ReaderEventView::Sent);
        assert(one.drop_last() =~= before);
        assert(two.drop_last() =~= one);
        assert(three.drop_last() =~= two);
        lemma_push(conn_id, one);
        lemma_push(conn_id, two);
        lemma_push(conn_id, three);
        let sent = frames_sent(reader_run(conn_id, before).actions);
        assert(reader_run(conn_id, one).reader.phase is AwaitRead);
        assert(frames_sent(reader_run(conn_id, one).actions) == sent);
        assert(reader_run(conn_id, two).reader.phase is AwaitSend);
        assert(frames_sent(reader_run(conn_id, two).actions) == sent + 1);
        assert(frames_sent(reader_run(conn_id, three).actions) == sent + 1);
        chunks.lemma_flatten_and_flatten_alt_are_equivalent();
        front.lemma_flatten_and_flatten_alt_are_equivalent();
        assert(reader_run(conn_id, three).read =~= chunks.flatten());
    } else {
        assert(reader_run(conn_id, unhindered(chunks)).read =~= chunks.flatten());
    }
}

/// A reader that is made for a connection stays with it.
pub proof fn law_reader_keeps_its_connection(conn_id: u32, events: Seq<ReaderEventView>)
    ensures
        reader_run(conn_id, events).reader.conn_id == conn_id,
    decreases events.len(),
{
    if events.len() > 0 {
        law_reader_keeps_its_connection(conn_id, events.drop_last());
    }
}

/// Every frame that a reader made for a connection ever sends is one of that connection on the wire,
/// whatever happens to the reader: bytes that it was given, in a DATA frame, or a CLOSE frame.
pub proof fn law_frames_are_of_the_connection(conn_id: u32, events: Seq<ReaderEventView>, i: int)
    requires
        0 <= i < frames_of(reader_run(conn_id, events).actions).len(),
    ensures
        ({
            let bytes = frames_of(reader_run(conn_id, events).actions)[i];
            ||| crate::frame::is_on_wire(bytes, conn_id, 3, Seq::empty())
            ||| exists|j: int|
                0 <= j < events.len() && (#[trigger] events[j] matches ReaderEventView::Read(b)
                    && crate::frame::is_on_wire(bytes, conn_id, 2, b))
        }),
    decreases events.len(),
{
    if events.len() > 0 {
        let front = events.drop_last();
        let before = reader_run(conn_id, front);
        lemma_push(conn_id, events);
        law_reader_keeps_its_connection(conn_id, front);
        law_reader_sends_for_its_connection(conn_id, before.reader.phase, events.last());
        if i < frames_of(before.actions).len() {
            law_frames_are_of_the_connection(conn_id, front, i);
            let bytes = frames_of(before.actions)[i];
            assert(frames_of(reader_run(conn_id, events).actions)[i] == bytes);
            if !crate::frame::is_on_wire(bytes, conn_id, 3, Seq::empty()) {
                let j = choose|j: int|
                    0 <= j < front.len() && (#[trigger] front[j] matches ReaderEventView::Read(b)
                        && crate::frame::is_on_wire(bytes, conn_id, 2, b));
                assert(events[j] == front[j]);
            }
        } else {
            assert(events[events.len() - 1] == events.last());
        }
    }
}

pub(crate) proof fn lemma_push(conn_id: u32, events: Seq<ReaderEventView>)
    requires
        events.len() > 0,
    ensures
        reader_run(conn_id, events).actions.drop_last() == reader_run(
            conn_id,
            events.drop_last(),
        ).actions,
{
    assert(reader_run(conn_id, events).actions.drop_last() =~= reader_run(
        conn_id,
        events.drop_last(),
    ).actions);
}

pub(crate) proof fn lemma_has_closed_push(actions: Seq<ReaderActionView>, action: ReaderActionView)
    ensures
        has_closed(actions.push(action)) <==> has_closed(actions) || (
        action matches ReaderActionView::Stop { close: Some(_), .. }),
{
    let longer = actions.push(action);
    if has_closed(actions) {
        let i = choose|i: int|
            0 <= i < actions.len() && (#[trigger] actions[i] matches ReaderActionView::Stop {
                close: Some(_),
                ..
            });
        assert(longer[i] == actions[i]);
    }
    if action matches ReaderActionView::Stop { close: Some(_), .. } {
        assert(longer[actions.len() as int] == action);
    }
    if has_closed(longer) {
        let i = choose|i: int|
            0 <= i < longer.len() && (#[trigger] longer[i] matches ReaderActionView::Stop {
                close: Some(_),
                ..
            });
        if i < actions.len() {
            assert(actions[i] == longer[i]);
        }
    }
}

} // verus!
