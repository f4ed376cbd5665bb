//! What the credits of a window do over the life of a connection.

use crate::capacity::{WindowChange, WindowView, ACK_BATCH_SIZE, MAX_PERMITS};
use crate::reader::{ReaderActionView, ReaderEventView, ReaderPhase, ReaderRun};
use crate::writer::{WriterEventView, WriterPhase};
use vstd::prelude::*;

verus! {

/// What happens to the window of a connection: its reader takes an event, or an ACK is applied to
/// it.
pub enum FlowEvent {
    Reader(ReaderEventView),
    Ack(u32),
}

/// The events of the reader, out of a history.
pub open spec fn reader_events(history: Seq<FlowEvent>) -> Seq<ReaderEventView>
    decreases history.len(),
{
    if history.len() == 0 {
        Seq::empty()
    } else {
        let before = reader_events(history.drop_last());
        match history.last() {
            FlowEvent::Reader(event) => before.push(event),
            FlowEvent::Ack(_) => before,
        }
    }
}

/// The reader of a connection after a history.
pub open spec fn reader_after(conn_id: u32, history: Seq<FlowEvent>) -> ReaderRun {
    crate::reader::reader_run(conn_id, reader_events(history))
}

/// What an action of a reader does to the window: a permit is forgotten before it reads, and its
/// credit comes back where it stops with a permit that it sent no frame for.
pub open spec fn change_by(action: ReaderActionView) -> Seq<WindowChange> {
    match action {
        ReaderActionView::Read => seq![WindowChange::Spent],
        ReaderActionView::Stop { refund: true, .. } => seq![WindowChange::Refunded],
        _ => Seq::empty(),
    }
}

/// What a history does to the window.
pub open spec fn changes_of(conn_id: u32, history: Seq<FlowEvent>) -> Seq<WindowChange>
    decreases history.len(),
{
    if history.len() == 0 {
        Seq::empty()
    } else {
        changes_of(conn_id, history.drop_last()) + match history.last() {
            FlowEvent::Reader(_) => change_by(reader_after(conn_id, history).actions.last()),
            FlowEvent::Ack(count) => seq![WindowChange::Acked(count)],
        }
    }
}

/// The permits that are left of a window after a history.
pub open spec fn available(conn_id: u32, window: WindowView, history: Seq<FlowEvent>) -> nat {
    crate::capacity::window_after_all(window, changes_of(conn_id, history)).live
}

/// The frames that are acknowledged in a history.
pub open spec fn acked(conn_id: u32, history: Seq<FlowEvent>) -> nat {
    crate::capacity::acked_in(changes_of(conn_id, history))
}

/// The DATA frames that have been sent and not been acknowledged.
pub open spec fn in_flight(conn_id: u32, history: Seq<FlowEvent>) -> int {
    crate::reader::frames_sent(reader_after(conn_id, history).actions) - acked(conn_id, history)
}

/// Whether, each time that an ACK comes, no more frames have been acknowledged than credits were used
/// up by frames that were sent.
pub open spec fn acks_match_frames(conn_id: u32, history: Seq<FlowEvent>) -> bool
    decreases history.len(),
{
    history.len() == 0 || {
        &&& acks_match_frames(conn_id, history.drop_last())
        &&& history.last() is Ack ==> acked(conn_id, history) <= crate::reader::credits_used(
            reader_after(conn_id, history).actions,
        )
    }
}

/// No more frames are ever in flight than the window was made with: a reader sends a frame only after
/// a permit that there was is forgotten, and only ACKs bring new ones.
pub proof fn law_in_flight_within_window(
    conn_id: u32,
    window: WindowView,
    history: Seq<FlowEvent>,
)
    requires
        crate::capacity::spends_are_live(window, changes_of(conn_id, history)),
    ensures
        in_flight(conn_id, history) <= window.live,
    decreases history.len(),
{
    lemma_changes_of_reader(conn_id, history);
    crate::capacity::law_window_adds_up(window, changes_of(conn_id, history));
    crate::reader::law_one_credit_per_frame(conn_id, reader_events(history));
    crate::reader::law_no_credit_is_lost(conn_id, reader_events(history));
    if history.len() > 0 {
        lemma_step(conn_id, history);
        lemma_changes_push(conn_id, history);
        law_in_flight_within_window(conn_id, window, history.drop_last());
        if history.last() is Reader {
            crate::reader::lemma_push(conn_id, reader_events(history));
        }
    }
}

/// A window is made up of the permits that are left, the credit that the reader holds, if any, and the
/// frames that have been sent and not been acknowledged. Sending a frame uses a credit up, and only an
/// ACK brings it back.
pub proof fn law_window_is_accounted_for(
    conn_id: u32,
    window: WindowView,
    history: Seq<FlowEvent>,
)
    requires
        crate::capacity::spends_are_live(window, changes_of(conn_id, history)),
        crate::capacity::credits_have_room(window, changes_of(conn_id, history)),
    ensures
        ({
            let run = reader_after(conn_id, history);
            available(conn_id, window, history) + crate::reader::credits_held(run.reader.phase)
                + crate::reader::credits_used(run.actions) - acked(conn_id, history)
                == window.live
        }),
{
    lemma_changes_of_reader(conn_id, history);
    crate::capacity::law_window_adds_up(window, changes_of(conn_id, history));
    crate::reader::law_no_credit_is_lost(conn_id, reader_events(history));
}

/// There is room for every credit as long as the peer acknowledges no more frames than it was sent.
pub proof fn law_matching_acks_have_room(
    conn_id: u32,
    window: WindowView,
    history: Seq<FlowEvent>,
)
    requires
        window.live <= MAX_PERMITS,
        crate::capacity::spends_are_live(window, changes_of(conn_id, history)),
        acks_match_frames(conn_id, history),
    ensures
        crate::capacity::credits_have_room(window, changes_of(conn_id, history)),
{
    lemma_credits_match(conn_id, history);
    crate::capacity::law_matching_credits_have_room(window, changes_of(conn_id, history));
}

/// Once every frame is acknowledged and no credit is held, the whole window is there again, however
/// the frames were split into ACKs.
pub proof fn law_acks_restore_the_window(
    conn_id: u32,
    window: WindowView,
    history: Seq<FlowEvent>,
)
    requires
        window.live <= MAX_PERMITS,
        crate::capacity::spends_are_live(window, changes_of(conn_id, history)),
        acks_match_frames(conn_id, history),
        crate::reader::credits_held(reader_after(conn_id, history).reader.phase) == 0,
        acked(conn_id, history) == crate::reader::credits_used(
            reader_after(conn_id, history).actions,
        ),
    ensures
        available(conn_id, window, history) == window.live,
{
    law_matching_acks_have_room(conn_id, window, history);
    law_window_is_accounted_for(conn_id, window, history);
}

/// A window of at least a batch never stalls: when the peer has written all that was sent, and its
/// ACKs have come, there is a permit for a reader that waits for one.
pub proof fn law_window_of_a_batch_never_stalls(
    conn_id: u32,
    window: WindowView,
    history: Seq<FlowEvent>,
    report_errors: bool,
    written: Seq<WriterEventView>,
)
    requires
        window.live >= ACK_BATCH_SIZE,
        crate::capacity::spends_are_live(window, changes_of(conn_id, history)),
        crate::capacity::credits_have_room(window, changes_of(conn_id, history)),
        reader_after(conn_id, history).reader.phase == ReaderPhase::AwaitPermit,
        crate::writer::writer_run(conn_id, report_errors, written).written
            == crate::reader::frames_sent(reader_after(conn_id, history).actions),
        acked(conn_id, history) == crate::writer::acked(
            conn_id,
            crate::writer::writer_run(conn_id, report_errors, written).actions,
        ),
    ensures
        available(conn_id, window, history) >= 1,
{
    law_window_is_accounted_for(conn_id, window, history);
    crate::reader::law_one_credit_per_frame(conn_id, reader_events(history));
    crate::writer::law_every_write_is_acked_once(conn_id, report_errors, written);
}

/// A window smaller than a batch stalls: when it is used up, the peer has written all that was sent
/// and goes on waiting, and no ACK has been sent, so there is no permit and none will come.
pub proof fn law_smaller_window_stalls(
    conn_id: u32,
    window: WindowView,
    history: Seq<FlowEvent>,
    report_errors: bool,
    written: Seq<WriterEventView>,
)
    requires
        window.live < ACK_BATCH_SIZE,
        crate::capacity::spends_are_live(window, changes_of(conn_id, history)),
        reader_after(conn_id, history).reader.phase == ReaderPhase::AwaitPermit,
        crate::reader::frames_sent(reader_after(conn_id, history).actions) == window.live,
        crate::writer::writer_run(conn_id, report_errors, written).written == window.live,
        crate::writer::writer_run(conn_id, report_errors, written).writer.phase
            != WriterPhase::Stopped,
        acked(conn_id, history) == crate::writer::acked(
            conn_id,
            crate::writer::writer_run(conn_id, report_errors, written).actions,
        ),
    ensures
        crate::writer::acked(conn_id, crate::writer::writer_run(conn_id, report_errors, written).actions)
            == 0,
        available(conn_id, window, history) == 0,
{
    crate::writer::law_acks_come_in_batches(conn_id, report_errors, written);
    assert(window.live % (ACK_BATCH_SIZE as nat) == window.live);
    lemma_without_acks(conn_id, history);
    law_matching_acks_have_room(conn_id, window, history);
    law_window_is_accounted_for(conn_id, window, history);
    crate::reader::law_one_credit_per_frame(conn_id, reader_events(history));
}

proof fn lemma_step(conn_id: u32, history: Seq<FlowEvent>)
    requires
        history.len() > 0,
    ensures
        reader_events(history.drop_last()) == match history.last() {
            FlowEvent::Reader(_) => reader_events(history).drop_last(),
            FlowEvent::Ack(_) => reader_events(history),
        },
        history.last() matches FlowEvent::Reader(event) ==> reader_events(history).len() > 0
            && reader_events(history).last() == event,
{
    if history.last() is Reader {
        assert(reader_events(history).drop_last() =~= reader_events(history.drop_last()));
    }
}

/// The last event adds one change at most.
proof fn lemma_changes_push(conn_id: u32, history: Seq<FlowEvent>)
    requires
        history.len() > 0,
    ensures
        ({
            let changes = changes_of(conn_id, history);
            let before = changes_of(conn_id, history.drop_last());
            changes == before || changes.len() > 0 && changes.drop_last() == before
        }),
{
    let changes = changes_of(conn_id, history);
    let before = changes_of(conn_id, history.drop_last());
    if changes.len() == before.len() {
        assert(changes =~= before);
    } else {
        assert(changes.drop_last() =~= before);
    }
}

proof fn lemma_changes_of_reader(conn_id: u32, history: Seq<FlowEvent>)
    ensures
        ({
            let actions = reader_after(conn_id, history).actions;
            let changes = changes_of(conn_id, history);
            &&& crate::capacity::spent_in(changes) == crate::reader::credits_taken(actions)
            &&& crate::capacity::refunded_in(changes) == crate::reader::credits_refunded(actions)
        }),
    decreases history.len(),
{
    if history.len() > 0 {
        lemma_changes_of_reader(conn_id, history.drop_last());
        lemma_step(conn_id, history);
        lemma_changes_push(conn_id, history);
        if history.last() is Reader {
            crate::reader::lemma_push(conn_id, reader_events(history));
        }
    }
}

proof fn lemma_without_acks(conn_id: u32, history: Seq<FlowEvent>)
    requires
        acked(conn_id, history) == 0,
    ensures
        acks_match_frames(conn_id, history),
    decreases history.len(),
{
    if history.len() > 0 {
        lemma_changes_push(conn_id, history);
        lemma_without_acks(conn_id, history.drop_last());
    }
}

proof fn lemma_credits_match(conn_id: u32, history: Seq<FlowEvent>)
    requires
        acks_match_frames(conn_id, history),
    ensures
        crate::capacity::credits_match_spends(changes_of(conn_id, history)),
        acked(conn_id, history) <= crate::reader::credits_used(
            reader_after(conn_id, history).actions,
        ),
    decreases history.len(),
{
    if history.len() > 0 {
        lemma_credits_match(conn_id, history.drop_last());
        lemma_step(conn_id, history);
        lemma_changes_push(conn_id, history);
        lemma_changes_of_reader(conn_id, history);
        crate::reader::law_no_credit_is_lost(conn_id, reader_events(history));
        if history.last() is Reader {
            crate::reader::lemma_push(conn_id, reader_events(history));
        }
    }
}

} // verus!
