//! The public end of the tunnel: it relays every visitor's connection to the tunnel client.

use crate::capacity::{CapacityConfig, FlowAck, WindowView, MAX_PERMITS};
use crate::conn_table::{ConnTable, ConnView};
use crate::frame::{Frame, FrameView, FRAME_ACK, FRAME_CLOSE, FRAME_DATA};
use crate::reader::Reader;
use crate::tunnel::{Ignored, TunnelAction, TunnelActionView, TunnelEvent, TunnelEventView};
use crate::writer::Writer;
use std::sync::Arc;
use tokio::sync::{OwnedSemaphorePermit, Semaphore};
use vstd::prelude::*;

verus! {

/// The bytes of a new connection that are looked at to tell the tunnel client from a visitor.
pub const PEEK_LEN: usize = 512;

/// The tunnel client that is connected, if any, and how often one has connected.
///
/// Each tunnel keeps the session number that it was given. One that ends after another has
/// replaced it is told by the number, and leaves the newer tunnel alone.
pub struct TunnelState<T> {
    pub session: u64,
    pub tx: Option<T>,
}

/// What all tasks of a server share. `T` reaches the tunnel client, `H` a visitor's writer.
pub struct AppState<T, H> {
    pub tunnel: TunnelState<T>,
    pub conns: ConnTable<H>,
    pub next_id: u32,
    pub config: CapacityConfig,
}

/// A visitor that has been let in.
pub struct Admission {
    pub conn_id: u32,
    /// The credits for its reader; none where its window is unlimited.
    pub inflight: Option<Arc<Semaphore>>,
    /// The OPEN frame to send to the tunnel client.
    pub open: Vec<u8>,
    pub reader: Reader,
    /// Does not report failed writes to the tunnel client.
    pub writer: Writer,
}

/// The session number after `session`.
pub open spec fn next_session(session: u64) -> u64 {
    if session < u64::MAX {
        (session + 1) as u64
    } else {
        0
    }
}

/// The connection id after `id`.
pub open spec fn next_conn_id(id: u32) -> u32 {
    if id < u32::MAX {
        (id + 1) as u32
    } else {
        0
    }
}

/// What a server does about a frame of the tunnel client, the connections being `conns`.
pub open spec fn server_action<H>(
    conns: Map<u32, ConnView<H>>,
    frame: FrameView,
) -> TunnelActionView {
    if frame.frame_type == FRAME_DATA {
        crate::tunnel::on_data(conns, frame)
    } else if frame.frame_type == FRAME_ACK {
        crate::tunnel::on_ack(conns, frame)
    } else if frame.frame_type == FRAME_CLOSE {
        crate::tunnel::on_close(conns, frame)
    } else {
        TunnelActionView::Ignore(Ignored::UnexpectedType(frame.frame_type))
    }
}

/// What a server does about what the WebSocket of a tunnel brings.
pub open spec fn server_event_action<H>(
    conns: Map<u32, ConnView<H>>,
    event: TunnelEventView,
) -> TunnelActionView {
    match event {
        TunnelEventView::Binary(bytes) => match crate::frame::decoded(bytes) {
            Ok(frame) => server_action(conns, frame),
            Err(error) => TunnelActionView::Ignore(Ignored::BadFrame(error)),
        },
        TunnelEventView::Pong | TunnelEventView::Other => TunnelActionView::Ignore(
            Ignored::NoFrame,
        ),
        TunnelEventView::Close
        | TunnelEventView::Failed
        | TunnelEventView::Ended => TunnelActionView::Leave,
    }
}

/// A server's connections after what the WebSocket of a tunnel brings.
pub open spec fn server_event_conns<H>(
    conns: Map<u32, ConnView<H>>,
    event: TunnelEventView,
) -> Map<u32, ConnView<H>> {
    match event {
        TunnelEventView::Binary(bytes) => match crate::frame::decoded(bytes) {
            Ok(frame) => crate::tunnel::conns_after(conns, frame),
            Err(_) => conns,
        },
        _ => conns,
    }
}

impl<T, H> AppState<T, H> {
    /// Every window keeps its account, and without a tunnel client there are no visitors.
    pub open spec fn wf(self) -> bool {
        &&& self.conns.wf()
        &&& self.tunnel.tx is None ==> self.conns@ == Map::<u32, ConnView<H>>::empty()
    }

    /// No tunnel client and no visitor; the first connection id is 1.
    pub fn new(config: CapacityConfig) -> (state: AppState<T, H>)
        ensures
            state.wf(),
            state.tunnel == (TunnelState { session: 0, tx: None::<T> }),
            state.conns@ == Map::<u32, ConnView<H>>::empty(),
            state.next_id == 1,
            state.config == config,
    {
        AppState {
            tunnel: TunnelState { session: 0, tx: None },
            conns: ConnTable::new(),
            next_id: 1,
            config,
        }
    }

    /// Hands out a connection id; they wrap around.
    pub fn next_conn_id(&mut self) -> (conn_id: u32)
        ensures
            old(self).wf() ==> final(self).wf(),
            conn_id == old(self).next_id,
            final(self).next_id == next_conn_id(old(self).next_id),
            final(self).next_id == (old(self).next_id + 1) % 0x1_0000_0000,
            final(self).tunnel == old(self).tunnel,
            final(self).conns == old(self).conns,
            final(self).config == old(self).config,
    {
        let conn_id: u32 = self.next_id;
        self.next_id = conn_id.wrapping_add(1);
        conn_id
    }

    /// A tunnel client has connected: it replaces the one before, whose visitors are dropped.
    /// Returns its session number.
    pub fn register_tunnel(&mut self, tx: T) -> (session: u64)
        ensures
            final(self).wf(),
            session == next_session(old(self).tunnel.session),
            session == (old(self).tunnel.session + 1) % 0x1_0000_0000_0000_0000,
            final(self).tunnel == (TunnelState { session, tx: Some(tx) }),
            final(self).conns@ == Map::<u32, ConnView<H>>::empty(),
            final(self).next_id == old(self).next_id,
            final(self).config == old(self).config,
    {
        let session: u64 = self.tunnel.session.wrapping_add(1);
        self.tunnel.session = session;
        self.tunnel.tx = Some(tx);
        self.conns.clear();
        session
    }

    /// The tunnel of this session has ended. Unless another has replaced it, there is no tunnel
    /// client any more, and the visitors are dropped. Returns whether it was the current one.
    pub fn unregister_tunnel(&mut self, session: u64) -> (was_active: bool)
        ensures
            old(self).wf() ==> final(self).wf(),
            was_active <==> old(self).tunnel.session == session,
            was_active ==> final(self).tunnel == (TunnelState { session, tx: None::<T> }),
            was_active ==> final(self).conns@ == Map::<u32, ConnView<H>>::empty(),
            !was_active ==> final(self).tunnel == old(self).tunnel,
            !was_active ==> final(self).conns@ == old(self).conns@,
            final(self).next_id == old(self).next_id,
            final(self).config == old(self).config,
    {
        if self.tunnel.session == session {
            self.tunnel.tx = None;
            self.conns.clear();
            true
        } else {
            false
        }
    }

    /// A visitor has connected. Without a tunnel client it is turned away; otherwise it gets an id
    /// and a window.
    pub fn open_visitor(&mut self, handle: H) -> (admission: Option<Admission>)
        requires
            old(self).tunnel.tx is Some ==> old(self).config.max_pending_messages_per_connection
                <= MAX_PERMITS,
        ensures
            old(self).wf() ==> final(self).wf(),
            admission is None <==> old(self).tunnel.tx is None,
            admission is None ==> final(self).conns@ == old(self).conns@ && final(self).next_id
                == old(self).next_id,
            admission matches Some(a) ==> {
                &&& a.conn_id == old(self).next_id
                &&& final(self).next_id == next_conn_id(old(self).next_id)
                &&& crate::conn_table::is_fresh(
                    final(self).conns@[a.conn_id],
                    handle,
                    old(self).config.max_pending_messages_per_connection,
                )
                &&& final(self).conns@ == old(self).conns@.insert(
                    a.conn_id,
                    final(self).conns@[a.conn_id],
                )
                &&& crate::conn_table::acquires_from(
                    a.inflight,
                    final(self).conns@[a.conn_id],
                )
                &&& final(self).conns@[a.conn_id].handle == handle
                &&& !final(self).conns@[a.conn_id].remote_closed
                &&& a.inflight is None <==> old(self).config.max_pending_messages_per_connection
                    == 0
                &&& a.inflight matches Some(sem) ==> final(self).conns@[a.conn_id].inflight == Some(
                    WindowView {
                        semaphore: *sem,
                        live: old(self).config.max_pending_messages_per_connection as nat,
                    },
                )
                &&& crate::frame::is_on_wire(a.open@, a.conn_id, 1, Seq::empty())
                &&& a.reader.conn_id == a.conn_id
                &&& a.writer.conn_id == a.conn_id && !a.writer.report_errors
                &&& final(self).next_id == (a.conn_id + 1) % 0x1_0000_0000
                &&& a.open@ == FrameView::open(a.conn_id).encoded()
                &&& a.reader == crate::reader::new_reader(a.conn_id)
                &&& a.writer == crate::writer::new_writer(a.conn_id, false)
            },
            final(self).tunnel == old(self).tunnel,
            final(self).config == old(self).config,
    {
        if self.tunnel.tx.is_none() {
            return None;
        }
        let conn_id: u32 = self.next_conn_id();
        let inflight: Option<Arc<Semaphore>> = self.conns.open(
            conn_id,
            handle,
            self.config.max_pending_messages_per_connection,
        );
        proof {
            crate::frame::law_wire_layout(FrameView::open(conn_id));
        }
        Some(
            Admission {
                conn_id,
                inflight,
                open: Frame::open(conn_id).encode(),
                reader: Reader::new(conn_id),
                writer: Writer::new(conn_id, false),
            },
        )
    }

    /// A connection's reader has acquired a permit: it is forgotten. One that the connection's window
    /// did not issue is handed back.
    pub fn spend(&mut self, conn_id: u32, permit: OwnedSemaphorePermit) -> (foreign: Option<
        OwnedSemaphorePermit,
    >)
        requires
            old(self).conns.wf(),
        ensures
            final(self).conns.wf(),
            foreign == if crate::conn_table::issued(old(self).conns@, conn_id, permit) {
                None
            } else {
                Some(permit)
            },
            crate::conn_table::issued(old(self).conns@, conn_id, permit) ==> {
                &&& crate::capacity::permits_of(permit) <= crate::conn_table::window_of(
                    old(self).conns@,
                    conn_id,
                )->0.live
                &&& final(self).conns@ == crate::conn_table::with_spent(
                    old(self).conns@,
                    conn_id,
                    crate::capacity::permits_of(permit),
                )
            },
            foreign is Some ==> final(self).conns@ == old(self).conns@,
            old(self).wf() ==> final(self).wf(),
            final(self).tunnel == old(self).tunnel,
            final(self).next_id == old(self).next_id,
            final(self).config == old(self).config,
    {
        self.conns.spend(conn_id, permit)
    }

    /// A connection's reader has stopped with a permit of this semaphore that it sent no frame for:
    /// its credit comes back.
    pub fn refund(&mut self, conn_id: u32, sem: &Arc<Semaphore>) -> (outcome: FlowAck)
        requires
            old(self).conns.wf(),
        ensures
            final(self).conns.wf(),
            crate::conn_table::owned(old(self).conns@, conn_id, **sem) ==> {
                &&& outcome == crate::capacity::ack_outcome(
                    crate::conn_table::window_of(old(self).conns@, conn_id),
                    1,
                )
                &&& final(self).conns@ == crate::conn_table::with_credits(
                    old(self).conns@,
                    conn_id,
                    1,
                )
            },
            !crate::conn_table::owned(old(self).conns@, conn_id, **sem) ==> {
                &&& outcome == FlowAck::Added(0)
                &&& final(self).conns@ == old(self).conns@
            },
            old(self).wf() ==> final(self).wf(),
            final(self).tunnel == old(self).tunnel,
            final(self).next_id == old(self).next_id,
            final(self).config == old(self).config,
    {
        self.conns.refund(conn_id, sem)
    }

    /// A visitor's reader and writer are done, or its OPEN frame could not be sent.
    pub fn close_visitor(&mut self, conn_id: u32)
        ensures
            old(self).wf() ==> final(self).wf(),
            final(self).conns@ == old(self).conns@.remove(conn_id),
            final(self).tunnel == old(self).tunnel,
            final(self).next_id == old(self).next_id,
            final(self).config == old(self).config,
    {
        self.conns.remove(conn_id);
        assert(old(self).conns@ == Map::<u32, ConnView<H>>::empty() ==> self.conns@
            =~= Map::<u32, ConnView<H>>::empty());
    }

    /// Takes what the WebSocket of a tunnel brings and says what to do.
    pub fn on_event(&mut self, event: TunnelEvent) -> (action: TunnelAction)
        requires
            old(self).conns.wf(),
        ensures
            final(self).conns.wf(),
            old(self).wf() ==> final(self).wf(),
            action@ == server_event_action(old(self).conns@, event@),
            final(self).conns@ == server_event_conns(old(self).conns@, event@),
            final(self).tunnel == old(self).tunnel,
            final(self).next_id == old(self).next_id,
            final(self).config == old(self).config,
    {
        match event {
            TunnelEvent::Binary(bytes) => match Frame::decode(bytes.as_slice()) {
                Ok(frame) => self.dispatch_from_tunnel(frame),
                Err(error) => TunnelAction::Ignore(Ignored::BadFrame(error)),
            },
            TunnelEvent::Pong | TunnelEvent::Other => TunnelAction::Ignore(Ignored::NoFrame),
            TunnelEvent::Close | TunnelEvent::Failed | TunnelEvent::Ended => TunnelAction::Leave,
        }
    }

    /// Takes a frame of the tunnel client and says what to do.
    pub fn dispatch_from_tunnel(&mut self, frame: Frame) -> (action: TunnelAction)
        requires
            old(self).conns.wf(),
        ensures
            final(self).conns.wf(),
            old(self).wf() ==> final(self).wf(),
            action@ == server_action(old(self).conns@, frame@),
            final(self).conns@ == crate::tunnel::conns_after(old(self).conns@, frame@),
            final(self).tunnel == old(self).tunnel,
            final(self).next_id == old(self).next_id,
            final(self).config == old(self).config,
    {
        if frame.frame_type == FRAME_DATA {
            self.conns.handle_data(frame)
        } else if frame.frame_type == FRAME_ACK {
            self.conns.handle_ack(&frame)
        } else if frame.frame_type == FRAME_CLOSE {
            self.conns.handle_close(&frame)
        } else {
            TunnelAction::Ignore(Ignored::UnexpectedType(frame.frame_type))
        }
    }
}

/// The session number once `n` more tunnels have been registered.
pub open spec fn session_after(session: u64, n: nat) -> u64
    decreases n,
{
    if n == 0 {
        session
    } else {
        next_session(session_after(session, (n - 1) as nat))
    }
}

/// The connection id that is handed out after `n` others.
pub open spec fn conn_id_after(id: u32, n: nat) -> u32
    decreases n,
{
    if n == 0 {
        id
    } else {
        next_conn_id(conn_id_after(id, (n - 1) as nat))
    }
}

/// Session numbers and connection ids count up by one, and start again at zero after the largest.
pub proof fn law_numbers_count_up(session: u64, id: u32, n: nat)
    ensures
        next_session(session) == (session + 1) % 0x1_0000_0000_0000_0000,
        next_conn_id(id) == (id + 1) % 0x1_0000_0000,
        session_after(session, n) == (session + n) % 0x1_0000_0000_0000_0000,
        conn_id_after(id, n) == (id + n) % 0x1_0000_0000,
{
    lemma_session_after(session, n);
    lemma_conn_id_after(id, n);
}

/// A tunnel that has been replaced, once or up to 2^64 - 1 times, is not the current one any more:
/// when it ends, `unregister_tunnel` leaves the newer tunnel and its visitors alone.
pub proof fn law_replaced_tunnel_is_stale(session: u64, replacements: nat)
    requires
        0 < replacements < 0x1_0000_0000_0000_0000,
    ensures
        session_after(session, replacements) != session,
{
    lemma_session_after(session, replacements);
}

/// Of 2^32 connection ids that are handed out in a row no two are the same.
pub proof fn law_conn_ids_are_distinct(id: u32, i: nat, j: nat)
    requires
        i < j < i + 0x1_0000_0000,
    ensures
        conn_id_after(id, i) != conn_id_after(id, j),
{
    lemma_conn_id_after(id, i);
    lemma_conn_id_after(id, j);
}

proof fn lemma_session_after(session: u64, n: nat)
    ensures
        session_after(session, n) == (session + n) % 0x1_0000_0000_0000_0000,
    decreases n,
{
    if n > 0 {
        lemma_session_after(session, (n - 1) as nat);
    }
}

proof fn lemma_conn_id_after(id: u32, n: nat)
    ensures
        conn_id_after(id, n) == (id + n) % 0x1_0000_0000,
    decreases n,
{
    if n > 0 {
        lemma_conn_id_after(id, (n - 1) as nat);
    }
}

} // verus!
