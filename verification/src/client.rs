//! The local end of the tunnel: it connects each connection that the server announces to the
//! upstream service.

use crate::capacity::{CapacityConfig, FlowAck, WindowView, MAX_PERMITS};
use crate::conn_table::{ConnTable, ConnView};
use crate::frame::{
    Frame, FrameView, FRAME_ACK, FRAME_CLOSE, FRAME_DATA, FRAME_OPEN, FRAME_WRITE_ERROR,
};
use crate::heartbeat::{Heartbeat, HeartbeatAction, HeartbeatConfig};
use crate::reader::Reader;
use crate::tunnel::{Ignored, TunnelAction, TunnelActionView, TunnelEvent, TunnelEventView};
use crate::writer::Writer;
use std::sync::Arc;
use tokio::sync::{OwnedSemaphorePermit, Semaphore};
use vstd::prelude::*;

verus! {

/// A client's side of one tunnel. A connection's handle reaches its reader and its writer.
pub struct Client<H> {
    pub conns: ConnTable<H>,
    pub heartbeat: Heartbeat,
    pub config: CapacityConfig,
}

/// What a client does about a frame of the server, the connections being `conns`.
pub open spec fn client_action<H>(
    conns: Map<u32, ConnView<H>>,
    frame: FrameView,
) -> TunnelActionView {
    if frame.frame_type == FRAME_OPEN {
        TunnelActionView::Open { conn_id: frame.conn_id }
    } else if frame.frame_type == FRAME_ACK {
        crate::tunnel::on_ack(conns, frame)
    } else if frame.frame_type == FRAME_DATA {
        crate::tunnel::on_data(conns, frame)
    } else if frame.frame_type == FRAME_CLOSE {
        crate::tunnel::on_close(conns, frame)
    } else if frame.frame_type == FRAME_WRITE_ERROR {
        if conns.contains_key(frame.conn_id) {
            TunnelActionView::StopReader { conn_id: frame.conn_id }
        } else {
            TunnelActionView::Ignore(Ignored::UnknownConn)
        }
    } else {
        TunnelActionView::Ignore(Ignored::UnexpectedType(frame.frame_type))
    }
}

/// What a client does about what the WebSocket brings.
pub open spec fn client_event_action<H>(
    conns: Map<u32, ConnView<H>>,
    event: TunnelEventView,
) -> TunnelActionView {
    match event {
        TunnelEventView::Binary(bytes) => match crate::frame::decoded(bytes) {
            Ok(frame) => client_action(conns, frame),
            Err(error) => TunnelActionView::Ignore(Ignored::BadFrame(error)),
        },
        TunnelEventView::Pong | TunnelEventView::Other => TunnelActionView::Ignore(
            Ignored::NoFrame,
        ),
        TunnelEventView::Close
        | TunnelEventView::Failed
        | TunnelEventView::Ended => TunnelActionView::Leave,
    }
}

/// A client's connections after what the WebSocket brings: none once the tunnel is left.
pub open spec fn client_event_conns<H>(
    conns: Map<u32, ConnView<H>>,
    event: TunnelEventView,
) -> Map<u32, ConnView<H>> {
    match event {
        TunnelEventView::Binary(bytes) => match crate::frame::decoded(bytes) {
            Ok(frame) => crate::tunnel::conns_after(conns, frame),
            Err(_) => conns,
        },
        TunnelEventView::Pong | TunnelEventView::Other => conns,
        TunnelEventView::Close | TunnelEventView::Failed | TunnelEventView::Ended => Map::empty(),
    }
}

/// What to do once the attempt to connect to the upstream has ended.
#[derive(Debug)]
pub enum UpstreamAction {
    /// Relay the upstream connection. Its writer reports failed writes to the server.
    Relay { reader: Reader, writer: Writer },
    /// Drop the upstream connection: the tunnel has been left meanwhile.
    Drop,
    /// Send these bytes, a CLOSE frame, through the tunnel.
    Send(Vec<u8>),
}

impl<H> Client<H> {
    /// A client that relays nothing yet.
    pub fn new(config: CapacityConfig, heartbeat: HeartbeatConfig) -> (client: Client<H>)
        ensures
            client.conns.wf(),
            client.conns@ == Map::<u32, ConnView<H>>::empty(),
            client.heartbeat.config == heartbeat,
            client.heartbeat.missed == 0,
            client.config == config,
    {
        Client { conns: ConnTable::new(), heartbeat: Heartbeat::new(heartbeat), config }
    }

    /// Takes what the WebSocket brings and says what to do. Once the tunnel is to be left, no
    /// connection is relayed any more.
    pub fn on_event(&mut self, event: TunnelEvent) -> (action: TunnelAction)
        requires
            old(self).conns.wf(),
        ensures
            final(self).conns.wf(),
            action@ == client_event_action(old(self).conns@, event@),
            final(self).conns@ == client_event_conns(old(self).conns@, event@),
            final(self).config == old(self).config,
            final(self).heartbeat == (Heartbeat {
                missed: if event is Pong {
                    0
                } else {
                    old(self).heartbeat.missed
                },
                ..old(self).heartbeat
            }),
    {
        match event {
            TunnelEvent::Binary(bytes) => match Frame::decode(bytes.as_slice()) {
                Ok(frame) => self.handle_frame(frame),
                Err(error) => TunnelAction::Ignore(Ignored::BadFrame(error)),
            },
            TunnelEvent::Pong => {
                self.heartbeat.on_pong();
                TunnelAction::Ignore(Ignored::NoFrame)
            },
            TunnelEvent::Other => TunnelAction::Ignore(Ignored::NoFrame),
            TunnelEvent::Close | TunnelEvent::Failed | TunnelEvent::Ended => {
                self.conns.clear();
                TunnelAction::Leave
            },
        }
    }

    /// Takes a frame of the server and says what to do.
    pub fn handle_frame(&mut self, frame: Frame) -> (action: TunnelAction)
        requires
            old(self).conns.wf(),
        ensures
            final(self).conns.wf(),
            action@ == client_action(old(self).conns@, frame@),
            final(self).conns@ == crate::tunnel::conns_after(old(self).conns@, frame@),
            final(self).config == old(self).config,
            final(self).heartbeat == old(self).heartbeat,
    {
        if frame.frame_type == FRAME_OPEN {
            TunnelAction::Open { conn_id: frame.conn_id }
        } else if frame.frame_type == FRAME_ACK {
            self.conns.handle_ack(&frame)
        } else if frame.frame_type == FRAME_DATA {
            self.conns.handle_data(frame)
        } else if frame.frame_type == FRAME_CLOSE {
            self.conns.handle_close(&frame)
        } else if frame.frame_type == FRAME_WRITE_ERROR {
            if self.conns.contains(frame.conn_id) {
                TunnelAction::StopReader { conn_id: frame.conn_id }
            } else {
                TunnelAction::Ignore(Ignored::UnknownConn)
            }
        } else {
            TunnelAction::Ignore(Ignored::UnexpectedType(frame.frame_type))
        }
    }

    /// Registers a connection that the server opens, before the upstream is connected: what the
    /// server sends meanwhile waits in the handle's channel. Returns the credits for its reader.
    pub fn open_conn(&mut self, conn_id: u32, handle: H) -> (inflight: Option<Arc<Semaphore>>)
        requires
            old(self).config.max_pending_messages_per_connection <= MAX_PERMITS,
        ensures
            old(self).conns.wf() ==> final(self).conns.wf(),
            crate::conn_table::is_fresh(
                final(self).conns@[conn_id],
                handle,
                old(self).config.max_pending_messages_per_connection,
            ),
            final(self).conns@ == old(self).conns@.insert(conn_id, final(self).conns@[conn_id]),
            crate::conn_table::acquires_from(inflight, final(self).conns@[conn_id]),
            final(self).conns@[conn_id].handle == handle,
            !final(self).conns@[conn_id].remote_closed,
            inflight is None <==> old(self).config.max_pending_messages_per_connection == 0,
            inflight matches Some(sem) ==> final(self).conns@[conn_id].inflight == Some(
                WindowView {
                    semaphore: *sem,
                    live: old(self).config.max_pending_messages_per_connection as nat,
                },
            ),
            final(self).config == old(self).config,
            final(self).heartbeat == old(self).heartbeat,
    {
        self.conns.open(conn_id, handle, self.config.max_pending_messages_per_connection)
    }

    /// Takes the outcome of connecting a connection to the upstream. One that failed is
    /// forgotten, and the server is told.
    pub fn on_upstream(&mut self, conn_id: u32, connected: bool) -> (action: UpstreamAction)
        ensures
            old(self).conns.wf() ==> final(self).conns.wf(),
            connected ==> final(self).conns@ == old(self).conns@,
            connected && old(self).conns@.contains_key(conn_id) ==> action == (
            UpstreamAction::Relay {
                reader: crate::reader::new_reader(conn_id),
                writer: crate::writer::new_writer(conn_id, true),
            }),
            action matches UpstreamAction::Relay { reader, writer } ==> reader.conn_id == conn_id
                && writer.conn_id == conn_id && writer.report_errors,
            connected && !old(self).conns@.contains_key(conn_id) ==> action is Drop,
            action matches UpstreamAction::Send(bytes) ==> crate::frame::is_on_wire(
                bytes@,
                conn_id,
                3,
                Seq::empty(),
            ),
            !connected ==> final(self).conns@ == old(self).conns@.remove(conn_id),
            !connected ==> (action matches UpstreamAction::Send(bytes) && bytes@
                == FrameView::close(conn_id).encoded()),
            final(self).config == old(self).config,
            final(self).heartbeat == old(self).heartbeat,
    {
        if !connected {
            self.conns.remove(conn_id);
            proof {
                crate::frame::law_wire_layout(FrameView::close(conn_id));
            }
            UpstreamAction::Send(Frame::close(conn_id).encode())
        } else if self.conns.contains(conn_id) {
            UpstreamAction::Relay {
                reader: Reader::new(conn_id),
                writer: Writer::new(conn_id, true),
            }
        } else {
            UpstreamAction::Drop
        }
    }

    /// A connection's reader has acquired a permit: it is forgotten. One that the connection's window
    /// did not issue is handed back.
    pub fn spend(&mut self, conn_id: u32, permit: OwnedSemaphorePermit) -> (foreign: Option<
        OwnedSemaphorePermit,
    >)
        requires
            old(self).conns.wf(),
        ensures
            final(self).conns.wf(),
            foreign == if crate::conn_table::issued(old(self).conns@, conn_id, permit) {
                None
            } else {
                Some(permit)
            },
            crate::conn_table::issued(old(self).conns@, conn_id, permit) ==> {
                &&& crate::capacity::permits_of(permit) <= crate::conn_table::window_of(
                    old(self).conns@,
                    conn_id,
                )->0.live
                &&& final(self).conns@ == crate::conn_table::with_spent(
                    old(self).conns@,
                    conn_id,
                    crate::capacity::permits_of(permit),
                )
            },
            foreign is Some ==> final(self).conns@ == old(self).conns@,
            final(self).config == old(self).config,
            final(self).heartbeat == old(self).heartbeat,
    {
        self.conns.spend(conn_id, permit)
    }

    /// A connection's reader has stopped with a permit of this semaphore that it sent no frame for:
    /// its credit comes back.
    pub fn refund(&mut self, conn_id: u32, sem: &Arc<Semaphore>) -> (outcome: FlowAck)
        requires
            old(self).conns.wf(),
        ensures
            final(self).conns.wf(),
            crate::conn_table::owned(old(self).conns@, conn_id, **sem) ==> {
                &&& outcome == crate::capacity::ack_outcome(
                    crate::conn_table::window_of(old(self).conns@, conn_id),
                    1,
                )
                &&& final(self).conns@ == crate::conn_table::with_credits(
                    old(self).conns@,
                    conn_id,
                    1,
                )
            },
            !crate::conn_table::owned(old(self).conns@, conn_id, **sem) ==> {
                &&& outcome == FlowAck::Added(0)
                &&& final(self).conns@ == old(self).conns@
            },
            final(self).config == old(self).config,
            final(self).heartbeat == old(self).heartbeat,
    {
        self.conns.refund(conn_id, sem)
    }

    /// Forgets a connection, once its reader and its writer are done.
    pub fn finish_conn(&mut self, conn_id: u32)
        ensures
            old(self).conns.wf() ==> final(self).conns.wf(),
            final(self).conns@ == old(self).conns@.remove(conn_id),
            final(self).config == old(self).config,
            final(self).heartbeat == old(self).heartbeat,
    {
        self.conns.remove(conn_id);
    }

    /// The heartbeat's interval has passed. Where the server does not answer, the tunnel is left
    /// and no connection is relayed any more.
    pub fn on_tick(&mut self) -> (action: HeartbeatAction)
        requires
            old(self).heartbeat.missed < u32::MAX,
        ensures
            old(self).conns.wf() ==> final(self).conns.wf(),
            action == crate::heartbeat::tick_action(
                old(self).heartbeat.config.max_missed,
                old(self).heartbeat.missed,
            ),
            final(self).heartbeat == (Heartbeat {
                missed: (old(self).heartbeat.missed + 1) as u32,
                ..old(self).heartbeat
            }),
            final(self).conns@ == if action is Close {
                Map::<u32, ConnView<H>>::empty()
            } else {
                old(self).conns@
            },
            final(self).config == old(self).config,
    {
        let action: HeartbeatAction = self.heartbeat.on_tick();
        if action == HeartbeatAction::Close {
            self.conns.clear();
        }
        action
    }
}

} // verus!
