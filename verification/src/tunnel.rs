//! What the tunnel WebSocket brings to an end of the tunnel, and what that end does about it.

use crate::capacity::FlowAck;
use crate::conn_table::{ConnTable, ConnView};
use crate::frame::{Frame, FrameError, FrameView, FRAME_ACK, FRAME_CLOSE};
use crate::writer::{ProxyMsg, ProxyMsgView};
use vstd::prelude::*;

verus! {

/// What the WebSocket brings.
#[derive(Debug)]
pub enum TunnelEvent {
    /// A binary message.
    Binary(Vec<u8>),
    /// The answer to a ping.
    Pong,
    /// A message of another kind that ends nothing.
    Other,
    /// A close message.
    Close,
    /// An error.
    Failed,
    /// The end of the stream.
    Ended,
}

/// An event, its bytes as a sequence.
pub enum TunnelEventView {
    Binary(Seq<u8>),
    Pong,
    Other,
    Close,
    Failed,
    Ended,
}

impl View for TunnelEvent {
    type V = TunnelEventView;

    open spec fn view(&self) -> TunnelEventView {
        match *self {
            TunnelEvent::Binary(bytes) => TunnelEventView::Binary(bytes@),
            TunnelEvent::Pong => TunnelEventView::Pong,
            TunnelEvent::Other => TunnelEventView::Other,
            TunnelEvent::Close => TunnelEventView::Close,
            TunnelEvent::Failed => TunnelEventView::Failed,
            TunnelEvent::Ended => TunnelEventView::Ended,
        }
    }
}

/// Why there is nothing to do.
#[derive(Debug, Clone, Copy, PartialEq, Eq, Structural)]
pub enum Ignored {
    /// The message is no frame.
    BadFrame(FrameError),
    /// The payload of an ACK is malformed.
    BadAck(FrameError),
    /// The connection is not relayed.
    UnknownConn,
    /// The peer has closed its side of the connection before.
    RemoteClosed,
    /// A frame of this type is not for this end.
    UnexpectedType(u8),
    /// The message carries no frame.
    NoFrame,
}

/// What an end of the tunnel has to do.
#[derive(Debug)]
pub enum TunnelAction {
    /// Connect to the upstream and relay it.
    Open { conn_id: u32 },
    /// Hand the message to the connection's writer.
    Deliver { conn_id: u32, msg: ProxyMsg },
    /// Nothing more: an ACK of `count` frames has been applied to the connection's window, with this
    /// outcome.
    Credit { conn_id: u32, count: u32, outcome: FlowAck },
    /// Tell the connection's reader that the peer cannot write.
    StopReader { conn_id: u32 },
    /// Nothing.
    Ignore(Ignored),
    /// Leave the tunnel.
    Leave,
}

/// An action, its bytes as a sequence.
pub enum TunnelActionView {
    Open { conn_id: u32 },
    Deliver { conn_id: u32, msg: ProxyMsgView },
    Credit { conn_id: u32, count: u32, outcome: FlowAck },
    StopReader { conn_id: u32 },
    Ignore(Ignored),
    Leave,
}

impl View for TunnelAction {
    type V = TunnelActionView;

    open spec fn view(&self) -> TunnelActionView {
        match *self {
            TunnelAction::Open { conn_id } => TunnelActionView::Open { conn_id },
            TunnelAction::Deliver { conn_id, msg } => TunnelActionView::Deliver {
                conn_id,
                msg: msg@,
            },
            TunnelAction::Credit { conn_id, count, outcome } => TunnelActionView::Credit {
                conn_id,
                count,
                outcome,
            },
            TunnelAction::StopReader { conn_id } => TunnelActionView::StopReader { conn_id },
            TunnelAction::Ignore(why) => TunnelActionView::Ignore(why),
            TunnelAction::Leave => TunnelActionView::Leave,
        }
    }
}

/// The views of events and actions keep every field and every byte.
pub proof fn law_tunnel_views_keep_all(event: TunnelEvent, action: TunnelAction)
    ensures
        match event {
            TunnelEvent::Binary(bytes) => event@ == TunnelEventView::Binary(bytes@),
            TunnelEvent::Pong => event@ is Pong,
            TunnelEvent::Other => event@ is Other,
            TunnelEvent::Close => event@ is Close,
            TunnelEvent::Failed => event@ is Failed,
            TunnelEvent::Ended => event@ is Ended,
        },
        match action {
            TunnelAction::Open { conn_id } => action@ == (TunnelActionView::Open { conn_id }),
            TunnelAction::Deliver { conn_id, msg } => action@ == (TunnelActionView::Deliver {
                conn_id,
                msg: msg@,
            }),
            TunnelAction::Credit { conn_id, count, outcome } => action@ == (
            TunnelActionView::Credit { conn_id, count, outcome }),
            TunnelAction::StopReader { conn_id } => action@ == (TunnelActionView::StopReader {
                conn_id,
            }),
            TunnelAction::Ignore(why) => action@ == TunnelActionView::Ignore(why),
            TunnelAction::Leave => action@ is Leave,
        },
{
}

/// Why a message for a connection's writer goes nowhere, if so.
pub open spec fn refusal<H>(conns: Map<u32, ConnView<H>>, conn_id: u32) -> Option<Ignored> {
    if !conns.contains_key(conn_id) {
        Some(Ignored::UnknownConn)
    } else if conns[conn_id].remote_closed {
        Some(Ignored::RemoteClosed)
    } else {
        None
    }
}

/// A writer takes messages as long as its connection is relayed and the peer has not closed it.
pub proof fn law_refused_when_unknown_or_closed<H>(conns: Map<u32, ConnView<H>>, conn_id: u32)
    ensures
        refusal(conns, conn_id) is None <==> conns.contains_key(conn_id)
            && !conns[conn_id].remote_closed,
        refusal(conns, conn_id) == Some(Ignored::UnknownConn) <==> !conns.contains_key(conn_id),
        refusal(conns, conn_id) == Some(Ignored::RemoteClosed) <==> conns.contains_key(conn_id)
            && conns[conn_id].remote_closed,
{
}

/// The action on a DATA frame.
pub open spec fn on_data<H>(conns: Map<u32, ConnView<H>>, frame: FrameView) -> TunnelActionView {
    match refusal(conns, frame.conn_id) {
        Some(why) => TunnelActionView::Ignore(why),
        None => TunnelActionView::Deliver {
            conn_id: frame.conn_id,
            msg: ProxyMsgView::Data(frame.payload),
        },
    }
}

/// The action on a CLOSE frame.
pub open spec fn on_close<H>(conns: Map<u32, ConnView<H>>, frame: FrameView) -> TunnelActionView {
    match refusal(conns, frame.conn_id) {
        Some(why) => TunnelActionView::Ignore(why),
        None => TunnelActionView::Deliver { conn_id: frame.conn_id, msg: ProxyMsgView::Close },
    }
}

/// The action on an ACK frame.
pub open spec fn on_ack<H>(conns: Map<u32, ConnView<H>>, frame: FrameView) -> TunnelActionView {
    match frame.ack_count() {
        Ok(count) => TunnelActionView::Credit {
            conn_id: frame.conn_id,
            count,
            outcome: crate::capacity::ack_outcome(
                crate::conn_table::window_of(conns, frame.conn_id),
                count,
            ),
        },
        Err(error) => TunnelActionView::Ignore(Ignored::BadAck(error)),
    }
}

/// The connections after a CLOSE frame.
pub open spec fn conns_after_close<H>(
    conns: Map<u32, ConnView<H>>,
    conn_id: u32,
) -> Map<u32, ConnView<H>> {
    match refusal(conns, conn_id) {
        Some(_) => conns,
        None => crate::conn_table::with_remote_closed(conns, conn_id),
    }
}

/// The connections after an ACK frame.
pub open spec fn conns_after_ack<H>(
    conns: Map<u32, ConnView<H>>,
    frame: FrameView,
) -> Map<u32, ConnView<H>> {
    match frame.ack_count() {
        Ok(count) => crate::conn_table::with_credits(conns, frame.conn_id, count),
        Err(_) => conns,
    }
}

/// The connections of either end after a frame. CLOSE and ACK change the connection that they are
/// for, and no other frame changes any.
pub open spec fn conns_after<H>(
    conns: Map<u32, ConnView<H>>,
    frame: FrameView,
) -> Map<u32, ConnView<H>> {
    if frame.frame_type == FRAME_CLOSE {
        conns_after_close(conns, frame.conn_id)
    } else if frame.frame_type == FRAME_ACK {
        conns_after_ack(conns, frame)
    } else {
        conns
    }
}

impl<H> ConnTable<H> {
    fn refuses(&self, conn_id: u32) -> (why: Option<Ignored>)
        ensures
            why == refusal(self@, conn_id),
    {
        match self.get(conn_id) {
            Some(entry) => if entry.remote_closed {
                Some(Ignored::RemoteClosed)
            } else {
                None
            },
            None => Some(Ignored::UnknownConn),
        }
    }

    /// A DATA frame: its payload is for the connection's writer, unless the peer has closed its
    /// side.
    pub fn handle_data(&self, frame: Frame) -> (action: TunnelAction)
        ensures
            action@ == on_data(self@, frame@),
    {
        match self.refuses(frame.conn_id) {
            Some(why) => TunnelAction::Ignore(why),
            None => TunnelAction::Deliver {
                conn_id: frame.conn_id,
                msg: ProxyMsg::Data(frame.payload),
            },
        }
    }

    /// A CLOSE frame: the first one for a connection ends its writer. The connection stays, for
    /// the other direction.
    pub fn handle_close(&mut self, frame: &Frame) -> (action: TunnelAction)
        ensures
            old(self).wf() ==> final(self).wf(),
            action@ == on_close(old(self)@, frame@),
            final(self)@ == conns_after_close(old(self)@, frame.conn_id),
    {
        match self.refuses(frame.conn_id) {
            Some(why) => TunnelAction::Ignore(why),
            None => {
                self.close_remote(frame.conn_id);
                TunnelAction::Deliver { conn_id: frame.conn_id, msg: ProxyMsg::Close }
            },
        }
    }

    /// An ACK frame: its count goes to the connection's window.
    pub fn handle_ack(&mut self, frame: &Frame) -> (action: TunnelAction)
        requires
            old(self).wf(),
        ensures
            final(self).wf(),
            action@ == on_ack(old(self)@, frame@),
            final(self)@ == conns_after_ack(old(self)@, frame@),
    {
        match frame.ack_count() {
            Ok(count) => {
                let outcome: FlowAck = self.credit(frame.conn_id, count);
                TunnelAction::Credit { conn_id: frame.conn_id, count, outcome }
            },
            Err(error) => TunnelAction::Ignore(Ignored::BadAck(error)),
        }
    }
}

} // verus!
