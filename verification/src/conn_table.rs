//! The connections that an end of the tunnel relays, by connection id.

use crate::capacity::{
    apply_flow_ack, semaphore_for_limit, FlowAck, Window, WindowView, MAX_PERMITS,
};
use std::collections::HashMap;
use std::sync::Arc;
use tokio::sync::{OwnedSemaphorePermit, Semaphore};
use vstd::prelude::*;

verus! {

broadcast use vstd::std_specs::hash::group_hash_axioms;

/// One relayed connection. The handle reaches the tasks that relay it.
pub struct ConnEntry<H> {
    pub handle: H,
    /// Whether the peer has sent CLOSE.
    pub remote_closed: bool,
    /// The credits for DATA frames towards the peer; none where the window is unlimited.
    pub inflight: Option<Window>,
}

/// One relayed connection, its window as a view.
pub struct ConnView<H> {
    pub handle: H,
    pub remote_closed: bool,
    pub inflight: Option<WindowView>,
}

impl<H> View for ConnEntry<H> {
    type V = ConnView<H>;

    open spec fn view(&self) -> ConnView<H> {
        ConnView {
            handle: self.handle,
            remote_closed: self.remote_closed,
            inflight: crate::capacity::window_view(self.inflight),
        }
    }
}

/// The relayed connections.
pub struct ConnTable<H> {
    map: HashMap<u32, ConnEntry<H>>,
}

impl<H> View for ConnTable<H> {
    type V = Map<u32, ConnView<H>>;

    closed spec fn view(&self) -> Map<u32, ConnView<H>> {
        self.map@.map_values(|entry: ConnEntry<H>| entry@)
    }
}

/// A connection that was just opened.
pub open spec fn is_fresh<H>(conn: ConnView<H>, handle: H, limit: usize) -> bool {
    &&& conn.handle == handle
    &&& !conn.remote_closed
    &&& conn.inflight is None <==> limit == 0
    &&& conn.inflight matches Some(window) ==> window.live == limit
}

/// Whether `sem` is the semaphore of a connection's window, and there is one if it is limited.
pub open spec fn acquires_from<H>(sem: Option<Arc<Semaphore>>, conn: ConnView<H>) -> bool {
    match sem {
        Some(s) => conn.inflight matches Some(window) && *s == window.semaphore,
        None => conn.inflight is None,
    }
}

/// The connections after the peer closed its side of one.
pub open spec fn with_remote_closed<H>(
    conns: Map<u32, ConnView<H>>,
    conn_id: u32,
) -> Map<u32, ConnView<H>> {
    conns.insert(conn_id, ConnView { remote_closed: true, ..conns[conn_id] })
}

/// The window of a connection, if it is relayed and has a limited one.
pub open spec fn window_of<H>(conns: Map<u32, ConnView<H>>, conn_id: u32) -> Option<WindowView> {
    if conns.contains_key(conn_id) {
        conns[conn_id].inflight
    } else {
        None
    }
}

/// The connections after an ACK of `count` frames for one: its window gets the credits.
pub open spec fn with_credits<H>(
    conns: Map<u32, ConnView<H>>,
    conn_id: u32,
    count: u32,
) -> Map<u32, ConnView<H>> {
    match window_of(conns, conn_id) {
        Some(window) => conns.insert(
            conn_id,
            ConnView {
                inflight: Some(crate::capacity::window_after(window, count)),
                ..conns[conn_id]
            },
        ),
        None => conns,
    }
}

/// Whether a semaphore is that of the window of a connection.
pub open spec fn owned<H>(conns: Map<u32, ConnView<H>>, conn_id: u32, sem: Semaphore) -> bool {
    window_of(conns, conn_id) matches Some(window) && window.semaphore == sem
}

/// Whether a permit was acquired from the window of a connection.
pub open spec fn issued<H>(
    conns: Map<u32, ConnView<H>>,
    conn_id: u32,
    permit: OwnedSemaphorePermit,
) -> bool {
    owned(conns, conn_id, crate::capacity::source_of(permit))
}

/// The connections after permits of one are forgotten.
pub open spec fn with_spent<H>(
    conns: Map<u32, ConnView<H>>,
    conn_id: u32,
    n: nat,
) -> Map<u32, ConnView<H>> {
    match window_of(conns, conn_id) {
        Some(window) => conns.insert(
            conn_id,
            ConnView {
                inflight: Some(crate::capacity::window_spent(window, n)),
                ..conns[conn_id]
            },
        ),
        None => conns,
    }
}

/// A connection that is opened has the handle and as many permits as its limit says, and its reader
/// acquires from the semaphore that the ACKs for it add to.
pub proof fn law_opened_connection<H>(
    conn: ConnView<H>,
    handle: H,
    limit: usize,
    sem: Option<Arc<Semaphore>>,
)
    requires
        is_fresh(conn, handle, limit),
        acquires_from(sem, conn),
    ensures
        conn.handle == handle,
        !conn.remote_closed,
        sem is None <==> limit == 0,
        sem matches Some(s) ==> conn.inflight == Some(
            WindowView { semaphore: *s, live: limit as nat },
        ),
{
}

/// A change to one connection leaves all others as they were, and none comes or goes. Closing a side
/// keeps the handle and the window; credits and forgotten permits keep all but the window.
pub proof fn law_changes_are_of_one_connection<H>(
    conns: Map<u32, ConnView<H>>,
    conn_id: u32,
    id: u32,
    n: nat,
    count: u32,
)
    requires
        conns.contains_key(conn_id),
    ensures
        ({
            let closed = with_remote_closed(conns, conn_id);
            let credited = with_credits(conns, conn_id, count);
            let spent = with_spent(conns, conn_id, n);
            &&& closed.contains_key(id) <==> conns.contains_key(id)
            &&& credited.contains_key(id) <==> conns.contains_key(id)
            &&& spent.contains_key(id) <==> conns.contains_key(id)
            &&& id != conn_id && conns.contains_key(id) ==> {
                &&& closed[id] == conns[id]
                &&& credited[id] == conns[id]
                &&& spent[id] == conns[id]
            }
            &&& closed[conn_id].remote_closed
            &&& closed[conn_id].handle == conns[conn_id].handle
            &&& closed[conn_id].inflight == conns[conn_id].inflight
            &&& credited[conn_id].remote_closed == conns[conn_id].remote_closed
            &&& credited[conn_id].handle == conns[conn_id].handle
            &&& spent[conn_id].remote_closed == conns[conn_id].remote_closed
            &&& spent[conn_id].handle == conns[conn_id].handle
            &&& match conns[conn_id].inflight {
                Some(w) => {
                    &&& credited[conn_id].inflight matches Some(c)
                    &&& c.semaphore == w.semaphore
                    &&& c.live == w.live + count || c.live == w.live && w.live + count
                        > usize::MAX / 8
                    &&& spent[conn_id].inflight matches Some(s)
                    &&& s.semaphore == w.semaphore
                    &&& n <= w.live ==> s.live + n == w.live
                },
                None => credited[conn_id].inflight is None && spent[conn_id].inflight is None,
            }
        }),
{
}

/// The window of a connection is the one in its entry, and a semaphore or a permit is a connection's
/// if it is that window's.
pub proof fn law_window_is_that_of_the_entry<H>(
    conns: Map<u32, ConnView<H>>,
    conn_id: u32,
    sem: Semaphore,
    permit: OwnedSemaphorePermit,
)
    ensures
        owned(conns, conn_id, sem) <==> conns.contains_key(conn_id) && (
        conns[conn_id].inflight matches Some(w) && w.semaphore == sem),
        conns.contains_key(conn_id) ==> window_of(conns, conn_id) == conns[conn_id].inflight,
        !conns.contains_key(conn_id) ==> window_of(conns, conn_id) is None,
        issued(conns, conn_id, permit) <==> conns.contains_key(conn_id) && (
        conns[conn_id].inflight matches Some(w) && w.semaphore == crate::capacity::source_of(
            permit,
        )),
{
}

/// The view of an entry keeps every field.
pub proof fn law_entry_view_keeps_all<H>(entry: ConnEntry<H>)
    ensures
        entry@.handle == entry.handle,
        entry@.remote_closed == entry.remote_closed,
        entry@.inflight is None <==> entry.inflight is None,
        entry.inflight matches Some(window) ==> entry@.inflight == Some(window@),
{
}

/// Windows are separate: permits that are forgotten of one, and credits that one gets, change no
/// other.
pub proof fn law_windows_are_separate<H>(
    conns: Map<u32, ConnView<H>>,
    conn_id: u32,
    other: u32,
    n: nat,
    count: u32,
)
    requires
        conn_id != other,
    ensures
        window_of(with_spent(conns, conn_id, n), other) == window_of(conns, other),
        window_of(with_credits(conns, conn_id, count), other) == window_of(conns, other),
{
}

/// What a table is said to hold is what it holds, each connection under its own id.
proof fn law_table_view_keeps_all<H>(table: ConnTable<H>, id: u32)
    ensures
        table@.contains_key(id) <==> table.map@.contains_key(id),
        table.map@.contains_key(id) ==> table@[id] == table.map@[id]@,
        table.wf() && table.map@.contains_key(id) ==> (table.map@[id].inflight matches Some(w)
            ==> w.wf()),
{
}

impl<H> ConnTable<H> {
    /// Every window keeps its account.
    pub closed spec fn wf(self) -> bool {
        forall|id: u32|
            self.map@.contains_key(id) ==> (#[trigger] self.map@[id].inflight matches Some(w)
                ==> w.wf())
    }

    /// A table without connections.
    pub fn new() -> (table: ConnTable<H>)
        ensures
            table.wf(),
            table@ == Map::<u32, ConnView<H>>::empty(),
    {
        let table: ConnTable<H> = ConnTable { map: HashMap::new() };
        assert(table@ =~= Map::<u32, ConnView<H>>::empty());
        table
    }

    /// Whether the connection is relayed.
    pub fn contains(&self, conn_id: u32) -> (found: bool)
        ensures
            found == self@.contains_key(conn_id),
    {
        self.map.contains_key(&conn_id)
    }

    /// The entry of a connection.
    pub fn get(&self, conn_id: u32) -> (entry: Option<&ConnEntry<H>>)
        ensures
            entry is Some <==> self@.contains_key(conn_id),
            entry matches Some(e) ==> e@ == self@[conn_id],
    {
        self.map.get(&conn_id)
    }

    /// Adds a connection with a window of `limit` credits, in place of one of the same id. Returns
    /// the window's semaphore, if it is limited.
    pub fn open(&mut self, conn_id: u32, handle: H, limit: usize) -> (inflight: Option<
        Arc<Semaphore>,
    >)
        requires
            limit <= MAX_PERMITS,
        ensures
            old(self).wf() ==> final(self).wf(),
            is_fresh(final(self)@[conn_id], handle, limit),
            final(self)@ == old(self)@.insert(conn_id, final(self)@[conn_id]),
            acquires_from(inflight, final(self)@[conn_id]),
            final(self)@[conn_id].handle == handle,
            !final(self)@[conn_id].remote_closed,
            inflight is None <==> limit == 0,
            inflight matches Some(sem) ==> final(self)@[conn_id].inflight == Some(
                WindowView { semaphore: *sem, live: limit as nat },
            ),
    {
        let window: Option<Window> = semaphore_for_limit(limit);
        let inflight: Option<Arc<Semaphore>> = match &window {
            Some(w) => Some(w.semaphore()),
            None => None,
        };
        self.map.insert(conn_id, ConnEntry { handle, remote_closed: false, inflight: window });
        assert(self@ =~= old(self)@.insert(conn_id, self@[conn_id]));
        inflight
    }

    /// Notes that the peer has closed its side of a connection that is relayed.
    pub fn close_remote(&mut self, conn_id: u32)
        requires
            old(self)@.contains_key(conn_id),
        ensures
            old(self).wf() ==> final(self).wf(),
            final(self)@ == with_remote_closed(old(self)@, conn_id),
            final(self)@ == old(self)@.insert(
                conn_id,
                ConnView { remote_closed: true, ..old(self)@[conn_id] },
            ),
    {
        if let Some(entry) = self.map.remove(&conn_id) {
            self.map.insert(
                conn_id,
                ConnEntry { handle: entry.handle, remote_closed: true, inflight: entry.inflight },
            );
        }
        assert(self@ =~= with_remote_closed(old(self)@, conn_id));
    }

    /// Removes a connection, if it is there.
    pub fn remove(&mut self, conn_id: u32)
        ensures
            old(self).wf() ==> final(self).wf(),
            final(self)@ == old(self)@.remove(conn_id),
    {
        self.map.remove(&conn_id);
        assert(self@ =~= old(self)@.remove(conn_id));
    }

    /// Removes all connections.
    pub fn clear(&mut self)
        ensures
            final(self).wf(),
            final(self)@ == Map::<u32, ConnView<H>>::empty(),
    {
        self.map.clear();
        assert(self@ =~= Map::<u32, ConnView<H>>::empty());
    }

    /// Forgets a permit of the window of a connection, and of no other. One that the window did not
    /// issue is handed back: the connection is not relayed any more.
    pub fn spend(&mut self, conn_id: u32, permit: OwnedSemaphorePermit) -> (foreign: Option<
        OwnedSemaphorePermit,
    >)
        requires
            old(self).wf(),
        ensures
            final(self).wf(),
            foreign == if issued(old(self)@, conn_id, permit) {
                None
            } else {
                Some(permit)
            },
            issued(old(self)@, conn_id, permit) ==> {
                &&& crate::capacity::permits_of(permit) <= window_of(old(self)@, conn_id)->0.live
                &&& final(self)@ == with_spent(
                    old(self)@,
                    conn_id,
                    crate::capacity::permits_of(permit),
                )
            },
            !issued(old(self)@, conn_id, permit) ==> final(self)@ == old(self)@,
    {
        let foreign: Option<OwnedSemaphorePermit> = match self.map.remove(&conn_id) {
            Some(entry) => {
                let mut entry: ConnEntry<H> = entry;
                let foreign: Option<OwnedSemaphorePermit> = match entry.inflight.as_mut() {
                    Some(window) => if window.issued(&permit) {
                        window.spend(permit);
                        None
                    } else {
                        Some(permit)
                    },
                    None => Some(permit),
                };
                self.map.insert(conn_id, entry);
                foreign
            },
            None => Some(permit),
        };
        assert(issued(old(self)@, conn_id, permit) ==> self@ =~= with_spent(
            old(self)@,
            conn_id,
            crate::capacity::permits_of(permit),
        ));
        assert(!issued(old(self)@, conn_id, permit) ==> self@ =~= old(self)@);
        foreign
    }

    /// Gives the window of a connection the credit of a permit back that no frame was sent for. A
    /// semaphore that is not the window's gets nothing: the connection is not relayed any more.
    pub fn refund(&mut self, conn_id: u32, sem: &Arc<Semaphore>) -> (outcome: FlowAck)
        requires
            old(self).wf(),
        ensures
            final(self).wf(),
            owned(old(self)@, conn_id, **sem) ==> {
                &&& outcome == crate::capacity::ack_outcome(window_of(old(self)@, conn_id), 1)
                &&& final(self)@ == with_credits(old(self)@, conn_id, 1)
            },
            !owned(old(self)@, conn_id, **sem) ==> {
                &&& outcome == FlowAck::Added(0)
                &&& final(self)@ == old(self)@
            },
    {
        let owned: bool = match self.map.get(&conn_id) {
            Some(entry) => match &entry.inflight {
                Some(window) => window.owns(sem),
                None => false,
            },
            None => false,
        };
        if owned {
            self.credit(conn_id, 1)
        } else {
            FlowAck::Added(0)
        }
    }

    /// Applies an ACK of `count` frames to the window of a connection, and to no other.
    pub fn credit(&mut self, conn_id: u32, count: u32) -> (outcome: FlowAck)
        requires
            old(self).wf(),
        ensures
            final(self).wf(),
            outcome == crate::capacity::ack_outcome(window_of(old(self)@, conn_id), count),
            final(self)@ == with_credits(old(self)@, conn_id, count),
    {
        let outcome: FlowAck = match self.map.remove(&conn_id) {
            Some(entry) => {
                let mut entry: ConnEntry<H> = entry;
                let outcome: FlowAck = apply_flow_ack(entry.inflight.as_mut(), count);
                self.map.insert(conn_id, entry);
                outcome
            },
            None => apply_flow_ack(None, count),
        };
        assert(self@ =~= with_credits(old(self)@, conn_id, count));
        outcome
    }
}

} // verus!
