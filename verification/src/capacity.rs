//! Flow control: each direction of a connection has a window of credits. Sending a DATA frame uses
//! one up for good; the peer's ACK, sent after it wrote to its own TCP stream, brings credits back.

use std::sync::Arc;
use tokio::sync::{OwnedSemaphorePermit, Semaphore};
use vstd::prelude::*;

verus! {

/// The window of a connection unless configured otherwise.
pub const DEFAULT_MAX_PENDING_MESSAGES_PER_CONNECTION: usize = 256;

/// DATA frames that a writer counts before it sends an ACK.
///
/// A window must be at least this large: the sender of a smaller one runs out of credits before
/// the receiver has written enough to acknowledge anything.
pub const ACK_BATCH_SIZE: u32 = 64;

/// The most permits that a semaphore can hold.
pub const MAX_PERMITS: usize = usize::MAX / 8;

/// The window of each connection; 0 stands for no limit.
#[derive(Clone, Copy, Debug)]
pub struct CapacityConfig {
    pub max_pending_messages_per_connection: usize,
}

impl Default for CapacityConfig {
    fn default() -> (config: CapacityConfig)
        ensures
            config.max_pending_messages_per_connection
                == DEFAULT_MAX_PENDING_MESSAGES_PER_CONNECTION,
            config.max_pending_messages_per_connection == 256,
    {
        CapacityConfig {
            max_pending_messages_per_connection: DEFAULT_MAX_PENDING_MESSAGES_PER_CONNECTION,
        }
    }
}

/// tokio's counting semaphore.
#[verifier::external_type_specification]
#[verifier::external_body]
pub struct ExSemaphore(tokio::sync::Semaphore);

/// Permits that were acquired from a semaphore. Dropping them gives them back.
#[verifier::external_type_specification]
#[verifier::external_body]
pub struct ExOwnedSemaphorePermit(tokio::sync::OwnedSemaphorePermit);

/// The semaphore that a permit was acquired from.
pub uninterp spec fn source_of(permit: OwnedSemaphorePermit) -> Semaphore;

/// How many permits a permit stands for.
pub uninterp spec fn permits_of(permit: OwnedSemaphorePermit) -> nat;

/// `tokio::sync::OwnedSemaphorePermit::semaphore` gives the semaphore that the permit was acquired
/// from.
pub assume_specification[ OwnedSemaphorePermit::semaphore ](
    permit: &OwnedSemaphorePermit,
) -> (sem: &Arc<Semaphore>)
    ensures
        **sem == source_of(*permit),
;

/// `tokio::sync::OwnedSemaphorePermit::num_permits` counts the permits that the permit stands for.
pub assume_specification[ OwnedSemaphorePermit::num_permits ](
    permit: &OwnedSemaphorePermit,
) -> (n: usize)
    ensures
        n == permits_of(*permit),
;

/// The only owner of the right to add permits to a semaphore. Others hold it as well, but only to
/// acquire from it.
#[verifier::external_body]
pub struct Permits {
    sem: Arc<Semaphore>,
}

/// The permits of a semaphore that there are: those that it was made with and those added since,
/// less those forgotten here. Each of them is available or has been acquired and may be given back,
/// so the semaphore never holds more, and nobody has acquired more.
pub uninterp spec fn live(permits: Permits) -> nat;

/// The semaphore that permits are added to.
pub uninterp spec fn semaphore_of(permits: Permits) -> Semaphore;

impl Permits {
    /// `tokio::sync::Semaphore::new` makes a semaphore with the given number of permits. It panics
    /// on more than `MAX_PERMITS`.
    #[verifier::external_body]
    fn new(limit: usize) -> (permits: Permits)
        requires
            limit <= MAX_PERMITS,
        ensures
            live(permits) == limit,
    {
        Permits { sem: Arc::new(Semaphore::new(limit)) }
    }

    /// `tokio::sync::Semaphore::add_permits` adds `n` permits. It panics where the semaphore would
    /// then hold more than `MAX_PERMITS`, which it cannot while there are no more than that.
    #[verifier::external_body]
    fn grant(&mut self, n: usize)
        requires
            live(*old(self)) + n <= MAX_PERMITS,
        ensures
            live(*final(self)) == live(*old(self)) + n,
            semaphore_of(*final(self)) == semaphore_of(*old(self)),
    {
        self.sem.add_permits(n);
    }

    /// `tokio::sync::OwnedSemaphorePermit::forget` takes permits that were acquired from the
    /// semaphore away for good. They are among those that there are.
    #[verifier::external_body]
    fn forget(&mut self, permit: OwnedSemaphorePermit)
        requires
            source_of(permit) == semaphore_of(*old(self)),
        ensures
            live(*final(self)) + permits_of(permit) == live(*old(self)),
            semaphore_of(*final(self)) == semaphore_of(*old(self)),
    {
        permit.forget();
    }

    /// `Arc::ptr_eq` tells whether two references lead to the same semaphore.
    #[verifier::external_body]
    fn belongs_to(&self, sem: &Arc<Semaphore>) -> (same: bool)
        ensures
            same <==> **sem == semaphore_of(*self),
    {
        Arc::ptr_eq(&self.sem, sem)
    }

    /// `Arc::clone` hands out another reference to the semaphore, to acquire from and not to add to.
    #[verifier::external_body]
    fn semaphore(&self) -> (sem: Arc<Semaphore>)
        ensures
            *sem == semaphore_of(*self),
    {
        Arc::clone(&self.sem)
    }
}

/// The credits of a connection whose window is limited. Its reader acquires a permit from the
/// semaphore for each DATA frame and hands it over to be forgotten here. Where no frame comes of it,
/// the credit is added again; otherwise an ACK adds it, here and nowhere else.
pub struct Window {
    permits: Permits,
    total: usize,
}

/// A window: its semaphore, and the permits that there are, whether available or acquired.
pub struct WindowView {
    pub semaphore: Semaphore,
    pub live: nat,
}

impl View for Window {
    type V = WindowView;

    closed spec fn view(&self) -> WindowView {
        WindowView { semaphore: semaphore_of(self.permits), live: live(self.permits) }
    }
}

/// A window that may be there, as its view.
pub open spec fn window_view(window: Option<Window>) -> Option<WindowView> {
    match window {
        Some(w) => Some(w@),
        None => None,
    }
}

impl Window {
    /// The total is that of the permits that there are, and the semaphore can hold them.
    pub closed spec fn wf(self) -> bool {
        self.total == live(self.permits) && self.total <= MAX_PERMITS
    }

    /// A window of `limit` credits.
    pub fn new(limit: usize) -> (window: Window)
        requires
            limit <= MAX_PERMITS,
        ensures
            window.wf(),
            window@.live == limit,
    {
        Window { permits: Permits::new(limit), total: limit }
    }

    /// The semaphore to acquire from.
    pub fn semaphore(&self) -> (sem: Arc<Semaphore>)
        ensures
            *sem == self@.semaphore,
    {
        self.permits.semaphore()
    }

    /// Whether a semaphore is that of the window.
    pub fn owns(&self, sem: &Arc<Semaphore>) -> (owns: bool)
        ensures
            owns <==> **sem == self@.semaphore,
    {
        self.permits.belongs_to(sem)
    }

    /// Whether a permit was acquired from the window's semaphore.
    pub fn issued(&self, permit: &OwnedSemaphorePermit) -> (issued: bool)
        ensures
            issued <==> source_of(*permit) == self@.semaphore,
    {
        self.owns(permit.semaphore())
    }

    /// Forgets a permit of the window's semaphore, which was acquired to send a frame.
    pub fn spend(&mut self, permit: OwnedSemaphorePermit)
        requires
            old(self).wf(),
            source_of(permit) == old(self)@.semaphore,
        ensures
            final(self).wf(),
            final(self)@.semaphore == old(self)@.semaphore,
            final(self)@.live + permits_of(permit) == old(self)@.live,
    {
        let n: usize = permit.num_permits();
        self.permits.forget(permit);
        self.total = self.total - n;
    }

    /// Adds credits, unless the semaphore has no room for them.
    pub fn credit(&mut self, ack_count: u32) -> (outcome: FlowAck)
        requires
            old(self).wf(),
        ensures
            final(self).wf(),
            outcome == ack_outcome(Some(old(self)@), ack_count),
            final(self)@ == window_after(old(self)@, ack_count),
            final(self)@.semaphore == old(self)@.semaphore,
            old(self)@.live + ack_count <= MAX_PERMITS ==> outcome == FlowAck::Added(
                ack_count as usize,
            ) && final(self)@.live == old(self)@.live + ack_count,
            old(self)@.live + ack_count > MAX_PERMITS ==> outcome == FlowAck::Full
                && final(self)@.live == old(self)@.live,
    {
        if ack_count as u64 > (MAX_PERMITS - self.total) as u64 {
            return FlowAck::Full;
        }
        let n: usize = ack_count as usize;
        self.permits.grant(n);
        self.total = self.total + n;
        FlowAck::Added(n)
    }
}

/// What a window is said to have is what its semaphore has: the account is kept for no other.
proof fn law_account_is_that_of_the_semaphore(window: Window)
    requires
        window.wf(),
    ensures
        window@.semaphore == semaphore_of(window.permits),
        window@.live == live(window.permits),
        window@.live == window.total,
        window@.live <= usize::MAX / 8,
{
}

/// A window of `limit` credits, or none for an unlimited one.
pub fn semaphore_for_limit(limit: usize) -> (window: Option<Window>)
    requires
        limit <= MAX_PERMITS,
    ensures
        window is None <==> limit == 0,
        window matches Some(w) ==> w.wf() && w@.live == limit,
{
    if limit == 0 {
        None
    } else {
        Some(Window::new(limit))
    }
}

/// What becomes of a peer's ACK.
#[derive(Debug, Clone, Copy, PartialEq, Eq, Structural)]
pub enum FlowAck {
    /// This many credits were added.
    Added(usize),
    /// None were added: with them there would be more permits than a semaphore can hold.
    Full,
}

/// Whether a window has room for the credits of an ACK.
pub open spec fn has_room(window: WindowView, ack_count: u32) -> bool {
    window.live + ack_count <= MAX_PERMITS
}

/// What becomes of an ACK: a limited window gets all its credits, and an unlimited one needs none.
pub open spec fn ack_outcome(window: Option<WindowView>, ack_count: u32) -> FlowAck {
    match window {
        Some(w) => if has_room(w, ack_count) {
            FlowAck::Added(ack_count as usize)
        } else {
            FlowAck::Full
        },
        None => FlowAck::Added(0),
    }
}

/// A window after an ACK.
pub open spec fn window_after(window: WindowView, ack_count: u32) -> WindowView {
    if has_room(window, ack_count) {
        WindowView { live: window.live + ack_count as nat, ..window }
    } else {
        window
    }
}

/// An ACK adds as many permits as it counts, and says so. It adds none only where there would be more
/// than a semaphore can hold, and says that. It needs none without a window.
pub proof fn law_credits_are_reported_as_added(window: WindowView, ack_count: u32)
    ensures
        window_after(window, ack_count).semaphore == window.semaphore,
        window.live + ack_count <= usize::MAX / 8 ==> {
            &&& window_after(window, ack_count).live == window.live + ack_count
            &&& ack_outcome(Some(window), ack_count) matches FlowAck::Added(n)
            &&& n == ack_count
        },
        window.live + ack_count > usize::MAX / 8 ==> {
            &&& window_after(window, ack_count).live == window.live
            &&& ack_outcome(Some(window), ack_count) is Full
        },
        ack_outcome(None, ack_count) == FlowAck::Added(0),
{
}

/// A window after `n` of its permits are forgotten.
pub open spec fn window_spent(window: WindowView, n: nat) -> WindowView {
    WindowView { live: (window.live - n) as nat, ..window }
}

/// What changes a window: a permit is forgotten, its credit comes back because no frame was sent, or
/// an ACK comes.
pub enum WindowChange {
    Spent,
    Refunded,
    Acked(u32),
}

/// A window after changes, one after another.
pub open spec fn window_after_all(window: WindowView, changes: Seq<WindowChange>) -> WindowView
    decreases changes.len(),
{
    if changes.len() == 0 {
        window
    } else {
        let before = window_after_all(window, changes.drop_last());
        match changes.last() {
            WindowChange::Spent => window_spent(before, 1),
            WindowChange::Refunded => window_after(before, 1),
            WindowChange::Acked(count) => window_after(before, count),
        }
    }
}

/// The permits that are forgotten in changes.
pub open spec fn spent_in(changes: Seq<WindowChange>) -> nat
    decreases changes.len(),
{
    if changes.len() == 0 {
        0
    } else {
        spent_in(changes.drop_last()) + if changes.last() is Spent {
            1nat
        } else {
            0
        }
    }
}

/// The credits that come back in changes for want of a frame.
pub open spec fn refunded_in(changes: Seq<WindowChange>) -> nat
    decreases changes.len(),
{
    if changes.len() == 0 {
        0
    } else {
        refunded_in(changes.drop_last()) + if changes.last() is Refunded {
            1nat
        } else {
            0
        }
    }
}

/// The frames that are acknowledged in changes.
pub open spec fn acked_in(changes: Seq<WindowChange>) -> nat
    decreases changes.len(),
{
    if changes.len() == 0 {
        0
    } else {
        acked_in(changes.drop_last()) + match changes.last() {
            WindowChange::Acked(count) => count as nat,
            _ => 0,
        }
    }
}

/// Whether each permit that is forgotten in changes is one that there is. `Window::spend` sees to
/// that: a permit that was acquired is one.
pub open spec fn spends_are_live(window: WindowView, changes: Seq<WindowChange>) -> bool
    decreases changes.len(),
{
    changes.len() == 0 || {
        &&& spends_are_live(window, changes.drop_last())
        &&& changes.last() is Spent ==> window_after_all(window, changes.drop_last()).live >= 1
    }
}

/// Whether there is room for all credits that come back in changes, each time that some do.
pub open spec fn credits_have_room(window: WindowView, changes: Seq<WindowChange>) -> bool
    decreases changes.len(),
{
    changes.len() == 0 || {
        let before = window_after_all(window, changes.drop_last());
        &&& credits_have_room(window, changes.drop_last())
        &&& match changes.last() {
            WindowChange::Spent => true,
            WindowChange::Refunded => has_room(before, 1),
            WindowChange::Acked(count) => has_room(before, count),
        }
    }
}

/// Whether, each time that credits come back, no more have come back than permits have been
/// forgotten.
pub open spec fn credits_match_spends(changes: Seq<WindowChange>) -> bool
    decreases changes.len(),
{
    changes.len() == 0 || {
        &&& credits_match_spends(changes.drop_last())
        &&& !(changes.last() is Spent) ==> acked_in(changes) + refunded_in(changes) <= spent_in(
            changes,
        )
    }
}

/// A forgotten permit takes one credit from a window. A refund brings one, and an ACK one for each
/// frame that it acknowledges, or none where there is no room. Nothing else counts.
pub proof fn law_window_adds_up(window: WindowView, changes: Seq<WindowChange>)
    requires
        spends_are_live(window, changes),
    ensures
        window_after_all(window, changes).semaphore == window.semaphore,
        window_after_all(window, changes).live + spent_in(changes) <= window.live + refunded_in(
            changes,
        ) + acked_in(changes),
        credits_have_room(window, changes) ==> window_after_all(window, changes).live + spent_in(
            changes,
        ) == window.live + refunded_in(changes) + acked_in(changes),
    decreases changes.len(),
{
    if changes.len() > 0 {
        law_window_adds_up(window, changes.drop_last());
    }
}

/// There is always room for the ACKs of a peer that acknowledges no more than it was sent.
pub proof fn law_matching_credits_have_room(window: WindowView, changes: Seq<WindowChange>)
    requires
        window.live <= MAX_PERMITS,
        spends_are_live(window, changes),
        credits_match_spends(changes),
    ensures
        credits_have_room(window, changes),
    decreases changes.len(),
{
    if changes.len() > 0 {
        law_matching_credits_have_room(window, changes.drop_last());
        law_window_adds_up(window, changes.drop_last());
    }
}

/// Each frame that is acknowledged undoes one forgotten permit: of a window of which `spent` permits
/// were forgotten, ACKs restore as many as they acknowledge, however these are split into ACKs, and
/// the whole window once all of them are acknowledged.
pub proof fn law_acks_undo_spends(window: WindowView, spent: nat, acks: Seq<WindowChange>)
    requires
        window.live <= MAX_PERMITS,
        spent <= window.live,
        forall|i: int| 0 <= i < acks.len() ==> #[trigger] acks[i] is Acked,
        acked_in(acks) <= spent,
    ensures
        window_after_all(window_spent(window, spent), acks) == (WindowView {
            live: (window.live - spent + acked_in(acks)) as nat,
            ..window
        }),
        acked_in(acks) == spent ==> window_after_all(window_spent(window, spent), acks) == window,
    decreases acks.len(),
{
    if acks.len() > 0 {
        let front = acks.drop_last();
        assert forall|i: int| 0 <= i < front.len() implies #[trigger] front[i] is Acked by {
            assert(front[i] == acks[i]);
        }
        assert(acks.last() == acks[acks.len() - 1]);
        law_acks_undo_spends(window, spent, front);
    }
}

/// However the frames are split into ACKs, and in whatever order those come between the permits that
/// are forgotten, a window ends up the same.
pub proof fn law_split_of_acks_does_not_matter(
    window: WindowView,
    some: Seq<WindowChange>,
    others: Seq<WindowChange>,
)
    requires
        acked_in(some) == acked_in(others),
        refunded_in(some) == refunded_in(others),
        spent_in(some) == spent_in(others),
        spends_are_live(window, some),
        spends_are_live(window, others),
        credits_have_room(window, some),
        credits_have_room(window, others),
    ensures
        window_after_all(window, some) == window_after_all(window, others),
{
    law_window_adds_up(window, some);
    law_window_adds_up(window, others);
}

/// Applies a peer's ACK: one credit for each DATA frame that it wrote. Without a window there is
/// nothing to do.
pub fn apply_flow_ack(window: Option<&mut Window>, ack_count: u32) -> (outcome: FlowAck)
    requires
        window matches Some(w) ==> w.wf(),
    ensures
        window is None ==> outcome == ack_outcome(None, ack_count),
        window matches Some(w) ==> {
            &&& outcome == ack_outcome(Some((*w)@), ack_count)
            &&& final(w)@ == window_after((*w)@, ack_count)
            &&& final(w)@.semaphore == (*w)@.semaphore
            &&& (*w)@.live + ack_count <= MAX_PERMITS ==> outcome == FlowAck::Added(
                ack_count as usize,
            ) && final(w)@.live == (*w)@.live + ack_count
            &&& (*w)@.live + ack_count > MAX_PERMITS ==> outcome == FlowAck::Full
                && final(w)@.live == (*w)@.live
            &&& final(w).wf()
        },
{
    match window {
        Some(window) => window.credit(ack_count),
        None => FlowAck::Added(0),
    }
}

} // verus!
