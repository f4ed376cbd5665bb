use expose::capacity::MAX_PERMITS;
use expose::{
    apply_flow_ack, semaphore_for_limit, CapacityConfig, FlowAck, Window, ACK_BATCH_SIZE,
    DEFAULT_MAX_PENDING_MESSAGES_PER_CONNECTION,
};
use tokio::sync::{OwnedSemaphorePermit, Semaphore};

fn acquire(window: &Option<Window>) -> OwnedSemaphorePermit {
    let runtime = tokio::runtime::Builder::new_current_thread()
        .build()
        .unwrap();
    let sem = window.as_ref().unwrap().semaphore();
    runtime.block_on(sem.acquire_owned()).unwrap()
}

fn available(window: &Option<Window>) -> usize {
    window.as_ref().unwrap().semaphore().available_permits()
}

#[test]
fn semaphore_for_limit_zero_returns_none() {
    assert!(semaphore_for_limit(0).is_none());
}

#[test]
fn semaphore_for_limit_nonzero_returns_some_with_correct_permits() {
    let sem = semaphore_for_limit(8).expect("should be Some").semaphore();
    assert_eq!(sem.available_permits(), 8);
}

#[test]
fn apply_flow_ack_zero_is_noop() {
    let mut window = Window::new(2);
    apply_flow_ack(Some(&mut window), 0);
    assert_eq!(window.semaphore().available_permits(), 2);
}

#[test]
fn apply_flow_ack_none_sem_is_noop() {
    apply_flow_ack(None, 5);
}

#[test]
fn apply_flow_ack_restores_permits() {
    let mut window = Window::new(0);
    apply_flow_ack(Some(&mut window), 4);
    assert_eq!(window.semaphore().available_permits(), 4);
}

#[test]
fn forget_then_ack_restores_full_capacity() {
    let mut sem = semaphore_for_limit(2);
    let p1 = acquire(&sem);
    let p2 = acquire(&sem);
    p1.forget();
    p2.forget();
    assert_eq!(available(&sem), 0);

    apply_flow_ack(sem.as_mut(), 2);
    assert_eq!(available(&sem), 2);
}

#[test]
fn dropped_permit_returns_and_forgotten_one_does_not() {
    let sem = semaphore_for_limit(3);
    let permit = acquire(&sem);
    assert_eq!(available(&sem), 2);
    drop(permit);
    assert_eq!(available(&sem), 3);
    acquire(&sem).forget();
    assert_eq!(available(&sem), 2);
}

#[test]
fn apply_flow_ack_reports_what_it_added() {
    let mut window = Window::new(1);
    assert_eq!(apply_flow_ack(Some(&mut window), 4), FlowAck::Added(4));
    assert_eq!(apply_flow_ack(Some(&mut window), 0), FlowAck::Added(0));
    assert_eq!(apply_flow_ack(None, 4), FlowAck::Added(0));
    assert_eq!(window.semaphore().available_permits(), 5);
}

#[test]
fn a_full_window_takes_no_more() {
    let mut window = Window::new(MAX_PERMITS - 3);
    let sem = window.semaphore();
    assert_eq!(window.credit(4), FlowAck::Full);
    assert_eq!(sem.available_permits(), MAX_PERMITS - 3);
    assert_eq!(window.credit(3), FlowAck::Added(3));
    assert_eq!(sem.available_permits(), MAX_PERMITS);
    let permit = sem.try_acquire().unwrap();
    assert_eq!(window.credit(1), FlowAck::Full);
    drop(permit);
    assert_eq!(sem.available_permits(), MAX_PERMITS);
}

#[test]
fn acks_may_be_split_in_any_way() {
    for acks in [vec![7], vec![1, 2, 4], vec![4, 0, 3], vec![1; 7]] {
        let mut window = semaphore_for_limit(10);
        for _ in 0..9 {
            acquire(&window).forget();
        }
        for count in acks {
            apply_flow_ack(window.as_mut(), count);
        }
        assert_eq!(available(&window), 10 - 9 + 7);
        apply_flow_ack(window.as_mut(), 2);
        assert_eq!(available(&window), 10);
    }
}

#[test]
fn windows_are_separate() {
    let mut a = semaphore_for_limit(5);
    let mut b = semaphore_for_limit(5);
    acquire(&a).forget();
    acquire(&a).forget();
    assert_eq!((available(&a), available(&b)), (3, 5));
    apply_flow_ack(b.as_mut(), 4);
    assert_eq!((available(&a), available(&b)), (3, 9));
    apply_flow_ack(a.as_mut(), 2);
    assert_eq!((available(&a), available(&b)), (5, 9));
}

/// Forgotten permits make room: no ACK of a frame that was sent is refused.
#[test]
fn spent_permits_make_room() {
    let mut window = semaphore_for_limit(MAX_PERMITS);
    for _ in 0..3 {
        let permit = acquire(&window);
        assert!(window.as_ref().unwrap().issued(&permit));
        window.as_mut().unwrap().spend(permit);
        assert_eq!(available(&window), MAX_PERMITS - 1);
        assert_eq!(apply_flow_ack(window.as_mut(), 1), FlowAck::Added(1));
        assert_eq!(available(&window), MAX_PERMITS);
        assert_eq!(apply_flow_ack(window.as_mut(), 1), FlowAck::Full);
        assert_eq!(available(&window), MAX_PERMITS);
    }
}

#[test]
fn many_permits_are_spent_at_once() {
    let mut window = Window::new(9);
    let permit = window.semaphore().try_acquire_many_owned(4).unwrap();
    window.spend(permit);
    assert_eq!(window.semaphore().available_permits(), 5);
    assert_eq!(window.credit(4), FlowAck::Added(4));
    assert_eq!(window.semaphore().available_permits(), 9);
}

#[test]
fn a_window_tells_its_own_permits() {
    let a = Window::new(2);
    let b = Window::new(2);
    let permit = a.semaphore().try_acquire_owned().unwrap();
    assert!(a.issued(&permit) && !b.issued(&permit));
    assert!(a.owns(&a.semaphore()) && !a.owns(&b.semaphore()));
}

#[test]
fn permit_bound_is_that_of_the_semaphore() {
    assert_eq!(MAX_PERMITS, Semaphore::MAX_PERMITS);
}

#[test]
fn default_window() {
    let config = CapacityConfig::default();
    assert_eq!(config.max_pending_messages_per_connection, 256);
    assert_eq!(DEFAULT_MAX_PENDING_MESSAGES_PER_CONNECTION, 256);
    assert_eq!(ACK_BATCH_SIZE, 64);
}
