use rclrs_action_utils::FifoQueueInternal;
use tokio::sync::oneshot::error::TryRecvError;

#[test]
fn first_goal_takes_the_turn_at_once() {
    let mut queue = FifoQueueInternal::new();
    assert!(queue.add_to_queue().is_none());
}

#[test]
fn later_goals_wait_while_the_turn_is_held() {
    let mut queue = FifoQueueInternal::default();
    assert!(queue.add_to_queue().is_none());
    let mut second = queue.add_to_queue().expect("the second goal must wait").into_receiver();
    let mut third = queue.add_to_queue().expect("the third goal must wait").into_receiver();
    assert_eq!(second.try_recv(), Err(TryRecvError::Empty));
    assert_eq!(third.try_recv(), Err(TryRecvError::Empty));
}

#[test]
fn next_wakes_waiters_in_arrival_order() {
    let mut queue = FifoQueueInternal::new();
    assert!(queue.add_to_queue().is_none());
    let mut second = queue.add_to_queue().unwrap().into_receiver();
    let mut third = queue.add_to_queue().unwrap().into_receiver();

    queue.next();
    assert_eq!(second.try_recv(), Ok(()));
    assert_eq!(third.try_recv(), Err(TryRecvError::Empty));

    queue.next();
    assert_eq!(third.try_recv(), Ok(()));

    // Nobody waits any more: the next release makes the queue idle.
    queue.next();
    assert!(queue.add_to_queue().is_none());
}

#[test]
fn releasing_with_nobody_waiting_makes_the_queue_idle() {
    let mut queue = FifoQueueInternal::new();
    assert!(queue.add_to_queue().is_none());
    queue.next();
    // The queue is idle again, so the next goal takes the turn at once.
    assert!(queue.add_to_queue().is_none());
    // And now the turn is held again, so one more goal waits.
    assert!(queue.add_to_queue().is_some());
}

#[test]
fn next_on_an_idle_queue_keeps_it_idle() {
    let mut queue = FifoQueueInternal::new();
    queue.next();
    assert!(queue.add_to_queue().is_none());
}

#[test]
fn a_dropped_waiter_is_passed_over() {
    let mut queue = FifoQueueInternal::new();
    assert!(queue.add_to_queue().is_none());
    let second = queue.add_to_queue().unwrap();
    let mut third = queue.add_to_queue().unwrap().into_receiver();
    let mut fourth = queue.add_to_queue().unwrap().into_receiver();
    drop(second);
    // One release passes the turn over the dropped waiter to the next one.
    queue.next();
    assert_eq!(third.try_recv(), Ok(()));
    assert_eq!(fourth.try_recv(), Err(TryRecvError::Empty));
    queue.next();
    assert_eq!(fourth.try_recv(), Ok(()));
    queue.next();
    assert!(queue.add_to_queue().is_none());
}

#[test]
fn a_release_with_only_dropped_waiters_makes_the_queue_idle() {
    let mut queue = FifoQueueInternal::new();
    assert!(queue.add_to_queue().is_none());
    let second = queue.add_to_queue().unwrap();
    let third = queue.add_to_queue().unwrap();
    drop(second);
    drop(third);
    queue.next();
    // Nobody holds the turn now, so the next goal takes it at once.
    assert!(queue.add_to_queue().is_none());
    let mut waiter = queue.add_to_queue().unwrap().into_receiver();
    assert_eq!(waiter.try_recv(), Err(TryRecvError::Empty));
}
