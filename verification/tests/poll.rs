use sep2_client::poll::{PollId, PollQueue, DEFAULT_POLLRATE};

const SEC: u128 = 1_000_000_000;
const NOW: u128 = 5_000 * SEC;

fn start_noop_poll(queue: &mut PollQueue, rate: u32, now: u128) -> PollId {
    queue.start_poll(Some(rate), now)
}

#[test]
fn poll_ids_are_unique() {
    let mut queue = PollQueue::new();
    let a = start_noop_poll(&mut queue, 900, NOW);
    let b = start_noop_poll(&mut queue, 900, NOW);
    let c = start_noop_poll(&mut queue, 900, NOW);
    assert!(a != b && b != c && a != c);
    assert_eq!(queue.len(), 3);
    assert_eq!(a.get(), 1);
}

#[test]
fn cancel_poll_removes_only_target() {
    let mut queue = PollQueue::new();
    let a = start_noop_poll(&mut queue, 900, NOW);
    let b = start_noop_poll(&mut queue, 900, NOW);

    queue.cancel_poll(a);
    assert!(queue.job(a).is_none());
    assert!(queue.job(b).is_some());

    // Cancelling an already-cancelled poll is a no-op
    queue.cancel_poll(a);
    assert_eq!(queue.len(), 1);
}

#[test]
fn update_poll_rate_shorter_brings_next_forward() {
    let mut queue = PollQueue::new();
    let id = start_noop_poll(&mut queue, 900, NOW);
    let (_, old_next) = queue.job(id).unwrap();

    let later = NOW + 3 * SEC;
    queue.update_poll_rate(id, 10, later);
    let (interval, next) = queue.job(id).unwrap();
    assert_eq!(interval, 10);
    assert!(next < old_next);
    assert!(next <= later + 10 * SEC);
}

#[test]
fn update_poll_rate_longer_keeps_next() {
    let mut queue = PollQueue::new();
    let id = start_noop_poll(&mut queue, 10, NOW);
    let (_, old_next) = queue.job(id).unwrap();

    queue.update_poll_rate(id, 900, NOW + SEC);
    let (interval, next) = queue.job(id).unwrap();
    assert_eq!(interval, 900);
    assert_eq!(next, old_next);
}

#[test]
fn update_poll_rate_keeps_heap_ordered() {
    let mut queue = PollQueue::new();
    let a = start_noop_poll(&mut queue, 900, NOW);
    let b = start_noop_poll(&mut queue, 600, NOW);
    assert_eq!(queue.peek().unwrap(), b);

    queue.update_poll_rate(a, 10, NOW + SEC);
    assert_eq!(queue.peek().unwrap(), a);
}

#[test]
fn default_poll_rate_is_fifteen_minutes() {
    let mut queue = PollQueue::new();
    let id = queue.start_poll(None, NOW);
    assert_eq!(queue.job(id), Some((900, NOW + 900 * SEC)));
    assert_eq!(DEFAULT_POLLRATE, 900);
}

#[test]
fn due_polls_run_once_and_are_rescheduled() {
    let mut queue = PollQueue::new();
    let a = start_noop_poll(&mut queue, 4, NOW);
    let b = start_noop_poll(&mut queue, 10, NOW);
    // Nothing is due yet.
    assert!(queue.take_due(NOW + 4 * SEC).is_empty());
    // After more than four seconds the first poll is due.
    let now = NOW + 4 * SEC + 1;
    assert_eq!(queue.take_due(now), vec![(NOW + 4 * SEC, a)]);
    assert_eq!(queue.job(a), Some((4, now + 4 * SEC)));
    assert_eq!(queue.job(b), Some((10, NOW + 10 * SEC)));
    // Both are due a while later.
    let now = NOW + 20 * SEC;
    assert_eq!(queue.take_due(now), vec![(NOW + 8 * SEC + 1, a), (NOW + 10 * SEC, b)]);
}

#[test]
fn due_polls_come_earliest_due_first() {
    let mut queue = PollQueue::new();
    let slow = start_noop_poll(&mut queue, 30, NOW);
    let fast = start_noop_poll(&mut queue, 5, NOW);
    let mid = start_noop_poll(&mut queue, 12, NOW);
    let now = NOW + 40 * SEC;
    assert_eq!(
        queue.take_due(now),
        vec![(NOW + 5 * SEC, fast), (NOW + 12 * SEC, mid), (NOW + 30 * SEC, slow)]
    );
}

#[test]
fn force_polls_runs_every_job_once() {
    let mut queue = PollQueue::new();
    let a = start_noop_poll(&mut queue, 4, NOW);
    let b = start_noop_poll(&mut queue, 10, NOW);
    let now = NOW + SEC;
    assert_eq!(queue.force_polls(now), vec![a, b]);
    assert_eq!(queue.job(a), Some((4, now + 4 * SEC)));
    assert_eq!(queue.job(b), Some((10, now + 10 * SEC)));
}

#[test]
fn cancel_polls_clears_queue_but_not_ids() {
    let mut queue = PollQueue::new();
    let a = start_noop_poll(&mut queue, 4, NOW);
    queue.cancel_polls();
    assert_eq!(queue.len(), 0);
    assert!(queue.peek().is_none());
    let b = start_noop_poll(&mut queue, 4, NOW);
    assert_ne!(a, b);
}
