use amorfly_ai::queue::{waiting_count, WaitQueue};

#[test]
fn jobs_are_counted_while_they_wait() {
    let mut q = WaitQueue::new();
    assert_eq!(waiting_count(&q), 0);
    q.enter();
    q.enter();
    assert_eq!(waiting_count(&q), 2);
    q.leave();
    assert_eq!(waiting_count(&q), 1);
    q.leave();
    assert_eq!(waiting_count(&q), 0);
}

#[test]
fn the_count_follows_the_jobs_still_waiting() {
    let mut q = WaitQueue::new();
    let events = [true, true, false, true, false, false, true];
    let mut pending = 0usize;
    for e in events {
        if e {
            q.enter();
            pending += 1;
        } else {
            q.leave();
            pending -= 1;
        }
        assert_eq!(waiting_count(&q), pending);
    }
}
