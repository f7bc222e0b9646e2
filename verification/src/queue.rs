//! The count of heavy jobs waiting for the shared job lock: each job counts
//! itself in before it waits and out once it holds the lock.
use vstd::prelude::*;

verus! {

/// Jobs currently waiting for the lock.
pub struct WaitQueue {
    waiting: usize,
}

/// The count after one job starts waiting (`true`) or gets the lock
/// (`false`); the count wraps around like an atomic `fetch_add` or
/// `fetch_sub`.
pub open spec fn next_count(c: nat, enter: bool) -> nat {
    if enter {
        (c + 1) % (usize::MAX as nat + 1)
    } else {
        (c + usize::MAX as nat) % (usize::MAX as nat + 1)
    }
}

/// The count after a run of events from a fresh queue.
pub open spec fn count_after(events: Seq<bool>) -> nat
    decreases events.len(),
{
    if events.len() == 0 {
        0
    } else {
        next_count(count_after(events.drop_last()), events.last())
    }
}

/// The jobs that started waiting and have not got the lock yet.
pub open spec fn pending(events: Seq<bool>) -> int
    decreases events.len(),
{
    if events.len() == 0 {
        0
    } else {
        pending(events.drop_last()) + if events.last() {
            1int
        } else {
            -1int
        }
    }
}

/// Each job gets the lock only after it started waiting, and no more jobs
/// wait at once than a `usize` counts.
pub open spec fn well_ordered(events: Seq<bool>) -> bool {
    forall|k: int| 0 <= k <= events.len() ==> 0 <= #[trigger] pending(events.take(k)) <= usize::MAX
}

impl WaitQueue {
    /// The number of waiting jobs.
    pub closed spec fn count(&self) -> nat {
        self.waiting as nat
    }

    /// No job waits.
    pub fn new() -> (q: Self)
        ensures
            q.count() == 0,
    {
        WaitQueue { waiting: 0 }
    }

    /// A job starts waiting (the count wraps around like an atomic
    /// `fetch_add`).
    pub fn enter(&mut self)
        ensures
            final(self).count() == next_count(old(self).count(), true),
    {
        proof {
            lemma_mod_small(self.waiting as int + 1, usize::MAX as int + 1);
        }
        if self.waiting == usize::MAX {
            self.waiting = 0;
        } else {
            self.waiting = self.waiting + 1;
        }
    }

    /// A waiting job got the lock (the count wraps around like an atomic
    /// `fetch_sub`).
    pub fn leave(&mut self)
        ensures
            final(self).count() == next_count(old(self).count(), false),
    {
        proof {
            lemma_mod_small(self.waiting as int + usize::MAX as int, usize::MAX as int + 1);
        }
        if self.waiting == 0 {
            self.waiting = usize::MAX;
        } else {
            self.waiting = self.waiting - 1;
        }
    }
}

/// How many jobs are waiting for the lock.
pub fn waiting_count(q: &WaitQueue) -> (n: usize)
    ensures
        n == q.count(),
{
    q.waiting
}

/// A job that starts waiting and then gets the lock leaves the count as it
/// was.
pub proof fn lemma_enter_leave(c: nat)
    requires
        c <= usize::MAX,
    ensures
        (((c + 1) % (usize::MAX as nat + 1)) + usize::MAX as nat) % (usize::MAX as nat + 1) == c,
{
    lemma_wrap(c as int, usize::MAX as int + 1);
}

/// Over any run of events in which each job gets the lock only after it
/// started waiting, the count is the number of jobs still waiting.
pub proof fn lemma_count_is_pending(events: Seq<bool>)
    requires
        well_ordered(events),
    ensures
        count_after(events) == pending(events),
    decreases events.len(),
{
    assert(events.take(events.len() as int) =~= events);
    assert(0 <= pending(events.take(events.len() as int)) <= usize::MAX);
    if events.len() > 0 {
        let d = events.drop_last();
        assert forall|k: int| 0 <= k <= d.len() implies 0 <= #[trigger] pending(d.take(k)) <= usize::MAX by {
            assert(d.take(k) =~= events.take(k));
            assert(0 <= pending(events.take(k)) <= usize::MAX);
        }
        lemma_count_is_pending(d);
        let c = count_after(d) as int;
        let m = usize::MAX as int + 1;
        if events.last() {
            lemma_mod_small(c + 1, m);
        } else {
            lemma_mod_small(c + usize::MAX as int, m);
        }
    }
}

proof fn lemma_wrap(c: int, m: int)
    requires
        0 <= c < m,
    ensures
        (((c + 1) % m) + (m - 1)) % m == c,
{
    if c + 1 < m {
        assert((c + 1) % m == c + 1) by (nonlinear_arith)
            requires
                0 <= c + 1 < m,
        ;
        assert((c + 1 + (m - 1)) % m == c) by (nonlinear_arith)
            requires
                0 <= c < m,
        ;
    } else {
        assert((c + 1) % m == 0) by (nonlinear_arith)
            requires
                c + 1 == m,
                m > 0,
        ;
        assert((m - 1) % m == m - 1) by (nonlinear_arith)
            requires
                m > 0,
        ;
    }
}

/// `x mod m` for `0 <= x < 2m`.
proof fn lemma_mod_small(x: int, m: int)
    requires
        0 <= x < 2 * m,
        m > 0,
    ensures
        x % m == (if x < m {
            x
        } else {
            x - m
        }),
{
    if x < m {
        assert(x % m == x) by (nonlinear_arith)
            requires
                0 <= x < m,
        ;
    } else {
        assert(x % m == x - m) by (nonlinear_arith)
            requires
                m <= x < 2 * m,
        ;
    }
}

} // verus!
