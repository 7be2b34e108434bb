//! How long the driver waits for socket input before it drives time forward.
//!
//! Instants are given as nanoseconds since a base instant that the caller
//! fixes once.
use vstd::prelude::*;

verus! {

/// Wait used when no connection has a pending deadline.
pub const DEFAULT_POLL_TIMEOUT_NANOS: u64 = 30_000_000_000;

/// Shortest wait: the driver never busy-loops.
pub const MIN_POLL_TIMEOUT_NANOS: u64 = 1_000_000;

/// The earliest of `deadlines`.
pub open spec fn earliest(deadlines: Seq<u64>) -> u64
    recommends
        deadlines.len() > 0,
    decreases deadlines.len(),
{
    if deadlines.len() <= 1 {
        deadlines[0]
    } else {
        let rest = earliest(deadlines.drop_last());
        if deadlines.last() < rest {
            deadlines.last()
        } else {
            rest
        }
    }
}

/// How long to wait at `now` for connections whose next deadlines are
/// `deadlines`: until the earliest deadline (no time if it has passed), or
/// `DEFAULT_POLL_TIMEOUT_NANOS` when there is none, and never less than
/// `MIN_POLL_TIMEOUT_NANOS`.
pub open spec fn spec_poll_timeout(deadlines: Seq<u64>, now: u64) -> u64 {
    let wait: u64 = if deadlines.len() == 0 {
        DEFAULT_POLL_TIMEOUT_NANOS
    } else if earliest(deadlines) > now {
        (earliest(deadlines) - now) as u64
    } else {
        0
    };
    if wait < MIN_POLL_TIMEOUT_NANOS {
        MIN_POLL_TIMEOUT_NANOS
    } else {
        wait
    }
}

/// The time to wait before the next poll (see `spec_poll_timeout`).
pub fn poll_timeout(deadlines: &[u64], now: u64) -> (r: u64)
    ensures
        r == spec_poll_timeout(deadlines@, now),
{
    let n: usize = deadlines.len();
    let wait: u64 = if n == 0 {
        DEFAULT_POLL_TIMEOUT_NANOS
    } else {
        let mut m: u64 = deadlines[0];
        let mut i: usize = 1;
        assert(deadlines@.take(1) =~= seq![deadlines@[0]]);
        while i < n
            invariant
                n == deadlines@.len(),
                1 <= i <= n,
                m == earliest(deadlines@.take(i as int)),
            decreases n - i,
        {
            assert(deadlines@.take(i + 1).drop_last() =~= deadlines@.take(i as int));
            if deadlines[i] < m {
                m = deadlines[i];
            }
            i = i + 1;
        }
        assert(deadlines@.take(n as int) =~= deadlines@);
        if m > now {
            m - now
        } else {
            0
        }
    };
    if wait < MIN_POLL_TIMEOUT_NANOS {
        MIN_POLL_TIMEOUT_NANOS
    } else {
        wait
    }
}

/// The earliest deadline is one of the deadlines and no later than any.
pub proof fn lemma_earliest_is_minimum(deadlines: Seq<u64>)
    requires
        deadlines.len() > 0,
    ensures
        forall|i: int| 0 <= i < deadlines.len() ==> earliest(deadlines) <= #[trigger] deadlines[i],
        exists|i: int| 0 <= i < deadlines.len() && earliest(deadlines) == #[trigger] deadlines[i],
    decreases deadlines.len(),
{
    if deadlines.len() > 1 {
        let rest = deadlines.drop_last();
        lemma_earliest_is_minimum(rest);
        assert forall|i: int| 0 <= i < deadlines.len() implies earliest(deadlines)
            <= #[trigger] deadlines[i] by {
            if i < rest.len() {
                assert(rest[i] == deadlines[i]);
            }
        }
        let j: int = choose|j: int| 0 <= j < rest.len() && earliest(rest) == #[trigger] rest[j];
        assert(rest[j] == deadlines[j]);
        if deadlines.last() < earliest(rest) {
            assert(earliest(deadlines) == deadlines[deadlines.len() - 1]);
        } else {
            assert(earliest(deadlines) == deadlines[j]);
        }
    } else {
        assert(earliest(deadlines) == deadlines[0]);
    }
}

/// The driver waits until the earliest deadline, but never less than
/// `MIN_POLL_TIMEOUT_NANOS` (so a passed deadline gives the minimum wait), and
/// `DEFAULT_POLL_TIMEOUT_NANOS` when there is no deadline. Hence it never
/// waits less than the minimum, and never sleeps past a deadline unless that
/// deadline is less than the minimum away.
pub proof fn lemma_poll_timeout_bounds(deadlines: Seq<u64>, now: u64)
    ensures
        deadlines.len() == 0 ==> spec_poll_timeout(deadlines, now) == DEFAULT_POLL_TIMEOUT_NANOS,
        deadlines.len() > 0 ==> spec_poll_timeout(deadlines, now) == if earliest(deadlines)
            >= now + MIN_POLL_TIMEOUT_NANOS {
            earliest(deadlines) - now
        } else {
            MIN_POLL_TIMEOUT_NANOS as int
        },
        spec_poll_timeout(deadlines, now) >= MIN_POLL_TIMEOUT_NANOS,
        forall|i: int|
            0 <= i < deadlines.len() ==> spec_poll_timeout(deadlines, now) == MIN_POLL_TIMEOUT_NANOS
                || spec_poll_timeout(deadlines, now) + now <= #[trigger] deadlines[i],
{
    if deadlines.len() > 0 {
        lemma_earliest_is_minimum(deadlines);
    }
}

} // verus!
