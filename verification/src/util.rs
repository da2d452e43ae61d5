//! The wall-clock-aligned sleep computation: reports should land on exact
//! interval boundaries (every 5 s on the 5 s mark) regardless of when the
//! loop started, so each round sleeps to the next multiple of the interval
//! rather than a fixed period.

use vstd::arithmetic::div_mod::{lemma_fundamental_div_mod, lemma_mod_multiples_vanish};
use vstd::prelude::*;

verus! {

/// How long to sleep, in nanoseconds, so that a sleep starting `ep_nanos`
/// after the epoch wakes exactly on the next multiple of
/// `interval_nanos`: positive, at most one interval, and landing on a
/// boundary.
pub fn next_interval_delay(ep_nanos: u128, interval_nanos: u128) -> (r: u128)
    requires
        interval_nanos > 0,
        ep_nanos + interval_nanos <= u128::MAX,
    ensures
        r == (ep_nanos / interval_nanos + 1) * interval_nanos - ep_nanos,
        0 < r <= interval_nanos,
        (ep_nanos + r) % (interval_nanos as int) == 0,
{
    let q = ep_nanos / interval_nanos;
    proof {
        let ei = ep_nanos as int;
        let ii = interval_nanos as int;
        let qi = ei / ii;
        lemma_fundamental_div_mod(ei, ii);
        assert((qi + 1) * ii == ii * qi + ii) by (nonlinear_arith);
        lemma_mod_multiples_vanish(qi + 1, 0, ii);
    }
    (q + 1) * interval_nanos - ep_nanos
}

} // verus!
