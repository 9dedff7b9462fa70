//! Per-player clock policies and their per-move enforcement.

use vstd::prelude::*;

verus! {

/// Grace, in milliseconds, allowed on top of a fixed move time.
pub const MOVETIME_GRACE_MS: u64 = 10;

/// The clock policy of one player. Times are in milliseconds.
#[derive(Clone, Copy, PartialEq, Eq, Structural, Debug)]
pub enum ClockType {
    /// A fixed time per move.
    Movetime(u64),
    /// A fixed search depth; never times out.
    Depth(u64),
    /// Remaining time and an increment added after every move.
    Time(u64, u64),
}

/// Whether spending `elapsed` milliseconds on a move forfeits on time.
pub open spec fn spec_is_timeout(c: ClockType, elapsed: u64) -> bool {
    match c {
        ClockType::Movetime(ms) => elapsed > ms + MOVETIME_GRACE_MS,
        ClockType::Depth(_) => false,
        ClockType::Time(remaining, _) => elapsed >= remaining,
    }
}

/// The clock after a move took `elapsed` milliseconds and did not time out:
/// a `Time` clock is charged and credited its increment (summed with
/// saturation at the integer limit); other clocks are unchanged.
pub open spec fn spec_after_move(c: ClockType, elapsed: u64) -> ClockType {
    match c {
        ClockType::Time(remaining, increment) => {
            if elapsed >= remaining {
                c
            } else if remaining - elapsed + increment > u64::MAX {
                ClockType::Time(u64::MAX, increment)
            } else {
                ClockType::Time((remaining - elapsed + increment) as u64, increment)
            }
        },
        _ => c,
    }
}

/// Charge one move against the clock: report whether it timed out and,
/// if not, update a `Time` clock's remaining milliseconds.
pub fn clock_tick(c: &mut ClockType, elapsed: u64) -> (timeout: bool)
    ensures
        timeout == spec_is_timeout(*old(c), elapsed),
        *final(c) == spec_after_move(*old(c), elapsed),
{
    match *c {
        ClockType::Movetime(ms) => elapsed > ms.saturating_add(MOVETIME_GRACE_MS),
        ClockType::Depth(_) => false,
        ClockType::Time(remaining, increment) => {
            if elapsed >= remaining {
                true
            } else {
                *c = ClockType::Time(
                    (remaining - elapsed).saturating_add(increment),
                    increment,
                );
                false
            }
        },
    }
}

} // verus!
