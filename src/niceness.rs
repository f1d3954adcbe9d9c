//! The start-up priority policy: a worker run only ever makes itself nicer.

use vstd::prelude::*;

verus! {

/// Niceness the run asks for at start-up.
pub const TARGET_NICENESS: u16 = 15;

/// The niceness to set, given the current one and the target: the target
/// when the current niceness does not exceed it, else nothing, so that the
/// process never gains priority.
pub fn niceness_to_set(current: i32, target: u16) -> (r: Option<i32>)
    ensures
        r == (if current <= target as int {
            Some(target as i32)
        } else {
            None
        }),
{
    let t: i32 = target as i32;
    if current <= t {
        Some(t)
    } else {
        None
    }
}

} // verus!
