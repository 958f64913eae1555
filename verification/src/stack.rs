//! Room for deep recursion.
use vstd::prelude::*;

verus! {

/// How much of the stack, in bytes, has to be free before a recursive call.
pub const RED_ZONE: usize = 256 * 1024;

/// The size, in bytes, of a fresh stack segment.
pub const STACK_SIZE: usize = 1024 * 1024;

/// `stacker::maybe_grow` calls its callback once, on a fresh stack segment of
/// `stack_size` bytes where less than `red_zone` bytes of the current one are
/// left, and returns what the callback returned. A size that is so large that the
/// number of pages overflows makes it panic, so `stack_size` is bounded. Whether
/// the machine has the memory for a segment is left unsaid.
pub assume_specification<R, F: FnOnce() -> R>[ stacker::maybe_grow::<R, F> ](
    red_zone: usize,
    stack_size: usize,
    callback: F,
) -> (r: R)
    requires
        callback.requires(()),
        stack_size <= 0x1000_0000,
    ensures
        callback.ensures((), r),
;

} // verus!
