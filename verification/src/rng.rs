use vstd::prelude::*;

verus! {

/// Relies on rand::random_range over `0..n`: it draws a uniformly random
/// integer of that range from the thread-local generator, so the result is
/// strictly below `n`. The range is non-empty (`n > 0`), so the call cannot
/// panic. Nothing more is promised: the draw depends on generator state.
#[verifier::external_body]
pub(crate) fn random_below(n: usize) -> (r: usize)
    requires
        n > 0,
    ensures
        r < n,
{
    rand::random_range(0..n)
}

} // verus!
