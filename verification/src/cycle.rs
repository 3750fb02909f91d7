//! Cyclic navigation over `n` positions, shared by the tab bar and the
//! list selection cursor: one step forward or backward wraps at the ends.

use vstd::prelude::*;

verus! {

/// One forward step around a cycle of `n` positions: the last position
/// wraps to the first.
pub open spec fn step_forward(i: int, n: int) -> int {
    if i >= n - 1 {
        0
    } else {
        i + 1
    }
}

/// One backward step around a cycle of `n` positions: the first position
/// wraps to the last.
pub open spec fn step_backward(i: int, n: int) -> int {
    if i == 0 {
        n - 1
    } else {
        i - 1
    }
}

/// `k` forward steps in a row.
pub open spec fn iter_forward(i: int, n: int, k: nat) -> int
    decreases k,
{
    if k == 0 {
        i
    } else {
        step_forward(iter_forward(i, n, (k - 1) as nat), n)
    }
}

/// `k` backward steps in a row.
pub open spec fn iter_backward(i: int, n: int, k: nat) -> int
    decreases k,
{
    if k == 0 {
        i
    } else {
        step_backward(iter_backward(i, n, (k - 1) as nat), n)
    }
}

/// A backward step undoes a forward step, and a forward step undoes a
/// backward step, at every valid position.
pub proof fn lemma_step_inverse(i: int, n: int)
    requires
        0 <= i < n,
    ensures
        step_backward(step_forward(i, n), n) == i,
        step_forward(step_backward(i, n), n) == i,
{
}

/// After `k <= n` forward steps from `i` the position is `i + k`, reduced
/// once by `n` if that runs past the end.
proof fn lemma_iter_forward_position(i: int, n: int, k: nat)
    requires
        0 <= i < n,
        k <= n,
    ensures
        iter_forward(i, n, k) == if i + k < n { i + k } else { i + k - n },
    decreases k,
{
    if k > 0 {
        lemma_iter_forward_position(i, n, (k - 1) as nat);
    }
}

/// After `k <= n` backward steps from `i` the position is `i - k`, raised
/// once by `n` if that runs past the start.
proof fn lemma_iter_backward_position(i: int, n: int, k: nat)
    requires
        0 <= i < n,
        k <= n,
    ensures
        iter_backward(i, n, k) == if i - k >= 0 { i - k } else { i - k + n },
    decreases k,
{
    if k > 0 {
        lemma_iter_backward_position(i, n, (k - 1) as nat);
    }
}

/// Going forward all the way around a cycle of `n` positions returns to the
/// starting position.
pub proof fn lemma_forward_cycle(i: int, n: int)
    requires
        0 <= i < n,
    ensures
        iter_forward(i, n, n as nat) == i,
{
    lemma_iter_forward_position(i, n, n as nat);
}

/// Going backward all the way around a cycle of `n` positions returns to the
/// starting position.
pub proof fn lemma_backward_cycle(i: int, n: int)
    requires
        0 <= i < n,
    ensures
        iter_backward(i, n, n as nat) == i,
{
    lemma_iter_backward_position(i, n, n as nat);
}

/// Every step stays inside the cycle.
pub proof fn lemma_step_in_range(i: int, n: int)
    requires
        0 <= i < n,
    ensures
        0 <= step_forward(i, n) < n,
        0 <= step_backward(i, n) < n,
{
}

} // verus!
