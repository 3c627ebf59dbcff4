//! Stack analysis
//!
//! On boot the call stack is painted with `COLOR`. The stack grows downwards, from its higher
//! boundary, so the words that still hold `COLOR` at the bottom of the stack have never been
//! used. The stack memory is seen here as the sequence of its words, from the lower boundary
//! (index 0) to the higher boundary.

use vstd::prelude::*;

verus! {

/// the stack is initialized to this value on boot
pub const COLOR: u32 = 0x90a9_59ff;

/// Every painted word lies below every word that is no longer painted: the shape a stack has
/// when it grows downwards over painted memory
pub open spec fn prefix_painted(stack: Seq<u32>, color: u32) -> bool {
    forall|i: int, j: int| 0 <= i <= j < stack.len() && stack[j] == color ==> stack[i] == color
}

/// Word `b` is the lowest word of a used region that starts right above a painted word
pub open spec fn is_boundary(stack: Seq<u32>, color: u32, b: int) -> bool {
    &&& 0 < b < stack.len()
    &&& stack[b - 1] == color
    &&& stack[b] != color
}

/// The usage that `max_usage` reports for `stack`, in bytes, is `4 * (stack.len() - first)`,
/// where `first` is the lowest word that counts as used
pub open spec fn usage_contract(stack: Seq<u32>, color: u32, r: int) -> bool {
    let n = stack.len() as int;
    let first = n - r / 4;
    &&& r % 4 == 0
    &&& 0 <= r <= 4 * n
    &&& n == 0 ==> r == 0
    &&& n > 0 && stack[n - 1] == color ==> r == 0
    &&& n > 0 && stack[n - 1] != color && stack[0] != color ==> r == 4 * n
    &&& n > 0 && stack[n - 1] != color && stack[0] == color ==> is_boundary(stack, color, first)
    &&& prefix_painted(stack, color) ==> {
        &&& forall|i: int| 0 <= i < first ==> #[trigger] stack[i] == color
        &&& forall|i: int| first <= i < n ==> #[trigger] stack[i] != color
    }
}

/// The word at which the binary search over `stack[good..=bad]` settles: it halves the range,
/// moving `good` up to a painted middle word and `bad` down to an unpainted one, until `good`
/// and `bad` are neighbours
pub open spec fn spec_search(stack: Seq<u32>, color: u32, good: int, bad: int) -> int
    decreases bad - good,
{
    if bad - good <= 1 {
        bad
    } else {
        let next = good + (bad - good) / 2;
        if stack[next] == color {
            spec_search(stack, color, next, bad)
        } else {
            spec_search(stack, color, good, next)
        }
    }
}

/// The usage, in bytes, that the search reports on `stack`: none when the top word is still
/// painted, all of it when the bottom word was overwritten, and otherwise the words from the
/// one where the binary search settles up to the top
pub open spec fn spec_max_usage(stack: Seq<u32>, color: u32) -> int {
    let n = stack.len() as int;
    if n == 0 {
        0
    } else if stack[n - 1] == color {
        0
    } else if stack[0] != color {
        4 * n
    } else {
        4 * (n - spec_search(stack, color, 0, n - 1))
    }
}

/// Binary search for the boundary between the painted and the used part of `stack`
fn binary_search(stack: &[u32], color: u32) -> (r: usize)
    requires
        4 * stack@.len() <= usize::MAX,
    ensures
        r == spec_max_usage(stack@, color),
        usage_contract(stack@, color, r as int),
{
    let n = stack.len();
    if n == 0 {
        return 0;
    }
    // the top of the stack is still painted: nothing has been used
    if stack[n - 1] == color {
        return 0;
    }
    let mut bad = n - 1;
    // the bottom of the stack has been overwritten: the whole stack has been used
    if stack[0] != color {
        return 4 * n;
    }
    let mut good: usize = 0;
    loop
        invariant
            n == stack@.len(),
            4 * n <= usize::MAX,
            good < bad < n,
            stack@[good as int] == color,
            stack@[bad as int] != color,
            stack@[0] == color,
            stack@[n - 1] != color,
            spec_search(stack@, color, good as int, bad as int) == spec_search(
                stack@,
                color,
                0,
                n - 1,
            ),
        ensures
            good + 1 == bad,
            bad < n,
            stack@[good as int] == color,
            stack@[bad as int] != color,
            spec_search(stack@, color, 0, n - 1) == bad,
        decreases bad - good,
    {
        let gap = bad - good;
        let next = good + gap / 2;
        if next == good {
            break;
        }
        if stack[next] == color {
            good = next;
        } else {
            bad = next;
        }
    }
    let r = 4 * (n - bad);
    proof {
        if prefix_painted(stack@, color) {
            assert forall|i: int| 0 <= i < bad implies #[trigger] stack@[i] == color by {
                assert(stack@[good as int] == color);
            }
            assert forall|i: int| bad <= i < n implies #[trigger] stack@[i] != color by {
                if stack@[i] == color {
                    assert(stack@[bad as int] == color);
                }
            }
        }
    }
    r
}

/// Returns the maximum stack usage observed so far, in bytes, given the words of the call
/// stack (from its lower to its higher boundary)
///
/// The result counts the words from the top of the stack down to the lowest word that is no
/// longer painted with `COLOR`. When the stack's shape is the one of a stack that grows
/// downwards over painted memory (`prefix_painted`), that is exactly the number of bytes
/// that no longer hold `COLOR`
pub fn max_usage(stack: &[u32]) -> (r: usize)
    requires
        4 * stack@.len() <= usize::MAX,
    ensures
        r == spec_max_usage(stack@, COLOR),
        usage_contract(stack@, COLOR, r as int),
{
    binary_search(stack, COLOR)
}

/// Paints every word of `memory` with `color`
pub fn paint(memory: &mut [u32], color: u32)
    ensures
        final(memory)@.len() == old(memory)@.len(),
        forall|i: int| 0 <= i < final(memory)@.len() ==> #[trigger] final(memory)@[i] == color,
{
    let n = memory.len();
    let mut i: usize = 0;
    while i < n
        invariant
            i <= n,
            n == memory@.len(),
            n == old(memory)@.len(),
            forall|j: int| 0 <= j < i ==> #[trigger] memory@[j] == color,
        decreases n - i,
    {
        memory[i] = color;
        i = i + 1;
    }
}

} // verus!
