//! Start-up initialization of the statically allocated memory
//!
//! The memory of a linker section is seen as the sequence of its 64-bit words, from its lower
//! to its higher boundary.

use vstd::prelude::*;

verus! {

/// Zeroes the words of a linker section that needs runtime zeroing, like `.bss`
pub fn zero_bss(bss: &mut [u64])
    ensures
        final(bss)@.len() == old(bss)@.len(),
        forall|i: int| 0 <= i < final(bss)@.len() ==> #[trigger] final(bss)@[i] == 0,
{
    let n = bss.len();
    let mut curr: usize = 0;
    while curr < n
        invariant
            curr <= n,
            n == bss@.len(),
            n == old(bss)@.len(),
            forall|j: int| 0 <= j < curr ==> #[trigger] bss@[j] == 0,
        decreases n - curr,
    {
        bss[curr] = 0;
        curr = curr + 1;
    }
}

/// Initializes a linker section that needs runtime initialization, like `.data`: its words
/// (the VMA range) get the values stored at its load address (the LMA range, `lma`)
pub fn init_data(lma: &[u64], data: &mut [u64])
    requires
        lma@.len() >= old(data)@.len(),
    ensures
        final(data)@ == lma@.subrange(0, old(data)@.len() as int),
{
    let n = data.len();
    let mut to: usize = 0;
    while to < n
        invariant
            to <= n,
            n == data@.len(),
            n == old(data)@.len(),
            lma@.len() >= n,
            forall|j: int| 0 <= j < to ==> #[trigger] data@[j] == lma@[j],
        decreases n - to,
    {
        let value = lma[to];
        data[to] = value;
        to = to + 1;
    }
    assert(data@ =~= lma@.subrange(0, n as int));
}

} // verus!
