//! Page-sized call stack memory for AArch64, handed out by a lock-free bump allocator
//!
//! The allocator's state is the number of pages handed out so far; the stacks are placed
//! above the higher boundary of the `.stack` linker section.

use vstd::prelude::*;

verus! {

/// One page is 4 KiB
pub const PAGE_SIZE: usize = 4 * 1024;

/// Page-sized call stack memory
pub struct StackMemory {
    offset: usize,
    num_pages: usize,
}

impl StackMemory {
    #[verifier::type_invariant]
    spec fn inv(&self) -> bool {
        self.num_pages > 0
    }

    /// The index of the first page, counted from the start of the stack area
    pub closed spec fn spec_offset(&self) -> usize {
        self.offset
    }

    /// The number of pages
    pub closed spec fn spec_num_pages(&self) -> usize {
        self.num_pages
    }

    /// Page `page` (counted from the start of the stack area) belongs to this stack memory
    pub open spec fn holds_page(&self, page: int) -> bool {
        self.spec_offset() <= page < self.spec_offset() + self.spec_num_pages()
    }

    /// Reserves `num_pages` of stack memory from the allocator whose state is `next`, the
    /// number of pages reserved so far; the counter wraps around like an atomic `fetch_add`
    pub fn reserve(num_pages: usize, next: &mut usize) -> (r: Self)
        requires
            num_pages > 0,
        ensures
            r.spec_offset() == *old(next),
            r.spec_num_pages() == num_pages,
            *final(next) == if *old(next) + num_pages > usize::MAX {
                *old(next) + num_pages - (usize::MAX + 1)
            } else {
                *old(next) + num_pages
            },
    {
        let offset = *next;
        *next = offset.wrapping_add(num_pages);
        Self { offset, num_pages }
    }

    /// The higher boundary (the initial stack pointer) of this stack memory, given the
    /// higher boundary of the `.stack` linker section
    pub fn address(&self, stack_higher: usize) -> (r: usize)
        requires
            stack_higher + PAGE_SIZE * (self.spec_offset() + self.spec_num_pages())
                <= usize::MAX,
        ensures
            r == stack_higher + PAGE_SIZE * (self.spec_offset() + self.spec_num_pages()),
    {
        assert(PAGE_SIZE == 4096);
        assert(self.offset + self.num_pages <= usize::MAX);
        stack_higher + PAGE_SIZE * (self.offset + self.num_pages)
    }

    /// The higher boundary of this stack memory given the higher boundary of the `.stack`
    /// linker section, or nothing where it lies beyond the address space
    pub fn checked_address(&self, stack_higher: usize) -> (r: Option<usize>)
        ensures
            stack_higher + PAGE_SIZE * (self.spec_offset() + self.spec_num_pages()) <= usize::MAX
                <==> r is Some,
            r matches Some(a) ==> a == stack_higher + PAGE_SIZE * (self.spec_offset()
                + self.spec_num_pages()),
    {
        let pages = match self.offset.checked_add(self.num_pages) {
            Some(pages) => pages,
            None => return None,
        };
        let bytes = match pages.checked_mul(PAGE_SIZE) {
            Some(bytes) => bytes,
            None => return None,
        };
        assert(bytes == PAGE_SIZE * pages) by (nonlinear_arith)
            requires bytes == pages * PAGE_SIZE;
        stack_higher.checked_add(bytes)
    }
}

/// Two reservations made one after the other, without the page counter wrapping around,
/// hold disjoint page ranges
pub proof fn law_reservations_are_disjoint(first: StackMemory, second: StackMemory)
    requires
        second.spec_offset() == first.spec_offset() + first.spec_num_pages(),
    ensures
        forall|page: int| #[trigger] first.holds_page(page) ==> !second.holds_page(page),
{
}

/// The number of pages the first `j` reservations of `stacks` hold
pub open spec fn pages_before(stacks: Seq<StackMemory>, j: int) -> int
    decreases j,
{
    if j <= 0 {
        0
    } else {
        pages_before(stacks, j - 1) + stacks[j - 1].spec_num_pages()
    }
}

/// `stacks` are what successive calls of `reserve` return, starting from a counter of 0 and
/// without the counter wrapping around: each reservation starts where the one before ends
pub open spec fn reserved_in_turn(stacks: Seq<StackMemory>) -> bool {
    &&& stacks.len() > 0 ==> stacks[0].spec_offset() == 0
    &&& forall|j: int|
        0 <= j < stacks.len() - 1 ==> #[trigger] stacks[j + 1].spec_offset() == stacks[j].spec_offset()
            + stacks[j].spec_num_pages()
}

proof fn lemma_offsets(stacks: Seq<StackMemory>, j: int)
    requires
        reserved_in_turn(stacks),
        0 <= j < stacks.len(),
    ensures
        stacks[j].spec_offset() == pages_before(stacks, j),
    decreases j,
{
    if j > 0 {
        lemma_offsets(stacks, j - 1);
        assert(stacks[(j - 1) + 1].spec_offset() == stacks[j - 1].spec_offset()
            + stacks[j - 1].spec_num_pages());
    }
}

proof fn lemma_pages_before_grows(stacks: Seq<StackMemory>, i: int, j: int)
    requires
        0 <= i <= j <= stacks.len(),
    ensures
        pages_before(stacks, i) <= pages_before(stacks, j),
    decreases j - i,
{
    if i < j {
        lemma_pages_before_grows(stacks, i, j - 1);
    }
}

/// Reservations made in turn from a counter of 0 hold the pages from 0 on, one after the
/// other: each starts after all the pages reserved before it, and no two share a page
pub proof fn law_reservations_in_turn(stacks: Seq<StackMemory>)
    requires
        reserved_in_turn(stacks),
    ensures
        forall|j: int|
            0 <= j < stacks.len() ==> #[trigger] stacks[j].spec_offset() == pages_before(stacks, j),
        forall|i: int, j: int, page: int|
            0 <= i < j < stacks.len() && #[trigger] stacks[i].holds_page(page)
                ==> !#[trigger] stacks[j].holds_page(page),
{
    assert forall|j: int| 0 <= j < stacks.len() implies #[trigger] stacks[j].spec_offset()
        == pages_before(stacks, j) by {
        lemma_offsets(stacks, j);
    }
    assert forall|i: int, j: int, page: int|
        0 <= i < j < stacks.len() && #[trigger] stacks[i].holds_page(page) implies !#[trigger] stacks[j].holds_page(
        page,
    ) by {
        lemma_offsets(stacks, i);
        lemma_offsets(stacks, j);
        lemma_pages_before_grows(stacks, i + 1, j);
    }
}

} // verus!
