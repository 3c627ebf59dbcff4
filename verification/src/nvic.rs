//! Nested Vectored Interrupt Controller
//!
//! The controller is probed once, when it is acquired: the probe records which external
//! interrupts the device implements and how many priority bits it supports. Operations that
//! change the controller's state return the register write that performs them.

use crate::bits::{bit, bits_set_below, count_ones, lemma_bit_value, lemma_bits_set_below_bound,
    lemma_clear_bit, lemma_mask_test, lemma_popcount_byte, popcount,
};
use crate::mmio::{aligned_for, SafeRwReg, SafeRwRegs};
use crate::vtor::{ExternalInterrupt, VectActive, VectorTable, NUM_INTERRUPTS};
use vstd::arithmetic::power2::{lemma2_to64, pow2};
use vstd::prelude::*;

verus! {

broadcast use {vstd::layout::layout_of_primitives, vstd::array::group_array_axioms};

/// Number of interrupt set-enable registers (each covers 32 interrupts)
pub const NUM_ISER: usize = 16;

/// Base address of the NVIC register block
pub const NVIC: usize = 0xE000_E000;

/// Offset of the Interrupt Set-Enable Registers
pub const ISER_OFFSET: usize = 0x100;

/// Offset of the Interrupt Clear-Enable Registers
pub const ICER_OFFSET: usize = 0x180;

/// Offset of the Interrupt Set-Pending Registers
pub const ISPR_OFFSET: usize = 0x200;

/// Offset of the Interrupt Priority Registers
pub const IPR_OFFSET: usize = 0x400;

/// Interrupt Set-Enable Registers
pub fn nvic_iser() -> (r: SafeRwRegs<NVIC, NUM_ISER, u32>)
    ensures
        r.spec_offset() == ISER_OFFSET,
{
    SafeRwRegs::new(ISER_OFFSET)
}

/// Interrupt Clear-Enable Registers
pub fn nvic_icer() -> (r: SafeRwRegs<NVIC, NUM_ISER, u32>)
    ensures
        r.spec_offset() == ICER_OFFSET,
{
    SafeRwRegs::new(ICER_OFFSET)
}

/// Interrupt Set-Pending Registers
pub fn nvic_ispr() -> (r: SafeRwRegs<NVIC, NUM_ISER, u32>)
    ensures
        r.spec_offset() == ISPR_OFFSET,
{
    SafeRwRegs::new(ISPR_OFFSET)
}

/// Interrupt Priority Registers, one byte per interrupt
pub fn nvic_ipr() -> (r: SafeRwRegs<NVIC, NUM_INTERRUPTS, u8>)
    ensures
        r.spec_offset() == IPR_OFFSET,
{
    SafeRwRegs::new(IPR_OFFSET)
}

/// Interrupt `nr` is marked in the bitmap `words`: bit `nr % 32` of word `nr / 32`
pub open spec fn marked(words: Seq<u32>, nr: int) -> bool {
    0 <= nr < 32 * words.len() && bit(words[nr / 32], nr % 32)
}

/// The interrupts marked in `words`
pub open spec fn marked_set(words: Seq<u32>) -> Set<int> {
    Set::new(|nr: int| marked(words, nr))
}

/// Number of interrupts below `n` that are marked in `words`
pub open spec fn count_marked(words: Seq<u32>, n: nat) -> nat
    decreases n,
{
    if n == 0 {
        0
    } else {
        count_marked(words, (n - 1) as nat) + if marked(words, n - 1) {
            1nat
        } else {
            0nat
        }
    }
}

proof fn lemma_count_marked_is_len(words: Seq<u32>, n: nat)
    ensures
        Set::new(|nr: int| nr < n && marked(words, nr)).finite(),
        Set::new(|nr: int| nr < n && marked(words, nr)).len() == count_marked(words, n),
    decreases n,
{
    let s = Set::new(|nr: int| nr < n && marked(words, nr));
    if n == 0 {
        assert(s =~= Set::empty());
    } else {
        let m = (n - 1) as nat;
        let prev = Set::new(|nr: int| nr < m && marked(words, nr));
        lemma_count_marked_is_len(words, m);
        if marked(words, m as int) {
            assert(s =~= prev.insert(m as int));
        } else {
            assert(s =~= prev);
        }
    }
}

/// The marked count across word `i` is the count before it plus the word's bits
proof fn lemma_count_marked_word(words: Seq<u32>, i: nat, b: nat)
    requires
        i < words.len(),
        b <= 32,
    ensures
        count_marked(words, 32 * i + b) == count_marked(words, 32 * i) + bits_set_below(
            words[i as int],
            b,
        ),
    decreases b,
{
    if b > 0 {
        lemma_count_marked_word(words, i, (b - 1) as nat);
        let nr = 32 * i + b - 1;
        assert(nr / 32 == i && nr % 32 == b - 1);
    }
}

/// Logical priorities map onto this many hardware priority values
pub open spec fn spec_max_prio(num_prio_bits: nat) -> int {
    pow2(num_prio_bits) - 1
}

/// The hardware priority value of logical priority `logical`, when `num_prio_bits` priority
/// bits are implemented: the highest logical priority is the most urgent (hardware value 0)
/// and only the implemented (most significant) bits of the 8-bit field are used
pub open spec fn spec_hw_priority(logical: int, num_prio_bits: nat) -> int {
    (spec_max_prio(num_prio_bits) - logical) * pow2((8 - num_prio_bits) as nat)
}

proof fn lemma_pow2_small()
    ensures
        pow2(0) == 1,
        pow2(1) == 2,
        pow2(2) == 4,
        pow2(3) == 8,
        pow2(4) == 16,
        pow2(5) == 32,
        pow2(6) == 64,
        pow2(7) == 128,
        pow2(8) == 256,
{
    lemma2_to64();
}

/// The maximum logical priority for `num_prio_bits` priority bits; past 8 bits, the byte
/// keeps only its 8 low bits (255)
pub fn max_prio(num_prio_bits: u8) -> (r: u8)
    requires
        num_prio_bits < 16,
    ensures
        r == (pow2(num_prio_bits as nat) - 1) % 256,
        num_prio_bits <= 8 ==> r == spec_max_prio(num_prio_bits as nat),
{
    proof {
        lemma_pow2_small();
        vstd::bits::lemma_u16_pow2_no_overflow(num_prio_bits as nat);
        vstd::bits::lemma_u16_shl_is_mul(1u16, num_prio_bits as u16);
        vstd::arithmetic::power2::lemma_pow2_pos(num_prio_bits as nat);
    }
    let full = (1u16 << num_prio_bits) - 1;
    assert(full as u8 == full % 256) by (bit_vector);
    full as u8
}

/// Converts logical priority `logical` into the value written to an interrupt priority
/// register, when `num_prio_bits` priority bits are implemented
pub fn hw2logical(logical: u8, num_prio_bits: u8) -> (r: u8)
    requires
        1 <= num_prio_bits <= 8,
        logical <= spec_max_prio(num_prio_bits as nat),
    ensures
        r == spec_hw_priority(logical as int, num_prio_bits as nat),
{
    let top = max_prio(num_prio_bits);
    let diff = top - logical;
    let shift = 8 - num_prio_bits;
    proof {
        lemma_pow2_small();
        assert(diff * pow2(shift as nat) <= 255) by {
            let p = pow2(shift as nat);
            if num_prio_bits == 1 {
                assert(p == 128 && diff <= 1);
            } else if num_prio_bits == 2 {
                assert(p == 64 && diff <= 3);
            } else if num_prio_bits == 3 {
                assert(p == 32 && diff <= 7);
            } else if num_prio_bits == 4 {
                assert(p == 16 && diff <= 15);
            } else if num_prio_bits == 5 {
                assert(p == 8 && diff <= 31);
            } else if num_prio_bits == 6 {
                assert(p == 4 && diff <= 63);
            } else if num_prio_bits == 7 {
                assert(p == 2 && diff <= 127);
            } else {
                assert(p == 1 && diff <= 255);
            }
        }
        vstd::bits::lemma_u8_shl_is_mul(diff, shift);
    }
    diff << shift
}

/// Iterator over the implemented external interrupts, in ascending order
pub struct Interrupts {
    available: [u32; NUM_ISER],
    index: u8,
}

impl Interrupts {
    #[verifier::type_invariant]
    spec fn inv(&self) -> bool {
        self.index <= NUM_ISER
    }

    /// The interrupts that are yet to be returned
    pub closed spec fn remaining(&self) -> Set<int> {
        Set::new(|nr: int| 32 * self.index <= nr && marked(self.available@, nr))
    }

    /// Returns the lowest-numbered interrupt that has not been returned yet
    pub fn next(&mut self) -> (r: Option<ExternalInterrupt>)
        ensures
            match r {
                None => {
                    &&& old(self).remaining() == Set::<int>::empty()
                    &&& final(self).remaining() == old(self).remaining()
                },
                Some(irq) => {
                    &&& irq.spec_nr() < 32 * NUM_ISER
                    &&& old(self).remaining().contains(irq.spec_nr() as int)
                    &&& forall|nr: int| #[trigger]
                        old(self).remaining().contains(nr) ==> irq.spec_nr() <= nr
                    &&& final(self).remaining() == old(self).remaining().remove(
                        irq.spec_nr() as int,
                    )
                },
            },
    {
        proof {
            use_type_invariant(&*self);
        }
        let ghost start = self.remaining();
        loop
            invariant
                self.index <= NUM_ISER,
                self.remaining() == start,
                start == old(self).remaining(),
            decreases NUM_ISER - self.index,
        {
            if self.index as usize >= NUM_ISER {
                proof {
                    assert(start =~= Set::<int>::empty());
                }
                return None;
            }
            let i = self.index as usize;
            let w = self.available[i];
            if w == 0 {
                let ghost before = self.remaining();
                self.index = self.index + 1;
                proof {
                    assert forall|nr: int| before.contains(nr) implies #[trigger] self.remaining().contains(nr) by {
                        if nr < 32 * (i + 1) {
                            let b = (nr % 32) as u32;
                            assert(nr / 32 == i);
                            assert((0u32 >> b) & 1u32 == 0u32) by (bit_vector);
                        }
                    }
                    assert(self.remaining() =~= before);
                }
                continue;
            }
            let offset = w.trailing_zeros();
            let nr = 32 * (i as u16) + offset as u16;
            proof {
                vstd::std_specs::bits::axiom_u32_trailing_zeros(w);
                assert(nr as int / 32 == i && nr as int % 32 == offset);
            }
            let mut available = self.available;
            available[i] = w & !(1u32 << offset);
            let ghost before = self.remaining();
            let ghost old_words = self.available@;
            self.available = available;
            proof {
                assert(marked(old_words, nr as int));
                assert forall|x: int| #[trigger] before.contains(x) implies nr <= x by {
                    if x < 32 * (i + 1) {
                        assert(x / 32 == i);
                        let b = (x % 32) as u32;
                        if b < offset {
                            assert((w >> b) & 1u32 == 0u32);
                        }
                    }
                }
                assert forall|x: int| #[trigger] self.remaining().contains(x) == before.remove(
                    nr as int,
                ).contains(x) by {
                    if 32 * i <= x < 32 * (i + 1) {
                        assert(x / 32 == i);
                        lemma_clear_bit(w, offset, (x % 32) as u32);
                    } else if 0 <= x < 32 * NUM_ISER {
                        assert(x / 32 != i);
                        assert(self.available@[x / 32] == old_words[x / 32]);
                    }
                }
                assert(self.remaining() =~= before.remove(nr as int));
            }
            return Some(ExternalInterrupt::from_nr(nr));
        }
    }
}

/// `yielded` is what successive calls of `Interrupts::next` return, from remaining
/// interrupts `start` until it returns `None`: each call returns the lowest remaining
/// interrupt and removes it, and the last one leaves nothing
pub open spec fn spec_drained(start: Set<int>, yielded: Seq<int>) -> bool
    decreases yielded.len(),
{
    if yielded.len() == 0 {
        start == Set::<int>::empty()
    } else {
        &&& start.contains(yielded[0])
        &&& forall|x: int| #[trigger] start.contains(x) ==> yielded[0] <= x
        &&& spec_drained(start.remove(yielded[0]), yielded.drop_first())
    }
}

/// What a drained iteration yields: exactly the remaining interrupts, each once, in strictly
/// increasing order
proof fn lemma_drained(start: Set<int>, yielded: Seq<int>)
    requires
        spec_drained(start, yielded),
    ensures
        forall|i: int, j: int| 0 <= i < j < yielded.len() ==> yielded[i] < yielded[j],
        forall|x: int| start.contains(x) <==> yielded.contains(x),
        start.finite(),
        start.len() == yielded.len(),
    decreases yielded.len(),
{
    if yielded.len() == 0 {
        assert(start =~= Set::<int>::empty());
    } else {
        let y = yielded[0];
        let rest = yielded.drop_first();
        lemma_drained(start.remove(y), rest);
        assert forall|i: int, j: int| 0 <= i < j < yielded.len() implies yielded[i] < yielded[j] by {
            if i == 0 {
                assert(rest.contains(yielded[j])) by {
                    assert(rest[j - 1] == yielded[j]);
                }
                assert(start.remove(y).contains(yielded[j]));
            } else {
                assert(rest[i - 1] < rest[j - 1]);
            }
        }
        assert forall|x: int| start.contains(x) <==> yielded.contains(x) by {
            if start.contains(x) && x != y {
                assert(rest.contains(x));
                let k = choose|k: int| 0 <= k < rest.len() && rest[k] == x;
                assert(yielded[k + 1] == x);
            }
            if yielded.contains(x) {
                let k = choose|k: int| 0 <= k < yielded.len() && yielded[k] == x;
                if k > 0 {
                    assert(rest[k - 1] == x);
                }
            }
            if x == y {
                assert(yielded[0] == x);
            }
        }
        assert(start =~= start.remove(y).insert(y));
    }
}

/// Iterating over the interrupts of an NVIC until `Interrupts::next` returns `None` yields
/// every implemented interrupt exactly once, in strictly increasing order: as many as
/// `num_interrupts` reports
pub proof fn law_interrupts_yield_each_implemented_once(nvic: Nvic, yielded: Seq<int>)
    requires
        spec_drained(nvic.implemented(), yielded),
    ensures
        forall|i: int, j: int| 0 <= i < j < yielded.len() ==> yielded[i] < yielded[j],
        forall|x: int| nvic.implemented().contains(x) <==> yielded.contains(x),
        nvic.implemented().finite(),
        yielded.len() == nvic.implemented().len(),
{
    lemma_drained(nvic.implemented(), yielded);
}

/// Logical priority `max_prio` is the most urgent hardware value (0) and logical priority 0
/// is the least urgent value that the implemented priority bits can express
pub proof fn law_priority_extremes(num_prio_bits: nat)
    requires
        1 <= num_prio_bits <= 8,
    ensures
        spec_hw_priority(spec_max_prio(num_prio_bits), num_prio_bits) == 0,
        spec_hw_priority(0, num_prio_bits) == 256 - pow2((8 - num_prio_bits) as nat),
{
    lemma_pow2_small();
    let n = num_prio_bits;
    let a = pow2(n);
    let b = pow2((8 - n) as nat);
    vstd::arithmetic::power2::lemma_pow2_adds(n, (8 - n) as nat);
    assert(a * b == 256);
    assert((a - 1) * b == a * b - b) by (nonlinear_arith);
    assert(0 * b == 0);
}

/// A higher logical priority is strictly more urgent: it maps to a lower hardware value
pub proof fn law_priority_order_reversed(low: int, high: int, num_prio_bits: nat)
    requires
        1 <= num_prio_bits <= 8,
        0 <= low < high <= spec_max_prio(num_prio_bits),
    ensures
        spec_hw_priority(low, num_prio_bits) > spec_hw_priority(high, num_prio_bits),
{
    lemma_pow2_small();
    let p = pow2((8 - num_prio_bits) as nat);
    vstd::arithmetic::power2::lemma_pow2_pos((8 - num_prio_bits) as nat);
    let d1 = spec_max_prio(num_prio_bits) - low;
    let d2 = spec_max_prio(num_prio_bits) - high;
    vstd::arithmetic::mul::lemma_mul_strict_inequality(d2, d1, p as int);
    vstd::arithmetic::mul::lemma_mul_is_commutative(d2, p as int);
    vstd::arithmetic::mul::lemma_mul_is_commutative(d1, p as int);
}

/// Hardware priority values fit the 8-bit priority field and only use its implemented
/// (most significant) bits
pub proof fn law_priority_uses_implemented_bits(logical: int, num_prio_bits: nat)
    requires
        1 <= num_prio_bits <= 8,
        0 <= logical <= spec_max_prio(num_prio_bits),
    ensures
        0 <= spec_hw_priority(logical, num_prio_bits) <= 255,
        spec_hw_priority(logical, num_prio_bits) % (pow2((8 - num_prio_bits) as nat) as int) == 0,
{
    lemma_pow2_small();
    let p = pow2((8 - num_prio_bits) as nat);
    let d = spec_max_prio(num_prio_bits) - logical;
    vstd::arithmetic::div_mod::lemma_mod_multiples_basic(d, p as int);
    law_priority_extremes(num_prio_bits);
    if logical > 0 {
        law_priority_order_reversed(0, logical, num_prio_bits);
    }
    vstd::arithmetic::mul::lemma_mul_nonnegative(d, p as int);
}

/// Interrupt handler state
pub trait HandlerState: 'static {
    /// Called when interrupt is serviced
    fn on_interrupt(&mut self);
}

/// Why the NVIC could not be acquired
#[derive(Clone, Copy, Debug, PartialEq, Eq, Structural)]
pub enum AcquireError {
    /// The NVIC can only be acquired from thread mode
    NotThreadMode,
    /// The NVIC has already been acquired
    AlreadyAcquired,
    /// The device implements no external interrupt
    NoInterrupts,
    /// The ISA requires at least 3 priority bits; this many were probed
    TooFewPriorityBits(u8),
    /// Priority grouping (`AIRCR.PRIGROUP`) must be 0; this value was read
    PriorityGrouping(u8),
}

/// Returns the lowest-numbered interrupt marked in the probed bitmap `available`, if any
pub fn first_available(available: &[u32; NUM_ISER]) -> (r: Option<usize>)
    ensures
        match r {
            None => marked_set(available@) == Set::<int>::empty(),
            Some(first) => {
                &&& marked(available@, first as int)
                &&& forall|nr: int| #[trigger] marked(available@, nr) ==> first <= nr
            },
        },
{
    let mut first: Option<usize> = None;
    let mut n: usize = 0;
    while n < NUM_ISER
        invariant
            n <= NUM_ISER,
            match first {
                None => forall|nr: int| nr < 32 * n ==> !#[trigger] marked(available@, nr),
                Some(f) => {
                    &&& marked(available@, f as int)
                    &&& f < 32 * n
                    &&& forall|nr: int| #[trigger] marked(available@, nr) ==> f <= nr
                },
            },
        decreases NUM_ISER - n,
    {
        let mask = available[n];
        let offset = mask.trailing_zeros();
        proof {
            vstd::std_specs::bits::axiom_u32_trailing_zeros(mask);
        }
        if offset != 32 && first.is_none() {
            let f = 32 * n + offset as usize;
            proof {
                assert(f / 32 == n && f % 32 == offset);
                assert forall|nr: int| #[trigger] marked(available@, nr) implies f <= nr by {
                    if nr < 32 * n {
                    } else if nr < 32 * (n + 1) {
                        assert(nr / 32 == n);
                        let b = (nr % 32) as u32;
                        if b < offset {
                            assert((mask >> b) & 1u32 == 0u32);
                        }
                    }
                }
            }
            first = Some(f);
        } else if first.is_none() {
            proof {
                assert(mask == 0);
                assert forall|nr: int| nr < 32 * (n + 1) implies !#[trigger] marked(available@, nr) by {
                    if 32 * n <= nr {
                        assert(nr / 32 == n);
                        let b = (nr % 32) as u32;
                        assert((0u32 >> b) & 1u32 == 0u32) by (bit_vector);
                    }
                }
            }
        }
        n = n + 1;
    }
    proof {
        if first.is_none() {
            assert(marked_set(available@) =~= Set::<int>::empty());
        }
    }
    first
}

/// The priority grouping field (`PRIGROUP`) of an `AIRCR` register value
pub open spec fn spec_prigroup(aircr: u32) -> int {
    ((aircr / 256) % 8) as int
}

/// One acquisition attempt from the exception `active`, with the once-flag `acquired`: the
/// flag afterwards, and whether the attempt succeeded
pub open spec fn spec_acquire(acquired: bool, active: VectActive) -> (bool, bool) {
    if active != VectActive::ThreadMode {
        (acquired, false)
    } else if acquired {
        (true, false)
    } else {
        (true, true)
    }
}

/// The number of attempts among `attempts` that succeed, made one after the other with the
/// once-flag `acquired`
pub open spec fn spec_acquisitions(acquired: bool, attempts: Seq<VectActive>) -> nat
    decreases attempts.len(),
{
    if attempts.len() == 0 {
        0
    } else {
        let (next, ok) = spec_acquire(acquired, attempts[0]);
        (if ok {
            1nat
        } else {
            0nat
        }) + spec_acquisitions(next, attempts.drop_first())
    }
}

/// Once the flag is set, no attempt succeeds
proof fn lemma_no_more_acquisitions(attempts: Seq<VectActive>)
    ensures
        spec_acquisitions(true, attempts) == 0,
    decreases attempts.len(),
{
    if attempts.len() > 0 {
        lemma_no_more_acquisitions(attempts.drop_first());
    }
}

/// Over a whole run, whose attempts to acquire the NVIC share one once-flag that starts clear,
/// at most one attempt succeeds: since building a handle uses up the acquisition of a
/// successful attempt, a run builds at most one NVIC handle
pub proof fn law_at_most_one_acquisition(attempts: Seq<VectActive>)
    ensures
        spec_acquisitions(false, attempts) <= 1,
    decreases attempts.len(),
{
    if attempts.len() > 0 {
        let (next, ok) = spec_acquire(false, attempts[0]);
        if ok {
            lemma_no_more_acquisitions(attempts.drop_first());
        } else {
            law_at_most_one_acquisition(attempts.drop_first());
        }
    }
}

/// The right to build the one NVIC handle of a run: only a successful acquisition makes
/// one, once the once-flag is set, and building the handle uses it up; it can be neither
/// copied nor made elsewhere
pub struct Acquisition {
    _once: (),
}

/// Nested Vectored Interrupt Controller
pub struct Nvic {
    available: [u32; NUM_ISER],
    num_priority_bits: u8,
    num_group_priority_bits: u8,
}

/// The number of group priority bits when `num_priority_bits` priority bits are implemented
/// and `PRIGROUP` is 0: at most 7, since one bit is always a subpriority bit
pub open spec fn spec_group_bits(num_priority_bits: int) -> int {
    if num_priority_bits < 7 {
        num_priority_bits
    } else {
        7
    }
}

impl Nvic {
    #[verifier::type_invariant]
    spec fn inv(&self) -> bool {
        &&& 3 <= self.num_priority_bits <= 8
        &&& self.num_group_priority_bits == spec_group_bits(self.num_priority_bits as int)
    }

    /// The probed bitmap of implemented interrupts
    pub closed spec fn spec_available(&self) -> Seq<u32> {
        self.available@
    }

    /// The number of implemented priority bits
    pub closed spec fn spec_num_priority_bits(&self) -> u8 {
        self.num_priority_bits
    }

    /// The number of group priority bits
    pub closed spec fn spec_num_group_priority_bits(&self) -> u8 {
        self.num_group_priority_bits
    }

    /// The external interrupts this NVIC implements
    pub open spec fn implemented(&self) -> Set<int> {
        marked_set(self.spec_available())
    }

    /// Checks whether the NVIC may be acquired: only from thread mode, and only once;
    /// `acquired` is the once-flag, which records that it happened. Gives the acquisition,
    /// from which the handle is built, or the reason the NVIC may not be acquired
    pub fn try_acquire(active: VectActive, acquired: &mut bool) -> (r: Result<
        Acquisition,
        AcquireError,
    >)
        ensures
            active != VectActive::ThreadMode ==> r == Err::<Acquisition, _>(
                AcquireError::NotThreadMode,
            ) && *final(acquired) == *old(acquired),
            active == VectActive::ThreadMode && *old(acquired) ==> r == Err::<Acquisition, _>(
                AcquireError::AlreadyAcquired,
            ) && *final(acquired),
            active == VectActive::ThreadMode && !*old(acquired) ==> r is Ok && *final(acquired),
            r is Ok ==> !*old(acquired) && *final(acquired),
            (*final(acquired), r is Ok) == spec_acquire(*old(acquired), active),
    {
        if active != VectActive::ThreadMode {
            return Err(AcquireError::NotThreadMode);
        }
        if *acquired {
            return Err(AcquireError::AlreadyAcquired);
        }
        *acquired = true;
        Ok(Acquisition { _once: () })
    }

    /// Acquires the NVIC, in thread mode and the first time: it records in the once-flag
    /// `acquired` that the NVIC has been acquired, and gives the acquisition from which the
    /// handle is built
    pub fn acquire(active: VectActive, acquired: &mut bool) -> (r: Acquisition)
        requires
            active == VectActive::ThreadMode,
            !*old(acquired),
        ensures
            *final(acquired),
    {
        Nvic::try_acquire(active, acquired).unwrap()
    }

    /// Checks the values probed on the hardware and builds the NVIC handle from them, using up
    /// the acquisition, or gives the reason they are refused:
    /// - `available`: the interrupt set-enable registers read back after writing all ones
    /// - `priority_mask`: the priority register of the first implemented interrupt read back
    ///   after writing all ones
    /// - `aircr`: the Application Interrupt and Reset Control Register
    pub fn try_from_probe(
        acquisition: Acquisition,
        available: [u32; NUM_ISER],
        priority_mask: u8,
        aircr: u32,
    ) -> (r: Result<Nvic, AcquireError>)
        ensures
            marked_set(available@) == Set::<int>::empty() ==> r == Err::<Nvic, _>(
                AcquireError::NoInterrupts,
            ),
            marked_set(available@) != Set::<int>::empty() && popcount(priority_mask as u32) < 3
                ==> r == Err::<Nvic, _>(
                AcquireError::TooFewPriorityBits(popcount(priority_mask as u32) as u8),
            ),
            marked_set(available@) != Set::<int>::empty() && popcount(priority_mask as u32) >= 3
                && spec_prigroup(aircr) != 0 ==> r == Err::<Nvic, _>(
                AcquireError::PriorityGrouping(spec_prigroup(aircr) as u8),
            ),
            marked_set(available@) != Set::<int>::empty() && popcount(priority_mask as u32) >= 3
                && spec_prigroup(aircr) == 0 ==> (r matches Ok(nvic) && nvic.spec_available()
                == available@ && nvic.spec_num_priority_bits() == popcount(priority_mask as u32)
                && nvic.spec_num_group_priority_bits() == spec_group_bits(
                popcount(priority_mask as u32) as int,
            )),
    {
        let first = first_available(&available);
        if first.is_none() {
            return Err(AcquireError::NoInterrupts);
        }
        proof {
            assert(marked_set(available@).contains(first.unwrap() as int));
        }
        let ones = count_ones(priority_mask as u32);
        proof {
            lemma_bits_set_below_bound(priority_mask as u32, 32);
            lemma_popcount_byte(priority_mask as u32, 32);
        }
        let num_priority_bits = ones as u8;
        if num_priority_bits < 3 {
            return Err(AcquireError::TooFewPriorityBits(num_priority_bits));
        }
        let prigroup = ((aircr >> 8) as u8) & 0b111;
        assert(((aircr >> 8) as u8) & 0b111u8 == ((aircr / 256) % 8) as u8) by (bit_vector);
        if prigroup != 0 {
            return Err(AcquireError::PriorityGrouping(prigroup));
        }
        let limit = 7 - prigroup;
        let num_group_priority_bits = if num_priority_bits < limit {
            num_priority_bits
        } else {
            limit
        };
        Ok(Nvic { available, num_priority_bits, num_group_priority_bits })
    }

    /// Builds the NVIC handle from the values probed on the hardware, using up the
    /// acquisition:
    /// - `available`: the interrupt set-enable registers read back after writing all ones; at
    ///   least one interrupt is implemented
    /// - `priority_mask`: the priority register of the first implemented interrupt read back
    ///   after writing all ones; at least 3 bits are implemented
    /// - `aircr`: the Application Interrupt and Reset Control Register; `PRIGROUP` is 0
    pub fn from_probe(
        acquisition: Acquisition,
        available: [u32; NUM_ISER],
        priority_mask: u8,
        aircr: u32,
    ) -> (r: Nvic)
        requires
            marked_set(available@) != Set::<int>::empty(),
            popcount(priority_mask as u32) >= 3,
            spec_prigroup(aircr) == 0,
        ensures
            r.spec_available() == available@,
            r.spec_num_priority_bits() == popcount(priority_mask as u32),
            r.spec_num_group_priority_bits() == spec_group_bits(
                popcount(priority_mask as u32) as int,
            ),
    {
        Nvic::try_from_probe(acquisition, available, priority_mask, aircr).unwrap()
    }

    /// The register write that enables the specified interrupt: the bit of the interrupt in
    /// its set-enable register
    pub fn enable(irq: ExternalInterrupt) -> (r: Option<(SafeRwReg<NVIC, u32>, u32)>)
        ensures
            r is Some <==> irq.spec_nr() / 32 < NUM_ISER,
            r matches Some((reg, value)) ==> reg.spec_address() == NVIC + ISER_OFFSET + 4 * (
            irq.spec_nr() / 32) && value == pow2((irq.spec_nr() % 32) as nat),
    {
        let nr = irq.nr();
        let index = (nr / 32) as usize;
        let offset = (nr % 32) as u32;
        proof {
            vstd::bits::lemma_u32_pow2_no_overflow(offset as nat);
            vstd::bits::lemma_u32_shl_is_mul(1u32, offset);
        }
        if let Some(iser) = nvic_iser().get(index) {
            Some((iser, 1u32 << offset))
        } else {
            None
        }
    }

    /// The register write that disables the specified interrupt: the bit of the interrupt in
    /// its clear-enable register
    pub fn disable(irq: ExternalInterrupt) -> (r: Option<(SafeRwReg<NVIC, u32>, u32)>)
        ensures
            r is Some <==> irq.spec_nr() / 32 < NUM_ISER,
            r matches Some((reg, value)) ==> reg.spec_address() == NVIC + ICER_OFFSET + 4 * (
            irq.spec_nr() / 32) && value == pow2((irq.spec_nr() % 32) as nat),
    {
        let nr = irq.nr();
        let index = (nr / 32) as usize;
        let offset = (nr % 32) as u32;
        proof {
            vstd::bits::lemma_u32_pow2_no_overflow(offset as nat);
            vstd::bits::lemma_u32_shl_is_mul(1u32, offset);
        }
        if let Some(icer) = nvic_icer().get(index) {
            Some((icer, 1u32 << offset))
        } else {
            None
        }
    }

    /// The register write that sets `interrupt` as pending: the bit of the interrupt in its
    /// set-pending register
    pub fn set_pending(interrupt: ExternalInterrupt) -> (r: Option<(SafeRwReg<NVIC, u32>, u32)>)
        ensures
            r is Some <==> interrupt.spec_nr() / 32 < NUM_ISER,
            r matches Some((reg, value)) ==> reg.spec_address() == NVIC + ISPR_OFFSET + 4 * (
            interrupt.spec_nr() / 32) && value == pow2((interrupt.spec_nr() % 32) as nat),
    {
        let nr = interrupt.nr();
        let index = nr / 32;
        let offset = nr % 32;
        proof {
            vstd::bits::lemma_u32_pow2_no_overflow(offset as nat);
            vstd::bits::lemma_u32_shl_is_mul(1u32, offset as u32);
        }
        if let Some(ispr) = nvic_ispr().get(index as usize) {
            Some((ispr, 1u32 << offset))
        } else {
            None
        }
    }

    /// The register write that sets the logical priority `logical` for the specified
    /// interrupt: the hardware priority value in the interrupt's priority register
    pub fn set_group_priority(&self, irq: ExternalInterrupt, logical: u8) -> (r: Option<
        (SafeRwReg<NVIC, u8>, u8),
    >)
        requires
            logical <= spec_max_prio(self.spec_num_group_priority_bits() as nat),
        ensures
            r is Some <==> irq.spec_nr() < NUM_INTERRUPTS,
            r matches Some((reg, value)) ==> reg.spec_address() == NVIC + IPR_OFFSET
                + irq.spec_nr() && value == spec_hw_priority(
                logical as int,
                self.spec_num_group_priority_bits() as nat,
            ),
    {
        proof {
            use_type_invariant(self);
        }
        let hw_prio = hw2logical(logical, self.num_group_priority_bits);
        if let Some(ipr) = nvic_ipr().get(irq.nr() as usize) {
            Some((ipr, hw_prio))
        } else {
            None
        }
    }

    /// Sets the handler at `address` for the specified `interrupt`
    pub fn set_handler(&self, interrupt: ExternalInterrupt, table: &mut VectorTable, address: usize)
        requires
            interrupt.spec_nr() < NUM_INTERRUPTS,
            old(table).wf(),
        ensures
            final(table).wf(),
            final(table)@ == old(table)@.update(interrupt.spec_entry(), address),
    {
        interrupt.set_handler(table, address);
    }

    /// Returns an iterator over all implemented interrupts
    pub fn interrupts(&self) -> (r: Interrupts)
        ensures
            r.remaining() == self.implemented(),
    {
        let r = Interrupts { available: self.available, index: 0 };
        assert(r.remaining() =~= self.implemented());
        r
    }

    /// Returns `true` if the given external interrupt is implemented
    pub fn is_implemented(&self, irq: ExternalInterrupt) -> (r: bool)
        requires
            irq.spec_nr() < 32 * NUM_ISER,
        ensures
            self.spec_available().len() == NUM_ISER,
            r == bit(
                self.spec_available()[(irq.spec_nr() / 32) as int],
                (irq.spec_nr() % 32) as int,
            ),
            r == self.implemented().contains(irq.spec_nr() as int),
    {
        let nr = irq.nr();
        let index = (nr / 32) as usize;
        let offset = (nr % 32) as u32;
        proof {
            lemma_mask_test(self.available[index as int], offset);
        }
        self.available[index] & (1 << offset) != 0
    }

    /// Returns the number of external interrupts this NVIC supports
    pub fn num_interrupts(&self) -> (r: u16)
        ensures
            self.implemented().finite(),
            r == self.implemented().len(),
    {
        let ghost words = self.available@;
        let mut total: u16 = 0;
        let mut i: usize = 0;
        while i < NUM_ISER
            invariant
                i <= NUM_ISER,
                words == self.available@,
                words.len() == NUM_ISER,
                total == count_marked(words, (32 * i) as nat),
                total <= 32 * i,
            decreases NUM_ISER - i,
        {
            let ones = count_ones(self.available[i]);
            proof {
                lemma_count_marked_word(words, i as nat, 32);
                lemma_bits_set_below_bound(words[i as int], 32);
            }
            total = total + ones as u16;
            i = i + 1;
        }
        proof {
            lemma_count_marked_is_len(words, (32 * NUM_ISER) as nat);
            assert(self.implemented() =~= Set::new(
                |nr: int| nr < (32 * NUM_ISER) as nat && marked(words, nr),
            ));
        }
        total
    }

    /// Returns the number of priority bits this NVIC supports
    pub fn num_priority_bits(&self) -> (r: u8)
        ensures
            r == self.spec_num_priority_bits(),
            3 <= r <= 8,
    {
        proof {
            use_type_invariant(self);
        }
        self.num_priority_bits
    }

    /// Returns the number of group priority bits: the priority bits, but at most 7
    pub fn num_group_priority_bits(&self) -> (r: u8)
        ensures
            r == self.spec_num_group_priority_bits(),
            r == spec_group_bits(self.spec_num_priority_bits() as int),
            3 <= r <= 7,
    {
        proof {
            use_type_invariant(self);
        }
        self.num_group_priority_bits
    }

    /// Returns the maximum logical priority this NVIC supports
    pub fn max_group_priority(&self) -> (r: u8)
        ensures
            r == spec_max_prio(self.spec_num_group_priority_bits() as nat),
    {
        proof {
            use_type_invariant(self);
            lemma_pow2_small();
        }
        let bits = self.num_group_priority_bits;
        if bits < 8 {
            proof {
                vstd::bits::lemma_u8_shl_is_mul(1u8, bits);
            }
            (1u8 << bits) - 1
        } else {
            u8::MAX
        }
    }
}

} // verus!
