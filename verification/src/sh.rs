//! A fixed-capacity, NUL-terminated string, as used to build semihosting file names

use vstd::prelude::*;
use vstd::string::StringSliceAdditionalSpecFns;

use crate::text::{decimal, decimal_of, digit, string_of};

verus! {

broadcast use {vstd::array::group_array_axioms, vstd::string::group_string_axioms};

/// Size of the string's buffer, NUL terminator included
pub const BUF_LEN: usize = 32;

/// A string of at most `BUF_LEN - 1` bytes that is always NUL-terminated
pub struct String {
    buf: [u8; BUF_LEN],
    len: usize,
}

impl View for String {
    type V = Seq<u8>;

    /// The bytes written so far
    closed spec fn view(&self) -> Seq<u8> {
        self.buf@.subrange(0, self.len as int)
    }
}

impl String {
    #[verifier::type_invariant]
    spec fn inv(&self) -> bool {
        &&& self.len < BUF_LEN
        &&& forall|i: int| self.len <= i < BUF_LEN ==> #[trigger] self.buf@[i] == 0
    }

    /// The number of bytes that can still be written
    pub fn capacity(&self) -> (r: usize)
        ensures
            r == BUF_LEN - 1 - self@.len(),
    {
        proof {
            use_type_invariant(self);
        }
        BUF_LEN - self.len - 1
    }

    /// Appends as much of `s` as fits; the rest of `s` is dropped
    pub fn write_str(&mut self, s: &str)
        ensures
            final(self)@ == old(self)@ + s.spec_bytes().take(
                if s.spec_bytes().len() < BUF_LEN - 1 - old(self)@.len() {
                    s.spec_bytes().len() as int
                } else {
                    BUF_LEN - 1 - old(self)@.len()
                },
            ),
    {
        proof {
            use_type_invariant(&*self);
        }
        let bytes = s.as_bytes();
        let capacity = self.capacity();
        let len = if bytes.len() < capacity {
            bytes.len()
        } else {
            capacity
        };
        let start = self.len;
        let mut buf = self.buf;
        let mut i: usize = 0;
        while i < len
            invariant
                i <= len,
                start + len < BUF_LEN,
                len <= bytes@.len(),
                forall|j: int| 0 <= j < start ==> #[trigger] buf@[j] == self.buf@[j],
                forall|j: int| 0 <= j < i ==> #[trigger] buf@[start + j] == bytes@[j],
                forall|j: int| start + i <= j < BUF_LEN ==> #[trigger] buf@[j] == 0,
                forall|j: int| start <= j < BUF_LEN ==> #[trigger] self.buf@[j] == 0,
            decreases len - i,
        {
            buf[start + i] = bytes[i];
            i = i + 1;
        }
        let ghost before = self@;
        let ghost old_buf = self.buf@;
        *self = String { buf, len: start + len };
        proof {
            assert forall|k: int| 0 <= k < start + len implies #[trigger] self@[k] == (before
                + bytes@.take(len as int))[k] by {
                if k < start {
                    assert(buf@[k] == old_buf[k]);
                } else {
                    assert(buf@[start + (k - start)] == bytes@[k - start]);
                }
            }
            assert(self@ =~= before + bytes@.take(len as int));
        }
    }

    /// The bytes written so far followed by the NUL terminator
    pub fn as_bytes_with_nul(&self) -> (r: &[u8])
        ensures
            r@ == self@.push(0u8),
    {
        proof {
            use_type_invariant(self);
        }
        let r = vstd::slice::slice_subrange(self.buf.as_slice(), 0, self.len + 1);
        assert(r@ =~= self@.push(0u8));
        r
    }
}

impl Default for String {
    fn default() -> (r: Self)
        ensures
            r@ == Seq::<u8>::empty(),
    {
        let r = String { buf: [0u8; BUF_LEN], len: 0 };
        assert(r@ =~= Seq::<u8>::empty());
        r
    }
}

/// The bytes of a text made of ASCII characters
pub open spec fn ascii_bytes(s: Seq<char>) -> Seq<u8> {
    Seq::new(s.len(), |i: int| s[i] as u8)
}

/// `.profraw`, the extension of a file of coverage data
pub open spec fn profraw_extension() -> Seq<u8> {
    seq![0x2eu8, 0x70u8, 0x72u8, 0x6fu8, 0x66u8, 0x72u8, 0x61u8, 0x77u8]
}

/// `10` to the power `k`
pub open spec fn pow10(k: nat) -> nat
    decreases k,
{
    if k == 0 {
        1
    } else {
        10 * pow10((k - 1) as nat)
    }
}

/// Every character of a decimal representation is a digit
proof fn lemma_decimal_digits(n: nat)
    ensures
        forall|i: int| 0 <= i < decimal(n).len() ==> '0' <= #[trigger] decimal(n)[i] <= '9',
    decreases n,
{
    if n < 10 {
        assert('0' <= digit(n) <= '9');
    } else {
        lemma_decimal_digits(n / 10);
        let last = digit(n % 10);
        assert('0' <= last <= '9');
        assert forall|i: int| 0 <= i < decimal(n).len() implies '0' <= #[trigger] decimal(n)[i]
            <= '9' by {
            if i < decimal(n / 10).len() {
                assert(decimal(n)[i] == decimal(n / 10)[i]);
            }
        }
    }
}

/// A number below `10^k` has at most `k` decimal digits
proof fn lemma_decimal_len(n: nat, k: nat)
    requires
        1 <= k,
        n < pow10(k),
    ensures
        decimal(n).len() <= k,
    decreases n,
{
    if n >= 10 {
        let p = pow10((k - 1) as nat);
        assert(k >= 2) by {
            if k == 1 {
                assert(pow10(0) == 1);
            }
        }
        assert(n / 10 < p) by (nonlinear_arith)
            requires
                n < 10 * p,
        ;
        lemma_decimal_len(n / 10, (k - 1) as nat);
    }
}

/// The name of the file that receives the coverage data of the run `id`:
/// `id` in decimal followed by `.profraw`
pub fn profraw_path(id: u64) -> (r: String)
    ensures
        r@ == ascii_bytes(decimal(id as nat)) + profraw_extension(),
{
    let mut path = String::default();
    let digits = decimal_of(id);
    let text = string_of(digits.as_slice());
    let text = text.as_str();
    proof {
        lemma_decimal_digits(id as nat);
        assert(pow10(20) == 100000000000000000000nat) by {
            reveal_with_fuel(pow10, 21);
        }
        lemma_decimal_len(id as nat, 20);
        assert(vstd::string::is_ascii(text));
        assert(text.spec_bytes() =~= ascii_bytes(decimal(id as nat)));
    }
    path.write_str(text);
    let extension = ".profraw";
    proof {
        reveal_strlit(".profraw");
        assert(vstd::string::is_ascii(extension));
        assert(extension.spec_bytes() =~= profraw_extension());
    }
    path.write_str(extension);
    proof {
        assert(path@ =~= ascii_bytes(decimal(id as nat)) + profraw_extension());
    }
    path
}

} // verus!
