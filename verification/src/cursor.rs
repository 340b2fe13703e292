use vstd::prelude::*;

verus! {

use vstd::arithmetic::power2::pow2;
use vstd::arithmetic::power2::lemma2_to64;
use vstd::arithmetic::power2::lemma2_to64_rest;
use vstd::arithmetic::power2::lemma_pow2_strictly_increases;

/// Failure reported by the bit cursor itself: the stream ran out of bits
/// before the requested width could be read.
#[derive(Clone, Copy, Debug, PartialEq, Eq, Structural)]
pub enum BitCursorError {
    Exhausted,
}

/// The value of bit `i` of a byte sequence, counting the most significant
/// bit of each byte first.
pub open spec fn byte_bit(bytes: Seq<u8>, i: int) -> bool {
    ((bytes[i / 8] as u64) >> ((7 - i % 8) as u64)) & 1u64 == 1u64
}

/// A byte sequence seen as a bit stream, most significant bit of each byte
/// first.
pub open spec fn byte_bits(bytes: Seq<u8>) -> Seq<bool> {
    Seq::new(bytes.len() * 8, |i: int| byte_bit(bytes, i))
}

/// The unsigned value of a bit string, most significant bit first.
pub open spec fn bits_be_val(s: Seq<bool>) -> nat
    decreases s.len(),
{
    if s.len() == 0 {
        0
    } else {
        bits_be_val(s.drop_last()) * 2 + (if s.last() {
            1nat
        } else {
            0nat
        })
    }
}

/// A bit string of width `w` always encodes a value below `2^w`.
pub proof fn lemma_bits_be_val_bound(s: Seq<bool>)
    ensures
        bits_be_val(s) < pow2(s.len()),
    decreases s.len(),
{
    if s.len() == 0 {
        lemma2_to64();
    } else {
        lemma_bits_be_val_bound(s.drop_last());
        assert(pow2(s.len()) == 2 * pow2((s.len() - 1) as nat)) by {
            vstd::arithmetic::power2::lemma_pow2_unfold(s.len());
        }
    }
}

/// A sequential reader over a bit-addressable byte stream.  It tracks a
/// position in bits and reports exhaustion as a distinct error.
pub struct BitCursor {
    bytes: Vec<u8>,
    pos: usize,
}

impl BitCursor {
    /// The whole underlying bit stream; reads never change it.
    pub closed spec fn bits(&self) -> Seq<bool> {
        byte_bits(self.bytes@)
    }

    /// The current position, in bits from the start of the stream.
    pub closed spec fn spec_pos(&self) -> nat {
        self.pos as nat
    }

    /// The cursor's well-formedness: the position never passes the end of
    /// the stream, and the bit length fits the machine word.
    pub open spec fn wf(&self) -> bool {
        self.spec_pos() <= self.bits().len() && self.bits().len() <= usize::MAX
    }

    /// A cursor at the start of the given bytes.
    pub fn new(bytes: Vec<u8>) -> (c: BitCursor)
        requires
            bytes@.len() * 8 <= usize::MAX,
        ensures
            c.wf(),
            c.bits() == byte_bits(bytes@),
            c.spec_pos() == 0,
    {
        BitCursor { bytes, pos: 0 }
    }

    /// The current position in bits, as a run-time value.
    pub fn position(&self) -> (p: usize)
        ensures
            p as nat == self.spec_pos(),
    {
        self.pos
    }

    /// How many bits are left to read.
    pub fn remaining(&self) -> (r: u64)
        requires
            self.wf(),
        ensures
            r as nat == self.bits().len() - self.spec_pos(),
    {
        let total: usize = self.bytes.len() * 8;
        (total - self.pos) as u64
    }

    /// Read `w` bits, most significant first, as an unsigned value.
    pub fn read_bits(&mut self, w: u64) -> (r: Result<u64, BitCursorError>)
        requires
            1 <= w <= 64,
            old(self).wf(),
        ensures
            final(self).wf(),
            final(self).bits() == old(self).bits(),
            match spec_read_bits(old(self).bits(), old(self).spec_pos(), w as nat) {
                Ok(vp) => r == Ok::<u64, BitCursorError>(vp.0) && final(self).spec_pos() == vp.1,
                Err(e) => r == Err::<u64, BitCursorError>(e) && final(self).spec_pos() == old(
                    self,
                ).spec_pos(),
            },
    {
        let total: usize = self.bytes.len() * 8;
        if w as usize > total - self.pos {
            return Err(BitCursorError::Exhausted);
        }
        let ghost start: int = self.pos as int;
        let mut val: u64 = 0;
        let mut j: usize = 0;
        while j < w as usize
            invariant
                j <= w,
                w <= 64,
                self.wf(),
                self.pos + w <= self.bits().len(),
                val == bits_be_val(self.bits().subrange(start, start + j)),
                start == self.pos as int,
            decreases w - j,
        {
            proof {
                let prefix = self.bits().subrange(start, start + j);
                lemma_bits_be_val_bound(prefix);
                if (j as nat) < 63 {
                    lemma_pow2_strictly_increases(j as nat, 63);
                }
                lemma2_to64_rest();
            }
            let i: usize = self.pos + j;
            let byte: u8 = self.bytes[i / 8];
            let sh: u64 = 7 - (i % 8) as u64;
            let bit: u64 = ((byte as u64) >> sh) & 1;
            proof {
                let y: u64 = byte as u64;
                assert((y >> sh) & 1u64 == 0u64 || (y >> sh) & 1u64 == 1u64) by (bit_vector);
                assert(byte_bits(self.bytes@)[i as int] == byte_bit(self.bytes@, i as int));
                assert(bit == 1u64 <==> self.bits()[i as int]);
            }
            val = val * 2 + bit;
            j = j + 1;
            proof {
                let prev = self.bits().subrange(start, start + j - 1);
                let now = self.bits().subrange(start, start + j);
                assert(now.drop_last() =~= prev);
                assert(now.last() == self.bits()[start + j - 1]);
            }
        }
        proof {
            lemma_bits_be_val_bound(self.bits().subrange(start, start + w));
            lemma2_to64_rest();
        }
        self.pos = self.pos + w as usize;
        Ok(val)
    }

    /// Read a single bit as a boolean.
    pub fn read_bool(&mut self) -> (r: Result<bool, BitCursorError>)
        requires
            old(self).wf(),
        ensures
            final(self).wf(),
            final(self).bits() == old(self).bits(),
            match spec_read_bool(old(self).bits(), old(self).spec_pos()) {
                Ok(vp) => r == Ok::<bool, BitCursorError>(vp.0) && final(self).spec_pos() == vp.1,
                Err(e) => r == Err::<bool, BitCursorError>(e) && final(self).spec_pos() == old(
                    self,
                ).spec_pos(),
            },
    {
        let total: usize = self.bytes.len() * 8;
        if self.pos >= total {
            return Err(BitCursorError::Exhausted);
        }
        let i: usize = self.pos;
        let byte: u8 = self.bytes[i / 8];
        let sh: u64 = 7 - (i % 8) as u64;
        let bit: u64 = ((byte as u64) >> sh) & 1;
        proof {
            let y: u64 = byte as u64;
            assert((y >> sh) & 1u64 == 0u64 || (y >> sh) & 1u64 == 1u64) by (bit_vector);
            assert(byte_bits(self.bytes@)[i as int] == byte_bit(self.bytes@, i as int));
        }
        self.pos = self.pos + 1;
        Ok(bit == 1)
    }
}

/// What a `w`-bit read yields on the given stream at the given position:
/// the value of the next `w` bits and the advanced position, or exhaustion
/// with the position unchanged.
pub open spec fn spec_read_bits(bits: Seq<bool>, pos: nat, w: nat) -> Result<
    (u64, nat),
    BitCursorError,
> {
    if pos + w <= bits.len() {
        Ok((bits_be_val(bits.subrange(pos as int, (pos + w) as int)) as u64, pos + w))
    } else {
        Err(BitCursorError::Exhausted)
    }
}

/// The value `v` with its low `n` bytes reversed: how a little-endian
/// scalar of `n` bytes is recovered from the same bits read in network
/// order.
pub open spec fn swap_bytes(v: nat, n: nat) -> nat
    decreases n,
{
    if n == 0 {
        0
    } else {
        (v % 256) * pow2((8 * (n - 1)) as nat) + swap_bytes(v / 256, (n - 1) as nat)
    }
}

/// A byte swap over `n` bytes stays below `2^(8n)`, whatever the input.
pub proof fn lemma_swap_bytes_bound(v: nat, n: nat)
    ensures
        swap_bytes(v, n) < pow2(8 * n),
    decreases n,
{
    lemma2_to64();
    if n == 0 {
    } else {
        let m: nat = (n - 1) as nat;
        lemma_swap_bytes_bound(v / 256, m);
        assert((v % 256) * pow2(8 * m) <= 255 * pow2(8 * m)) by {
            vstd::arithmetic::mul::lemma_mul_inequality((v % 256) as int, 255, pow2(8 * m) as int);
        }
        assert(256 * pow2(8 * m) == pow2(8 * n)) by {
            vstd::arithmetic::power2::lemma_pow2_adds(8, 8 * m);
        }
    }
}

/// `256^k` as a machine word, for `k` up to 7.
pub(crate) fn pow256(k: u64) -> (r: u64)
    requires
        k <= 7,
    ensures
        r as nat == pow2((8 * k) as nat),
        r >= 1,
{
    proof {
        lemma2_to64();
        lemma2_to64_rest();
    }
    if k == 0 {
        1
    } else if k == 1 {
        0x100
    } else if k == 2 {
        0x1_0000
    } else if k == 3 {
        0x100_0000
    } else if k == 4 {
        0x1_0000_0000
    } else if k == 5 {
        0x100_0000_0000
    } else if k == 6 {
        0x1_0000_0000_0000
    } else {
        0x100_0000_0000_0000
    }
}

/// Reverse the low `n` bytes of `v`.
pub fn swap_bytes_u64(v: u64, n: u64) -> (r: u64)
    requires
        n <= 8,
    ensures
        r as nat == swap_bytes(v as nat, n as nat),
    decreases n,
{
    if n == 0 {
        0
    } else {
        let p: u64 = pow256(n - 1);
        let lo: u64 = v % 256;
        let rest: u64 = swap_bytes_u64(v / 256, n - 1);
        proof {
            let m: nat = (n - 1) as nat;
            lemma_swap_bytes_bound((v / 256) as nat, m);
            assert(p as nat <= pow2(56)) by {
                if (8 * m) < 56 {
                    lemma_pow2_strictly_increases((8 * m) as nat, 56);
                }
                lemma2_to64_rest();
            }
            assert(pow2(56) == 0x100_0000_0000_0000) by {
                lemma2_to64_rest();
            }
            assert(lo * p <= 255 * p) by {
                vstd::arithmetic::mul::lemma_mul_inequality(lo as int, 255, p as int);
            }
            assert(255 * p <= 255 * 0x100_0000_0000_0000) by {
                vstd::arithmetic::mul::lemma_mul_inequality(
                    p as int,
                    0x100_0000_0000_0000,
                    255,
                );
                vstd::arithmetic::mul::lemma_mul_is_commutative(255, p as int);
                vstd::arithmetic::mul::lemma_mul_is_commutative(255, 0x100_0000_0000_0000);
            }
        }
        lo * p + rest
    }
}

/// What a one-bit boolean read yields.
pub open spec fn spec_read_bool(bits: Seq<bool>, pos: nat) -> Result<(bool, nat), BitCursorError> {
    if pos + 1 <= bits.len() {
        Ok((bits[pos as int], pos + 1))
    } else {
        Err(BitCursorError::Exhausted)
    }
}

} // verus!
