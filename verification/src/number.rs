//! Fixed-point numeric kernel.
//!
//! A signed, fixed-precision decimal with 128-bit storage and 48 fractional
//! bits, used for every monetary quantity in the engine. Addition,
//! subtraction, multiplication and division truncate and are overflow-checked:
//! an operation that would overflow returns `None` instead of wrapping, since
//! a wrapped value could hide insolvency. The largest representable value
//! serves as a `MAX` sentinel, and a raw-bytes constructor/accessor lets
//! persisted little-endian representations round-trip exactly.

use vstd::prelude::*;
use vstd::arithmetic::div_mod::{
    lemma_breakdown, lemma_div_nonincreasing, lemma_div_pos_is_pos,
    lemma_fundamental_div_mod_converse, lemma_small_mod,
};

verus! {

/// Scale factor of the representation: one whole unit is `FX_SCALE` bits.
pub const FX_SCALE: i128 = 0x1_0000_0000_0000;

/// A signed fixed-point decimal: the represented value is `bits / FX_SCALE`.
#[derive(Clone, Copy, Debug, PartialEq, Eq, Structural)]
pub struct Number {
    pub bits: i128,
}

/// The fixed-point bit pattern of the integer `v`.
pub open spec fn int_fx(v: int) -> int {
    v * (FX_SCALE as int)
}

/// Whether `v` fits in the 128-bit storage of a [`Number`].
pub open spec fn fx_in_range(v: int) -> bool {
    i128::MIN <= v <= i128::MAX
}

/// Bit pattern of the truncating fixed-point product of bit patterns `a` and
/// `b`, before any range check. The full product is shifted right by the
/// fractional bits, rounding toward negative infinity.
pub open spec fn mul_fx(a: int, b: int) -> int {
    (a * b) / (FX_SCALE as int)
}

/// Integer division truncating toward zero (the remainder takes the sign of
/// the dividend), as machine division does.
pub open spec fn div_trunc(x: int, d: int) -> int {
    if x >= 0 && d > 0 {
        x / d
    } else if x <= 0 && d < 0 {
        (-x) / (-d)
    } else if x < 0 {
        -((-x) / d)
    } else {
        -(x / (-d))
    }
}

/// Bit pattern of the truncating fixed-point quotient of bit patterns `a`
/// and `b`, before any range check.
pub open spec fn div_fx(a: int, b: int) -> int {
    div_trunc(a * (FX_SCALE as int), b)
}

/// Value of a little-endian byte sequence, read as an unsigned integer.
pub open spec fn le_unsigned(s: Seq<u8>) -> int
    decreases s.len(),
{
    if s.len() == 0 {
        0
    } else {
        s[0] + 256 * le_unsigned(s.drop_first())
    }
}

/// The `n` little-endian bytes of the unsigned integer `u`.
pub open spec fn unsigned_le_bytes(u: int, n: nat) -> Seq<u8>
    decreases n,
{
    if n == 0 {
        Seq::empty()
    } else {
        seq![(u % 256) as u8] + unsigned_le_bytes(u / 256, (n - 1) as nat)
    }
}

/// The unsigned (two's-complement) reading of a 128-bit signed value.
pub open spec fn i128_unsigned(x: int) -> int {
    if x >= 0 {
        x
    } else {
        x + 0x1_0000_0000_0000_0000_0000_0000_0000_0000
    }
}

/// The 128-bit signed value whose two's-complement reading is `u`.
pub open spec fn unsigned_i128(u: int) -> int {
    if u < 0x8000_0000_0000_0000_0000_0000_0000_0000 {
        u
    } else {
        u - 0x1_0000_0000_0000_0000_0000_0000_0000_0000
    }
}

/// 256 raised to `n`.
pub open spec fn pow256(n: nat) -> int
    decreases n,
{
    if n == 0 {
        1
    } else {
        256 * pow256((n - 1) as nat)
    }
}

pub proof fn lemma_pow256_pos(n: nat)
    ensures
        pow256(n) >= 1,
    decreases n,
{
    if n > 0 {
        lemma_pow256_pos((n - 1) as nat);
    }
}

pub proof fn lemma_pow256_mono(m: nat, n: nat)
    requires
        m <= n,
    ensures
        pow256(m) <= pow256(n),
    decreases n,
{
    if m < n {
        lemma_pow256_mono(m, (n - 1) as nat);
        lemma_pow256_pos((n - 1) as nat);
    }
}

/// A byte sequence of length `n` reads as a value below `pow256(n)`.
pub proof fn lemma_le_unsigned_bound(s: Seq<u8>)
    ensures
        0 <= le_unsigned(s) < pow256(s.len()),
    decreases s.len(),
{
    if s.len() > 0 {
        lemma_le_unsigned_bound(s.drop_first());
    }
}

/// Writing the value of a byte sequence back to bytes restores the sequence.
pub proof fn lemma_unsigned_le_of_le(s: Seq<u8>)
    ensures
        unsigned_le_bytes(le_unsigned(s), s.len()) == s,
    decreases s.len(),
{
    if s.len() == 0 {
        assert(unsigned_le_bytes(le_unsigned(s), s.len()) =~= s);
    } else {
        let v = le_unsigned(s);
        let rest = le_unsigned(s.drop_first());
        lemma_le_unsigned_bound(s.drop_first());
        lemma_fundamental_div_mod_converse(v, 256, rest, s[0] as int);
        lemma_unsigned_le_of_le(s.drop_first());
        assert(unsigned_le_bytes(v, s.len()) =~= s);
    }
}

/// Reading back the bytes of a nonnegative value yields the value, reduced
/// to the width that was written.
pub proof fn lemma_le_of_unsigned_le(u: int, n: nat)
    requires
        0 <= u,
    ensures
        le_unsigned(unsigned_le_bytes(u, n)) == u % pow256(n),
    decreases n,
{
    if n == 0 {
        assert(u % 1 == 0) by {
            lemma_small_mod(0, 1);
            assert(u % 1 == (u + (-u) * 1) % 1) by {
                vstd::arithmetic::div_mod::lemma_mod_multiples_vanish(-u, u, 1);
            }
        }
    } else {
        lemma_div_pos_is_pos(u, 256);
        lemma_le_of_unsigned_le(u / 256, (n - 1) as nat);
        lemma_pow256_pos((n - 1) as nat);
        lemma_breakdown(u, 256, pow256((n - 1) as nat));
        let s = unsigned_le_bytes(u, n);
        assert(s.drop_first() =~= unsigned_le_bytes(u / 256, (n - 1) as nat));
    }
}

impl Number {
    /// The zero constant.
    pub fn zero() -> (r: Number)
        ensures
            r.bits == 0,
    {
        Number { bits: 0 }
    }

    /// The one constant.
    pub fn one() -> (r: Number)
        ensures
            r.bits == FX_SCALE,
    {
        Number { bits: FX_SCALE }
    }

    /// The largest representable value, used as a sentinel by the engine.
    pub fn max_value() -> (r: Number)
        ensures
            r.bits == i128::MAX,
    {
        Number { bits: i128::MAX }
    }

    /// Whether this value is exactly zero.
    pub fn is_zero(&self) -> (r: bool)
        ensures
            r == (self.bits == 0),
    {
        self.bits == 0
    }

    /// Whether this value is the `MAX` sentinel.
    pub fn is_max(&self) -> (r: bool)
        ensures
            r == (self.bits == i128::MAX),
    {
        self.bits == i128::MAX
    }

    /// The fixed-point value of the integer `v`.
    pub fn from_u64(v: u64) -> (r: Number)
        ensures
            r.bits == int_fx(v as int),
    {
        Number { bits: (v as i128) * FX_SCALE }
    }

    /// A ratio given as a whole-number percentage, converted to fixed point
    /// with truncation.
    pub fn from_percent(p: u16) -> (r: Number)
        ensures
            r.bits == int_fx(p as int) / 100,
            0 <= r.bits <= int_fx(p as int),
    {
        proof {
            lemma_div_pos_is_pos(int_fx(p as int), 100);
            lemma_div_nonincreasing(int_fx(p as int), 100);
        }
        let q: u128 = ((p as u128) * 0x1_0000_0000_0000u128) / 100;
        Number { bits: q as i128 }
    }

    /// A fee given in basis points, converted to fixed point with truncation.
    pub fn from_bps(b: u16) -> (r: Number)
        ensures
            r.bits == int_fx(b as int) / 10000,
            0 <= r.bits <= int_fx(b as int),
    {
        proof {
            lemma_div_pos_is_pos(int_fx(b as int), 10000);
            lemma_div_nonincreasing(int_fx(b as int), 10000);
        }
        let q: u128 = ((b as u128) * 0x1_0000_0000_0000u128) / 10000;
        Number { bits: q as i128 }
    }

    /// Checked addition: `None` exactly when the sum does not fit.
    pub fn checked_add(self, rhs: Number) -> (r: Option<Number>)
        ensures
            match r {
                Some(n) => fx_in_range(self.bits + rhs.bits) && n.bits == self.bits + rhs.bits,
                None => !fx_in_range(self.bits + rhs.bits),
            },
    {
        match self.bits.checked_add(rhs.bits) {
            Some(b) => Some(Number { bits: b }),
            None => None,
        }
    }

    /// Checked subtraction: `None` exactly when the difference does not fit.
    pub fn checked_sub(self, rhs: Number) -> (r: Option<Number>)
        ensures
            match r {
                Some(n) => fx_in_range(self.bits - rhs.bits) && n.bits == self.bits - rhs.bits,
                None => !fx_in_range(self.bits - rhs.bits),
            },
    {
        match self.bits.checked_sub(rhs.bits) {
            Some(b) => Some(Number { bits: b }),
            None => None,
        }
    }

    /// The larger of two values.
    pub fn max_of(self, rhs: Number) -> (r: Number)
        ensures
            r.bits == if self.bits >= rhs.bits {
                self.bits
            } else {
                rhs.bits
            },
    {
        if self.bits >= rhs.bits {
            self
        } else {
            rhs
        }
    }

    /// The smaller of two values.
    pub fn min_of(self, rhs: Number) -> (r: Number)
        ensures
            r.bits == if self.bits <= rhs.bits {
                self.bits
            } else {
                rhs.bits
            },
    {
        if self.bits <= rhs.bits {
            self
        } else {
            rhs
        }
    }

    /// Checked multiplication, truncating toward negative infinity.
    ///
    /// Relies on `fixed::types::I80F48::checked_mul`: the double-width
    /// product of the bit patterns is shifted right by the 48 fractional
    /// bits, and `None` is returned exactly when the shifted product does
    /// not fit in the 128-bit storage.
    #[verifier::external_body]
    pub fn checked_mul(self, rhs: Number) -> (r: Option<Number>)
        ensures
            match r {
                Some(n) => fx_in_range(mul_fx(self.bits as int, rhs.bits as int)) && n.bits
                    == mul_fx(self.bits as int, rhs.bits as int),
                None => !fx_in_range(mul_fx(self.bits as int, rhs.bits as int)),
            },
    {
        let a = fixed::types::I80F48::from_bits(self.bits);
        let b = fixed::types::I80F48::from_bits(rhs.bits);
        match a.checked_mul(b) {
            Some(v) => Some(Number { bits: v.to_bits() }),
            None => None,
        }
    }

    /// Checked division, truncating toward zero.
    ///
    /// Relies on `fixed::types::I80F48::checked_div`: the bit pattern is
    /// widened, shifted left by the 48 fractional bits and divided with a
    /// truncating division; `None` on a zero divisor or when the quotient
    /// does not fit in the 128-bit storage.
    #[verifier::external_body]
    pub fn checked_div(self, rhs: Number) -> (r: Option<Number>)
        ensures
            rhs.bits == 0 ==> r is None,
            rhs.bits != 0 ==> match r {
                Some(n) => fx_in_range(div_fx(self.bits as int, rhs.bits as int)) && n.bits
                    == div_fx(self.bits as int, rhs.bits as int),
                None => !fx_in_range(div_fx(self.bits as int, rhs.bits as int)),
            },
    {
        let a = fixed::types::I80F48::from_bits(self.bits);
        let b = fixed::types::I80F48::from_bits(rhs.bits);
        match a.checked_div(b) {
            Some(v) => Some(Number { bits: v.to_bits() }),
            None => None,
        }
    }

    /// A value reconstructed from its 16 raw little-endian bytes.
    pub fn from_le_bytes(bytes: &[u8; 16]) -> (r: Number)
        ensures
            r.bits == unsigned_i128(le_unsigned(bytes@)),
    {
        let mut acc: u128 = 0;
        let mut k: usize = 16;
        proof {
            assert(bytes@.subrange(16, 16) =~= Seq::<u8>::empty());
        }
        while k > 0
            invariant
                k <= 16,
                acc == le_unsigned(bytes@.subrange(k as int, 16)),
            decreases k,
        {
            k = k - 1;
            let b: u8 = bytes[k];
            proof {
                let tail = bytes@.subrange(k as int + 1, 16);
                lemma_le_unsigned_bound(tail);
                lemma_pow256_mono(tail.len(), 15);
                assert(pow256(15) == 0x100_0000_0000_0000_0000_0000_0000_0000) by {
                    reveal_with_fuel(pow256, 16);
                }
                assert(bytes@.subrange(k as int, 16).drop_first() =~= tail);
            }
            acc = acc * 256 + (b as u128);
        }
        proof {
            assert(bytes@.subrange(0, 16) =~= bytes@);
            lemma_le_unsigned_bound(bytes@);
        }
        if acc < 0x8000_0000_0000_0000_0000_0000_0000_0000u128 {
            Number { bits: acc as i128 }
        } else {
            let w: u128 = acc - 0x8000_0000_0000_0000_0000_0000_0000_0000u128;
            Number { bits: i128::MIN + (w as i128) }
        }
    }

    /// The 16 raw little-endian bytes of this value.
    pub fn to_le_bytes(&self) -> (r: [u8; 16])
        ensures
            r@ == unsigned_le_bytes(i128_unsigned(self.bits as int), 16),
    {
        let mut u: u128 = if self.bits >= 0 {
            self.bits as u128
        } else {
            ((self.bits - i128::MIN) as u128) + 0x8000_0000_0000_0000_0000_0000_0000_0000u128
        };
        let ghost u0: int = u as int;
        let mut out: [u8; 16] = [0u8; 16];
        let mut i: usize = 0;
        proof {
            assert(out@.subrange(0, 0) =~= Seq::<u8>::empty());
        }
        while i < 16
            invariant
                i <= 16,
                u0 == i128_unsigned(self.bits as int),
                0 <= u0,
                unsigned_le_bytes(u0, 16) == out@.subrange(0, i as int) + unsigned_le_bytes(
                    u as int,
                    (16 - i) as nat,
                ),
            decreases 16 - i,
        {
            let b: u8 = (u % 256) as u8;
            let ghost out_before: Seq<u8> = out@;
            let ghost u_before: int = u as int;
            out[i] = b;
            u = u / 256;
            proof {
                assert(out@.subrange(0, i as int + 1) =~= out_before.subrange(0, i as int)
                    + seq![b]);
                assert(unsigned_le_bytes(u_before, (16 - i) as nat) == seq![b]
                    + unsigned_le_bytes(u as int, (16 - (i + 1)) as nat));
            }
            i = i + 1;
        }
        proof {
            assert(out@.subrange(0, 16) =~= out@);
            assert(unsigned_le_bytes(u as int, 0) =~= Seq::<u8>::empty());
            assert(out@.subrange(0, 16) + unsigned_le_bytes(u as int, 0) =~= out@);
        }
        out
    }
}

/// Round trip: a fixed-point quantity written to its raw little-endian
/// bytes and rebuilt from them is numerically equal, across the whole
/// representable range including the `MAX` sentinel.
pub proof fn lemma_raw_bytes_round_trip(x: int)
    requires
        i128::MIN <= x <= i128::MAX,
    ensures
        unsigned_i128(le_unsigned(unsigned_le_bytes(i128_unsigned(x), 16))) == x,
{
    lemma_le_of_unsigned_le(i128_unsigned(x), 16);
    assert(pow256(16) == 0x1_0000_0000_0000_0000_0000_0000_0000_0000) by {
        reveal_with_fuel(pow256, 17);
    }
    lemma_small_mod(i128_unsigned(x) as nat, pow256(16) as nat);
}

/// Round trip in the other direction: 16 raw bytes read into a quantity and
/// written back are unchanged.
pub proof fn lemma_raw_bytes_round_trip_bytes(s: Seq<u8>)
    requires
        s.len() == 16,
    ensures
        unsigned_le_bytes(i128_unsigned(unsigned_i128(le_unsigned(s))), 16) == s,
{
    lemma_le_unsigned_bound(s);
    assert(pow256(16) == 0x1_0000_0000_0000_0000_0000_0000_0000_0000) by {
        reveal_with_fuel(pow256, 17);
    }
    lemma_unsigned_le_of_le(s);
}

} // verus!
