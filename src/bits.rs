//! Sub-byte bit fields.
use vstd::prelude::*;
use vstd::arithmetic::power2::{pow2, lemma2_to64};

verus! {

/// `2^k` for the small exponents a byte can hold, as a shift.
proof fn lemma_shift_is_pow2(k: u8)
    requires
        k <= 8,
    ensures
        (1u16 << k) as nat == pow2(k as nat),
{
    lemma2_to64();
    if k == 0 {
        assert(1u16 << 0u8 == 1) by (bit_vector);
    } else if k == 1 {
        assert(1u16 << 1u8 == 2) by (bit_vector);
    } else if k == 2 {
        assert(1u16 << 2u8 == 4) by (bit_vector);
    } else if k == 3 {
        assert(1u16 << 3u8 == 8) by (bit_vector);
    } else if k == 4 {
        assert(1u16 << 4u8 == 16) by (bit_vector);
    } else if k == 5 {
        assert(1u16 << 5u8 == 32) by (bit_vector);
    } else if k == 6 {
        assert(1u16 << 6u8 == 64) by (bit_vector);
    } else if k == 7 {
        assert(1u16 << 7u8 == 128) by (bit_vector);
    } else {
        assert(1u16 << 8u8 == 256) by (bit_vector);
    }
}

/// Bits `[start, end)` of the `n`-bit value `v`, right-justified. Bit 0 is
/// the most significant bit of the `n`-bit field, so a field at the start
/// of the range sits in the high bits of `v`.
pub open spec fn field_of(v: nat, n: nat, start: nat, end: nat) -> nat {
    (v / pow2((n - end) as nat)) % pow2((end - start) as nat)
}

/// `v` with bits `[start, end)` of its `n`-bit field replaced by the low
/// `end - start` bits of `x`.
pub open spec fn with_field(v: nat, n: nat, start: nat, end: nat, x: nat) -> nat {
    (v / pow2((n - start) as nat)) * pow2((n - start) as nat)
        + (x % pow2((end - start) as nat)) * pow2((n - end) as nat)
        + v % pow2((n - end) as nat)
}

/// A bit array over the low `N` bits of a byte, `1 <= N <= 8`.
#[derive(Debug, Default, Clone, Copy, PartialEq, Eq, Hash)]
pub struct Bits<const N: usize>(u8);

impl<const N: usize> View for Bits<N> {
    type V = u8;

    closed spec fn view(&self) -> u8 {
        self.0
    }
}

proof fn lemma_new(v: u8, n: u8)
    requires
        1 <= n <= 8,
    ensures
        (v & (0xffu8 >> (8 - n) as u8)) as nat == (v as nat) % pow2(n as nat),
{
    lemma_shift_is_pow2(n);
    assert((v & (0xffu8 >> (8 - n) as u8)) as u16 == (v as u16) % (1u16 << n)) by (bit_vector)
        requires
            1 <= n <= 8,
    ;
}

proof fn lemma_get(v: u8, n: u8, s: u8, e: u8)
    requires
        s < e,
        e <= n,
        n <= 8,
    ensures
        ((v >> (n - e) as u8) & (0xffu8 >> (8 - (e - s)) as u8)) as nat == field_of(
            v as nat,
            n as nat,
            s as nat,
            e as nat,
        ),
{
    lemma_shift_is_pow2((n - e) as u8);
    lemma_shift_is_pow2((e - s) as u8);
    assert(((v >> (n - e) as u8) & (0xffu8 >> (8 - (e - s)) as u8)) as u16 == ((v as u16) / (1u16
        << (n - e) as u8)) % (1u16 << (e - s) as u8)) by (bit_vector)
        requires
            s < e,
            e <= n,
            n <= 8,
    ;
}

proof fn lemma_set(v: u8, n: u8, s: u8, e: u8, x: u8)
    requires
        s < e,
        e <= n,
        n <= 8,
    ensures
        ({
            let mask = 0xffu8 >> (8 - (e - s)) as u8;
            let shift = (n - e) as u8;
            ((v & !(mask << shift)) | ((x & mask) << shift)) as nat == with_field(
                v as nat,
                n as nat,
                s as nat,
                e as nat,
                x as nat,
            )
        }),
{
    lemma_shift_is_pow2((n - e) as u8);
    lemma_shift_is_pow2((e - s) as u8);
    lemma_shift_is_pow2((n - s) as u8);
    let lo = 1u16 << (n - e) as u8;
    let mid = 1u16 << (e - s) as u8;
    let hi = 1u16 << (n - s) as u8;
    let mask = 0xffu8 >> (8 - (e - s)) as u8;
    let shift = (n - e) as u8;
    let r = (v & !(mask << shift)) | ((x & mask) << shift);
    let a = (v as u16) / hi;
    let b = (x as u16) % mid;
    let c = (v as u16) % lo;
    assert(r as u16 == a * hi + b * lo + c) by (bit_vector)
        requires
            s < e,
            e <= n,
            n <= 8,
            lo == 1u16 << (n - e) as u8,
            mid == 1u16 << (e - s) as u8,
            hi == 1u16 << (n - s) as u8,
            mask == 0xffu8 >> (8 - (e - s)) as u8,
            shift == (n - e) as u8,
            r == (v & !(mask << shift)) | ((x & mask) << shift),
            a == (v as u16) / hi,
            b == (x as u16) % mid,
            c == (v as u16) % lo,
    ;
    assert(a as nat == (v as nat) / pow2((n - s) as nat));
    assert(b as nat == (x as nat) % pow2((e - s) as nat));
    assert(c as nat == (v as nat) % pow2((n - e) as nat));
    assert(hi as nat == pow2((n - s) as nat));
    assert(lo as nat == pow2((n - e) as nat));
    assert(a * hi == ((v as nat) / pow2((n - s) as nat)) * pow2((n - s) as nat));
    let pl = pow2((n - e) as nat);
    let xb = (x as nat) % pow2((e - s) as nat);
    assert(b * lo == xb * pl) by (nonlinear_arith)
        requires
            b == xb,
            lo == pl,
    ;
    assert(r as nat == a * hi + b * lo + c);
}

impl<const N: usize> Bits<N> {
    /// A bit array holding the low `N` bits of `val`; the others are cleared.
    pub fn new(val: u8) -> (r: Self)
        requires
            1 <= N <= 8,
        ensures
            r@ as nat == (val as nat) % pow2(N as nat),
    {
        proof {
            lemma_new(val, N as u8);
        }
        Bits(val & (0xffu8 >> (8 - N) as u8))
    }

    /// Bits `[START, END)` of the array, right-justified.
    pub fn get<const START: usize, const END: usize>(&self) -> (r: u8)
        requires
            START < END <= N <= 8,
        ensures
            r as nat == field_of(self@ as nat, N as nat, START as nat, END as nat),
    {
        proof {
            lemma_get(self.0, N as u8, START as u8, END as u8);
        }
        (self.0 >> (N - END) as u8) & (0xffu8 >> (8 - (END - START)) as u8)
    }

    /// Overwrites bits `[START, END)` with the low `END - START` bits of
    /// `val`, leaving the other bits as they were.
    pub fn set<const START: usize, const END: usize>(&mut self, val: u8)
        requires
            START < END <= N <= 8,
        ensures
            final(self)@ as nat == with_field(
                old(self)@ as nat,
                N as nat,
                START as nat,
                END as nat,
                val as nat,
            ),
    {
        proof {
            lemma_set(self.0, N as u8, START as u8, END as u8, val);
        }
        let mask: u8 = 0xffu8 >> (8 - (END - START)) as u8;
        let shift: u8 = (N - END) as u8;
        self.0 = (self.0 & !(mask << shift)) | ((val & mask) << shift);
    }

    /// The byte this bit array wraps.
    pub fn inner(self) -> (r: u8)
        ensures
            r == self@,
    {
        self.0
    }
}

} // verus!
