//! How a block's fields are laid out in the 6 bits of an inline cell.
//!
//! A field that takes one of `k` listed variants uses `ceil(log2 k)` bits
//! and stores the variant's index; an integer field over `[lo, hi)` uses
//! `ceil(log2 (hi - lo))` bits and stores `v - lo`; an unbounded field makes
//! the whole block a heap block. Fields follow each other in declaration
//! order, and a block whose fields need more than 6 bits is a heap block.
use vstd::prelude::*;
use vstd::arithmetic::power2::{pow2, lemma_pow2_unfold, lemma_pow2_pos};

verus! {

/// Bits of state an inline cell holds.
pub const STATE_BITS: u32 = 6;

/// How a block type keeps its state.
#[derive(Debug, Clone, Copy, PartialEq, Eq, Structural)]
pub enum BlockRepr {
    /// The state fits in the cell's 6 bits.
    Inline,
    /// The block lives in its chunk's arena; the cell holds its slot.
    Heap,
}

/// The declaration of one field of a block type.
#[derive(Debug, Clone, Copy, PartialEq, Eq, Structural)]
pub enum FieldKind {
    /// One of `count` listed variants.
    Variants { count: u32 },
    /// An integer in `[lo, hi)`.
    Range { lo: i32, hi: i32 },
    /// Anything else: the field cannot be packed.
    Unbounded,
}

/// `r` is the least number of bits that tells `n` values apart.
pub open spec fn is_bit_width(r: nat, n: nat) -> bool {
    &&& pow2(r) >= n
    &&& r == 0 || pow2((r - 1) as nat) < n
}

/// Whether a field declaration is well formed.
pub open spec fn field_ok(f: FieldKind) -> bool {
    match f {
        FieldKind::Variants { count } => count >= 1,
        FieldKind::Range { lo, hi } => lo < hi,
        FieldKind::Unbounded => true,
    }
}

/// Number of distinct values a packable field can take.
pub open spec fn field_values(f: FieldKind) -> nat {
    match f {
        FieldKind::Variants { count } => count as nat,
        FieldKind::Range { lo, hi } => (hi - lo) as nat,
        FieldKind::Unbounded => 0,
    }
}

/// The least number of bits that tells `n >= 1` values apart.
pub fn bit_width(n: u64) -> (r: u32)
    requires
        1 <= n <= 0x1_0000_0000,
    ensures
        is_bit_width(r as nat, n as nat),
{
    let mut r: u32 = 0;
    let mut p: u64 = 1;
    proof {
        vstd::arithmetic::power2::lemma2_to64();
    }
    while p < n
        invariant
            p as nat == pow2(r as nat),
            r == 0 || pow2((r - 1) as nat) < n,
            1 <= n <= 0x1_0000_0000,
            p < 2 * n,
            r <= 33,
        decreases 0x2_0000_0000 - p,
    {
        proof {
            lemma_pow2_unfold((r + 1) as nat);
            lemma_pow2_pos(r as nat);
            if r == 33 {
                vstd::arithmetic::power2::lemma2_to64_rest();
                assert(false);
            }
        }
        p = p * 2;
        r = r + 1;
    }
    r
}

/// The least number of bits that tells `n` values apart.
pub open spec fn bits_needed(n: nat) -> nat {
    choose|b: nat| is_bit_width(b, n)
}

proof fn lemma_bit_width_unique(a: nat, b: nat, n: nat)
    requires
        is_bit_width(a, n),
        is_bit_width(b, n),
    ensures
        a == b,
{
    if a < b {
        vstd::arithmetic::power2::lemma_pow2_strictly_increases(a, (b - 1) as nat);
        if a < (b - 1) as nat {
        } else {
            assert(a == b - 1);
        }
    } else if b < a {
        vstd::arithmetic::power2::lemma_pow2_strictly_increases(b, (a - 1) as nat);
        if b < (a - 1) as nat {
        } else {
            assert(b == a - 1);
        }
    }
}

proof fn lemma_bits_needed(r: nat, n: nat)
    requires
        is_bit_width(r, n),
    ensures
        bits_needed(n) == r,
{
    assert(is_bit_width(bits_needed(n), n));
    lemma_bit_width_unique(r, bits_needed(n), n);
}

/// Bits a field declaration uses, or `None` for an unbounded field.
pub fn field_bits(f: FieldKind) -> (r: Option<u32>)
    requires
        field_ok(f),
    ensures
        match r {
            Some(b) => field_width(f) == Some(b as nat),
            None => field_width(f) is None,
        },
{
    match f {
        FieldKind::Variants { count } => {
            let b = bit_width(count as u64);
            proof {
                lemma_bits_needed(b as nat, count as nat);
            }
            Some(b)
        },
        FieldKind::Range { lo, hi } => {
            let b = bit_width((hi as i64 - lo as i64) as u64);
            proof {
                lemma_bits_needed(b as nat, (hi - lo) as nat);
            }
            Some(b)
        },
        FieldKind::Unbounded => None,
    }
}

/// Bits a field uses, `None` for an unbounded one.
pub open spec fn field_width(f: FieldKind) -> Option<nat> {
    match f {
        FieldKind::Unbounded => None,
        _ => Some(bits_needed(field_values(f))),
    }
}

/// Total bits the fields `fs` use, `None` if one of them is unbounded.
pub open spec fn total_bits(fs: Seq<FieldKind>) -> Option<nat>
    decreases fs.len(),
{
    if fs.len() == 0 {
        Some(0)
    } else {
        match (total_bits(fs.drop_last()), field_width(fs.last())) {
            (Some(t), Some(b)) => Some((t + b) as nat),
            _ => None,
        }
    }
}

/// How a block type whose fields are `fs` keeps its state.
pub open spec fn repr_of(fs: Seq<FieldKind>) -> BlockRepr {
    match total_bits(fs) {
        Some(t) if t <= STATE_BITS => BlockRepr::Inline,
        _ => BlockRepr::Heap,
    }
}

/// Decides, from its field declarations, whether a block type is inline or
/// heap.
pub fn repr_for(fields: &Vec<FieldKind>) -> (r: BlockRepr)
    requires
        forall|i: int| 0 <= i < fields@.len() ==> field_ok(#[trigger] fields@[i]),
    ensures
        r == repr_of(fields@),
{
    let mut total: u64 = 0;
    let mut i: usize = 0;
    while i < fields.len()
        invariant
            i <= fields@.len(),
            forall|k: int| 0 <= k < fields@.len() ==> field_ok(#[trigger] fields@[k]),
            total_bits(fields@.take(i as int)) == Some(total as nat),
            total <= STATE_BITS,
        decreases fields@.len() - i,
    {
        let f = fields[i];
        assert(fields@.take(i + 1).drop_last() == fields@.take(i as int));
        match field_bits(f) {
            None => {
                proof {
                    lemma_total_none(fields@, i + 1);
                }
                return BlockRepr::Heap;
            },
            Some(b) => {
                if b as u64 > STATE_BITS as u64 - total {
                    proof {
                        lemma_total_grows(fields@, i + 1);
                    }
                    return BlockRepr::Heap;
                }
                total = total + b as u64;
            },
        }
        i = i + 1;
    }
    assert(fields@.take(i as int) == fields@);
    BlockRepr::Inline
}

proof fn lemma_total_none(fs: Seq<FieldKind>, n: int)
    requires
        0 < n <= fs.len(),
        total_bits(fs.take(n)) is None,
    ensures
        total_bits(fs) is None,
    decreases fs.len() - n,
{
    if n < fs.len() {
        assert(fs.take(n + 1).drop_last() == fs.take(n));
        lemma_total_none(fs, n + 1);
    } else {
        assert(fs.take(n) == fs);
    }
}

proof fn lemma_total_grows(fs: Seq<FieldKind>, n: int)
    requires
        0 < n <= fs.len(),
        total_bits(fs.take(n)) matches Some(t) && t > STATE_BITS,
    ensures
        repr_of(fs) == BlockRepr::Heap,
    decreases fs.len() - n,
{
    if n < fs.len() {
        assert(fs.take(n + 1).drop_last() == fs.take(n));
        if total_bits(fs.take(n + 1)) is None {
            lemma_total_none(fs, n + 1);
        } else {
            lemma_total_grows(fs, n + 1);
        }
    } else {
        assert(fs.take(n) == fs);
    }
}

/// The bit offset of each field: the bits all the fields before it use.
/// `None` if a field is unbounded.
pub fn field_offsets(fields: &Vec<FieldKind>) -> (r: Option<Vec<u64>>)
    requires
        forall|i: int| 0 <= i < fields@.len() ==> field_ok(#[trigger] fields@[i]),
        fields@.len() <= 0x1_0000,
    ensures
        match r {
            Some(offs) => {
                &&& total_bits(fields@) is Some
                &&& offs@.len() == fields@.len()
                &&& forall|i: int|
                    0 <= i < offs@.len() ==> total_bits(fields@.take(i)) == Some(
                        #[trigger] offs@[i] as nat,
                    )
            },
            None => total_bits(fields@) is None,
        },
{
    let mut offs: Vec<u64> = Vec::new();
    let mut total: u64 = 0;
    let mut i: usize = 0;
    while i < fields.len()
        invariant
            i <= fields@.len() <= 0x1_0000,
            forall|k: int| 0 <= k < fields@.len() ==> field_ok(#[trigger] fields@[k]),
            total_bits(fields@.take(i as int)) == Some(total as nat),
            total <= 33 * i,
            offs@.len() == i,
            forall|k: int|
                0 <= k < i ==> total_bits(fields@.take(k)) == Some(#[trigger] offs@[k] as nat),
        decreases fields@.len() - i,
    {
        let f = fields[i];
        assert(fields@.take(i + 1).drop_last() == fields@.take(i as int));
        offs.push(total);
        match field_bits(f) {
            None => {
                proof {
                    lemma_total_none(fields@, i + 1);
                }
                return None;
            },
            Some(b) => {
                proof {
                    lemma_bits_needed_small(f);
                }
                total = total + b as u64;
            },
        }
        i = i + 1;
    }
    assert(fields@.take(i as int) == fields@);
    Some(offs)
}

proof fn lemma_bits_needed_small(f: FieldKind)
    requires
        field_ok(f),
        !(f is Unbounded),
    ensures
        bits_needed(field_values(f)) <= 33,
{
    let n = field_values(f);
    vstd::arithmetic::power2::lemma2_to64();
    vstd::arithmetic::power2::lemma2_to64_rest();
    assert(is_bit_width(bits_needed(n), n)) by {
        bit_width_witness(n);
    }
    if bits_needed(n) > 33 {
        vstd::arithmetic::power2::lemma_pow2_strictly_increases(33, (bits_needed(n) - 1) as nat);
    }
}

proof fn bit_width_witness(n: nat) -> (r: nat)
    requires
        1 <= n <= 0x1_0000_0000,
    ensures
        is_bit_width(r, n),
    decreases n,
{
    if n == 1 {
        vstd::arithmetic::power2::lemma2_to64();
        0
    } else {
        let m = ((n + 1) / 2) as nat;
        assert(2 * m >= n && 2 * m <= n + 1 && 1 <= m < n) by (nonlinear_arith)
            requires
                m == (n + 1) / 2,
                n >= 2,
        ;
        let h = bit_width_witness(m);
        vstd::arithmetic::power2::lemma_pow2_unfold(h + 1);
        if h > 0 {
            vstd::arithmetic::power2::lemma_pow2_unfold(h);
        } else {
            vstd::arithmetic::power2::lemma2_to64();
        }
        h + 1
    }
}

/// Code of a field over `[lo, hi)`: `v - lo`, or 0 when `v` is out of range.
pub fn encode_range(v: i32, lo: i32, hi: i32) -> (r: u32)
    requires
        lo < hi,
    ensures
        lo <= v < hi ==> r == v - lo,
        !(lo <= v < hi) ==> r == 0,
{
    if lo <= v && v < hi {
        (v as i64 - lo as i64) as u32
    } else {
        0
    }
}

/// Value of a field over `[lo, ..)` from its code.
pub fn decode_range(code: u32, lo: i32) -> (r: i64)
    ensures
        r == lo + code,
{
    lo as i64 + code as i64
}

} // verus!
