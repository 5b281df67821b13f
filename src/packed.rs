//! The 16-bit cell word.
//!
//! ```text
//! bit 15       tag: 0 = inline, 1 = slot
//! bits 14..6   9-bit block id       (inline)
//! bits 5..0    6-bit packed state   (inline)
//! bits 14..0   15-bit slot index    (slot)
//! ```
use vstd::prelude::*;
use crate::bits::Bits;

verus! {

/// Number of distinct block ids a cell can hold.
pub const MAX_IDS: usize = 512;

/// Number of distinct slot indices a cell can hold.
pub const MAX_SLOTS: usize = 32768;

/// What a cell word stands for.
pub enum CellView {
    Inline { id: nat, state: nat },
    Slot { slot: nat },
}

/// The meaning of a cell word, read off its bits.
pub open spec fn decode(w: u16) -> CellView {
    if w < 0x8000 {
        CellView::Inline { id: (w / 64) as nat, state: (w % 64) as nat }
    } else {
        CellView::Slot { slot: (w - 0x8000) as nat }
    }
}

/// Numeric identifier of a block type, assigned by the block registry.
#[derive(Debug, Clone, Copy, PartialEq, Eq, Hash)]
pub struct Id(u16);

impl View for Id {
    type V = u16;

    closed spec fn view(&self) -> u16 {
        self.0
    }
}

impl Id {
    /// Wraps a raw identifier.
    pub fn new(id: u16) -> (r: Self)
        ensures
            r@ == id,
    {
        Id(id)
    }

    /// The raw identifier.
    pub fn inner(self) -> (r: u16)
        ensures
            r == self@,
    {
        self.0
    }
}

/// Which of the two shapes a cell has.
#[derive(Debug, Clone, Copy, PartialEq, Eq, Structural)]
pub enum Repr {
    /// Id and state are stored in the cell itself.
    Val,
    /// The cell points to a slot of its chunk's arena.
    Ptr,
}

/// A cell word known to be in inline shape.
#[derive(Clone, Copy)]
pub struct Val(u16);

/// A cell word known to be in slot shape.
#[derive(Clone, Copy)]
pub struct Ptr(u16);

impl View for Val {
    type V = u16;

    closed spec fn view(&self) -> u16 {
        self.0
    }
}

impl View for Ptr {
    type V = u16;

    closed spec fn view(&self) -> u16 {
        self.0
    }
}

/// One packed cell: 16 bits that are either `(id, state)` or a slot index.
#[derive(Debug, Default, Clone, Copy, PartialEq, Eq, Hash, Structural)]
pub struct Packed(u16);

impl View for Packed {
    type V = u16;

    closed spec fn view(&self) -> u16 {
        self.0
    }
}

impl Packed {
    /// An inline cell holding `id` and the 6 bits of `state`.
    pub fn from_val(id: Id, state: Bits<6>) -> (r: Self)
        requires
            id@ < MAX_IDS,
        ensures
            decode(r@) == (CellView::Inline { id: id@ as nat, state: (state@ % 64) as nat }),
    {
        let s: u16 = state.inner() as u16;
        let i: u16 = id.inner();
        let w: u16 = (i << 6u16) | (s & 0x3f);
        assert(w == i * 64 + s % 64 && w < 0x8000) by (bit_vector)
            requires
                i < 512,
                w == (i << 6u16) | (s & 0x3f),
                s < 256,
        ;
        Packed(w)
    }

    /// A slot cell pointing to arena slot `slot`.
    pub fn from_ptr(slot: usize) -> (r: Self)
        requires
            slot < MAX_SLOTS,
        ensures
            decode(r@) == (CellView::Slot { slot: slot as nat }),
    {
        let s: u16 = slot as u16;
        let w: u16 = 0x8000u16 | s;
        assert(w == 0x8000 + s) by (bit_vector)
            requires
                s < 0x8000,
                w == 0x8000u16 | s,
        ;
        Packed(w)
    }

    /// The empty cell: inline, id 0, state 0.
    pub fn zeroed() -> (r: Self)
        ensures
            r@ == 0,
            decode(r@) == (CellView::Inline { id: 0, state: 0 }),
    {
        Packed(0)
    }

    /// The shape of this cell, read from its top bit.
    pub fn tag(self) -> (r: Repr)
        ensures
            (r == Repr::Val) == decode(self@) is Inline,
    {
        let w = self.0;
        if w >> 15u16 == 0 {
            assert(w < 0x8000) by (bit_vector)
                requires
                    w >> 15u16 == 0,
            ;
            Repr::Val
        } else {
            assert(w >= 0x8000) by (bit_vector)
                requires
                    w >> 15u16 != 0,
            ;
            Repr::Ptr
        }
    }

    /// Whether this cell is in inline shape.
    pub fn is_val(self) -> (r: bool)
        ensures
            r == decode(self@) is Inline,
    {
        self.0 < 0x8000
    }

    /// Whether this cell is in slot shape.
    pub fn is_ptr(self) -> (r: bool)
        ensures
            r == decode(self@) is Slot,
    {
        !self.is_val()
    }

    /// This cell seen as an inline cell.
    pub fn as_val(self) -> (r: Val)
        requires
            decode(self@) is Inline,
        ensures
            r@ == self@,
    {
        Val(self.0)
    }

    /// This cell seen as a slot cell.
    pub fn as_ptr(self) -> (r: Ptr)
        requires
            decode(self@) is Slot,
        ensures
            r@ == self@,
    {
        Ptr(self.0)
    }

    /// Rewrites the 6 state bits of an inline cell, keeping its id.
    pub fn set_state(&mut self, state: Bits<6>)
        requires
            decode(old(self)@) is Inline,
        ensures
            decode(final(self)@) == (CellView::Inline {
                id: decode(old(self)@)->Inline_id,
                state: (state@ % 64) as nat,
            }),
    {
        let mut v = self.as_val();
        v.set_state(state);
        self.0 = v.0;
    }
}

impl Val {
    /// The block id of this cell.
    pub fn id(self) -> (r: Id)
        requires
            self@ < 0x8000,
        ensures
            r@ as nat == decode(self@)->Inline_id,
            r@ < MAX_IDS,
    {
        let w = self.0;
        let i: u16 = (w & 0x7fc0) >> 6u16;
        assert(i == w / 64 && i < 512) by (bit_vector)
            requires
                w < 0x8000,
                i == (w & 0x7fc0) >> 6u16,
        ;
        Id(i)
    }

    /// The packed state of this cell.
    pub fn state(self) -> (r: Bits<6>)
        requires
            self@ < 0x8000,
        ensures
            r@ as nat == decode(self@)->Inline_state,
    {
        let w = self.0;
        let b: u8 = w as u8;
        assert(b % 64 == w % 64) by (bit_vector)
            requires
                b == w as u8,
        ;
        proof {
            vstd::arithmetic::power2::lemma2_to64();
        }
        Bits::new(b)
    }

    /// Rewrites the state bits, keeping the tag and the id.
    pub fn set_state(&mut self, state: Bits<6>)
        requires
            old(self)@ < 0x8000,
        ensures
            final(self)@ < 0x8000,
            final(self)@ / 64 == old(self)@ / 64,
            final(self)@ % 64 == state@ % 64,
    {
        let w = self.0;
        let s: u16 = state.inner() as u16;
        let n: u16 = (w & 0xffc0) | (s & 0x3f);
        assert(n < 0x8000 && n / 64 == w / 64 && n % 64 == s % 64) by (bit_vector)
            requires
                w < 0x8000,
                n == (w & 0xffc0) | (s & 0x3f),
        ;
        self.0 = n;
    }
}

impl Ptr {
    /// The arena slot this cell points to.
    pub fn slot(self) -> (r: usize)
        requires
            self@ >= 0x8000,
        ensures
            r as nat == decode(self@)->Slot_slot,
            r < MAX_SLOTS,
    {
        let w = self.0;
        let s: u16 = w & 0x7fff;
        assert(s == w - 0x8000) by (bit_vector)
            requires
                w >= 0x8000,
                s == w & 0x7fff,
        ;
        s as usize
    }
}

} // verus!
