//! A 32x32x32 block of cells with its side arena.
use vstd::prelude::*;
use std::sync::Arc;
use slab::Slab;
use crate::arena::{arena_entries, arena_span, arena_new, arena_insert, arena_remove, arena_get, arena_len};
use crate::block::{Block, BlockRegistry, Object, cast_value, same_block};
use crate::layout::BlockRepr;
use crate::math::Vec3;
use crate::packed::{decode, CellView, Packed, MAX_SLOTS};
use crate::vanilla::HeapBlock;

verus! {

/// Cells along one side of a chunk.
pub const SIZE: usize = 32;

/// Cells in a chunk.
pub const VOLUME: usize = 32768;

/// Whether a chunk-space position lies inside a chunk.
pub open spec fn spec_in_bounds(p: Vec3<usize>) -> bool {
    p.x < SIZE && p.y < SIZE && p.z < SIZE
}

/// The index of a chunk-space position in cell order.
pub open spec fn spec_flatten(p: Vec3<usize>) -> int {
    p.x + SIZE * (p.y + SIZE * p.z)
}

/// The chunk-space position of cell index `i`.
pub open spec fn spec_unflatten(i: int) -> Vec3<usize> {
    Vec3 { x: (i % 32) as usize, y: ((i / 32) % 32) as usize, z: (i / 1024) as usize }
}

/// Number of slot cells in `cells`.
pub open spec fn slot_count(cells: Seq<CellView>) -> nat
    decreases cells.len(),
{
    if cells.len() == 0 {
        0
    } else {
        slot_count(cells.drop_last()) + if cells.last() is Slot {
            1nat
        } else {
            0nat
        }
    }
}

proof fn lemma_slot_count_update(cells: Seq<CellView>, i: int, c: CellView)
    requires
        0 <= i < cells.len(),
    ensures
        slot_count(cells.update(i, c)) + (if cells[i] is Slot {
            1nat
        } else {
            0nat
        }) == slot_count(cells) + (if c is Slot {
            1nat
        } else {
            0nat
        }),
    decreases cells.len(),
{
    if i == cells.len() - 1 {
        assert(cells.update(i, c).drop_last() == cells.drop_last());
    } else {
        assert(cells.update(i, c).drop_last() == cells.drop_last().update(i, c));
        lemma_slot_count_update(cells.drop_last(), i, c);
    }
}

proof fn lemma_slot_count_bound(cells: Seq<CellView>)
    ensures
        slot_count(cells) <= cells.len(),
    decreases cells.len(),
{
    if cells.len() > 0 {
        lemma_slot_count_bound(cells.drop_last());
    }
}

proof fn lemma_slot_count_zero(cells: Seq<CellView>)
    requires
        forall|i: int| 0 <= i < cells.len() ==> !(#[trigger] cells[i] is Slot),
    ensures
        slot_count(cells) == 0,
    decreases cells.len(),
{
    if cells.len() > 0 {
        lemma_slot_count_zero(cells.drop_last());
    }
}

/// Relies on `Arc::clone`: the new handle shares the same value.
#[verifier::external_body]
fn share(a: &Arc<BlockRegistry>) -> (r: Arc<BlockRegistry>)
    ensures
        *r == **a,
{
    Arc::clone(a)
}

/// A 32x32x32 grid of packed cells, the arena holding its heap blocks, and
/// the registry that gives meaning to its block ids.
pub struct Chunk {
    /// Position in the world, in units of 32 cells.
    pos: Vec3<i32>,
    /// The cells, in `x + 32 * (y + 32 * z)` order.
    blocks: Vec<Packed>,
    /// The heap blocks that slot cells point to.
    arena: Slab<HeapBlock>,
    /// The shared, frozen block registry.
    registry: Arc<BlockRegistry>,
}

impl Chunk {
    /// The meaning of each cell, in cell order.
    pub closed spec fn cells(&self) -> Seq<CellView> {
        self.blocks@.map_values(|p: Packed| decode(p@))
    }

    /// The arena's contents, by slot.
    pub closed spec fn entries(&self) -> Map<usize, HeapBlock> {
        arena_entries(self.arena)
    }

    /// The registry the chunk reads ids through.
    pub closed spec fn reg(&self) -> BlockRegistry {
        *self.registry
    }

    /// Entries the arena has laid out.
    pub closed spec fn span(&self) -> nat {
        arena_span(self.arena)
    }

    /// The chunk's position.
    pub closed spec fn spec_pos(&self) -> Vec3<i32> {
        self.pos
    }

    /// Cell `i` is consistent with the registry and the arena.
    pub open spec fn cell_ok(&self, i: int) -> bool {
        match self.cells()[i] {
            CellView::Inline { id, state } => id < self.reg().spec_len() && self.reg().metas()[id as int].repr
                == BlockRepr::Inline,
            CellView::Slot { slot } => self.entries().contains_key(slot as usize),
        }
    }

    /// Every cell is well formed; slot cells and arena entries match one to
    /// one.
    pub open spec fn wf(&self) -> bool {
        &&& self.cells().len() == VOLUME
        &&& self.reg().wf()
        &&& self.entries().dom().finite()
        &&& self.entries().len() == slot_count(self.cells())
        &&& self.span() <= VOLUME
        &&& forall|i: int| 0 <= i < VOLUME ==> #[trigger] self.cell_ok(i)
        &&& forall|i: int, j: int|
            0 <= i < VOLUME && 0 <= j < VOLUME && (#[trigger] self.cells()[i]) is Slot && (
            #[trigger] self.cells()[j]) is Slot && self.cells()[i]->Slot_slot
                == self.cells()[j]->Slot_slot ==> i == j
        &&& forall|k: usize|
            #[trigger] self.entries().contains_key(k) ==> exists|i: int|
                0 <= i < VOLUME && #[trigger] self.cells()[i] == (CellView::Slot { slot: k as nat })
    }

    /// `o` is the handle for cell `i`.
    pub open spec fn holds_object(&self, i: int, o: Object) -> bool {
        match self.cells()[i] {
            CellView::Inline { id, state } => o matches Object::Inline { meta, state: s } && *meta
                == self.reg().metas()[id as int] && s@ == state,
            CellView::Slot { slot } => o matches Object::Heap { block } && *block
                == self.entries()[slot as usize],
        }
    }

    /// An empty chunk at `pos`: every cell is the empty block, the arena is
    /// empty.
    pub fn new(pos: Vec3<i32>, registry: &Arc<BlockRegistry>) -> (r: Self)
        requires
            registry.wf(),
        ensures
            r.wf(),
            r.spec_pos() == pos,
            r.reg() == **registry,
            forall|i: int| 0 <= i < VOLUME ==> #[trigger] r.cells()[i] == (CellView::Inline { id: 0, state: 0 }),
            r.entries().dom() == Set::<usize>::empty(),
    {
        let mut blocks: Vec<Packed> = Vec::new();
        let mut i: usize = 0;
        while i < VOLUME
            invariant
                i <= VOLUME,
                blocks@.len() == i,
                forall|k: int| 0 <= k < i ==> decode((#[trigger] blocks@[k])@) == (CellView::Inline { id: 0, state: 0 }),
            decreases VOLUME - i,
        {
            blocks.push(Packed::zeroed());
            i = i + 1;
        }
        let r = Chunk { pos, blocks, arena: arena_new(), registry: share(registry) };
        proof {
            assert forall|k: int| 0 <= k < VOLUME implies #[trigger] r.cells()[k] == (CellView::Inline { id: 0, state: 0 }) by {
            }
            lemma_slot_count_zero(r.cells());
            registry.lemma_wf();
            assert(r.entries().dom() =~= Set::<usize>::empty());
            assert(r.entries().len() == 0);
            assert forall|i: int| 0 <= i < VOLUME implies #[trigger] r.cell_ok(i) by {
                assert(r.cells()[i] == (CellView::Inline { id: 0, state: 0 }));
            }
        }
        r
    }

    /// The chunk's position, in units of 32 cells.
    pub fn pos(&self) -> (r: Vec3<i32>)
        ensures
            r == self.spec_pos(),
    {
        self.pos
    }

    /// The registry this chunk reads block ids through.
    pub fn registry(&self) -> (r: &Arc<BlockRegistry>)
        ensures
            **r == self.reg(),
    {
        &self.registry
    }

    /// Whether a chunk-space position lies inside the chunk.
    pub fn in_bounds(p: Vec3<usize>) -> (r: bool)
        ensures
            r == spec_in_bounds(p),
    {
        p.x < SIZE && p.y < SIZE && p.z < SIZE
    }

    /// The cell index of an in-bounds position.
    pub fn flatten(p: Vec3<usize>) -> (r: usize)
        requires
            spec_in_bounds(p),
        ensures
            r == spec_flatten(p),
            r < VOLUME,
    {
        p.x + SIZE * (p.y + SIZE * p.z)
    }

    /// The position of cell index `i`.
    pub fn unflatten(i: usize) -> (r: Vec3<usize>)
        requires
            i < VOLUME,
        ensures
            r == spec_unflatten(i as int),
            spec_in_bounds(r),
            spec_flatten(r) == i,
    {
        let r = Vec3 { x: i % 32, y: (i / 32) % 32, z: i / 1024 };
        assert(r.x + 32 * (r.y + 32 * r.z) == i) by (nonlinear_arith)
            requires
                r.x == i % 32,
                r.y == (i / 32) % 32,
                r.z == i / 1024,
                i < 32768,
        ;
        assert(r.z < 32) by (nonlinear_arith)
            requires
                r.z == i / 1024,
                i < 32768,
        ;
        r
    }

    /// The arena after the block in cell `i` is released.
    pub open spec fn freed_entries(&self, i: int) -> Map<usize, HeapBlock> {
        match self.cells()[i] {
            CellView::Slot { slot } => self.entries().remove(slot as usize),
            _ => self.entries(),
        }
    }

    /// `d` is what `set(pos, b)` makes of `c`: outside the chunk, or for a
    /// type the registry does not admit, nothing changes; otherwise the
    /// cell's previous heap block is released and the cell holds `b`, packed
    /// or in a fresh arena slot.
    pub open spec fn spec_set<T: Block>(c: Chunk, d: Chunk, pos: Vec3<usize>, b: T) -> bool {
        &&& d.reg() == c.reg()
        &&& d.spec_pos() == c.spec_pos()
        &&& if !spec_in_bounds(pos) || !c.reg().admits::<T>() {
            d.cells() == c.cells() && d.entries() == c.entries()
        } else {
            let i = spec_flatten(pos);
            &&& d.cells() == c.cells().update(i, d.cells()[i])
            &&& match T::spec_repr() {
                BlockRepr::Inline => {
                    &&& d.cells()[i] is Inline
                    &&& d.cells()[i]->Inline_id < c.reg().spec_len()
                    &&& c.reg().metas()[d.cells()[i]->Inline_id as int].id@ == T::spec_id()
                    &&& d.cells()[i]->Inline_state == b.spec_pack() % 64
                    &&& d.entries() == c.freed_entries(i)
                },
                BlockRepr::Heap => {
                    &&& d.cells()[i] is Slot
                    &&& !c.freed_entries(i).contains_key(d.cells()[i]->Slot_slot as usize)
                    &&& b.spec_into_heap() is Some
                    &&& d.entries() == c.freed_entries(i).insert(
                        d.cells()[i]->Slot_slot as usize,
                        b.spec_into_heap()->Some_0,
                    )
                },
            }
        }
    }

    /// Puts `block` at chunk-space position `pos`, releasing the arena slot
    /// of the block it replaces. Does nothing outside the chunk or when the
    /// registry does not admit `T`.
    pub fn set<T: Block>(&mut self, pos: Vec3<usize>, block: T)
        requires
            old(self).wf(),
        ensures
            final(self).wf(),
            Self::spec_set(*old(self), *final(self), pos, block),
    {
        if !Self::in_bounds(pos) {
            return ;
        }
        let id = match self.registry.id::<T>() {
            Some(id) => id,
            None => {
                return ;
            },
        };
        let repr = T::repr();
        if self.registry.meta_at(id).repr != repr {
            proof {
                if self.reg().admits::<T>() {
                    let j = choose|j: int|
                        0 <= j < self.reg().spec_len() && #[trigger] self.reg().metas()[j].id@
                            == T::spec_id() && self.reg().metas()[j].repr == T::spec_repr();
                    self.reg().lemma_unique(j, id@ as int);
                }
            }
            return ;
        }
        proof {
            self.reg().lemma_wf();
        }
        let i = Self::flatten(pos);
        let cell = self.blocks[i];
        let ghost c0 = *self;
        assert(self.cell_ok(i as int));
        assert(self.cells()[i as int] == decode(cell@));
        if cell.is_ptr() {
            let slot = cell.as_ptr().slot();
            let _ = arena_remove(&mut self.arena, slot);
        }
        assert(self.entries() == c0.freed_entries(i as int));
        proof {
            lemma_slot_count_bound(c0.cells());
            if !(c0.cells()[i as int] is Slot) {
                lemma_slot_count_update(c0.cells(), i as int, CellView::Slot { slot: 0 });
                lemma_slot_count_bound(c0.cells().update(i as int, CellView::Slot { slot: 0 }));
            }
        }
        match repr {
            BlockRepr::Inline => {
                let state = block.pack();
                let packed = Packed::from_val(id, state);
                self.blocks.set(i, packed);
                proof {
                    assert(self.cells() =~= c0.cells().update(i as int, decode(packed@)));
                    lemma_slot_count_update(c0.cells(), i as int, decode(packed@));
                    self.lemma_keep_wf(c0, i as int);
                }
            },
            BlockRepr::Heap => {
                proof {
                    T::lemma_heap_round_trip(block);
                }
                match block.into_heap() {
                    Some(h) => {
                        let k = arena_insert(&mut self.arena, h);
                        let packed = Packed::from_ptr(k);
                        self.blocks.set(i, packed);
                        proof {
                            assert(self.cells() =~= c0.cells().update(i as int, decode(packed@)));
                            lemma_slot_count_update(c0.cells(), i as int, decode(packed@));
                            self.lemma_keep_wf(c0, i as int);
                        }
                    },
                    None => {},
                }
            },
        }
    }

    /// The block in cell `i` read as a `T`, if it is one.
    pub open spec fn held_as<T: Block>(&self, i: int) -> Option<T> {
        match self.cells()[i] {
            CellView::Inline { id, state } => if T::spec_repr() == BlockRepr::Inline
                && self.reg().metas()[id as int].id@ == T::spec_id() {
                Some(T::spec_unpack(state))
            } else {
                None
            },
            CellView::Slot { slot } => T::spec_from_heap(self.entries()[slot as usize]),
        }
    }

    /// `d` is `c` with `b` stored back into cell `i` in place of the block
    /// it held: packed into the same cell under the same id, or into a
    /// fresh arena slot.
    pub open spec fn spec_put<T: Block>(c: Chunk, d: Chunk, i: int, b: T) -> bool {
        &&& d.reg() == c.reg()
        &&& d.spec_pos() == c.spec_pos()
        &&& d.cells() == c.cells().update(i, d.cells()[i])
        &&& match T::spec_repr() {
            BlockRepr::Inline => {
                &&& d.cells()[i] == (CellView::Inline {
                    id: c.cells()[i]->Inline_id,
                    state: b.spec_pack() % 64,
                })
                &&& d.entries() == c.entries()
            },
            BlockRepr::Heap => {
                &&& d.cells()[i] is Slot
                &&& !c.freed_entries(i).contains_key(d.cells()[i]->Slot_slot as usize)
                &&& b.spec_into_heap() is Some
                &&& d.entries() == c.freed_entries(i).insert(
                    d.cells()[i]->Slot_slot as usize,
                    b.spec_into_heap()->Some_0,
                )
            },
        }
    }

    /// Reads the block at `pos` as a `T`, hands it to `f`, and stores what
    /// `f` returns in its place: an inline block is packed back into the
    /// same cell under the same id, a heap block goes back to the arena.
    /// Returns whether the cell held a `T`; otherwise nothing changes.
    pub fn with_mut<T: Block, F: FnOnce(T) -> T>(&mut self, pos: Vec3<usize>, f: F) -> (r: bool)
        requires
            old(self).wf(),
            forall|v: T| #[trigger] f.requires((v,)),
        ensures
            final(self).wf(),
            final(self).reg() == old(self).reg(),
            final(self).spec_pos() == old(self).spec_pos(),
            r == (spec_in_bounds(pos) && old(self).held_as::<T>(spec_flatten(pos)) is Some),
            !r ==> final(self).cells() == old(self).cells() && final(self).entries() == old(
                self,
            ).entries(),
            r ==> exists|out: T|
                #![trigger out.spec_pack()]
                f.ensures((old(self).held_as::<T>(spec_flatten(pos))->Some_0,), out)
                    && Self::spec_put(*old(self), *final(self), spec_flatten(pos), out),
    {
        if !Self::in_bounds(pos) {
            return false;
        }
        let i = Self::flatten(pos);
        let mut cell = self.blocks[i];
        assert(self.cell_ok(i as int));
        assert(self.cells()[i as int] == decode(cell@));
        let ghost c0 = *self;
        if cell.is_val() {
            if T::repr() != BlockRepr::Inline {
                return false;
            }
            let v = cell.as_val();
            let id = v.id();
            if !self.registry.matches::<T>(id) {
                return false;
            }
            let value = T::unpack(v.state());
            let out = f(value);
            let state = out.pack();
            cell.set_state(state);
            self.blocks.set(i, cell);
            proof {
                assert(self.cells() =~= c0.cells().update(i as int, decode(cell@)));
                lemma_slot_count_update(c0.cells(), i as int, decode(cell@));
                self.lemma_keep_wf(c0, i as int);
                assert(c0.held_as::<T>(i as int) == Some(value));
                assert(Self::spec_put(c0, *self, i as int, out));
            }
            true
        } else {
            let k0 = cell.as_ptr().slot();
            let held = match arena_get(&self.arena, k0) {
                Some(h) => T::from_heap(h).is_some(),
                None => false,
            };
            if !held {
                return false;
            }
            proof {
                T::lemma_from_heap(c0.entries()[k0]);
                lemma_slot_count_bound(c0.cells());
            }
            let h = arena_remove(&mut self.arena, k0);
            match T::take_from_heap(h) {
                Ok(b) => {
                    let out = f(b);
                    proof {
                        T::lemma_heap_round_trip(out);
                    }
                    match out.into_heap() {
                        Some(h2) => {
                            let k = arena_insert(&mut self.arena, h2);
                            let packed = Packed::from_ptr(k);
                            self.blocks.set(i, packed);
                            proof {
                                assert(self.cells() =~= c0.cells().update(i as int, decode(packed@)));
                                lemma_slot_count_update(c0.cells(), i as int, decode(packed@));
                                self.lemma_keep_wf(c0, i as int);
                                assert(c0.held_as::<T>(i as int) == Some(b));
                                assert(Self::spec_put(c0, *self, i as int, out));
                            }
                            true
                        },
                        None => {
                            proof {
                                assert(false);
                            }
                            false
                        },
                    }
                },
                Err(_) => {
                    proof {
                        assert(false);
                    }
                    false
                },
            }
        }
    }

    /// After cell `i` of `c0` is rewritten consistently, `self` is well
    /// formed again.
    proof fn lemma_keep_wf(&self, c0: Chunk, i: int)
        requires
            c0.wf(),
            0 <= i < VOLUME,
            self.reg() == c0.reg(),
            self.cells() == c0.cells().update(i, self.cells()[i]),
            self.entries().dom().finite(),
            self.entries().len() == slot_count(self.cells()),
            self.span() <= VOLUME,
            self.cell_ok(i),
            match self.cells()[i] {
                CellView::Inline { .. } => self.entries() == c0.freed_entries(i),
                CellView::Slot { slot } => !c0.freed_entries(i).contains_key(slot as usize)
                    && self.entries() == c0.freed_entries(i).insert(
                    slot as usize,
                    self.entries()[slot as usize],
                ),
            },
        ensures
            self.wf(),
    {
        assert forall|j: int| 0 <= j < VOLUME implies #[trigger] self.cell_ok(j) by {
            if j != i {
                assert(c0.cell_ok(j));
                if let CellView::Slot { slot } = c0.cells()[j] {
                    if let CellView::Slot { slot: s0 } = c0.cells()[i] {
                        assert(slot != s0);
                    }
                }
            }
        }
        assert forall|a: int, b: int|
            0 <= a < VOLUME && 0 <= b < VOLUME && (#[trigger] self.cells()[a]) is Slot && (
            #[trigger] self.cells()[b]) is Slot && self.cells()[a]->Slot_slot
                == self.cells()[b]->Slot_slot implies a == b by {
            if a != i && b != i {
                assert(c0.cells()[a] == self.cells()[a]);
                assert(c0.cells()[b] == self.cells()[b]);
            } else if a == i && b != i {
                assert(c0.cell_ok(b));
                if let CellView::Slot { slot: s0 } = c0.cells()[i] {
                    assert(c0.cells()[b]->Slot_slot != s0);
                }
            } else if b == i && a != i {
                assert(c0.cell_ok(a));
                if let CellView::Slot { slot: s0 } = c0.cells()[i] {
                    assert(c0.cells()[a]->Slot_slot != s0);
                }
            }
        }
        assert forall|k: usize| #[trigger] self.entries().contains_key(k) implies exists|j: int|
            0 <= j < VOLUME && #[trigger] self.cells()[j] == (CellView::Slot { slot: k as nat }) by {
            if self.cells()[i] == (CellView::Slot { slot: k as nat }) {
            } else {
                assert(c0.entries().contains_key(k));
                let j = choose|j: int|
                    0 <= j < VOLUME && #[trigger] c0.cells()[j] == (CellView::Slot {
                        slot: k as nat,
                    });
                assert(j != i);
                assert(self.cells()[j] == c0.cells()[j]);
            }
        }
    }

    /// Number of blocks held in the arena.
    pub fn slot_count(&self) -> (r: usize)
        requires
            self.wf(),
        ensures
            r == self.entries().len(),
            r == slot_count(self.cells()),
    {
        arena_len(&self.arena)
    }

    /// The handle for cell `i`.
    fn object_at(&self, i: usize) -> (r: Option<Object<'_>>)
        requires
            self.wf(),
            i < VOLUME,
        ensures
            r matches Some(o) && self.holds_object(i as int, o) && o.wf(),
    {
        let cell = self.blocks[i];
        assert(self.cell_ok(i as int));
        assert(self.cells()[i as int] == decode(cell@));
        if cell.is_val() {
            let v = cell.as_val();
            let id = v.id();
            let meta = self.registry.meta_at(id);
            proof {
                self.reg().lemma_wf();
            }
            Some(Object::Inline { meta, state: v.state() })
        } else {
            match arena_get(&self.arena, cell.as_ptr().slot()) {
                Some(block) => Some(Object::Heap { block }),
                None => None,
            }
        }
    }

    /// The block at chunk-space position `pos`, or `None` outside the chunk.
    pub fn get(&self, pos: Vec3<usize>) -> (r: Option<Object<'_>>)
        requires
            self.wf(),
        ensures
            get_result(*self, pos, r),
    {
        if Self::in_bounds(pos) {
            self.object_at(Self::flatten(pos))
        } else {
            None
        }
    }

    /// Every cell with its position, in cell order.
    pub fn iter(&self) -> (r: Vec<(Vec3<usize>, Object<'_>)>)
        requires
            self.wf(),
        ensures
            iter_result(*self, r@),
    {
        let mut out: Vec<(Vec3<usize>, Object<'_>)> = Vec::new();
        let mut i: usize = 0;
        while i < VOLUME
            invariant
                self.wf(),
                i <= VOLUME,
                out@.len() == i,
                forall|k: int|
                    0 <= k < i ==> (#[trigger] out@[k]).0 == spec_unflatten(k) && self.holds_object(
                        k,
                        out@[k].1,
                    ) && out@[k].1.wf(),
            decreases VOLUME - i,
        {
            match self.object_at(i) {
                Some(o) => out.push((Self::unflatten(i), o)),
                None => {},
            }
            i = i + 1;
        }
        out
    }
}

/// What `get(p)` may return on `c`.
pub open spec fn get_result(c: Chunk, p: Vec3<usize>, r: Option<Object>) -> bool {
    &&& r is None <==> !spec_in_bounds(p)
    &&& r matches Some(o) ==> c.holds_object(spec_flatten(p), o) && o.wf()
}

/// What `iter()` may return on `c`.
pub open spec fn iter_result(c: Chunk, r: Seq<(Vec3<usize>, Object)>) -> bool {
    &&& r.len() == VOLUME
    &&& forall|i: int|
        0 <= i < VOLUME ==> (#[trigger] r[i]).0 == spec_unflatten(i) && c.holds_object(i, r[i].1)
            && r[i].1.wf()
}

/// `get` agrees with `iter`: for every position in the chunk, the entry
/// that `iter` lists at that position's index carries the position and the
/// same block that `get` returns.
pub proof fn lemma_get_agrees_with_iter(
    c: Chunk,
    p: Vec3<usize>,
    got: Option<Object>,
    listed: Seq<(Vec3<usize>, Object)>,
)
    requires
        c.wf(),
        spec_in_bounds(p),
        get_result(c, p, got),
        iter_result(c, listed),
    ensures
        got matches Some(o) && listed[spec_flatten(p)].0 == p && same_block(
            o,
            listed[spec_flatten(p)].1,
        ),
{
    let i = spec_flatten(p);
    let o = got->Some_0;
    let l = listed[i].1;
    assert(0 <= i < VOLUME);
    assert(c.holds_object(i, l));
    assert(spec_unflatten(i) == p) by (nonlinear_arith)
        requires
            i == p.x + 32 * (p.y + 32 * p.z),
            p.x < 32,
            p.y < 32,
            p.z < 32,
    ;
}

/// After `set(p, b)` with `p` in the chunk and `T` admitted, reading the
/// cell at `p` back as a `T` gives `b`.
pub proof fn lemma_set_then_cast<T: Block>(c: Chunk, d: Chunk, p: Vec3<usize>, b: T, o: Object)
    requires
        c.wf(),
        Chunk::spec_set(c, d, p, b),
        spec_in_bounds(p),
        c.reg().admits::<T>(),
        b.valid(),
        d.holds_object(spec_flatten(p), o),
    ensures
        cast_value::<T>(o) == Some(b),
{
    let i = spec_flatten(p);
    if T::spec_repr() == BlockRepr::Inline {
        T::lemma_pack_round_trip(b);
        assert(b.spec_pack() % 64 == b.spec_pack());
    } else {
        T::lemma_heap_round_trip(b);
    }
}

/// Overwriting a cell leaks no arena slot: `set(p, b1)` then `set(p, b2)`
/// leaves as many arena entries as `set(p, b2)` alone, whenever `p` is in
/// the chunk and the registry admits the second block's type.
pub proof fn lemma_overwrite_keeps_slot_count<T1: Block, T2: Block>(
    c0: Chunk,
    c1: Chunk,
    c2: Chunk,
    c3: Chunk,
    p: Vec3<usize>,
    b1: T1,
    b2: T2,
)
    requires
        c0.wf(),
        c1.wf(),
        c2.wf(),
        c3.wf(),
        Chunk::spec_set(c0, c1, p, b1),
        Chunk::spec_set(c1, c2, p, b2),
        Chunk::spec_set(c0, c3, p, b2),
        spec_in_bounds(p),
        c0.reg().admits::<T2>(),
    ensures
        c2.entries().len() == c3.entries().len(),
{
    let i = spec_flatten(p);
    assert(c2.cells() =~= c0.cells().update(i, c2.cells()[i]));
    lemma_slot_count_update(c0.cells(), i, c2.cells()[i]);
    lemma_slot_count_update(c0.cells(), i, c3.cells()[i]);
}

} // verus!
