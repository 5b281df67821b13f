//! World-level bookkeeping: where a world position lives, how a new chunk
//! is filled with terrain, and which chunks are absent, generating or
//! loaded.
use vstd::prelude::*;
use crate::block::Block;
use crate::chunk::{Chunk, spec_flatten, spec_in_bounds, spec_unflatten, VOLUME};
use crate::layout::BlockRepr;
use crate::math::Vec3;
use crate::packed::CellView;

verus! {

/// The chunk that holds world position `p`: each coordinate divided by 32,
/// rounding down.
pub open spec fn spec_chunk_of(p: Vec3<i32>) -> Vec3<i32> {
    Vec3 { x: (p.x as int / 32) as i32, y: (p.y as int / 32) as i32, z: (p.z as int / 32) as i32 }
}

/// Where world position `p` lies inside its chunk: each coordinate modulo
/// 32, never negative.
pub open spec fn spec_local_of(p: Vec3<i32>) -> Vec3<usize> {
    Vec3 {
        x: (p.x as int % 32) as usize,
        y: (p.y as int % 32) as usize,
        z: (p.z as int % 32) as usize,
    }
}

fn floor_div32(v: i32) -> (r: i32)
    ensures
        r == v as int / 32,
{
    if v >= 0 {
        v / 32
    } else {
        let w: i64 = -(v as i64);
        let q: i64 = (w + 31) / 32;
        assert(-q == v as int / 32) by (nonlinear_arith)
            requires
                w == -v,
                v < 0,
                q == (w + 31) / 32,
        ;
        (-q) as i32
    }
}

fn mod32(v: i32) -> (r: usize)
    ensures
        r == v as int % 32,
        r < 32,
{
    let q = floor_div32(v);
    let m: i64 = v as i64 - 32 * q as i64;
    assert(m == v as int % 32) by (nonlinear_arith)
        requires
            q == v as int / 32,
            m == v - 32 * q,
    ;
    m as usize
}

/// The chunk position holding world position `p`.
pub fn chunk_of(p: Vec3<i32>) -> (r: Vec3<i32>)
    ensures
        r == spec_chunk_of(p),
{
    Vec3 { x: floor_div32(p.x), y: floor_div32(p.y), z: floor_div32(p.z) }
}

/// The chunk-space position of world position `p`.
pub fn local_of(p: Vec3<i32>) -> (r: Vec3<usize>)
    ensures
        r == spec_local_of(p),
        spec_in_bounds(r),
{
    Vec3 { x: mod32(p.x), y: mod32(p.y), z: mod32(p.z) }
}

/// A world position is its chunk's corner plus its place in the chunk.
pub proof fn lemma_split(p: Vec3<i32>)
    ensures
        spec_chunk_of(p).x * 32 + spec_local_of(p).x == p.x,
        spec_chunk_of(p).y * 32 + spec_local_of(p).y == p.y,
        spec_chunk_of(p).z * 32 + spec_local_of(p).z == p.z,
        spec_in_bounds(spec_local_of(p)),
{
    assert(forall|v: int| (v / 32) * 32 + v % 32 == v && 0 <= #[trigger] (v % 32) < 32)
        by (nonlinear_arith);
    assert(forall|v: int| -0x8000_0000 <= v < 0x8000_0000 ==> -0x8000_0000 <= #[trigger] (v
        / 32) < 0x8000_0000) by (nonlinear_arith);
}

/// Whether the cell at chunk-space `p` of a chunk at height `cy` lies at
/// or below its column's height in `heights` (indexed by `x + 32 * z`).
pub open spec fn below_surface(heights: Seq<i32>, cy: i32, p: Vec3<usize>) -> bool {
    p.y + cy * 32 <= heights[p.x + 32 * p.z]
}

/// Fills a chunk with terrain: every cell at or below its column's height
/// gets `block`, the others keep what they held. The chunk must hold no
/// heap block, as a new chunk does; nothing changes when the registry does
/// not admit `T`.
pub fn fill_terrain<T: Block + Copy>(chunk: &mut Chunk, heights: &Vec<i32>, block: T)
    requires
        old(chunk).wf(),
        heights@.len() == 1024,
        T::spec_repr() == BlockRepr::Inline,
        forall|i: int| 0 <= i < VOLUME ==> !(#[trigger] old(chunk).cells()[i] is Slot),
    ensures
        final(chunk).wf(),
        final(chunk).reg() == old(chunk).reg(),
        final(chunk).spec_pos() == old(chunk).spec_pos(),
        final(chunk).entries() == old(chunk).entries(),
        !old(chunk).reg().admits::<T>() ==> final(chunk).cells() == old(chunk).cells(),
        old(chunk).reg().admits::<T>() ==> forall|i: int|
            0 <= i < VOLUME ==> if below_surface(
                heights@,
                old(chunk).spec_pos().y,
                spec_unflatten(i),
            ) {
                &&& (#[trigger] final(chunk).cells()[i]) is Inline
                &&& final(chunk).reg().metas()[final(chunk).cells()[i]->Inline_id as int].id@
                    == T::spec_id()
                &&& final(chunk).cells()[i]->Inline_state == block.spec_pack() % 64
            } else {
                final(chunk).cells()[i] == old(chunk).cells()[i]
            },
{
    let cy = chunk.pos().y;
    let ghost c0 = *chunk;
    let mut i: usize = 0;
    while i < VOLUME
        invariant
            chunk.wf(),
            c0.wf(),
            heights@.len() == 1024,
            T::spec_repr() == BlockRepr::Inline,
            i <= VOLUME,
            cy == c0.spec_pos().y,
            chunk.reg() == c0.reg(),
            chunk.spec_pos() == c0.spec_pos(),
            chunk.entries() == c0.entries(),
            forall|k: int| 0 <= k < VOLUME ==> !(#[trigger] chunk.cells()[k] is Slot),
            forall|k: int| i <= k < VOLUME ==> #[trigger] chunk.cells()[k] == c0.cells()[k],
            !c0.reg().admits::<T>() ==> chunk.cells() == c0.cells(),
            c0.reg().admits::<T>() ==> forall|k: int|
                0 <= k < i ==> if below_surface(heights@, cy, spec_unflatten(k)) {
                    &&& (#[trigger] chunk.cells()[k]) is Inline
                    &&& chunk.reg().metas()[chunk.cells()[k]->Inline_id as int].id@ == T::spec_id()
                    &&& chunk.cells()[k]->Inline_state == block.spec_pack() % 64
                } else {
                    chunk.cells()[k] == c0.cells()[k]
                },
        decreases VOLUME - i,
    {
        let p = Chunk::unflatten(i);
        let h = heights[p.x + 32 * p.z];
        if p.y as i64 + cy as i64 * 32 <= h as i64 {
            let ghost before = *chunk;
            chunk.set(p, block);
            proof {
                assert(before.freed_entries(i as int) == before.entries());
                if c0.reg().admits::<T>() {
                    assert forall|k: int| 0 <= k < VOLUME && k != i implies #[trigger] chunk.cells()[k]
                        == before.cells()[k] by {
                    }
                } else {
                    assert(chunk.cells() == before.cells());
                }
            }
        }
        i = i + 1;
    }
}

/// Where a chunk position stands.
#[derive(Debug, Clone, Copy, PartialEq, Eq, Structural)]
pub enum LoadState {
    /// Never requested.
    Absent,
    /// Requested; its generation job has not been collected yet.
    Generating,
    /// Generated and collected; it can be queried.
    Loaded,
}

/// Number of entries of `s` still generating.
pub open spec fn generating_count(s: Seq<(Vec3<i32>, bool)>) -> nat
    decreases s.len(),
{
    if s.len() == 0 {
        0
    } else {
        generating_count(s.drop_last()) + if s.last().1 {
            0nat
        } else {
            1nat
        }
    }
}

proof fn lemma_generating_positive(s: Seq<(Vec3<i32>, bool)>, i: int)
    requires
        0 <= i < s.len(),
        !s[i].1,
    ensures
        generating_count(s) > 0,
    decreases s.len(),
{
    if i < s.len() - 1 {
        lemma_generating_positive(s.drop_last(), i);
    }
}

proof fn lemma_generating_bound(s: Seq<(Vec3<i32>, bool)>)
    ensures
        generating_count(s) <= s.len(),
    decreases s.len(),
{
    if s.len() > 0 {
        lemma_generating_bound(s.drop_last());
    }
}

proof fn lemma_generating_update(s: Seq<(Vec3<i32>, bool)>, i: int)
    requires
        0 <= i < s.len(),
        !s[i].1,
    ensures
        generating_count(s.update(i, (s[i].0, true))) + 1 == generating_count(s),
    decreases s.len(),
{
    if i == s.len() - 1 {
        assert(s.update(i, (s[i].0, true)).drop_last() == s.drop_last());
    } else {
        assert(s.update(i, (s[i].0, true)).drop_last() == s.drop_last().update(i, (s[i].0, true)));
        lemma_generating_update(s.drop_last(), i);
    }
}

fn same_pos(a: Vec3<i32>, b: Vec3<i32>) -> (r: bool)
    ensures
        r == (a == b),
{
    a.x == b.x && a.y == b.y && a.z == b.z
}

/// The load state of every chunk position of a world.
pub struct LoadTracker {
    /// Each requested position once, with whether it is loaded.
    slots: Vec<(Vec3<i32>, bool)>,
}

impl LoadTracker {
    /// The requested positions with their loaded flags.
    pub closed spec fn entries(&self) -> Seq<(Vec3<i32>, bool)> {
        self.slots@
    }

    /// Each position is listed at most once.
    pub open spec fn wf(&self) -> bool {
        forall|i: int, j: int|
            0 <= i < self.entries().len() && 0 <= j < self.entries().len() && (
            #[trigger] self.entries()[i]).0 == (#[trigger] self.entries()[j]).0 ==> i == j
    }

    /// The state of chunk position `p`.
    pub open spec fn state_of(&self, p: Vec3<i32>) -> LoadState {
        if exists|i: int| 0 <= i < self.entries().len() && #[trigger] self.entries()[i].0 == p {
            let i = choose|i: int| 0 <= i < self.entries().len() && #[trigger] self.entries()[i].0 == p;
            if self.entries()[i].1 {
                LoadState::Loaded
            } else {
                LoadState::Generating
            }
        } else {
            LoadState::Absent
        }
    }

    /// Number of positions still generating.
    pub open spec fn spec_num_loading(&self) -> nat {
        generating_count(self.entries())
    }

    /// No position requested yet.
    pub fn new() -> (r: Self)
        ensures
            r.wf(),
            forall|p: Vec3<i32>| r.state_of(p) == LoadState::Absent,
            r.spec_num_loading() == 0,
    {
        LoadTracker { slots: Vec::new() }
    }

    fn find(&self, p: Vec3<i32>) -> (r: Option<usize>)
        requires
            self.wf(),
        ensures
            match r {
                Some(i) => i < self.entries().len() && self.entries()[i as int].0 == p,
                None => forall|i: int| 0 <= i < self.entries().len() ==> #[trigger] self.entries()[i].0 != p,
            },
    {
        let mut i: usize = 0;
        while i < self.slots.len()
            invariant
                i <= self.slots@.len(),
                forall|k: int| 0 <= k < i ==> #[trigger] self.slots@[k].0 != p,
            decreases self.slots@.len() - i,
        {
            if same_pos(self.slots[i].0, p) {
                return Some(i);
            }
            i = i + 1;
        }
        None
    }

    /// The state of chunk position `p`.
    pub fn state(&self, p: Vec3<i32>) -> (r: LoadState)
        requires
            self.wf(),
        ensures
            r == self.state_of(p),
    {
        match self.find(p) {
            Some(i) => {
                if self.slots[i].1 {
                    LoadState::Loaded
                } else {
                    LoadState::Generating
                }
            },
            None => LoadState::Absent,
        }
    }

    /// Requests chunk position `p`. Returns whether it was absent, in which
    /// case it is now generating and its job must be started; otherwise
    /// nothing changes.
    pub fn load_chunk(&mut self, p: Vec3<i32>) -> (r: bool)
        requires
            old(self).wf(),
        ensures
            final(self).wf(),
            r == (old(self).state_of(p) == LoadState::Absent),
            final(self).state_of(p) == if r {
                LoadState::Generating
            } else {
                old(self).state_of(p)
            },
            forall|q: Vec3<i32>| q != p ==> #[trigger] final(self).state_of(q) == old(self).state_of(q),
            final(self).spec_num_loading() == old(self).spec_num_loading() + if r {
                1nat
            } else {
                0nat
            },
    {
        match self.find(p) {
            Some(_) => false,
            None => {
                let ghost s0 = self.slots@;
                self.slots.push((p, false));
                proof {
                    let n = s0.len() as int;
                    assert(self.slots@.drop_last() == s0);
                    assert(self.entries()[n].0 == p);
                    assert forall|q: Vec3<i32>| q != p implies #[trigger] self.state_of(q)
                        == old(self).state_of(q) by {
                        if exists|i: int| 0 <= i < s0.len() && #[trigger] s0[i].0 == q {
                            let i = choose|i: int| 0 <= i < s0.len() && #[trigger] s0[i].0 == q;
                            assert(self.entries()[i].0 == q);
                        }
                    }
                }
                true
            },
        }
    }

    /// Records that the generation job of `p` has delivered its chunk.
    /// Returns whether `p` was generating, in which case it is now loaded;
    /// otherwise nothing changes.
    pub fn finish(&mut self, p: Vec3<i32>) -> (r: bool)
        requires
            old(self).wf(),
        ensures
            final(self).wf(),
            r == (old(self).state_of(p) == LoadState::Generating),
            final(self).state_of(p) == if r {
                LoadState::Loaded
            } else {
                old(self).state_of(p)
            },
            forall|q: Vec3<i32>| q != p ==> #[trigger] final(self).state_of(q) == old(self).state_of(q),
            final(self).spec_num_loading() + if r {
                1nat
            } else {
                0nat
            } == old(self).spec_num_loading(),
    {
        match self.find(p) {
            Some(i) => {
                if self.slots[i].1 {
                    false
                } else {
                    let ghost s0 = self.slots@;
                    self.slots.set(i, (p, true));
                    proof {
                        lemma_generating_update(s0, i as int);
                        assert(self.slots@ == s0.update(i as int, (s0[i as int].0, true)));
                        assert forall|q: Vec3<i32>| q != p implies #[trigger] self.state_of(q)
                            == old(self).state_of(q) by {
                            if exists|j: int| 0 <= j < s0.len() && #[trigger] s0[j].0 == q {
                                let j = choose|j: int| 0 <= j < s0.len() && #[trigger] s0[j].0 == q;
                                assert(self.entries()[j].0 == q);
                            }
                        }
                        assert(self.entries()[i as int].0 == p);
                    }
                    true
                }
            },
            None => false,
        }
    }

    /// Number of chunks still generating.
    pub fn num_loading(&self) -> (r: usize)
        ensures
            r == self.spec_num_loading(),
    {
        let mut n: usize = 0;
        let mut i: usize = 0;
        while i < self.slots.len()
            invariant
                i <= self.slots@.len(),
                n == generating_count(self.slots@.take(i as int)),
                n <= i,
            decreases self.slots@.len() - i,
        {
            assert(self.slots@.take(i + 1).drop_last() == self.slots@.take(i as int));
            if !self.slots[i].1 {
                n = n + 1;
            }
            i = i + 1;
        }
        assert(self.slots@.take(i as int) == self.slots@);
        n
    }
}

/// Once no chunk is generating, every requested chunk is loaded: if each
/// position of `s` has been requested and the count of chunks loading is
/// 0, each of them can be queried.
pub proof fn lemma_all_requested_loaded(t: LoadTracker, s: Set<Vec3<i32>>)
    requires
        t.wf(),
        forall|p: Vec3<i32>| s.contains(p) ==> t.state_of(p) != LoadState::Absent,
        t.spec_num_loading() == 0,
    ensures
        forall|p: Vec3<i32>| s.contains(p) ==> #[trigger] t.state_of(p) == LoadState::Loaded,
{
    assert forall|p: Vec3<i32>| s.contains(p) implies #[trigger] t.state_of(p) == LoadState::Loaded by {
        assert(t.state_of(p) != LoadState::Absent);
        let i = choose|i: int| 0 <= i < t.entries().len() && #[trigger] t.entries()[i].0 == p;
        if !t.entries()[i].1 {
            lemma_generating_positive(t.entries(), i);
        }
    }
}

} // verus!
