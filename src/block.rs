//! Block types, their registry, and type-erased handles to stored blocks.
use vstd::prelude::*;
use crate::bits::Bits;
use crate::layout::BlockRepr;
use crate::packed::{Id, MAX_IDS};
use crate::registry::Registry;
use crate::vanilla::{BlockAir, HeapBlock};

verus! {

/// What every block type offers to the store.
///
/// An inline type packs its state into 6 bits and back; a heap type is kept
/// in its chunk's arena as a [`HeapBlock`]. Each implementation proves the
/// round-trip laws below.
pub trait Block: Sized {
    /// The stable string identifier of the type.
    spec fn spec_id() -> Seq<char>;

    /// How the type keeps its state.
    spec fn spec_repr() -> BlockRepr;

    /// The display name of an instance.
    spec fn spec_name(&self) -> Seq<char>;

    /// Whether an instance is one the type's fields can describe, so one
    /// that packing keeps.
    spec fn valid(&self) -> bool;

    /// The 6 state bits of an instance (inline types).
    spec fn spec_pack(&self) -> nat;

    /// The instance that 6 state bits stand for (inline types).
    spec fn spec_unpack(state: nat) -> Self;

    /// The arena form of an instance (heap types).
    spec fn spec_into_heap(&self) -> Option<HeapBlock>;

    /// The instance an arena entry holds, if it is of this type.
    spec fn spec_from_heap(h: HeapBlock) -> Option<Self>;

    /// The stable string identifier of the type.
    fn id() -> (r: &'static str)
        ensures
            r@ == Self::spec_id(),
    ;

    /// How the type keeps its state.
    fn repr() -> (r: BlockRepr)
        ensures
            r == Self::spec_repr(),
    ;

    /// The display name of this instance.
    fn name(&self) -> (r: String)
        ensures
            r@ == self.spec_name(),
    ;

    /// Packs this instance's state into 6 bits.
    fn pack(&self) -> (r: Bits<6>)
        ensures
            r@ as nat == self.spec_pack(),
    ;

    /// Rebuilds an instance from 6 state bits.
    fn unpack(state: Bits<6>) -> (r: Self)
        requires
            Self::spec_repr() == BlockRepr::Inline,
            state@ < 64,
        ensures
            r == Self::spec_unpack(state@ as nat),
    ;

    /// The arena form of this instance.
    fn into_heap(self) -> (r: Option<HeapBlock>)
        ensures
            r == self.spec_into_heap(),
    ;

    /// The instance an arena entry holds, if it is of this type.
    fn from_heap(h: &HeapBlock) -> (r: Option<&Self>)
        ensures
            match r {
                Some(b) => Self::spec_from_heap(*h) == Some(*b),
                None => Self::spec_from_heap(*h) is None,
            },
    ;

    /// Takes the instance out of an arena entry if it is of this type;
    /// otherwise hands the entry back.
    fn take_from_heap(h: HeapBlock) -> (r: Result<Self, HeapBlock>)
        ensures
            match r {
                Ok(b) => Self::spec_from_heap(h) == Some(b),
                Err(g) => Self::spec_from_heap(h) is None && g == h,
            },
    ;

    /// Unpacking the packed state of a valid instance gives it back.
    proof fn lemma_pack_round_trip(b: Self)
        requires
            Self::spec_repr() == BlockRepr::Inline,
            b.valid(),
        ensures
            b.spec_pack() < 64,
            Self::spec_unpack(b.spec_pack()) == b,
    ;

    /// A heap instance survives the arena unchanged, under its own id and
    /// name.
    proof fn lemma_heap_round_trip(b: Self)
        requires
            Self::spec_repr() == BlockRepr::Heap,
        ensures
            b.spec_into_heap() matches Some(h) && Self::spec_from_heap(h) == Some(b)
                && h.spec_id() == Self::spec_id() && h.spec_name() == b.spec_name(),
    ;

    /// An arena entry is of this type exactly when it carries this type's id.
    proof fn lemma_from_heap(h: HeapBlock)
        ensures
            Self::spec_from_heap(h) is Some <==> (Self::spec_repr() == BlockRepr::Heap
                && h.spec_id() == Self::spec_id()),
    ;
}

/// For every state in the image of `pack`, packing the unpacked value gives
/// the state back.
pub proof fn lemma_unpack_pack<T: Block>(b: T)
    requires
        T::spec_repr() == BlockRepr::Inline,
        b.valid(),
    ensures
        T::spec_unpack(b.spec_pack()).spec_pack() == b.spec_pack(),
{
    T::lemma_pack_round_trip(b);
}

/// What the registry keeps about one block type.
pub struct BlockMeta {
    /// See [`Block::id`].
    pub id: String,
    /// See [`Block::repr`].
    pub repr: BlockRepr,
    /// For an inline type, the display name of each of the 64 states.
    pub names: Vec<String>,
}

impl BlockMeta {
    /// An inline type has a name for each state.
    pub open spec fn wf(&self) -> bool {
        self.repr == BlockRepr::Inline ==> self.names@.len() == 64
    }

    /// Whether this is the metadata of block type `T`.
    pub open spec fn describes<T: Block>(&self) -> bool {
        &&& self.id@ == T::spec_id()
        &&& self.repr == T::spec_repr()
        &&& T::spec_repr() == BlockRepr::Inline ==> {
            &&& self.names@.len() == 64
            &&& forall|s: int|
                0 <= s < 64 ==> (#[trigger] self.names@[s])@ == T::spec_unpack(
                    s as nat,
                ).spec_name()
        }
        &&& T::spec_repr() == BlockRepr::Heap ==> self.names@.len() == 0
    }

    /// The metadata of block type `T`.
    pub fn of<T: Block>() -> (r: Self)
        ensures
            r.describes::<T>(),
            r.wf(),
    {
        let repr = T::repr();
        let mut names: Vec<String> = Vec::new();
        if repr == BlockRepr::Inline {
            let mut s: u8 = 0;
            while s < 64
                invariant
                    s <= 64,
                    T::spec_repr() == BlockRepr::Inline,
                    names@.len() == s,
                    forall|k: int|
                        0 <= k < s ==> (#[trigger] names@[k])@ == T::spec_unpack(
                            k as nat,
                        ).spec_name(),
                decreases 64 - s,
            {
                let state = Bits::<6>::new(s);
                proof {
                    vstd::arithmetic::power2::lemma2_to64();
                }
                let b = T::unpack(state);
                names.push(b.name());
                s = s + 1;
            }
        }
        BlockMeta { id: T::id().to_owned(), repr, names }
    }
}

/// Why a block type could not be registered.
#[derive(Debug, Clone, Copy, PartialEq, Eq, Structural)]
pub enum RegisterError {
    /// All 512 ids are taken.
    Full,
}

/// The block types usable in a world, each with a numeric id.
///
/// Id 0 is the empty block given at construction. After startup the
/// registry is shared read-only by every chunk.
pub struct BlockRegistry(Registry<BlockMeta>);

impl BlockRegistry {
    /// The metadata of each registered type, by id.
    pub closed spec fn metas(&self) -> Seq<BlockMeta> {
        self.0.metas()
    }

    /// Number of registered types.
    pub open spec fn spec_len(&self) -> nat {
        self.metas().len()
    }

    /// Whether a type with identifier `key` is registered.
    pub open spec fn has_key(&self, key: Seq<char>) -> bool {
        exists|i: int| 0 <= i < self.spec_len() && #[trigger] self.metas()[i].id@ == key
    }

    /// Whether `T` is registered, under metadata of its own packing mode.
    pub open spec fn admits<T: Block>(&self) -> bool {
        exists|i: int|
            0 <= i < self.spec_len() && #[trigger] self.metas()[i].id@ == T::spec_id()
                && self.metas()[i].repr == T::spec_repr()
    }

    /// Ids are dense and unique per identifier, at most 512 of them, and
    /// id 0 is an inline type.
    pub closed spec fn wf(&self) -> bool {
        &&& self.0.wf()
        &&& self.0.keys().len() == self.0.metas().len()
        &&& 1 <= self.spec_len() <= MAX_IDS
        &&& self.metas()[0].repr == BlockRepr::Inline
        &&& forall|i: int|
            0 <= i < self.spec_len() ==> (#[trigger] self.metas()[i]).wf() && self.0.keys()[i]
                == self.metas()[i].id@
    }

    /// What well-formedness gives to users of a registry.
    pub proof fn lemma_wf(&self)
        requires
            self.wf(),
        ensures
            1 <= self.spec_len() <= MAX_IDS,
            self.metas()[0].repr == BlockRepr::Inline,
            forall|i: int| 0 <= i < self.spec_len() ==> (#[trigger] self.metas()[i]).wf(),
    {
    }

    /// Well-formed registries give each identifier at most one id.
    pub proof fn lemma_unique(&self, i: int, j: int)
        requires
            self.wf(),
            0 <= i < self.spec_len(),
            0 <= j < self.spec_len(),
            self.metas()[i].id@ == self.metas()[j].id@,
        ensures
            i == j,
    {
        assert(self.0.keys()[i] == self.0.keys()[j]);
    }

    /// A registry holding only `A`, the empty block, at id 0.
    pub fn new<A: Block>() -> (r: Self)
        requires
            A::spec_repr() == BlockRepr::Inline,
        ensures
            r.wf(),
            r.spec_len() == 1,
            r.metas()[0].describes::<A>(),
    {
        let mut reg: Registry<BlockMeta> = Registry::new();
        let meta = BlockMeta::of::<A>();
        reg.register(A::id(), meta);
        BlockRegistry(reg)
    }

    /// Registers `T` under the next id, unless it is registered already.
    /// Fails when all 512 ids are taken.
    pub fn register<T: Block>(&mut self) -> (r: Result<Id, RegisterError>)
        requires
            old(self).wf(),
        ensures
            final(self).wf(),
            old(self).has_key(T::spec_id()) ==> {
                &&& final(self).metas() == old(self).metas()
                &&& r matches Ok(id) && id@ < old(self).spec_len() && old(self).metas()[id@ as int].id@
                    == T::spec_id()
            },
            !old(self).has_key(T::spec_id()) && old(self).spec_len() == MAX_IDS ==> {
                &&& final(self).metas() == old(self).metas()
                &&& r == Err::<Id, RegisterError>(RegisterError::Full)
            },
            !old(self).has_key(T::spec_id()) && old(self).spec_len() < MAX_IDS ==> {
                &&& final(self).spec_len() == old(self).spec_len() + 1
                &&& final(self).metas().drop_last() == old(self).metas()
                &&& final(self).metas().last().describes::<T>()
                &&& r matches Ok(id) && id@ == old(self).spec_len()
            },
    {
        match self.id::<T>() {
            Some(id) => Ok(id),
            None => {
                if self.0.len() >= MAX_IDS {
                    return Err(RegisterError::Full);
                }
                let meta = BlockMeta::of::<T>();
                let key = T::id();
                proof {
                    if self.0.has_key(key@) {
                        let i = self.0.keys().index_of(key@);
                        assert(self.metas()[i].id@ == T::spec_id());
                    }
                }
                let n = self.0.register(key, meta);
                proof {
                    assert(self.metas().drop_last() =~= old(self).metas());
                    assert forall|i: int| 0 <= i < self.spec_len() implies (
                    #[trigger] self.metas()[i]).wf() && self.0.keys()[i] == self.metas()[i].id@ by {
                        if i < old(self).spec_len() {
                            assert(self.metas()[i] == old(self).metas()[i]);
                        }
                    }
                }
                Ok(Id::new(n as u16))
            },
        }
    }

    /// The id of `T`, if it is registered.
    pub fn id<T: Block>(&self) -> (r: Option<Id>)
        requires
            self.wf(),
        ensures
            match r {
                Some(id) => id@ < self.spec_len() && self.metas()[id@ as int].id@ == T::spec_id(),
                None => !self.has_key(T::spec_id()),
            },
    {
        match self.0.id(T::id()) {
            Some(i) => Some(Id::new(i as u16)),
            None => {
                proof {
                    if self.has_key(T::spec_id()) {
                        let i = choose|i: int|
                            0 <= i < self.spec_len() && #[trigger] self.metas()[i].id@
                                == T::spec_id();
                        assert(self.0.keys()[i] == T::spec_id());
                    }
                }
                None
            },
        }
    }

    /// Whether id `id` belongs to `T`.
    pub fn matches<T: Block>(&self, id: Id) -> (r: bool)
        requires
            self.wf(),
        ensures
            r == (id@ < self.spec_len() && self.metas()[id@ as int].id@ == T::spec_id()),
    {
        match self.0.get(id.inner() as usize) {
            Some(e) => e.0 == T::id().to_owned(),
            None => false,
        }
    }

    /// The metadata of id `id`, if it is assigned.
    pub fn meta(&self, id: Id) -> (r: Option<&BlockMeta>)
        requires
            self.wf(),
        ensures
            match r {
                Some(m) => id@ < self.spec_len() && *m == self.metas()[id@ as int],
                None => id@ >= self.spec_len(),
            },
    {
        match self.0.get(id.inner() as usize) {
            Some(e) => Some(&e.1),
            None => None,
        }
    }

    /// The metadata of an assigned id.
    pub fn meta_at(&self, id: Id) -> (r: &BlockMeta)
        requires
            self.wf(),
            id@ < self.spec_len(),
        ensures
            *r == self.metas()[id@ as int],
    {
        &self.0.entry(id.inner() as usize).1
    }

    /// Number of registered types.
    pub fn len(&self) -> (r: usize)
        requires
            self.wf(),
        ensures
            r == self.spec_len(),
    {
        self.0.len()
    }
}

impl Default for BlockRegistry {
    /// A registry holding only [`BlockAir`] at id 0.
    fn default() -> (r: Self)
        ensures
            r.wf(),
            r.spec_len() == 1,
            r.metas()[0].describes::<BlockAir>(),
    {
        BlockRegistry::new::<BlockAir>()
    }
}

/// A type-erased handle to one stored block.
pub enum Object<'a> {
    /// A block packed in its cell: the type's metadata and the cell's state.
    Inline { meta: &'a BlockMeta, state: Bits<6> },
    /// A block kept in the chunk's arena.
    Heap { block: &'a HeapBlock },
}

impl<'a> Object<'a> {
    /// An inline handle has a name for its state.
    pub open spec fn wf(&self) -> bool {
        match self {
            Object::Inline { meta, state } => meta.wf() && meta.repr == BlockRepr::Inline
                && state@ < 64,
            Object::Heap { .. } => true,
        }
    }

    /// The identifier of the block's type.
    pub open spec fn spec_id(&self) -> Seq<char> {
        match self {
            Object::Inline { meta, .. } => meta.id@,
            Object::Heap { block } => block.spec_id(),
        }
    }

    /// The block's display name.
    pub open spec fn spec_name(&self) -> Seq<char> {
        match self {
            Object::Inline { meta, state } => meta.names@[state@ as int]@,
            Object::Heap { block } => block.spec_name(),
        }
    }

    /// The identifier of the block's type.
    pub fn id(&self) -> (r: &'a str)
        ensures
            r@ == self.spec_id(),
    {
        match self {
            Object::Inline { meta, .. } => meta.id.as_str(),
            Object::Heap { block } => block.id(),
        }
    }

    /// The block's display name.
    pub fn name(&self) -> (r: String)
        requires
            self.wf(),
        ensures
            r@ == self.spec_name(),
    {
        match self {
            Object::Inline { meta, state } => meta.names[state.inner() as usize].clone(),
            Object::Heap { block } => block.name(),
        }
    }

    /// Whether the block is of type `T`.
    pub fn is<T: Block>(&self) -> (r: bool)
        ensures
            r == (self.spec_id() == T::spec_id()),
    {
        self.id().to_owned() == T::id().to_owned()
    }

    /// A typed handle to the block, if it is of type `T`.
    pub fn cast<T: Block>(&self) -> (r: Option<Ref<'a, T>>)
        requires
            self.wf(),
        ensures
            match r {
                Some(x) => cast_value::<T>(*self) == Some(x.value()),
                None => cast_value::<T>(*self) is None,
            },
    {
        match self {
            Object::Inline { meta, state } => {
                if meta.id == T::id().to_owned() && T::repr() == BlockRepr::Inline {
                    Some(Ref::Val(T::unpack(*state)))
                } else {
                    None
                }
            },
            Object::Heap { block } => match T::from_heap(block) {
                Some(b) => Some(Ref::Ptr(b)),
                None => None,
            },
        }
    }
}

/// The block a handle shows when read as a `T`, if it is one.
pub open spec fn cast_value<T: Block>(o: Object) -> Option<T> {
    match o {
        Object::Inline { meta, state } => if meta.id@ == T::spec_id() && T::spec_repr()
            == BlockRepr::Inline {
            Some(T::spec_unpack(state@ as nat))
        } else {
            None
        },
        Object::Heap { block } => T::spec_from_heap(*block),
    }
}

/// Whether two handles stand for the same stored block.
pub open spec fn same_block(a: Object, b: Object) -> bool {
    match (a, b) {
        (Object::Inline { meta: ma, state: sa }, Object::Inline { meta: mb, state: sb }) => *ma
            == *mb && sa@ == sb@,
        (Object::Heap { block: b1 }, Object::Heap { block: b2 }) => *b1 == *b2,
        _ => false,
    }
}

/// A typed handle to a stored block.
pub enum Ref<'a, T> {
    /// The block was packed in its cell; this is an unpacked copy.
    Val(T),
    /// The block lives in the chunk's arena.
    Ptr(&'a T),
}

impl<'a, T> Ref<'a, T> {
    /// The block this handle stands for.
    pub open spec fn value(&self) -> T {
        match self {
            Ref::Val(v) => *v,
            Ref::Ptr(p) => **p,
        }
    }

    /// The block this handle stands for.
    pub fn get(&self) -> (r: &T)
        ensures
            *r == self.value(),
    {
        match self {
            Ref::Val(v) => v,
            Ref::Ptr(p) => p,
        }
    }
}

} // verus!
