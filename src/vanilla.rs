//! The built-in block types.
use vstd::prelude::*;
use vstd::string::StringExecFns;
use vstd::arithmetic::power2::lemma2_to64;
use crate::bits::Bits;
use crate::block::Block;
use crate::layout::{BlockRepr, encode_range, decode_range};
use crate::math::Direction;

verus! {

/// The kinds of wood.
#[derive(Debug, Clone, Copy, PartialEq, Eq, Hash, Structural)]
pub enum WoodVariant {
    Oak,
    Spruce,
    Birch,
    Jungle,
    Acacia,
    DarkOak,
}

/// Position of a wood variant in its field's variant list.
pub open spec fn wood_index(v: WoodVariant) -> nat {
    match v {
        WoodVariant::Oak => 0,
        WoodVariant::Spruce => 1,
        WoodVariant::Birch => 2,
        WoodVariant::Jungle => 3,
        WoodVariant::Acacia => 4,
        WoodVariant::DarkOak => 5,
    }
}

/// The wood variant at position `code`; an unknown code reads as the first.
pub open spec fn wood_at(code: nat) -> WoodVariant {
    if code == 1 {
        WoodVariant::Spruce
    } else if code == 2 {
        WoodVariant::Birch
    } else if code == 3 {
        WoodVariant::Jungle
    } else if code == 4 {
        WoodVariant::Acacia
    } else if code == 5 {
        WoodVariant::DarkOak
    } else {
        WoodVariant::Oak
    }
}

/// Display text of a wood variant.
pub open spec fn wood_text(v: WoodVariant) -> Seq<char> {
    match v {
        WoodVariant::Oak => "Oak"@,
        WoodVariant::Spruce => "Spruce"@,
        WoodVariant::Birch => "Birch"@,
        WoodVariant::Jungle => "Jungle"@,
        WoodVariant::Acacia => "Acacia"@,
        WoodVariant::DarkOak => "Dark Oak"@,
    }
}

impl WoodVariant {
    /// Display text of this variant.
    pub fn as_str(&self) -> (r: &'static str)
        ensures
            r@ == wood_text(*self),
    {
        match self {
            WoodVariant::Oak => "Oak",
            WoodVariant::Spruce => "Spruce",
            WoodVariant::Birch => "Birch",
            WoodVariant::Jungle => "Jungle",
            WoodVariant::Acacia => "Acacia",
            WoodVariant::DarkOak => "Dark Oak",
        }
    }

    /// Position of this variant in its field's variant list.
    pub fn index(&self) -> (r: u8)
        ensures
            r as nat == wood_index(*self),
    {
        match self {
            WoodVariant::Oak => 0,
            WoodVariant::Spruce => 1,
            WoodVariant::Birch => 2,
            WoodVariant::Jungle => 3,
            WoodVariant::Acacia => 4,
            WoodVariant::DarkOak => 5,
        }
    }

    /// The variant at position `code`; an unknown code reads as `Oak`.
    pub fn at(code: u8) -> (r: Self)
        ensures
            r == wood_at(code as nat),
    {
        match code {
            1 => WoodVariant::Spruce,
            2 => WoodVariant::Birch,
            3 => WoodVariant::Jungle,
            4 => WoodVariant::Acacia,
            5 => WoodVariant::DarkOak,
            _ => WoodVariant::Oak,
        }
    }
}

/// Position of a direction among all six.
pub open spec fn direction_index(d: Direction) -> nat {
    match d {
        Direction::North => 0,
        Direction::South => 1,
        Direction::East => 2,
        Direction::West => 3,
        Direction::Up => 4,
        Direction::Down => 5,
    }
}

/// The direction at position `code` among all six; unknown codes read as
/// `North`.
pub open spec fn direction_at(code: nat) -> Direction {
    if code == 1 {
        Direction::South
    } else if code == 2 {
        Direction::East
    } else if code == 3 {
        Direction::West
    } else if code == 4 {
        Direction::Up
    } else if code == 5 {
        Direction::Down
    } else {
        Direction::North
    }
}

/// Position of a direction among the four horizontal ones; `Up` and `Down`
/// fold to 0.
pub open spec fn horizontal_index(d: Direction) -> nat {
    match d {
        Direction::South => 1,
        Direction::East => 2,
        Direction::West => 3,
        _ => 0,
    }
}

/// Whether a direction is one of the four horizontal ones.
pub open spec fn is_horizontal(d: Direction) -> bool {
    !(d is Up) && !(d is Down)
}

fn direction_index_of(d: Direction) -> (r: u8)
    ensures
        r as nat == direction_index(d),
{
    match d {
        Direction::North => 0,
        Direction::South => 1,
        Direction::East => 2,
        Direction::West => 3,
        Direction::Up => 4,
        Direction::Down => 5,
    }
}

fn direction_of(code: u8) -> (r: Direction)
    ensures
        r == direction_at(code as nat),
{
    match code {
        1 => Direction::South,
        2 => Direction::East,
        3 => Direction::West,
        4 => Direction::Up,
        5 => Direction::Down,
        _ => Direction::North,
    }
}

fn horizontal_index_of(d: Direction) -> (r: u8)
    ensures
        r as nat == horizontal_index(d),
{
    match d {
        Direction::South => 1,
        Direction::East => 2,
        Direction::West => 3,
        _ => 0,
    }
}

/// The default, empty block.
#[derive(Debug, Clone, Copy, PartialEq, Eq, Structural)]
pub struct BlockAir;

/// Grass, with no state.
#[derive(Debug, Clone, Copy, PartialEq, Eq, Structural)]
pub struct BlockGrass;

/// Wooden planks.
#[derive(Debug, Clone, Copy, PartialEq, Eq, Structural)]
pub struct BlockWoodenPlanks {
    /// Bits `[0, 3)`: one of six variants.
    pub variant: WoodVariant,
}

/// A wooden half-slab.
#[derive(Debug, Clone, Copy, PartialEq, Eq, Structural)]
pub struct BlockWoodenSlab {
    /// Bits `[0, 3)`: the side the slab rests against.
    pub facing: Direction,
    /// Bits `[3, 6)`: one of six variants.
    pub variant: WoodVariant,
}

/// Redstone dust with a power level.
#[derive(Debug, Clone, Copy, PartialEq, Eq, Structural)]
pub struct BlockRedstoneDust {
    /// Bits `[0, 2)`: North, South, East or West.
    pub facing: Direction,
    /// Bits `[2, 6)`: an integer in `[0, 16)`.
    pub power: u8,
}

/// A chest; its contents make it a heap block.
#[derive(Debug, Clone, PartialEq, Eq)]
pub struct BlockChest {
    /// Items in the chest (unbounded).
    pub contents: Vec<String>,
    /// The side the buckle faces: North, South, East or West.
    pub facing: Direction,
    /// A custom name (unbounded).
    pub name: Option<String>,
}

/// The display name of a chest: its custom name, else "Chest".
pub open spec fn chest_name(c: BlockChest) -> Seq<char> {
    match c.name {
        Some(n) => n@,
        None => "Chest"@,
    }
}

impl BlockChest {
    /// The display name of this chest.
    pub fn display_name(&self) -> (r: String)
        ensures
            r@ == chest_name(*self),
    {
        match &self.name {
            Some(n) => n.clone(),
            None => "Chest".to_owned(),
        }
    }
}

/// A block kept in a chunk's arena rather than in its cell.
pub enum HeapBlock {
    Chest(BlockChest),
}

impl HeapBlock {
    /// The identifier of the block's type.
    pub open spec fn spec_id(&self) -> Seq<char> {
        match self {
            HeapBlock::Chest(_) => "chest"@,
        }
    }

    /// The block's display name.
    pub open spec fn spec_name(&self) -> Seq<char> {
        match self {
            HeapBlock::Chest(c) => chest_name(*c),
        }
    }

    /// The identifier of the block's type.
    pub fn id(&self) -> (r: &'static str)
        ensures
            r@ == self.spec_id(),
    {
        match self {
            HeapBlock::Chest(_) => "chest",
        }
    }

    /// The block's display name.
    pub fn name(&self) -> (r: String)
        ensures
            r@ == self.spec_name(),
    {
        match self {
            HeapBlock::Chest(c) => c.display_name(),
        }
    }
}

impl Block for BlockAir {
    open spec fn spec_id() -> Seq<char> {
        "air"@
    }

    open spec fn spec_repr() -> BlockRepr {
        BlockRepr::Inline
    }

    open spec fn spec_name(&self) -> Seq<char> {
        "Air"@
    }

    open spec fn valid(&self) -> bool {
        true
    }

    open spec fn spec_pack(&self) -> nat {
        0
    }

    open spec fn spec_unpack(state: nat) -> Self {
        BlockAir
    }

    open spec fn spec_into_heap(&self) -> Option<HeapBlock> {
        None
    }

    open spec fn spec_from_heap(h: HeapBlock) -> Option<Self> {
        None
    }

    fn id() -> (r: &'static str) {
        "air"
    }

    fn repr() -> (r: BlockRepr) {
        BlockRepr::Inline
    }

    fn name(&self) -> (r: String) {
        "Air".to_owned()
    }

    fn pack(&self) -> (r: Bits<6>) {
        proof {
            lemma2_to64();
        }
        Bits::new(0)
    }

    fn unpack(state: Bits<6>) -> (r: Self) {
        BlockAir
    }

    fn into_heap(self) -> (r: Option<HeapBlock>) {
        None
    }

    fn from_heap(h: &HeapBlock) -> (r: Option<&Self>) {
        None
    }

    fn take_from_heap(h: HeapBlock) -> (r: Result<Self, HeapBlock>) {
        Err(h)
    }

    proof fn lemma_pack_round_trip(b: Self) {
    }

    proof fn lemma_heap_round_trip(b: Self) {
    }

    proof fn lemma_from_heap(h: HeapBlock) {
    }
}

impl Block for BlockGrass {
    open spec fn spec_id() -> Seq<char> {
        "grass"@
    }

    open spec fn spec_repr() -> BlockRepr {
        BlockRepr::Inline
    }

    open spec fn spec_name(&self) -> Seq<char> {
        "Grass"@
    }

    open spec fn valid(&self) -> bool {
        true
    }

    open spec fn spec_pack(&self) -> nat {
        0
    }

    open spec fn spec_unpack(state: nat) -> Self {
        BlockGrass
    }

    open spec fn spec_into_heap(&self) -> Option<HeapBlock> {
        None
    }

    open spec fn spec_from_heap(h: HeapBlock) -> Option<Self> {
        None
    }

    fn id() -> (r: &'static str) {
        "grass"
    }

    fn repr() -> (r: BlockRepr) {
        BlockRepr::Inline
    }

    fn name(&self) -> (r: String) {
        "Grass".to_owned()
    }

    fn pack(&self) -> (r: Bits<6>) {
        proof {
            lemma2_to64();
        }
        Bits::new(0)
    }

    fn unpack(state: Bits<6>) -> (r: Self) {
        BlockGrass
    }

    fn into_heap(self) -> (r: Option<HeapBlock>) {
        None
    }

    fn from_heap(h: &HeapBlock) -> (r: Option<&Self>) {
        None
    }

    fn take_from_heap(h: HeapBlock) -> (r: Result<Self, HeapBlock>) {
        Err(h)
    }

    proof fn lemma_pack_round_trip(b: Self) {
    }

    proof fn lemma_heap_round_trip(b: Self) {
    }

    proof fn lemma_from_heap(h: HeapBlock) {
    }
}

impl Block for BlockWoodenPlanks {
    open spec fn spec_id() -> Seq<char> {
        "wooden_planks"@
    }

    open spec fn spec_repr() -> BlockRepr {
        BlockRepr::Inline
    }

    open spec fn spec_name(&self) -> Seq<char> {
        wood_text(self.variant) + " Planks"@
    }

    open spec fn valid(&self) -> bool {
        true
    }

    open spec fn spec_pack(&self) -> nat {
        wood_index(self.variant) * 8
    }

    open spec fn spec_unpack(state: nat) -> Self {
        BlockWoodenPlanks { variant: wood_at((state / 8) % 8) }
    }

    open spec fn spec_into_heap(&self) -> Option<HeapBlock> {
        None
    }

    open spec fn spec_from_heap(h: HeapBlock) -> Option<Self> {
        None
    }

    fn id() -> (r: &'static str) {
        "wooden_planks"
    }

    fn repr() -> (r: BlockRepr) {
        BlockRepr::Inline
    }

    fn name(&self) -> (r: String) {
        self.variant.as_str().to_owned().concat(" Planks")
    }

    fn pack(&self) -> (r: Bits<6>) {
        proof {
            lemma2_to64();
        }
        let mut buf = Bits::<6>::new(0);
        buf.set::<0, 3>(self.variant.index());
        buf
    }

    fn unpack(state: Bits<6>) -> (r: Self) {
        proof {
            lemma2_to64();
        }
        BlockWoodenPlanks { variant: WoodVariant::at(state.get::<0, 3>()) }
    }

    fn into_heap(self) -> (r: Option<HeapBlock>) {
        None
    }

    fn from_heap(h: &HeapBlock) -> (r: Option<&Self>) {
        None
    }

    fn take_from_heap(h: HeapBlock) -> (r: Result<Self, HeapBlock>) {
        Err(h)
    }

    proof fn lemma_pack_round_trip(b: Self) {
    }

    proof fn lemma_heap_round_trip(b: Self) {
    }

    proof fn lemma_from_heap(h: HeapBlock) {
    }
}

impl Block for BlockWoodenSlab {
    open spec fn spec_id() -> Seq<char> {
        "wooden_slab"@
    }

    open spec fn spec_repr() -> BlockRepr {
        BlockRepr::Inline
    }

    open spec fn spec_name(&self) -> Seq<char> {
        wood_text(self.variant) + " Slab"@
    }

    open spec fn valid(&self) -> bool {
        true
    }

    open spec fn spec_pack(&self) -> nat {
        direction_index(self.facing) * 8 + wood_index(self.variant)
    }

    open spec fn spec_unpack(state: nat) -> Self {
        BlockWoodenSlab { facing: direction_at((state / 8) % 8), variant: wood_at(state % 8) }
    }

    open spec fn spec_into_heap(&self) -> Option<HeapBlock> {
        None
    }

    open spec fn spec_from_heap(h: HeapBlock) -> Option<Self> {
        None
    }

    fn id() -> (r: &'static str) {
        "wooden_slab"
    }

    fn repr() -> (r: BlockRepr) {
        BlockRepr::Inline
    }

    fn name(&self) -> (r: String) {
        self.variant.as_str().to_owned().concat(" Slab")
    }

    fn pack(&self) -> (r: Bits<6>) {
        proof {
            lemma2_to64();
        }
        let mut buf = Bits::<6>::new(0);
        buf.set::<0, 3>(direction_index_of(self.facing));
        buf.set::<3, 6>(self.variant.index());
        buf
    }

    fn unpack(state: Bits<6>) -> (r: Self) {
        proof {
            lemma2_to64();
        }
        let f = state.get::<0, 3>();
        let w = state.get::<3, 6>();
        assert(state@ as nat / 1 == state@ as nat) by (nonlinear_arith);
        assert(w == state@ % 8);
        assert(f == (state@ / 8) % 8);
        BlockWoodenSlab { facing: direction_of(f), variant: WoodVariant::at(w) }
    }

    fn into_heap(self) -> (r: Option<HeapBlock>) {
        None
    }

    fn from_heap(h: &HeapBlock) -> (r: Option<&Self>) {
        None
    }

    fn take_from_heap(h: HeapBlock) -> (r: Result<Self, HeapBlock>) {
        Err(h)
    }

    proof fn lemma_pack_round_trip(b: Self) {
    }

    proof fn lemma_heap_round_trip(b: Self) {
    }

    proof fn lemma_from_heap(h: HeapBlock) {
    }
}

impl Block for BlockRedstoneDust {
    open spec fn spec_id() -> Seq<char> {
        "redstone_dust"@
    }

    open spec fn spec_repr() -> BlockRepr {
        BlockRepr::Inline
    }

    open spec fn spec_name(&self) -> Seq<char> {
        "Redstone Dust"@
    }

    open spec fn valid(&self) -> bool {
        is_horizontal(self.facing) && self.power < 16
    }

    open spec fn spec_pack(&self) -> nat {
        horizontal_index(self.facing) * 16 + if self.power < 16 {
            self.power as nat
        } else {
            0
        }
    }

    open spec fn spec_unpack(state: nat) -> Self {
        BlockRedstoneDust { facing: direction_at((state / 16) % 4), power: (state % 16) as u8 }
    }

    open spec fn spec_into_heap(&self) -> Option<HeapBlock> {
        None
    }

    open spec fn spec_from_heap(h: HeapBlock) -> Option<Self> {
        None
    }

    fn id() -> (r: &'static str) {
        "redstone_dust"
    }

    fn repr() -> (r: BlockRepr) {
        BlockRepr::Inline
    }

    fn name(&self) -> (r: String) {
        "Redstone Dust".to_owned()
    }

    fn pack(&self) -> (r: Bits<6>) {
        proof {
            lemma2_to64();
        }
        let mut buf = Bits::<6>::new(0);
        let h = horizontal_index_of(self.facing);
        assert(h < 4);
        buf.set::<0, 2>(h);
        let ghost w = buf@ as nat;
        assert(w == (0nat / 64) * 64 + (h as nat % 4) * 16 + 0nat % 16);
        assert((0nat / 64) * 64 + (h as nat % 4) * 16 + 0nat % 16 == h * 16) by (nonlinear_arith)
            requires
                h < 4,
        ;
        let power = encode_range(self.power as i32, 0, 16);
        let p = power as u8;
        let ghost before = buf@ as nat;
        buf.set::<2, 6>(p);
        assert(before / 16 * 16 == before) by (nonlinear_arith)
            requires
                before == h * 16,
        ;
        assert(p % 16 == p && (p as nat) * 1 == p && before % 1 == 0) by (nonlinear_arith)
            requires
                p < 16,
        ;
        assert(buf@ == h * 16 + p);
        buf
    }

    fn unpack(state: Bits<6>) -> (r: Self) {
        proof {
            lemma2_to64();
        }
        let code = state.get::<2, 6>();
        assert(state@ as nat / 1 == state@ as nat) by (nonlinear_arith);
        assert(code == state@ % 16);
        let power = decode_range(code as u32, 0);
        let f = state.get::<0, 2>();
        assert(f == (state@ / 16) % 4);
        BlockRedstoneDust { facing: direction_of(f), power: power as u8 }
    }

    fn into_heap(self) -> (r: Option<HeapBlock>) {
        None
    }

    fn from_heap(h: &HeapBlock) -> (r: Option<&Self>) {
        None
    }

    fn take_from_heap(h: HeapBlock) -> (r: Result<Self, HeapBlock>) {
        Err(h)
    }

    proof fn lemma_pack_round_trip(b: Self) {
    }

    proof fn lemma_heap_round_trip(b: Self) {
    }

    proof fn lemma_from_heap(h: HeapBlock) {
    }
}

impl Block for BlockChest {
    open spec fn spec_id() -> Seq<char> {
        "chest"@
    }

    open spec fn spec_repr() -> BlockRepr {
        BlockRepr::Heap
    }

    open spec fn spec_name(&self) -> Seq<char> {
        chest_name(*self)
    }

    open spec fn valid(&self) -> bool {
        true
    }

    open spec fn spec_pack(&self) -> nat {
        0
    }

    open spec fn spec_unpack(state: nat) -> Self {
        arbitrary()
    }

    open spec fn spec_into_heap(&self) -> Option<HeapBlock> {
        Some(HeapBlock::Chest(*self))
    }

    open spec fn spec_from_heap(h: HeapBlock) -> Option<Self> {
        match h {
            HeapBlock::Chest(c) => Some(c),
        }
    }

    fn id() -> (r: &'static str) {
        "chest"
    }

    fn repr() -> (r: BlockRepr) {
        BlockRepr::Heap
    }

    fn name(&self) -> (r: String) {
        self.display_name()
    }

    fn pack(&self) -> (r: Bits<6>) {
        proof {
            lemma2_to64();
        }
        Bits::new(0)
    }

    fn unpack(state: Bits<6>) -> (r: Self) {
        BlockChest { contents: Vec::new(), facing: Direction::North, name: None }
    }

    fn into_heap(self) -> (r: Option<HeapBlock>) {
        Some(HeapBlock::Chest(self))
    }

    fn from_heap(h: &HeapBlock) -> (r: Option<&Self>) {
        match h {
            HeapBlock::Chest(c) => Some(c),
        }
    }

    fn take_from_heap(h: HeapBlock) -> (r: Result<Self, HeapBlock>) {
        match h {
            HeapBlock::Chest(c) => Ok(c),
        }
    }

    proof fn lemma_pack_round_trip(b: Self) {
    }

    proof fn lemma_heap_round_trip(b: Self) {
    }

    proof fn lemma_from_heap(h: HeapBlock) {
    }
}

} // verus!
