use miners::bits::Bits;
use miners::block::{Block, BlockMeta, BlockRegistry, RegisterError};
use miners::layout::BlockRepr;
use miners::math::Direction;
use miners::vanilla::{
    BlockAir, BlockChest, BlockGrass, BlockRedstoneDust, BlockWoodenPlanks, BlockWoodenSlab,
    HeapBlock, WoodVariant,
};

const WOODS: [WoodVariant; 6] = [
    WoodVariant::Oak,
    WoodVariant::Spruce,
    WoodVariant::Birch,
    WoodVariant::Jungle,
    WoodVariant::Acacia,
    WoodVariant::DarkOak,
];

const DIRECTIONS: [Direction; 6] = [
    Direction::North,
    Direction::South,
    Direction::East,
    Direction::West,
    Direction::Up,
    Direction::Down,
];

#[test]
fn planks_pack_round_trip() {
    for (i, v) in WOODS.iter().enumerate() {
        let b = BlockWoodenPlanks { variant: *v };
        let packed = b.pack();
        assert_eq!(packed.inner() as usize, i * 8);
        assert_eq!(BlockWoodenPlanks::unpack(packed), b);
        assert_eq!(BlockWoodenPlanks::unpack(packed).pack(), packed);
    }
}

#[test]
fn planks_unknown_code_reads_first_variant() {
    assert_eq!(BlockWoodenPlanks::unpack(Bits::<6>::new(6 * 8)).variant, WoodVariant::Oak);
    assert_eq!(BlockWoodenPlanks::unpack(Bits::<6>::new(7 * 8 + 5)).variant, WoodVariant::Oak);
}

#[test]
fn slab_pack_round_trip() {
    for (i, d) in DIRECTIONS.iter().enumerate() {
        for (j, v) in WOODS.iter().enumerate() {
            let b = BlockWoodenSlab { facing: *d, variant: *v };
            let packed = b.pack();
            assert_eq!(packed.inner() as usize, i * 8 + j);
            assert_eq!(BlockWoodenSlab::unpack(packed), b);
        }
    }
}

#[test]
fn redstone_pack_round_trip() {
    for d in [Direction::North, Direction::South, Direction::East, Direction::West] {
        for power in 0..16u8 {
            let b = BlockRedstoneDust { facing: d, power };
            assert_eq!(BlockRedstoneDust::unpack(b.pack()), b);
        }
    }
    let b = BlockRedstoneDust { facing: Direction::West, power: 9 };
    assert_eq!(b.pack().inner(), 3 * 16 + 9);
}

#[test]
fn redstone_out_of_list_values_fold() {
    let b = BlockRedstoneDust { facing: Direction::Up, power: 20 };
    assert_eq!(b.pack().inner(), 0);
    assert_eq!(
        BlockRedstoneDust::unpack(b.pack()),
        BlockRedstoneDust { facing: Direction::North, power: 0 }
    );
}

#[test]
fn pack_of_unpack_keeps_every_image_state() {
    for s in 0..64u8 {
        let state = Bits::<6>::new(s);
        let slab = BlockWoodenSlab::unpack(state);
        let again = BlockWoodenSlab::unpack(slab.pack());
        assert_eq!(again.pack(), slab.pack());
    }
}

#[test]
fn names() {
    assert_eq!(BlockAir.name(), "Air");
    assert_eq!(BlockGrass.name(), "Grass");
    assert_eq!(BlockWoodenPlanks { variant: WoodVariant::DarkOak }.name(), "Dark Oak Planks");
    assert_eq!(
        BlockWoodenSlab { facing: Direction::Up, variant: WoodVariant::Spruce }.name(),
        "Spruce Slab"
    );
    assert_eq!(BlockRedstoneDust { facing: Direction::North, power: 3 }.name(), "Redstone Dust");
    let chest = BlockChest { contents: vec![], facing: Direction::North, name: None };
    assert_eq!(chest.name(), "Chest");
    let named = BlockChest {
        contents: vec![],
        facing: Direction::North,
        name: Some("Alice's Chest".to_string()),
    };
    assert_eq!(named.name(), "Alice's Chest");
    assert_eq!(WoodVariant::Jungle.as_str(), "Jungle");
}

#[test]
fn heap_round_trip() {
    let chest = BlockChest {
        contents: vec!["Stick x64".to_string()],
        facing: Direction::East,
        name: None,
    };
    let heap = chest.clone().into_heap().unwrap();
    assert_eq!(heap.id(), "chest");
    assert_eq!(heap.name(), "Chest");
    assert_eq!(BlockChest::from_heap(&heap), Some(&chest));
    assert!(BlockWoodenPlanks { variant: WoodVariant::Oak }.into_heap().is_none());
    assert!(BlockWoodenPlanks::from_heap(&heap).is_none());
    assert!(matches!(heap, HeapBlock::Chest(_)));
}

#[test]
fn reprs_and_ids() {
    assert_eq!(BlockAir::repr(), BlockRepr::Inline);
    assert_eq!(BlockWoodenPlanks::repr(), BlockRepr::Inline);
    assert_eq!(BlockChest::repr(), BlockRepr::Heap);
    assert_eq!(BlockWoodenPlanks::id(), "wooden_planks");
    assert_eq!(BlockWoodenSlab::id(), "wooden_slab");
    assert_eq!(BlockRedstoneDust::id(), "redstone_dust");
}

#[test]
fn meta_name_table() {
    let meta = BlockMeta::of::<BlockWoodenPlanks>();
    assert_eq!(meta.id, "wooden_planks");
    assert_eq!(meta.repr, BlockRepr::Inline);
    assert_eq!(meta.names.len(), 64);
    assert_eq!(meta.names[16], "Birch Planks");
    assert_eq!(meta.names[40], "Dark Oak Planks");
    assert_eq!(meta.names[63], "Oak Planks");

    let chest = BlockMeta::of::<BlockChest>();
    assert_eq!(chest.repr, BlockRepr::Heap);
    assert!(chest.names.is_empty());
}

#[test]
fn registry_ids() {
    let mut reg = BlockRegistry::new::<BlockAir>();
    assert_eq!(reg.len(), 1);
    assert_eq!(reg.id::<BlockAir>().unwrap().inner(), 0);
    assert!(reg.id::<BlockWoodenPlanks>().is_none());

    let planks = reg.register::<BlockWoodenPlanks>().unwrap();
    assert_eq!(planks.inner(), 1);
    let chest = reg.register::<BlockChest>().unwrap();
    assert_eq!(chest.inner(), 2);
    let again = reg.register::<BlockWoodenPlanks>().unwrap();
    assert_eq!(again.inner(), 1);
    assert_eq!(reg.len(), 3);

    assert!(reg.matches::<BlockChest>(chest));
    assert!(!reg.matches::<BlockChest>(planks));
    assert!(!reg.matches::<BlockChest>(miners::packed::Id::new(9)));
    assert_eq!(reg.meta(chest).unwrap().id, "chest");
    assert!(reg.meta(miners::packed::Id::new(3)).is_none());
    assert_ne!(reg.register::<BlockGrass>(), Err(RegisterError::Full));
}
