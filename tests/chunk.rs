use std::sync::Arc;

use miners::block::BlockRegistry;
use miners::chunk::{Chunk, VOLUME};
use miners::math::{vec3, Direction, Vec3};
use miners::vanilla::{BlockAir, BlockChest, BlockGrass, BlockWoodenPlanks, WoodVariant};

fn registry() -> Arc<BlockRegistry> {
    let mut reg = BlockRegistry::new::<BlockAir>();
    reg.register::<BlockWoodenPlanks>().unwrap();
    reg.register::<BlockChest>().unwrap();
    Arc::new(reg)
}

fn chest(name: Option<&str>) -> BlockChest {
    BlockChest {
        contents: vec!["Stick x64".to_string()],
        facing: Direction::North,
        name: name.map(|n| n.to_string()),
    }
}

#[test]
fn empty_chunk() {
    let chunk = Chunk::new(vec3(0, 0, 0), &registry());
    assert_eq!(chunk.get(vec3(0, 0, 0)).unwrap().name(), "Air");
    assert_eq!(chunk.get(vec3(31, 31, 31)).unwrap().name(), "Air");
    assert!(chunk.get(vec3(32, 0, 0)).is_none());
    assert!(chunk.get(vec3(0, 32, 0)).is_none());
    assert!(chunk.get(vec3(0, 0, 32)).is_none());
    assert_eq!(chunk.get(vec3(5, 6, 7)).unwrap().id(), "air");
    assert!(chunk.get(vec3(5, 6, 7)).unwrap().is::<BlockAir>());
    assert_eq!(chunk.slot_count(), 0);
    assert_eq!(chunk.pos(), vec3(0, 0, 0));
}

#[test]
fn inline_round_trip() {
    let mut chunk = Chunk::new(vec3(1, -2, 3), &registry());
    chunk.set(vec3(0, 0, 0), BlockWoodenPlanks { variant: WoodVariant::Birch });
    let obj = chunk.get(vec3(0, 0, 0)).unwrap();
    assert_eq!(obj.cast::<BlockWoodenPlanks>().unwrap().get().variant, WoodVariant::Birch);
    assert!(obj.cast::<BlockChest>().is_none());
    assert!(obj.cast::<BlockAir>().is_none());
    assert!(obj.is::<BlockWoodenPlanks>());
    assert_eq!(chunk.get(vec3(0, 0, 0)).unwrap().name(), "Birch Planks");
    assert_eq!(chunk.get(vec3(1, 0, 0)).unwrap().name(), "Air");
    assert_eq!(chunk.slot_count(), 0);
}

#[test]
fn heap_block_round_trip_in_chunk() {
    let mut chunk = Chunk::new(vec3(0, 0, 0), &registry());
    chunk.set(vec3(1, 2, 3), chest(None));
    assert_eq!(chunk.get(vec3(1, 2, 3)).unwrap().name(), "Chest");
    assert_eq!(chunk.get(vec3(1, 2, 3)).unwrap().id(), "chest");
    assert_eq!(chunk.slot_count(), 1);

    chunk.set(vec3(1, 2, 3), chest(Some("Alice's Chest")));
    assert_eq!(chunk.get(vec3(1, 2, 3)).unwrap().name(), "Alice's Chest");
    assert_eq!(chunk.slot_count(), 1);

    let obj = chunk.get(vec3(1, 2, 3)).unwrap();
    let back = obj.cast::<BlockChest>().unwrap();
    assert_eq!(back.get(), &chest(Some("Alice's Chest")));
    assert!(obj.cast::<BlockWoodenPlanks>().is_none());
}

#[test]
fn heap_slot_reuse() {
    let mut chunk = Chunk::new(vec3(0, 0, 0), &registry());
    chunk.set(vec3(1, 2, 3), chest(None));
    chunk.set(vec3(1, 2, 3), chest(Some("Alice's Chest")));
    chunk.set(vec3(1, 2, 3), BlockWoodenPlanks { variant: WoodVariant::Oak });
    assert_eq!(chunk.slot_count(), 0);
    assert_eq!(chunk.get(vec3(1, 2, 3)).unwrap().name(), "Oak Planks");

    chunk.set(vec3(4, 4, 4), chest(Some("first")));
    chunk.set(vec3(1, 2, 3), chest(Some("second")));
    assert_eq!(chunk.slot_count(), 2);
    assert_eq!(chunk.get(vec3(4, 4, 4)).unwrap().name(), "first");
    assert_eq!(chunk.get(vec3(1, 2, 3)).unwrap().name(), "second");
}

#[test]
fn mutable_handle_commit() {
    let mut chunk = Chunk::new(vec3(0, 0, 0), &registry());
    chunk.set(vec3(0, 0, 0), BlockWoodenPlanks { variant: WoodVariant::Birch });
    let changed = chunk.with_mut(vec3(0, 0, 0), |mut p: BlockWoodenPlanks| {
        p.variant = WoodVariant::Oak;
        p
    });
    assert!(changed);
    let obj = chunk.get(vec3(0, 0, 0)).unwrap();
    assert_eq!(obj.cast::<BlockWoodenPlanks>().unwrap().get().variant, WoodVariant::Oak);

    let untouched = chunk.with_mut(vec3(0, 0, 0), |p: BlockWoodenPlanks| p);
    assert!(untouched);
    assert_eq!(chunk.get(vec3(0, 0, 0)).unwrap().name(), "Oak Planks");

    assert!(!chunk.with_mut(vec3(1, 0, 0), |p: BlockWoodenPlanks| p));
    assert!(!chunk.with_mut(vec3(40, 0, 0), |p: BlockWoodenPlanks| p));
    assert_eq!(chunk.get(vec3(1, 0, 0)).unwrap().name(), "Air");
}

#[test]
fn mutable_handle_on_heap_block() {
    let mut chunk = Chunk::new(vec3(0, 0, 0), &registry());
    chunk.set(vec3(1, 2, 3), chest(None));
    let renamed = chunk.with_mut(vec3(1, 2, 3), |mut c: BlockChest| {
        c.name = Some("Alice's Chest".to_string());
        c.contents.push("Diamonds x3".to_string());
        c
    });
    assert!(renamed);
    assert_eq!(chunk.slot_count(), 1);
    let obj = chunk.get(vec3(1, 2, 3)).unwrap();
    assert_eq!(obj.name(), "Alice's Chest");
    let back = obj.cast::<BlockChest>().unwrap();
    assert_eq!(back.get().contents, vec!["Stick x64".to_string(), "Diamonds x3".to_string()]);

    assert!(!chunk.with_mut(vec3(1, 2, 3), |p: BlockWoodenPlanks| p));
    assert!(!chunk.with_mut(vec3(0, 0, 0), |c: BlockChest| c));
    assert_eq!(chunk.get(vec3(1, 2, 3)).unwrap().name(), "Alice's Chest");
}

#[test]
fn unregistered_and_out_of_bounds_set_do_nothing() {
    let mut chunk = Chunk::new(vec3(0, 0, 0), &registry());
    chunk.set(vec3(2, 2, 2), chest(None));
    chunk.set(vec3(2, 2, 2), BlockGrass);
    assert_eq!(chunk.get(vec3(2, 2, 2)).unwrap().name(), "Chest");
    assert_eq!(chunk.slot_count(), 1);
    chunk.set(vec3(32, 2, 2), BlockWoodenPlanks { variant: WoodVariant::Oak });
    assert_eq!(chunk.slot_count(), 1);
}

#[test]
fn set_then_cast_gives_block_back() {
    let mut chunk = Chunk::new(vec3(0, 0, 0), &registry());
    for v in [WoodVariant::Spruce, WoodVariant::Acacia, WoodVariant::DarkOak] {
        chunk.set(vec3(9, 8, 7), BlockWoodenPlanks { variant: v });
        let obj = chunk.get(vec3(9, 8, 7)).unwrap();
        assert_eq!(*obj.cast::<BlockWoodenPlanks>().unwrap().get(), BlockWoodenPlanks { variant: v });
    }
}

#[test]
fn overwrite_leaks_no_slot() {
    let mut twice = Chunk::new(vec3(0, 0, 0), &registry());
    twice.set(vec3(3, 3, 3), chest(Some("a")));
    twice.set(vec3(3, 3, 3), chest(Some("b")));
    let mut once = Chunk::new(vec3(0, 0, 0), &registry());
    once.set(vec3(3, 3, 3), chest(Some("b")));
    assert_eq!(twice.slot_count(), once.slot_count());

    twice.set(vec3(3, 3, 3), BlockWoodenPlanks { variant: WoodVariant::Oak });
    let mut plain = Chunk::new(vec3(0, 0, 0), &registry());
    plain.set(vec3(3, 3, 3), BlockWoodenPlanks { variant: WoodVariant::Oak });
    assert_eq!(twice.slot_count(), plain.slot_count());
}

#[test]
fn iter_agrees_with_get() {
    let mut chunk = Chunk::new(vec3(0, 0, 0), &registry());
    chunk.set(vec3(0, 0, 0), BlockWoodenPlanks { variant: WoodVariant::Birch });
    chunk.set(vec3(31, 0, 5), chest(Some("box")));
    chunk.set(vec3(3, 17, 31), BlockWoodenPlanks { variant: WoodVariant::Jungle });
    let all = chunk.iter();
    assert_eq!(all.len(), VOLUME);
    for (i, (pos, obj)) in all.iter().enumerate() {
        assert_eq!(Chunk::flatten(*pos), i);
        let got = chunk.get(*pos).unwrap();
        assert_eq!(got.name(), obj.name());
        assert_eq!(got.id(), obj.id());
    }
    assert_eq!(all[0].1.name(), "Birch Planks");
    assert_eq!(all[Chunk::flatten(vec3(31, 0, 5))].1.name(), "box");
    assert_eq!(all[Chunk::flatten(vec3(3, 17, 31))].1.name(), "Jungle Planks");
}

#[test]
fn flatten_order() {
    assert_eq!(Chunk::flatten(vec3(0, 0, 0)), 0);
    assert_eq!(Chunk::flatten(vec3(1, 0, 0)), 1);
    assert_eq!(Chunk::flatten(vec3(0, 1, 0)), 32);
    assert_eq!(Chunk::flatten(vec3(0, 0, 1)), 1024);
    assert_eq!(Chunk::flatten(vec3(31, 31, 31)), 32767);
    assert_eq!(Chunk::unflatten(32767), vec3(31, 31, 31));
    assert_eq!(Chunk::unflatten(1057), Vec3 { x: 1, y: 1, z: 1 });
    assert!(Chunk::in_bounds(vec3(31, 0, 0)));
    assert!(!Chunk::in_bounds(vec3(0, 0, 32)));
}
