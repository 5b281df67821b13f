use std::sync::Arc;

use miners::block::BlockRegistry;
use miners::chunk::Chunk;
use miners::math::vec3;
use miners::vanilla::{BlockAir, BlockChest, BlockWoodenPlanks, WoodVariant};
use miners::world::{chunk_of, fill_terrain, local_of, LoadState, LoadTracker};

fn registry() -> Arc<BlockRegistry> {
    let mut reg = BlockRegistry::new::<BlockAir>();
    reg.register::<BlockChest>().unwrap();
    reg.register::<BlockWoodenPlanks>().unwrap();
    Arc::new(reg)
}

#[test]
fn coordinates_split_euclidean() {
    assert_eq!(chunk_of(vec3(0, 0, 0)), vec3(0, 0, 0));
    assert_eq!(local_of(vec3(0, 0, 0)), vec3(0, 0, 0));
    assert_eq!(chunk_of(vec3(-1, 31, 32)), vec3(-1, 0, 1));
    assert_eq!(local_of(vec3(-1, 31, 32)), vec3(31, 31, 0));
    assert_eq!(chunk_of(vec3(-32, -33, 65)), vec3(-1, -2, 2));
    assert_eq!(local_of(vec3(-32, -33, 65)), vec3(0, 31, 1));
    assert_eq!(chunk_of(vec3(i32::MIN, i32::MAX, 0)), vec3(-67108864, 67108863, 0));
    assert_eq!(local_of(vec3(i32::MIN, i32::MAX, 0)), vec3(0, 31, 0));
}

#[test]
fn load_state_machine() {
    let mut t = LoadTracker::new();
    let p = vec3(0, 0, 0);
    assert_eq!(t.state(p), LoadState::Absent);
    assert_eq!(t.num_loading(), 0);
    assert!(t.load_chunk(p));
    assert_eq!(t.state(p), LoadState::Generating);
    assert_eq!(t.num_loading(), 1);
    assert!(!t.load_chunk(p));
    assert_eq!(t.num_loading(), 1);
    assert!(t.finish(p));
    assert_eq!(t.state(p), LoadState::Loaded);
    assert_eq!(t.num_loading(), 0);
    assert!(!t.finish(p));
    assert!(!t.load_chunk(p));
    assert!(!t.finish(vec3(5, 5, 5)));
    assert_eq!(t.state(vec3(5, 5, 5)), LoadState::Absent);
}

#[test]
fn terrain_fill() {
    let reg = registry();
    let mut heights = vec![0i32; 1024];
    heights[3 + 32 * 4] = 10;
    heights[0] = -1;
    let mut chunk = Chunk::new(vec3(0, 0, 0), &reg);
    let planks = BlockWoodenPlanks { variant: WoodVariant::Jungle };
    fill_terrain(&mut chunk, &heights, planks);
    assert_eq!(chunk.get(vec3(3, 10, 4)).unwrap().name(), "Jungle Planks");
    assert_eq!(chunk.get(vec3(3, 11, 4)).unwrap().name(), "Air");
    assert_eq!(chunk.get(vec3(5, 0, 5)).unwrap().name(), "Jungle Planks");
    assert_eq!(chunk.get(vec3(5, 1, 5)).unwrap().name(), "Air");
    assert_eq!(chunk.get(vec3(0, 0, 0)).unwrap().name(), "Air");

    let mut above = Chunk::new(vec3(0, 1, 0), &reg);
    fill_terrain(&mut above, &heights, planks);
    assert_eq!(above.get(vec3(3, 0, 4)).unwrap().name(), "Air");
    heights[3 + 32 * 4] = 40;
    let mut above = Chunk::new(vec3(0, 1, 0), &reg);
    fill_terrain(&mut above, &heights, planks);
    assert_eq!(above.get(vec3(3, 8, 4)).unwrap().name(), "Jungle Planks");
    assert_eq!(above.get(vec3(3, 9, 4)).unwrap().name(), "Air");
}

#[test]
fn concurrent_load_then_query() {
    let reg = registry();
    let heights = vec![5i32; 1024];
    let mut tracker = LoadTracker::new();
    let mut requested = Vec::new();
    for x in 0..12 {
        for z in 0..12 {
            let p = vec3(x, 0, z);
            assert!(tracker.load_chunk(p));
            requested.push(p);
        }
    }
    assert_eq!(tracker.num_loading(), 144);
    let mut loaded = Vec::new();
    for p in &requested {
        let mut chunk = Chunk::new(*p, &reg);
        fill_terrain(&mut chunk, &heights, BlockWoodenPlanks { variant: WoodVariant::Jungle });
        loaded.push(chunk);
        assert!(tracker.finish(*p));
    }
    assert_eq!(tracker.num_loading(), 0);
    for (p, chunk) in requested.iter().zip(loaded.iter()) {
        assert_eq!(tracker.state(*p), LoadState::Loaded);
        assert_eq!(chunk.pos(), *p);
        let world = vec3(p.x * 32 + 1, 2, p.z * 32 + 3);
        assert_eq!(chunk_of(world), *p);
        assert!(chunk.get(local_of(world)).unwrap().is::<BlockWoodenPlanks>());
    }
}
