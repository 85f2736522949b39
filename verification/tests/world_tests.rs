use voxel_world::block::BlockType;
use voxel_world::chunk::Chunk;
use voxel_world::chunk::ChunkOffset;
use voxel_world::chunk::ChunkPositionMap;
use voxel_world::chunk::ChunkState;
use voxel_world::chunk::CHUNK_VOLUME;
use voxel_world::chunk_updater::create_chunk;
use voxel_world::chunk_updater::destroy_chunk;
use voxel_world::chunk_updater::draw_chunks;
use voxel_world::chunk_updater::encode_chunk;
use voxel_world::chunk_updater::load_chunks;
use voxel_world::chunk_updater::StreamConfig;
use voxel_world::chunk_updater::WorldPos;
use voxel_world::voxel_directions::VoxelDir;
use voxel_world::CHUNK_SIZE;
use voxel_world::CHUNK_SIZE_PAD;

fn flat_heights() -> Vec<i64> {
    vec![0i64; CHUNK_SIZE * CHUNK_SIZE]
}

fn apply_plan(map: &mut ChunkPositionMap, player: WorldPos, cfg: &StreamConfig) -> (usize, usize) {
    let plan = load_chunks(map, player, cfg);
    let created = plan.to_create.len();
    let destroyed = plan.to_destroy.len();
    for off in plan.to_create {
        let heights = flat_heights();
        create_chunk(map, off, &heights);
    }
    for off in plan.to_destroy {
        destroy_chunk(map, off);
    }
    (created, destroyed)
}

#[test]
fn block_type_basics() {
    assert!(!BlockType::Air.is_solid());
    assert!(BlockType::Grass.is_solid());
    assert!(BlockType::Stone.is_solid());
    assert_eq!(BlockType::Air.idx(), 0);
    assert_eq!(BlockType::Grass.idx(), 1);
    assert_eq!(BlockType::Stone.idx(), 2);
}

#[test]
fn voxel_directions_roundtrip() {
    let dirs = VoxelDir::dirs();
    assert_eq!(dirs.len(), 6);
    for i in 0..6 {
        let d = VoxelDir::get(i);
        assert_eq!(dirs[i], d);
        assert_eq!(d.idx(), i);
        assert_eq!(d.opp().opp(), d);
        assert_ne!(d.opp(), d);
    }
    assert_eq!(VoxelDir::Fnt.opp(), VoxelDir::Bck);
    assert_eq!(VoxelDir::Top.opp(), VoxelDir::Bot);
    assert_eq!(VoxelDir::Rgt.opp(), VoxelDir::Lft);
}

#[test]
fn index_lifecycle_coupling() {
    let mut map = ChunkPositionMap::new();
    let off = ChunkOffset::new(3, -2, 5);
    let heights = flat_heights();
    create_chunk(&mut map, off, &heights);
    let got = map.get(off).expect("created chunk is indexed");
    assert!(matches!(got.state, ChunkState::Loaded));
    assert_eq!(got.offset, off);
    assert_eq!(got.block_data.len(), CHUNK_VOLUME);
    assert_eq!(map.offsets(), vec![off]);

    destroy_chunk(&mut map, off);
    assert!(map.get(off).is_none());
    assert!(map.offsets().is_empty());
}

#[test]
fn streaming_idempotence() {
    let mut map = ChunkPositionMap::new();
    let player = WorldPos::new(0, 24_000, 24_000);
    let cfg = StreamConfig {
        render_dist_milli: 2000,
        max_load_per_tick: usize::MAX,
        max_draw_per_tick: 4,
    };
    let (created, destroyed) = apply_plan(&mut map, player, &cfg);
    assert!(created > 0);
    assert_eq!(destroyed, 0);
    // A second tick with an unchanged reference position is a fixed point.
    let (created2, destroyed2) = apply_plan(&mut map, player, &cfg);
    assert_eq!(created2, 0);
    assert_eq!(destroyed2, 0);
}

#[test]
fn streaming_budget() {
    let mut map = ChunkPositionMap::new();
    // This reference point and render distance leave exactly 50 candidate
    // loads pending.
    let player = WorldPos::new(12_000, 24_000, 0);
    let cfg = StreamConfig {
        render_dist_milli: 2200,
        max_load_per_tick: 4,
        max_draw_per_tick: 4,
    };
    let unlimited = StreamConfig { max_load_per_tick: usize::MAX, ..cfg };
    let full_plan = load_chunks(&map, player, &unlimited);
    assert_eq!(full_plan.to_create.len(), 50);

    // Exactly four creations per tick until, after ceil(50 / 4) = 13
    // ticks, the index holds the full desired set.
    let mut total = 0;
    for tick in 0..13 {
        let (created, destroyed) = apply_plan(&mut map, player, &cfg);
        let expected = if tick < 12 { 4 } else { 2 };
        assert_eq!(created, expected, "tick {tick}");
        assert_eq!(destroyed, 0);
        total += created;
    }
    assert_eq!(total, 50);
    assert_eq!(map.offsets().len(), 50);
    let mut desired: Vec<ChunkOffset> = full_plan.to_create.clone();
    let mut loaded = map.offsets();
    desired.sort_by_key(|o| (o.x, o.y, o.z));
    loaded.sort_by_key(|o| (o.x, o.y, o.z));
    assert_eq!(desired, loaded);
    // And the fixed point is reached.
    let (created, destroyed) = apply_plan(&mut map, player, &cfg);
    assert_eq!(created, 0);
    assert_eq!(destroyed, 0);
}

#[test]
fn streaming_moves_destroy_out_of_range_chunks() {
    let mut map = ChunkPositionMap::new();
    let cfg = StreamConfig {
        render_dist_milli: 1000,
        max_load_per_tick: usize::MAX,
        max_draw_per_tick: 4,
    };
    let here = WorldPos::new(0, 0, 0);
    let (created, _) = apply_plan(&mut map, here, &cfg);
    assert!(created > 0);
    // Teleport away: everything loaded falls out of range.
    let there = WorldPos::new(100_000, 0, 0);
    let plan = load_chunks(&map, there, &cfg);
    assert_eq!(plan.to_destroy.len(), created);
    let (created2, destroyed2) = apply_plan(&mut map, there, &cfg);
    assert!(created2 > 0);
    assert_eq!(destroyed2, created);
}

#[test]
fn load_plan_is_nearest_first() {
    let map = ChunkPositionMap::new();
    let player = WorldPos::new(12_000, 24_000, 0);
    let cfg = StreamConfig {
        render_dist_milli: 2200,
        max_load_per_tick: usize::MAX,
        max_draw_per_tick: 4,
    };
    let plan = load_chunks(&map, player, &cfg);
    let d2 = |o: &ChunkOffset| {
        let dx = (64 * (o.x as i128) + 32) * 1500 - 2 * 12_000;
        let dy = (64 * (o.y as i128) + 32) * 1500 - 2 * 24_000;
        let dz = (64 * (o.z as i128) + 32) * 1500;
        dx * dx + dy * dy + dz * dz
    };
    for w in plan.to_create.windows(2) {
        assert!(d2(&w[0]) <= d2(&w[1]));
    }
}

#[test]
fn equal_distances_keep_enumeration_order() {
    // All eight candidates around the origin have the same center distance;
    // the distance sort is stable, so they load in enumeration order
    // (x, then y, then z, each ascending).
    let map = ChunkPositionMap::new();
    let player = WorldPos::new(0, 0, 0);
    let cfg = StreamConfig {
        render_dist_milli: 1000,
        max_load_per_tick: usize::MAX,
        max_draw_per_tick: 4,
    };
    let plan = load_chunks(&map, player, &cfg);
    let mut expected = Vec::new();
    for x in -1..1 {
        for y in -1..1 {
            for z in -1..1 {
                expected.push(ChunkOffset::new(x, y, z));
            }
        }
    }
    assert_eq!(plan.to_create, expected);
}

#[test]
fn boundary_distance_is_kept() {
    // Offset (0, 0, 0) sits exactly at the render-distance boundary for
    // this reference point; the strict `>` comparison keeps it.
    let map = ChunkPositionMap::new();
    let player = WorldPos::new(0, 24_000, 24_000);
    let cfg = StreamConfig {
        render_dist_milli: 500,
        max_load_per_tick: usize::MAX,
        max_draw_per_tick: 4,
    };
    let plan = load_chunks(&map, player, &cfg);
    assert!(plan.to_create.contains(&ChunkOffset::new(0, 0, 0)));
}

fn single_voxel_chunk(x: usize, y: usize, z: usize, bt: BlockType) -> Chunk {
    let mut block_data = vec![BlockType::Air; CHUNK_VOLUME];
    block_data[(x * CHUNK_SIZE + y) * CHUNK_SIZE + z] = bt;
    Chunk { offset: ChunkOffset::new(0, 0, 0), block_data, state: ChunkState::Loaded }
}

#[test]
fn visibility_bit_correctness() {
    let c = single_voxel_chunk(5, 5, 5, BlockType::Grass);
    let r = encode_chunk(&c);
    let one = 1u64 << 5;
    for axis in 0..3 {
        for a in 0..CHUNK_SIZE_PAD {
            for b in 0..CHUNK_SIZE_PAD {
                let want = if a == 5 && b == 5 { one } else { 0 };
                assert_eq!(r.solid_face_axes.word(axis, a, b), want, "solid {axis} {a} {b}");
                let grass = r.texture_face_axes[BlockType::Grass.idx()].word(axis, a, b);
                assert_eq!(grass, want, "grass {axis} {a} {b}");
                assert_eq!(r.texture_face_axes[BlockType::Stone.idx()].word(axis, a, b), 0);
                assert_eq!(r.texture_face_axes[BlockType::Air.idx()].word(axis, a, b), 0);
            }
        }
    }
}

#[test]
fn visibility_bits_off_diagonal() {
    // A voxel away from the diagonal shows the per-axis addressing: bit y
    // at [x][z], bit z at [x][y], bit x at [y][z].
    let (x, y, z) = (1usize, 2usize, 3usize);
    let c = single_voxel_chunk(x, y, z, BlockType::Stone);
    let r = encode_chunk(&c);
    assert_eq!(r.solid_face_axes.word(0, x, z), 1u64 << y);
    assert_eq!(r.solid_face_axes.word(1, x, y), 1u64 << z);
    assert_eq!(r.solid_face_axes.word(2, y, z), 1u64 << x);
    assert_eq!(r.texture_face_axes[BlockType::Stone.idx()].word(0, x, z), 1u64 << y);
    assert_eq!(r.texture_face_axes[BlockType::Grass.idx()].word(0, x, z), 0);
}

#[test]
fn all_empty_chunk_encodes_to_zero() {
    let c = Chunk {
        offset: ChunkOffset::new(0, 0, 0),
        block_data: vec![BlockType::Air; CHUNK_VOLUME],
        state: ChunkState::Loaded,
    };
    let r = encode_chunk(&c);
    for axis in 0..3 {
        for a in 0..CHUNK_SIZE_PAD {
            for b in 0..CHUNK_SIZE_PAD {
                assert_eq!(r.solid_face_axes.word(axis, a, b), 0);
                for m in 0..3 {
                    assert_eq!(r.texture_face_axes[m].word(axis, a, b), 0);
                }
            }
        }
    }
}

#[test]
fn draw_chunks_respects_budget_and_advances_state() {
    let mut map = ChunkPositionMap::new();
    let heights = flat_heights();
    for i in 0..3 {
        create_chunk(&mut map, ChunkOffset::new(i, 0, 0), &heights);
    }
    let out = draw_chunks(&mut map, 2);
    assert_eq!(out.len(), 2);
    let drawn: Vec<ChunkState> = map.chunks.iter().map(|c| c.state).collect();
    assert_eq!(drawn.iter().filter(|s| matches!(s, ChunkState::Drawn)).count(), 2);
    assert_eq!(drawn.iter().filter(|s| matches!(s, ChunkState::Loaded)).count(), 1);
    // The chunks not reached stay Loaded and are picked up next tick.
    let out2 = draw_chunks(&mut map, 2);
    assert_eq!(out2.len(), 1);
    let out3 = draw_chunks(&mut map, 2);
    assert_eq!(out3.len(), 0);
    for c in map.chunks.iter() {
        assert!(matches!(c.state, ChunkState::Drawn));
    }
}

#[test]
fn stream_config_default_matches_tuning() {
    let cfg = StreamConfig::default();
    assert_eq!(cfg.render_dist_milli, 2000);
    assert_eq!(cfg.max_load_per_tick, 4);
    assert_eq!(cfg.max_draw_per_tick, 4);
}
