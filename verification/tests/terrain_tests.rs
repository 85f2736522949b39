use voxel_world::block::BlockType;
use voxel_world::chunk::block_at;
use voxel_world::chunk::Chunk;
use voxel_world::chunk::ChunkOffset;
use voxel_world::chunk::ChunkState;
use voxel_world::terrain::layer_seed;
use voxel_world::terrain::TerrainConfig2d;
use voxel_world::terrain::TerrainConfigError;
use voxel_world::terrain::TerrainGenerator2d;
use voxel_world::CHUNK_SIZE;
use voxel_world::CUBE_SIZE_MILLI;

use noise::NoiseFn;
use noise::Simplex;

/// Samples the layered noise heightfield for every column of the chunk at
/// `offset`, exactly as a host application would: one Simplex instance per
/// layer, seeded from the layer's stored seed, sampled at the column's world
/// coordinates divided by the layer's horizontal scale.
fn sample_heights(gen: &TerrainGenerator2d, offset: ChunkOffset) -> Vec<i64> {
    let noises: Vec<Simplex> = gen
        .layers
        .iter()
        .map(|l| Simplex::new(l.seed as u32))
        .collect();
    let mut heights = Vec::new();
    for x in 0..CHUNK_SIZE {
        for z in 0..CHUNK_SIZE {
            let wx = ((offset.x as i64) * (CHUNK_SIZE as i64) + (x as i64)) * CUBE_SIZE_MILLI;
            let wz = ((offset.z as i64) * (CHUNK_SIZE as i64) + (z as i64)) * CUBE_SIZE_MILLI;
            let mut samples = Vec::new();
            for (li, layer) in gen.layers.iter().enumerate() {
                let sx = (wx as f64) / (layer.scale_width as f64);
                let sz = (wz as f64) / (layer.scale_width as f64);
                let v = noises[li].get([sx, sz]);
                samples.push((v * 1000.0).round() as i64);
            }
            heights.push(gen.generate(&samples));
        }
    }
    heights
}

#[test]
fn chunk_new_is_deterministic() {
    let cfg = TerrainConfig2d::new(3, 20_000, 10_000, 500, 2000);
    let gen1 = TerrainGenerator2d::new(42, &cfg).unwrap();
    let gen2 = TerrainGenerator2d::new(42, &cfg).unwrap();
    let offset = ChunkOffset::new(1, -1, 2);
    let h1 = sample_heights(&gen1, offset);
    let h2 = sample_heights(&gen2, offset);
    assert_eq!(h1, h2);
    let c1 = Chunk::new(offset, &h1);
    let c2 = Chunk::new(offset, &h2);
    assert_eq!(c1.block_data, c2.block_data);
    assert_eq!(c1.offset, c2.offset);
    assert!(matches!(c1.state, ChunkState::Populated));
}

#[test]
fn layer_scaling_law() {
    let cfg = TerrainConfig2d::new(3, 20_000, 10_000, 500, 2000);
    let gen = TerrainGenerator2d::new(7, &cfg).unwrap();
    assert_eq!(gen.layers.len(), 3);
    // Horizontal scale doubles per layer: base * 2^i.
    assert_eq!(gen.layers[0].scale_width, 20_000);
    assert_eq!(gen.layers[1].scale_width, 40_000);
    assert_eq!(gen.layers[2].scale_width, 80_000);
    // Vertical scale halves per layer: base_v * 0.5^i.
    assert_eq!(gen.layers[0].scale_height, 10_000);
    assert_eq!(gen.layers[1].scale_height, 5_000);
    assert_eq!(gen.layers[2].scale_height, 2_500);
}

#[test]
fn materialization_threshold() {
    // A mocked generator returning constant height 10 with cube size 1:
    // world heights in milli units against height 10_000.
    let h = 10_000;
    assert_eq!(block_at(8_000, h), BlockType::Stone);
    assert_eq!(block_at(9_000, h), BlockType::Grass);
    assert_eq!(block_at(10_000, h), BlockType::Air);
    // The band boundary h - 1.5 = 8.5 uses strict `<`: 8.6 is grass.
    assert_eq!(block_at(8_600, h), BlockType::Grass);
    assert_eq!(block_at(8_500, h), BlockType::Grass);
    assert_eq!(block_at(8_499, h), BlockType::Stone);
}

#[test]
fn constant_heightfield_fills_by_rule() {
    let heights = vec![10_000i64; CHUNK_SIZE * CHUNK_SIZE];
    let c = Chunk::new(ChunkOffset::new(0, 0, 0), &heights);
    // Voxel world heights are y * 1500: y = 0..5 solid, y >= 7 air.
    for y in 0..CHUNK_SIZE {
        let wy = (y as i64) * CUBE_SIZE_MILLI;
        let want = block_at(wy, 10_000);
        for x in 0..CHUNK_SIZE {
            for z in 0..CHUNK_SIZE {
                let got = c.block_data[(x * CHUNK_SIZE + y) * CHUNK_SIZE + z];
                assert_eq!(got, want, "voxel ({x},{y},{z})");
            }
        }
    }
    assert_eq!(block_at(0, 10_000), BlockType::Stone);
    assert_eq!(block_at(8_500 / 1500 * 1500, 10_000), BlockType::Stone);
    assert_eq!(block_at(9_000, 10_000), BlockType::Grass);
    assert_eq!(block_at(10_500, 10_000), BlockType::Air);
}

#[test]
fn generate_combines_samples_exactly() {
    let cfg = TerrainConfig2d::new(2, 20_000, 10_000, 500, 2000);
    let gen = TerrainGenerator2d::new(3, &cfg).unwrap();
    // Terms: 1000 * 10000 / 1000 = 10000 and -500 * 5000 / 1000 = -2500.
    let samples = vec![1000i64, -500i64];
    assert_eq!(gen.generate(&samples), 7_500);
    let zero = vec![0i64, 0i64];
    assert_eq!(gen.generate(&zero), 0);
}

#[test]
fn layer_seeds_are_reproducible_and_distinct() {
    assert_eq!(layer_seed(1, 0), layer_seed(1, 0));
    assert_ne!(layer_seed(1, 0), layer_seed(1, 1));
    assert_ne!(layer_seed(1, 0), layer_seed(2, 0));
    let cfg = TerrainConfig2d::new(4, 20_000, 16_000, 500, 2000);
    let gen = TerrainGenerator2d::new(9, &cfg).unwrap();
    for i in 0..4 {
        assert_eq!(gen.layers[i].seed, layer_seed(9, i as u64));
    }
}

#[test]
fn config_faults_fail_fast() {
    let ok = TerrainConfig2d::new(1, 20_000, 10_000, 500, 500);
    assert!(TerrainGenerator2d::new(1, &ok).is_ok());

    let e = TerrainGenerator2d::new(1, &TerrainConfig2d::new(0, 20_000, 10_000, 500, 500));
    assert_eq!(e.err(), Some(TerrainConfigError::ZeroOctaves));
    let e = TerrainGenerator2d::new(1, &TerrainConfig2d::new(300, 20_000, 10_000, 500, 500));
    assert_eq!(e.err(), Some(TerrainConfigError::TooManyOctaves));
    let e = TerrainGenerator2d::new(1, &TerrainConfig2d::new(1, 0, 10_000, 500, 500));
    assert_eq!(e.err(), Some(TerrainConfigError::NonPositiveScaleWidth));
    let e = TerrainGenerator2d::new(1, &TerrainConfig2d::new(1, 20_000, -3, 500, 500));
    assert_eq!(e.err(), Some(TerrainConfigError::NonPositiveScaleHeight));
    let e = TerrainGenerator2d::new(1, &TerrainConfig2d::new(1, 20_000, 10_000, 0, 500));
    assert_eq!(e.err(), Some(TerrainConfigError::NonPositivePersistence));
    let e = TerrainGenerator2d::new(1, &TerrainConfig2d::new(1, 20_000, 10_000, 500, -1));
    assert_eq!(e.err(), Some(TerrainConfigError::NonPositiveLacunarity));
    // The recurrence leaving the admissible range is a fault too: growth
    // past the cap, or collapse of a scale to zero.
    let e = TerrainGenerator2d::new(
        1,
        &TerrainConfig2d::new(2, 1_000_000_000_000, 10_000, 500, 2000),
    );
    assert_eq!(e.err(), Some(TerrainConfigError::ScaleOutOfRange));
    let e = TerrainGenerator2d::new(1, &TerrainConfig2d::new(2, 1, 10_000, 500, 1));
    assert_eq!(e.err(), Some(TerrainConfigError::ScaleOutOfRange));
}

#[test]
fn default_generator_matches_default_config() {
    let gen = TerrainGenerator2d::default();
    assert_eq!(gen.layers.len(), 1);
    assert_eq!(gen.layers[0].scale_width, 20_000);
    assert_eq!(gen.layers[0].scale_height, 10_000);
    assert_eq!(gen.layers[0].seed, layer_seed(1, 0));
    let cfg = TerrainConfig2d::default();
    assert_eq!(cfg.octaves, 1);
    assert_eq!(cfg.scale_width, 20_000);
    assert_eq!(cfg.scale_height, 10_000);
    assert_eq!(cfg.persistence, 500);
    assert_eq!(cfg.lacunarity, 500);
}
