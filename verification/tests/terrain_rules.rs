use noise::{NoiseFn, Perlin};
use voxworld::terrain::{
    column_voxel, fill_chunk, generate_tree_partial, ColumnSample, HeightSample, IslandSample,
    WATER_LEVEL,
};
use voxworld::ChunkData;
use voxworld::{Biome, TerrainGenerator, VoxelKind, WorldSeed};

/// Quantizes one noise value to the library's fixed-point millionths.
fn q(v: f64) -> i64 {
    (v * 1_000_000.0) as i64
}

struct Sampler {
    terrain: Perlin,
    biome_temp: Perlin,
    biome_humid: Perlin,
    detail: Perlin,
}

impl Sampler {
    fn new(seed: &WorldSeed) -> Sampler {
        Sampler {
            terrain: Perlin::new(seed.terrain_seed),
            biome_temp: Perlin::new(seed.biome_temp_seed),
            biome_humid: Perlin::new(seed.biome_humid_seed),
            detail: Perlin::new(seed.detail_seed),
        }
    }

    fn height_sample(&self, x: i32, z: i32) -> HeightSample {
        let fx = x as f64 * 0.02;
        let fz = z as f64 * 0.02;
        HeightSample {
            coarse: q(self.terrain.get([fx, fz])),
            medium: q(self.terrain.get([fx * 2.0, fz * 2.0])),
            fine: q(self.detail.get([fx * 4.0, fz * 4.0])),
        }
    }

    fn climate(&self, x: i32, z: i32) -> (i64, i64) {
        let fx = x as f64 * 0.008;
        let fz = z as f64 * 0.008;
        (q(self.biome_temp.get([fx, fz])), q(self.biome_humid.get([fx, fz])))
    }
}

#[test]
fn test_terrain_scenario() {
    // seed 12345 at world (0, 0): the height lands in the valid band and
    // the biome is one of the eight generated biomes
    let seed = WorldSeed::new(12345);
    let generator = TerrainGenerator::new(seed);
    let sampler = Sampler::new(&seed);

    let h = generator.get_height(sampler.height_sample(0, 0));
    assert!(h >= 1 && h <= 53);

    let (t, hu) = sampler.climate(0, 0);
    let b = generator.get_biome(t, hu, h);
    assert!(matches!(
        b,
        Biome::Plains
            | Biome::Forest
            | Biome::BirchForest
            | Biome::Desert
            | Biome::Snowy
            | Biome::Taiga
            | Biome::Ocean
            | Biome::Beach
    ));

    // below-water columns never show the biome's surface block above the
    // water line: every cell between the surface and the water level is
    // water or ice
    for x in -32..32 {
        for z in -32..32 {
            let h = generator.get_height(sampler.height_sample(x, z));
            if h <= WATER_LEVEL {
                let (t, hu) = sampler.climate(x, z);
                let b = generator.get_biome(t, hu, h);
                for y in h..=WATER_LEVEL {
                    let v = column_voxel(y, h, b, false, None, false, false, false);
                    assert!(v == VoxelKind::Water || v == VoxelKind::Ice);
                    assert_ne!(v, b.surface_block());
                }
            }
        }
    }
}

#[test]
fn test_terrain_deterministic() {
    // the same seed and position sampled twice give bit-identical columns
    let seed = WorldSeed::new(9001);
    let generator = TerrainGenerator::new(seed);

    let build_column = |x: i32, z: i32| -> Vec<VoxelKind> {
        let sampler = Sampler::new(&seed);
        let cave = Perlin::new(seed.cave_seed);
        let detail = Perlin::new(seed.detail_seed);
        let h = generator.get_height(sampler.height_sample(x, z));
        let (t, hu) = sampler.climate(x, z);
        let b = generator.get_biome(t, hu, h);
        (0..64)
            .map(|y| {
                let cs = q(cave.get([x as f64 * 0.08, y as f64 * 0.08, z as f64 * 0.08]));
                let os = q(detail.get([x as f64 * 0.15, y as f64 * 0.15, z as f64 * 0.15]));
                column_voxel(
                    y,
                    h,
                    b,
                    generator.is_cave(y, cs),
                    generator.get_ore(y, os),
                    false,
                    false,
                    false,
                )
            })
            .collect()
    };

    for x in 0..8 {
        for z in 0..8 {
            assert_eq!(build_column(x, z), build_column(x, z));
        }
    }
}

#[test]
fn test_ore_depth_gating() {
    let generator = TerrainGenerator::new(WorldSeed::new(1));
    // a very strong sample places diamond only at depth
    assert_eq!(generator.get_ore(10, 900_000), Some(VoxelKind::DiamondOre));
    assert_eq!(generator.get_ore(20, 900_000), Some(VoxelKind::GoldOre));
    assert_eq!(generator.get_ore(40, 900_000), Some(VoxelKind::IronOre));
    assert_eq!(generator.get_ore(50, 900_000), Some(VoxelKind::CoalOre));
    // a weak sample places nothing
    assert_eq!(generator.get_ore(10, 500_000), None);
}

#[test]
fn test_cave_band() {
    let generator = TerrainGenerator::new(WorldSeed::new(1));
    assert!(generator.is_cave(30, 600_000));
    assert!(!generator.is_cave(4, 600_000)); // below the band
    assert!(!generator.is_cave(61, 600_000)); // above the band
    assert!(!generator.is_cave(30, 500_000)); // under the threshold
}

#[test]
fn test_tree_thresholds() {
    let generator = TerrainGenerator::new(WorldSeed::new(1));
    assert!(generator.should_place_tree(Biome::Forest, 890_000));
    assert!(!generator.should_place_tree(Biome::Forest, 870_000));
    assert!(generator.should_place_tree(Biome::Plains, 995_000));
    assert!(!generator.should_place_tree(Biome::Plains, 990_000));
    assert!(!generator.should_place_tree(Biome::Ocean, 999_999));
}

#[test]
fn test_column_precedence() {
    // the world floor is bedrock-like stone whatever else holds
    assert_eq!(
        column_voxel(0, 40, Biome::Plains, true, Some(VoxelKind::CoalOre), false, false, false),
        VoxelKind::Stone
    );
    // a cave hollows the underground
    assert_eq!(
        column_voxel(10, 40, Biome::Plains, true, None, false, false, false),
        VoxelKind::Air
    );
    // the surface layer takes the biome's surface block
    assert_eq!(
        column_voxel(39, 40, Biome::Desert, false, None, false, false, false),
        VoxelKind::Sand
    );
    // the subsurface band
    assert_eq!(
        column_voxel(36, 40, Biome::Plains, false, None, false, false, false),
        VoxelKind::Dirt
    );
    // the deep interior takes ore over stone
    assert_eq!(
        column_voxel(10, 40, Biome::Plains, false, Some(VoxelKind::IronOre), false, false, false),
        VoxelKind::IronOre
    );
    // a snowy biome caps its water with ice exactly at the water level
    assert_eq!(
        column_voxel(30, 20, Biome::Snowy, false, None, false, false, false),
        VoxelKind::Ice
    );
    // an island top above the water level is grass
    assert_eq!(
        column_voxel(70, 20, Biome::Plains, false, None, true, false, true),
        VoxelKind::Grass
    );
    // open sky is air
    assert_eq!(
        column_voxel(50, 40, Biome::Plains, false, None, false, false, false),
        VoxelKind::Air
    );
}

#[test]
fn test_fill_chunk_matches_column_rule() {
    // flat samples: height 32 everywhere, plains, no caves, no ore, no islands
    let cols = vec![
        ColumnSample {
            height: HeightSample { coarse: 0, medium: 0, fine: 0 },
            temp: 0,
            humid: 0,
        };
        256
    ];
    let cave = vec![0i64; 4096];
    let ore = vec![0i64; 4096];
    let island = vec![IslandSample { terrain3: 0, detail3: 0 }; 4608];
    let island2 = vec![0i64; 256];

    // the chunk starting at world height 32 is all air above the surface
    let top = fill_chunk(32, &cols, &cave, &ore, &island, &island2);
    assert!(top.is_empty());

    // the chunk starting at world height 16 is underground: its top layer
    // at world height 31 is the surface block, below that dirt, then stone
    let ground = fill_chunk(16, &cols, &cave, &ore, &island, &island2);
    assert_eq!(ground.get(0, 15, 0), VoxelKind::Grass); // world y 31 == height - 1
    assert_eq!(ground.get(0, 14, 0), VoxelKind::Dirt); // subsurface band
    assert_eq!(ground.get(0, 5, 0), VoxelKind::Stone); // deep interior
    assert!(ground.is_dirty);

    // filling twice from the same samples gives identical chunks
    let again = fill_chunk(16, &cols, &cave, &ore, &island, &island2);
    assert_eq!(ground.voxels, again.voxels);
}

#[test]
fn test_generate_tree_partial_stamp() {
    let mut chunk = ChunkData::new();
    // an oak stamped at the chunk's center, base at world height 2,
    // chunk starting at world height 0: trunk of 5 logs, diamond canopy
    generate_tree_partial(&mut chunk, 8, 2, 8, Biome::Forest, 0);

    for dy in 0..5 {
        assert_eq!(chunk.get(8, 2 + dy, 8), VoxelKind::OakLog);
    }
    assert_eq!(chunk.get(8, 7, 8), VoxelKind::OakLeaves); // above the canopy top
    assert_eq!(chunk.get(9, 5, 8), VoxelKind::OakLeaves); // beside the trunk
    assert_eq!(chunk.get(10, 5, 8), VoxelKind::OakLeaves); // radius two layer
    assert_eq!(chunk.get(10, 7, 8), VoxelKind::Air); // outside the radius-one layer
    assert_eq!(chunk.get(11, 5, 8), VoxelKind::Air); // beyond the diamond
    assert_eq!(chunk.get(8, 1, 8), VoxelKind::Air); // below the base

    // an ocean column stamps nothing
    let mut untouched = ChunkData::new();
    generate_tree_partial(&mut untouched, 8, 2, 8, Biome::Ocean, 0);
    assert!(untouched.is_empty());

    // a tree clipped by the chunk's vertical range stamps only its part
    let mut clipped = ChunkData::new();
    generate_tree_partial(&mut clipped, 8, -3, 8, Biome::Forest, 0);
    assert_eq!(clipped.get(8, 0, 8), VoxelKind::OakLog); // trunk top half
    assert_eq!(clipped.get(8, 1, 8), VoxelKind::OakLog);
    assert_eq!(clipped.get(8, 2, 8), VoxelKind::OakLeaves); // canopy above the trunk
}
