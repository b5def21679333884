//! Terrain rules: how noise-field samples become heights, biomes, caves,
//! ores and vegetation decisions.
//!
//! The noise fields themselves are evaluated by the host (they are
//! floating-point Perlin fields of an outside library); the library takes
//! each sample as a fixed-point value in millionths, so every rule below
//! is exact and deterministic: the same seed and position give the same
//! samples, and the same samples give the same terrain.

use vstd::prelude::*;

use crate::biome::Biome;
use crate::chunk::ChunkData;
use crate::kind::VoxelKind;

verus! {

/// The world seed and the derived seeds of its five independent noise
/// fields: terrain height, biome temperature, biome humidity, caves, and
/// detail (ores, trees). Equal seeds give equal fields.
#[derive(Clone, Copy, PartialEq, Eq, Structural, Debug)]
pub struct WorldSeed {
    pub seed: u32,
    pub terrain_seed: u32,
    pub biome_temp_seed: u32,
    pub biome_humid_seed: u32,
    pub cave_seed: u32,
    pub detail_seed: u32,
}

impl WorldSeed {
    /// Derives the five noise-field seeds from one world seed, each at a
    /// fixed offset so the fields are independent.
    pub fn new(seed: u32) -> (r: WorldSeed)
        ensures
            r.seed == seed,
            r.terrain_seed == seed,
            r.biome_temp_seed == seed.wrapping_add(1000),
            r.biome_humid_seed == seed.wrapping_add(2000),
            r.cave_seed == seed.wrapping_add(3000),
            r.detail_seed == seed.wrapping_add(4000),
    {
        WorldSeed {
            seed,
            terrain_seed: seed,
            biome_temp_seed: seed.wrapping_add(1000),
            biome_humid_seed: seed.wrapping_add(2000),
            cave_seed: seed.wrapping_add(3000),
            detail_seed: seed.wrapping_add(4000),
        }
    }

    /// Derives a world seed from a byte string by a simple polynomial
    /// hash, so a memorable name can seed a world.
    pub fn from_string(s: &[u8]) -> (r: WorldSeed)
        ensures
            r.seed == spec_string_seed(s@, s@.len() as int),
            r == WorldSeed::spec_new_from(spec_string_seed(s@, s@.len() as int)),
    {
        let mut acc: u32 = 0;
        let mut i: usize = 0;
        while i < s.len()
            invariant
                i <= s@.len(),
                acc == spec_string_seed(s@, i as int),
            decreases s@.len() - i,
        {
            acc = acc.wrapping_mul(31).wrapping_add(s[i] as u32);
            i = i + 1;
        }
        WorldSeed::new(acc)
    }

    /// The seed record derived from one numeric seed.
    pub open spec fn spec_new_from(seed: u32) -> WorldSeed {
        WorldSeed {
            seed,
            terrain_seed: seed,
            biome_temp_seed: ((seed + 1000) % 0x100000000) as u32,
            biome_humid_seed: ((seed + 2000) % 0x100000000) as u32,
            cave_seed: ((seed + 3000) % 0x100000000) as u32,
            detail_seed: ((seed + 4000) % 0x100000000) as u32,
        }
    }
}

/// The polynomial string hash over the first `n` bytes.
pub open spec fn spec_string_seed(s: Seq<u8>, n: int) -> u32
    decreases n,
{
    if n <= 0 {
        0
    } else {
        (((spec_string_seed(s, n - 1) * 31) % 0x100000000 + s[n - 1]) % 0x100000000) as u32
    }
}

impl Default for WorldSeed {
    /// The default world seed.
    fn default() -> (r: Self)
        ensures
            r == WorldSeed::spec_new_from(12345),
    {
        WorldSeed::new(12345)
    }
}

/// The water surface level, in world-voxel coordinates.
pub const WATER_LEVEL: i32 = 30;

/// The three octave samples of the height field at one column, each in
/// millionths: the base octave, the doubled-frequency octave and the
/// detail octave.
#[derive(Clone, Copy, PartialEq, Eq, Structural, Debug)]
pub struct HeightSample {
    pub coarse: i64,
    pub medium: i64,
    pub fine: i64,
}

/// A sample is plausible when each octave lies well within the nominal
/// noise range (allowing headroom beyond one unit).
pub open spec fn spec_sample_ok(v: i64) -> bool {
    -2000000 <= v <= 2000000
}

/// The terrain height of a column: a base elevation of 32 plus three
/// octaves weighted 12, 6 and 3 units, floored, and clamped below by 1.
pub open spec fn spec_height(s: HeightSample) -> int {
    let raw = 32 + (12 * s.coarse + 6 * s.medium + 3 * s.fine) / 1000000;
    if raw < 1 {
        1
    } else {
        raw
    }
}

/// A generator of terrain from a world seed's noise fields. The fields are
/// sampled by the host; every rule here is a pure function of the samples.
#[derive(Clone, Copy, PartialEq, Eq, Structural, Debug)]
pub struct TerrainGenerator {
    pub seed: WorldSeed,
}

impl TerrainGenerator {
    /// A generator for one world seed.
    pub fn new(seed: WorldSeed) -> (r: TerrainGenerator)
        ensures
            r.seed == seed,
    {
        TerrainGenerator { seed }
    }

    /// The terrain height of a column from its three height-field octaves:
    /// base elevation 32, octave weights 12, 6 and 3, never below 1. With
    /// samples in the nominal noise range the height stays at most 53.
    pub fn get_height(&self, s: HeightSample) -> (r: i32)
        requires
            spec_sample_ok(s.coarse),
            spec_sample_ok(s.medium),
            spec_sample_ok(s.fine),
        ensures
            r as int == spec_height(s),
            1 <= r,
            -1000000 <= s.coarse <= 1000000 && -1000000 <= s.medium <= 1000000 && -1000000
                <= s.fine <= 1000000 ==> r <= 53,
    {
        let mixed: i64 = 12 * s.coarse + 6 * s.medium + 3 * s.fine;
        let offset: i64 = match mixed.checked_div_euclid(1000000) {
            Some(v) => v,
            None => 0,
        };
        let raw: i64 = 32 + offset;
        if raw < 1 {
            1
        } else {
            raw as i32
        }
    }

    /// The biome of a column from its temperature and humidity samples
    /// (in millionths) and its height: low columns are ocean, then beach;
    /// cold columns split into taiga and snowy by humidity; hot dry
    /// columns are desert; then forest, birch forest and plains by
    /// decreasing humidity.
    pub fn get_biome(&self, temp: i64, humid: i64, height: i32) -> (r: Biome)
        ensures
            r == spec_biome(temp, humid, height as int),
    {
        if height < 28 {
            return Biome::Ocean;
        }
        if height < 32 {
            return Biome::Beach;
        }
        if temp < -300000 {
            if humid > 200000 {
                Biome::Taiga
            } else {
                Biome::Snowy
            }
        } else if temp > 300000 && humid < -200000 {
            Biome::Desert
        } else if humid > 300000 {
            Biome::Forest
        } else if humid > 0 {
            Biome::BirchForest
        } else {
            Biome::Plains
        }
    }

    /// Whether a cell is hollowed into a cave: only inside the cave band
    /// (5 to 60), where the cave field exceeds 0.55.
    pub fn is_cave(&self, y: i32, sample: i64) -> (r: bool)
        ensures
            r == spec_is_cave(y as int, sample),
    {
        if y > 60 || y < 5 {
            return false;
        }
        sample > 550000
    }

    /// The ore a deep cell holds, strictly gated by depth: the detail
    /// field above 0.7 places an ore; diamond needs depth below 16 and a
    /// sample above 0.85, gold depth below 32 and a sample above 0.8,
    /// iron depth below 48, and coal everywhere else in the ore band.
    pub fn get_ore(&self, y: i32, sample: i64) -> (r: Option<VoxelKind>)
        ensures
            r == spec_ore(y as int, sample),
    {
        if sample > 700000 {
            if y < 16 && sample > 850000 {
                Some(VoxelKind::DiamondOre)
            } else if y < 32 && sample > 800000 {
                Some(VoxelKind::GoldOre)
            } else if y < 48 {
                Some(VoxelKind::IronOre)
            } else {
                Some(VoxelKind::CoalOre)
            }
        } else {
            None
        }
    }

    /// Whether a column hosts a tree: each biome's base probability turns
    /// into a threshold on the detail sample (a higher probability means a
    /// lower threshold); biomes without trees never place one.
    pub fn should_place_tree(&self, biome: Biome, sample: i64) -> (r: bool)
        ensures
            r == spec_tree(biome, sample),
    {
        match biome {
            Biome::Forest | Biome::Taiga => sample > 880000,
            Biome::BirchForest => sample > 920000,
            Biome::Plains => sample > 994000,
            _ => false,
        }
    }

    /// Whether a cell belongs to a floating island: only in the island
    /// band (65 to 110), only where the sparse island field reaches 0.3,
    /// and where the combined terrain and detail fields exceed a threshold
    /// that tightens toward the band's edges (a vertical fade).
    pub fn is_floating_island(&self, y: i32, terrain3: i64, detail3: i64, island2: i64) -> (r:
        bool)
        requires
            spec_sample_ok(terrain3),
            spec_sample_ok(detail3),
            spec_sample_ok(island2),
        ensures
            r == spec_island(y as int, terrain3, detail3, island2),
    {
        if y < 65 || y > 110 {
            return false;
        }
        if island2 < 300000 {
            return false;
        }

        let y_factor: i64 = if y <= 87 {
            let num: i64 = (y as i64 - 65) * 2000000;
            match num.checked_div_euclid(45) {
                Some(v) => v,
                None => 0,
            }
        } else {
            let num: i64 = (110 - y as i64) * 2000000;
            match num.checked_div_euclid(45) {
                Some(v) => v,
                None => 0,
            }
        };
        let threshold: i64 = 400000 - (match y_factor.checked_div_euclid(5) {
            Some(v) => v,
            None => 0,
        });
        let detail_part: i64 = match (detail3 * 3).checked_div_euclid(10) {
            Some(v) => v,
            None => 0,
        };
        terrain3 + detail_part > threshold
    }
}

/// The biome rule over fixed-point samples.
pub open spec fn spec_biome(temp: i64, humid: i64, height: int) -> Biome {
    if height < 28 {
        Biome::Ocean
    } else if height < 32 {
        Biome::Beach
    } else if temp < -300000 {
        if humid > 200000 {
            Biome::Taiga
        } else {
            Biome::Snowy
        }
    } else if temp > 300000 && humid < -200000 {
        Biome::Desert
    } else if humid > 300000 {
        Biome::Forest
    } else if humid > 0 {
        Biome::BirchForest
    } else {
        Biome::Plains
    }
}

/// The cave rule: inside the cave band, above the cave threshold.
pub open spec fn spec_is_cave(y: int, sample: i64) -> bool {
    5 <= y <= 60 && sample > 550000
}

/// The ore rule, strictly depth-gated.
pub open spec fn spec_ore(y: int, sample: i64) -> Option<VoxelKind> {
    if sample > 700000 {
        if y < 16 && sample > 850000 {
            Some(VoxelKind::DiamondOre)
        } else if y < 32 && sample > 800000 {
            Some(VoxelKind::GoldOre)
        } else if y < 48 {
            Some(VoxelKind::IronOre)
        } else {
            Some(VoxelKind::CoalOre)
        }
    } else {
        None
    }
}

/// The tree rule: a per-biome threshold on the detail sample.
pub open spec fn spec_tree(biome: Biome, sample: i64) -> bool {
    match biome {
        Biome::Forest | Biome::Taiga => sample > 880000,
        Biome::BirchForest => sample > 920000,
        Biome::Plains => sample > 994000,
        _ => false,
    }
}

/// The floating-island rule with its vertical fade.
pub open spec fn spec_island(y: int, terrain3: i64, detail3: i64, island2: i64) -> bool {
    &&& 65 <= y <= 110
    &&& island2 >= 300000
    &&& {
        let y_factor = if y <= 87 {
            (y - 65) * 2000000 / 45
        } else {
            (110 - y) * 2000000 / 45
        };
        let threshold = 400000 - y_factor / 5;
        terrain3 + detail3 * 3 / 10 > threshold
    }
}

/// The voxel a column cell holds before vegetation: bedrock at the world
/// floor; below the surface a cave hollow, the surface block, the
/// subsurface band, or deep rock and ore; between the surface and the
/// water level water (ice capping snowy biomes); above the water level a
/// floating island's grass top, stone underside or dirt interior; air
/// everywhere else.
pub open spec fn spec_column_voxel(
    world_y: int,
    height: int,
    biome: Biome,
    cave: bool,
    ore: Option<VoxelKind>,
    island_here: bool,
    island_above: bool,
    island_below: bool,
) -> VoxelKind {
    if world_y == 0 {
        VoxelKind::Stone
    } else if world_y < height {
        if cave {
            VoxelKind::Air
        } else if world_y == height - 1 {
            crate::biome::spec_surface_block(biome)
        } else if world_y > height - 5 {
            crate::biome::spec_subsurface_block(biome)
        } else {
            match ore {
                Some(k) => k,
                None => VoxelKind::Stone,
            }
        }
    } else if world_y >= height && world_y <= WATER_LEVEL as int {
        if biome == Biome::Snowy && world_y == WATER_LEVEL as int {
            VoxelKind::Ice
        } else {
            VoxelKind::Water
        }
    } else if world_y > WATER_LEVEL as int && island_here {
        if !island_above {
            VoxelKind::Grass
        } else if !island_below || world_y < 68 {
            VoxelKind::Stone
        } else {
            VoxelKind::Dirt
        }
    } else {
        VoxelKind::Air
    }
}

/// The voxel a column cell holds before vegetation; see
/// [`spec_column_voxel`] for the precedence ladder.
pub fn column_voxel(
    world_y: i32,
    height: i32,
    biome: Biome,
    cave: bool,
    ore: Option<VoxelKind>,
    island_here: bool,
    island_above: bool,
    island_below: bool,
) -> (r: VoxelKind)
    requires
        -2000000 <= world_y <= 2000000,
        -2000000 <= height <= 2000000,
    ensures
        r == spec_column_voxel(
            world_y as int,
            height as int,
            biome,
            cave,
            ore,
            island_here,
            island_above,
            island_below,
        ),
{
    if world_y == 0 {
        VoxelKind::Stone
    } else if world_y < height {
        if cave {
            VoxelKind::Air
        } else if world_y == height - 1 {
            biome.surface_block()
        } else if world_y > height - 5 {
            biome.subsurface_block()
        } else {
            match ore {
                Some(k) => k,
                None => VoxelKind::Stone,
            }
        }
    } else if world_y >= height && world_y <= WATER_LEVEL {
        if matches!(biome, Biome::Snowy) && world_y == WATER_LEVEL {
            VoxelKind::Ice
        } else {
            VoxelKind::Water
        }
    } else if world_y > WATER_LEVEL && island_here {
        if !island_above {
            VoxelKind::Grass
        } else if !island_below || world_y < 68 {
            VoxelKind::Stone
        } else {
            VoxelKind::Dirt
        }
    } else {
        VoxelKind::Air
    }
}

/// Below the water line, a column never shows its biome's surface block
/// above the water: every cell from the surface up to the water level is
/// water or ice, never the surface block, for the biomes the generator
/// assigns there (ocean below 28, beach below 32).
pub proof fn lemma_submerged_columns_hold_water(
    world_y: int,
    height: int,
    temp: i64,
    humid: i64,
    cave: bool,
    ore: Option<VoxelKind>,
)
    requires
        1 <= height <= WATER_LEVEL as int,
        height <= world_y <= WATER_LEVEL as int,
    ensures
        ({
            let b = spec_biome(temp, humid, height);
            let v = spec_column_voxel(world_y, height, b, cave, ore, false, false, false);
            v == VoxelKind::Water || v == VoxelKind::Ice
        }),
{
}


// ===========================================================================
// Chunk filling
// ===========================================================================

/// The per-column noise samples a chunk fill needs: the three height
/// octaves and the two climate fields, all in millionths.
#[derive(Clone, Copy, PartialEq, Eq, Structural, Debug)]
pub struct ColumnSample {
    pub height: HeightSample,
    pub temp: i64,
    pub humid: i64,
}

/// The island samples for one cell probe: the island-shaped terrain field
/// and the detail field, in millionths.
#[derive(Clone, Copy, PartialEq, Eq, Structural, Debug)]
pub struct IslandSample {
    pub terrain3: i64,
    pub detail3: i64,
}

/// Whether every sample a chunk fill takes is in the plausible range.
pub open spec fn spec_fill_input_ok(
    cols: Seq<ColumnSample>,
    cave: Seq<i64>,
    ore: Seq<i64>,
    island: Seq<IslandSample>,
    island2: Seq<i64>,
) -> bool {
    &&& cols.len() == 256
    &&& cave.len() == 4096
    &&& ore.len() == 4096
    &&& island.len() == 4608
    &&& island2.len() == 256
    &&& forall|c: int|
        0 <= c < 256 ==> {
            let s = #[trigger] cols[c];
            &&& spec_sample_ok(s.height.coarse)
            &&& spec_sample_ok(s.height.medium)
            &&& spec_sample_ok(s.height.fine)
        }
    &&& forall|j: int|
        0 <= j < 4608 ==> {
            let s = #[trigger] island[j];
            spec_sample_ok(s.terrain3) && spec_sample_ok(s.detail3)
        }
    &&& forall|c: int| 0 <= c < 256 ==> spec_sample_ok(#[trigger] island2[c])
}

/// Whether a cell probe one step above or below the chunk belongs to a
/// floating island, from the extended island samples: the probe row for
/// local height `y` sits at `(y + 1) * 256` in the extended array.
pub open spec fn spec_island_at(
    origin_y: int,
    island: Seq<IslandSample>,
    island2: Seq<i64>,
    x: int,
    y: int,
    z: int,
) -> bool {
    let s = island[(y + 1) * 256 + z * 16 + x];
    spec_island(origin_y + y, s.terrain3, s.detail3, island2[z * 16 + x])
}

/// The voxel one chunk cell takes in a fill: the column rule over the
/// cell's own column and cave, ore and island samples.
pub open spec fn spec_fill_cell(
    origin_y: int,
    cols: Seq<ColumnSample>,
    cave: Seq<i64>,
    ore: Seq<i64>,
    island: Seq<IslandSample>,
    island2: Seq<i64>,
    x: int,
    y: int,
    z: int,
) -> VoxelKind {
    let col = cols[z * 16 + x];
    let idx = y * 256 + z * 16 + x;
    let height = spec_height(col.height);
    let biome = spec_biome(col.temp, col.humid, height);
    spec_column_voxel(
        origin_y + y,
        height,
        biome,
        spec_is_cave(origin_y + y, cave[idx]),
        spec_ore(origin_y + y, ore[idx]),
        spec_island_at(origin_y, island, island2, x, y, z),
        spec_island_at(origin_y, island, island2, x, y + 1, z),
        spec_island_at(origin_y, island, island2, x, y - 1, z),
    )
}

/// Fills one chunk from its noise samples: every cell takes the column
/// rule's voxel for its world height, column climate, and cave, ore and
/// floating-island samples. The result is a fresh chunk (clean auxiliary
/// state, marked dirty); the same samples always give the same chunk, so
/// generation is deterministic in the seed and position that produced the
/// samples.
pub fn fill_chunk(
    origin_y: i32,
    cols: &Vec<ColumnSample>,
    cave: &Vec<i64>,
    ore: &Vec<i64>,
    island: &Vec<IslandSample>,
    island2: &Vec<i64>,
) -> (r: ChunkData)
    requires
        -1000000 <= origin_y <= 1000000,
        spec_fill_input_ok(cols@, cave@, ore@, island@, island2@),
    ensures
        r.spec_wf(),
        r.is_dirty,
        forall|x: int, y: int, z: int|
            crate::chunk::spec_in_bounds(x, y, z) ==> r.spec_get(x, y, z) == spec_fill_cell(
                origin_y as int,
                cols@,
                cave@,
                ore@,
                island@,
                island2@,
                x,
                y,
                z,
            ),
        forall|i: int| 0 <= i < 4096 ==> r.flags[i].bits == 0,
        forall|i: int| 0 <= i < 4096 ==> r.variant[i] == 0,
        r.thermal_state is None,
        r.changes@.len() == 0,
{
    let mut voxels: Vec<VoxelKind> = Vec::new();
    let mut idx: usize = 0;
    while idx < 4096
        invariant
            -1000000 <= origin_y <= 1000000,
            spec_fill_input_ok(cols@, cave@, ore@, island@, island2@),
            idx <= 4096,
            voxels@.len() == idx,
            forall|j: int|
                0 <= j < idx ==> #[trigger] voxels@[j] == spec_fill_cell(
                    origin_y as int,
                    cols@,
                    cave@,
                    ore@,
                    island@,
                    island2@,
                    j % 16,
                    j / 256,
                    (j / 16) % 16,
                ),
        decreases 4096 - idx,
    {
        let x = (idx % 16) as i32;
        let z = ((idx / 16) % 16) as i32;
        let y = (idx / 256) as i32;
        let col = cols[(z * 16 + x) as usize];
        let world_y = origin_y + y;

        let height = TerrainGenerator { seed: WorldSeed::new(0) }.get_height(col.height);
        let gen = TerrainGenerator { seed: WorldSeed::new(0) };
        let biome = gen.get_biome(col.temp, col.humid, height);

        let here = island_probe(origin_y, island, island2, x, y, z);
        let above = island_probe(origin_y, island, island2, x, y + 1, z);
        let below = island_probe(origin_y, island, island2, x, y - 1, z);

        let kind = column_voxel(
            world_y,
            height,
            biome,
            gen.is_cave(world_y, cave[idx]),
            gen.get_ore(world_y, ore[idx]),
            here,
            above,
            below,
        );
        voxels.push(kind);
        idx = idx + 1;
    }

    let mut chunk = ChunkData::new();
    chunk.voxels = voxels;
    proof {
        assert forall|x: int, y: int, z: int|
            crate::chunk::spec_in_bounds(x, y, z) implies chunk.spec_get(x, y, z)
            == spec_fill_cell(
            origin_y as int,
            cols@,
            cave@,
            ore@,
            island@,
            island2@,
            x,
            y,
            z,
        ) by {
            let j = crate::chunk::spec_index(x, y, z);
            assert(j % 16 == x && j / 256 == y && (j / 16) % 16 == z);
        }
    }
    chunk
}

/// One island probe of the extended sample rows.
fn island_probe(
    origin_y: i32,
    island: &Vec<IslandSample>,
    island2: &Vec<i64>,
    x: i32,
    y: i32,
    z: i32,
) -> (r: bool)
    requires
        -1000000 <= origin_y <= 1000000,
        island@.len() == 4608,
        island2@.len() == 256,
        0 <= x < 16,
        -1 <= y <= 16,
        0 <= z < 16,
        forall|j: int|
            0 <= j < 4608 ==> {
                let s = #[trigger] island@[j];
                spec_sample_ok(s.terrain3) && spec_sample_ok(s.detail3)
            },
        forall|c: int| 0 <= c < 256 ==> spec_sample_ok(#[trigger] island2@[c]),
    ensures
        r == spec_island_at(origin_y as int, island@, island2@, x as int, y as int, z as int),
{
    let s = island[((y + 1) * 256 + z * 16 + x) as usize];
    let gen = TerrainGenerator { seed: WorldSeed::new(0) };
    gen.is_floating_island(origin_y + y, s.terrain3, s.detail3, island2[(z * 16 + x) as usize])
}

// ===========================================================================
// Trees
// ===========================================================================

/// The trunk and leaf kinds and the trunk height a biome's trees take;
/// biomes without trees grow none.
pub open spec fn spec_tree_parts(biome: Biome) -> Option<(VoxelKind, VoxelKind, int)> {
    match biome {
        Biome::Forest => Some((VoxelKind::OakLog, VoxelKind::OakLeaves, 5int)),
        Biome::Plains => Some((VoxelKind::OakLog, VoxelKind::OakLeaves, 5int)),
        Biome::BirchForest => Some((VoxelKind::BirchLog, VoxelKind::BirchLeaves, 6int)),
        Biome::Taiga => Some((VoxelKind::SpruceLog, VoxelKind::SpruceLeaves, 6int)),
        Biome::Snowy => Some((VoxelKind::SpruceLog, VoxelKind::SpruceLeaves, 6int)),
        Biome::FloatingIslands => Some((VoxelKind::OakLog, VoxelKind::OakLeaves, 4int)),
        _ => None,
    }
}

/// Whether a cell lies on the stamped tree's trunk: the anchor column,
/// from the base for the trunk height.
pub open spec fn spec_trunk_covers(
    x: int,
    y: int,
    z: int,
    local_x: int,
    local_z: int,
    base_world_y: int,
    chunk_y_min: int,
    trunk_h: int,
) -> bool {
    let dy = chunk_y_min + y - base_world_y;
    x == local_x && z == local_z && 0 <= dy < trunk_h
}

/// Whether a cell lies in the stamped tree's leaf diamond: the two layers
/// below the canopy top use radius two, the two above use radius one; a
/// Manhattan bound shapes the diamond, and the trunk's own column below
/// the canopy top is never overwritten.
pub open spec fn spec_leaf_covers(
    x: int,
    y: int,
    z: int,
    local_x: int,
    local_z: int,
    base_world_y: int,
    chunk_y_min: int,
    trunk_h: int,
) -> bool {
    let dy = chunk_y_min + y - base_world_y;
    let dx = x - local_x;
    let dz = z - local_z;
    let radius: int = if dy >= trunk_h {
        1
    } else {
        2
    };
    &&& trunk_h - 2 <= dy < trunk_h + 2
    &&& -radius <= dx <= radius
    &&& -radius <= dz <= radius
    &&& !(dx == 0 && dz == 0 && dy < trunk_h)
    &&& abs_int2(dx) + abs_int2(dz) <= radius + 1
}

/// Absolute value of a mathematical integer.
pub open spec fn abs_int2(v: int) -> int {
    if v < 0 {
        -v
    } else {
        v
    }
}

/// The voxel a cell holds after one tree stamp: trunk over leaf over the
/// prior contents.
pub open spec fn spec_tree_cell(
    prior: VoxelKind,
    x: int,
    y: int,
    z: int,
    local_x: int,
    local_z: int,
    base_world_y: int,
    chunk_y_min: int,
    log: VoxelKind,
    leaves: VoxelKind,
    trunk_h: int,
) -> VoxelKind {
    if spec_trunk_covers(x, y, z, local_x, local_z, base_world_y, chunk_y_min, trunk_h) {
        log
    } else if spec_leaf_covers(x, y, z, local_x, local_z, base_world_y, chunk_y_min, trunk_h) {
        leaves
    } else {
        prior
    }
}

/// Stamps the part of one tree that falls inside this chunk: a biome-fixed
/// trunk height of logs on the anchor column and a diamond of leaves
/// around the canopy, clipped to the chunk's bounds; cells the stamp does
/// not cover keep their contents, and a biome without trees stamps
/// nothing. Cross-chunk trees continue correctly because each affected
/// chunk stamps the same deterministic tree against its own range.
pub fn generate_tree_partial(
    chunk: &mut ChunkData,
    local_x: i32,
    tree_base_world_y: i32,
    local_z: i32,
    biome: Biome,
    chunk_y_min: i32,
)
    requires
        old(chunk).spec_wf(),
        0 <= local_x < 16,
        0 <= local_z < 16,
        -2000000 <= tree_base_world_y <= 2000000,
        -2000000 <= chunk_y_min <= 2000000,
    ensures
        final(chunk).spec_wf(),
        spec_tree_parts(biome) is None ==> *final(chunk) == *old(chunk),
        spec_tree_parts(biome) is Some ==> {
            let (log, leaves, trunk_h) = spec_tree_parts(biome)->0;
            forall|x: int, y: int, z: int|
                crate::chunk::spec_in_bounds(x, y, z) ==> final(chunk).spec_get(x, y, z)
                    == spec_tree_cell(
                    old(chunk).spec_get(x, y, z),
                    x,
                    y,
                    z,
                    local_x as int,
                    local_z as int,
                    tree_base_world_y as int,
                    chunk_y_min as int,
                    log,
                    leaves,
                    trunk_h,
                )
        },
        final(chunk).flags == old(chunk).flags,
        final(chunk).variant == old(chunk).variant,
        final(chunk).thermal_state == old(chunk).thermal_state,
        final(chunk).changes == old(chunk).changes,
        final(chunk).dirty_blocks == old(chunk).dirty_blocks,
        final(chunk).needs_remesh == old(chunk).needs_remesh,
        final(chunk).active_thermal == old(chunk).active_thermal,
        final(chunk).active_burning == old(chunk).active_burning,
        final(chunk).active_freezing == old(chunk).active_freezing,
        final(chunk).active_melting == old(chunk).active_melting,
{
    let (log, leaves, trunk_h): (VoxelKind, VoxelKind, i32) = match biome {
        Biome::Forest | Biome::Plains => (VoxelKind::OakLog, VoxelKind::OakLeaves, 5),
        Biome::BirchForest => (VoxelKind::BirchLog, VoxelKind::BirchLeaves, 6),
        Biome::Taiga | Biome::Snowy => (VoxelKind::SpruceLog, VoxelKind::SpruceLeaves, 6),
        Biome::FloatingIslands => (VoxelKind::OakLog, VoxelKind::OakLeaves, 4),
        _ => {
            return ;
        },
    };

    let mut idx: usize = 0;
    while idx < 4096
        invariant
            chunk.spec_wf(),
            0 <= local_x < 16,
            0 <= local_z < 16,
            -2000000 <= tree_base_world_y <= 2000000,
            -2000000 <= chunk_y_min <= 2000000,
            spec_tree_parts(biome) == Some((log, leaves, trunk_h as int)),
            idx <= 4096,
            forall|j: int|
                0 <= j < 4096 ==> #[trigger] chunk.voxels@[j] == (if j < idx {
                    spec_tree_cell(
                        old(chunk).voxels@[j],
                        j % 16,
                        j / 256,
                        (j / 16) % 16,
                        local_x as int,
                        local_z as int,
                        tree_base_world_y as int,
                        chunk_y_min as int,
                        log,
                        leaves,
                        trunk_h as int,
                    )
                } else {
                    old(chunk).voxels@[j]
                }),
            chunk.is_dirty == old(chunk).is_dirty || chunk.is_dirty,
            chunk.flags == old(chunk).flags,
            chunk.variant == old(chunk).variant,
            chunk.thermal_state == old(chunk).thermal_state,
            chunk.changes == old(chunk).changes,
            chunk.dirty_blocks == old(chunk).dirty_blocks,
            chunk.needs_remesh == old(chunk).needs_remesh,
            chunk.active_thermal == old(chunk).active_thermal,
            chunk.active_burning == old(chunk).active_burning,
            chunk.active_freezing == old(chunk).active_freezing,
            chunk.active_melting == old(chunk).active_melting,
        decreases 4096 - idx,
    {
        let x = (idx % 16) as i32;
        let z = ((idx / 16) % 16) as i32;
        let y = (idx / 256) as i32;
        let dy = chunk_y_min + y - tree_base_world_y;
        let dx = x - local_x;
        let dz = z - local_z;

        let trunk = dx == 0 && dz == 0 && 0 <= dy && dy < trunk_h;
        let radius: i32 = if dy >= trunk_h {
            1
        } else {
            2
        };
        let leaf = trunk_h - 2 <= dy && dy < trunk_h + 2 && -radius <= dx && dx <= radius
            && -radius <= dz && dz <= radius && !(dx == 0 && dz == 0 && dy < trunk_h) && abs_i32v(
            dx,
        ) + abs_i32v(dz) <= radius + 1;

        if trunk {
            chunk.set(x, y, z, log);
        } else if leaf {
            chunk.set(x, y, z, leaves);
        }
        proof {
            assert(crate::chunk::spec_index(x as int, y as int, z as int) == idx as int);
        }
        idx = idx + 1;
    }
    proof {
        assert forall|x: int, y: int, z: int|
            crate::chunk::spec_in_bounds(x, y, z) implies chunk.spec_get(x, y, z)
            == spec_tree_cell(
            old(chunk).spec_get(x, y, z),
            x,
            y,
            z,
            local_x as int,
            local_z as int,
            tree_base_world_y as int,
            chunk_y_min as int,
            log,
            leaves,
            trunk_h as int,
        ) by {
            let j = crate::chunk::spec_index(x, y, z);
            assert(j % 16 == x && j / 256 == y && (j / 16) % 16 == z);
        }
    }
}

/// Absolute value of a small `i32`.
fn abs_i32v(v: i32) -> (r: i32)
    requires
        -1000000000 <= v <= 1000000000,
    ensures
        r as int == abs_int2(v as int),
{
    if v < 0 {
        -v
    } else {
        v
    }
}

} // verus!
