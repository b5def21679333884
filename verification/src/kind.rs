//! The voxel catalog: the closed set of voxel kinds and the immutable
//! physical properties of each kind.
//!
//! All physical quantities are stored as fixed-point integers so that the
//! simulation is exact: temperatures in milli-degrees Celsius, conductivities
//! and dimensionless coefficients in thousandths (per-mille), heat capacities
//! in joules per kelvin, energies in joules, and heat release in watts.

use vstd::prelude::*;

verus! {

/// A voxel kind. Identity only; all physical behaviour derives from the
/// catalog entry returned by [`VoxelKind::def`].
#[derive(Clone, Copy, PartialEq, Eq, Structural, Debug, Hash)]
pub enum VoxelKind {
    Air,
    Grass,
    Dirt,
    Stone,
    Sand,
    Gravel,
    Clay,
    Snow,
    Ice,
    Water,
    OakLog,
    OakLeaves,
    BirchLog,
    BirchLeaves,
    SpruceLog,
    SpruceLeaves,
    Cactus,
    CoalOre,
    IronOre,
    GoldOre,
    DiamondOre,
    Flower,
    TallGrass,
    DeadBush,
}

impl Default for VoxelKind {
    /// The default voxel kind is air.
    fn default() -> (r: Self)
        ensures
            r == VoxelKind::Air,
    {
        VoxelKind::Air
    }
}

/// A display color with 8-bit channels.
#[derive(Clone, Copy, PartialEq, Eq, Structural, Debug)]
pub struct ColorRgba {
    pub r: u8,
    pub g: u8,
    pub b: u8,
    pub a: u8,
}

/// Immutable physical properties of one voxel kind.
///
/// Units: `temperature` and the phase-transition points are milli-degrees
/// Celsius; `heat_capacity` is joules per kelvin; `burn_energy` is joules;
/// `heat_release` is watts; every other numeric field is a dimensionless
/// coefficient in thousandths.
#[derive(Clone, Copy, PartialEq, Eq, Structural, Debug)]
pub struct VoxelProperties {
    pub temperature: i64,
    pub heat_capacity: i64,
    pub thermal_conductivity: i64,
    pub env_exchange_coef: i64,
    pub humidity: i64,
    pub moisture_capacity: i64,
    pub evaporation_rate: i64,
    pub is_flammable: bool,
    pub ignition_temp: i64,
    pub burn_energy: i64,
    pub burn_rate: i64,
    pub heat_release: i64,
    pub melting_point: Option<i64>,
    pub freezing_point: Option<i64>,
    pub boiling_point: Option<i64>,
    pub liquid_form: Option<VoxelKind>,
    pub solid_form: Option<VoxelKind>,
    pub hardness: i64,
    pub ductility: i64,
    pub integrity: i64,
    pub corrosion_resistance: i64,
    pub is_growable: bool,
    pub growth_rate: i64,
    pub max_growth_stage: u8,
}

/// Catalog entry for one voxel kind: display name, display color and
/// physical properties.
#[derive(Clone, Copy, Debug)]
pub struct VoxelDef {
    pub name: &'static str,
    pub color: ColorRgba,
    pub props: VoxelProperties,
}

/// The catalog table as a specification-level function.
pub open spec fn spec_def(kind: VoxelKind) -> VoxelDef {
    match kind {
        VoxelKind::Air => VoxelDef {
            name: "air",
            color: ColorRgba { r: 0, g: 0, b: 0, a: 0 },
            props: VoxelProperties {
                temperature: 20000,
                heat_capacity: 1,
                thermal_conductivity: 26,
                env_exchange_coef: 0,
                humidity: 500,
                moisture_capacity: 500,
                evaporation_rate: 0,
                is_flammable: false,
                ignition_temp: 1000000,
                burn_energy: 0,
                burn_rate: 0,
                heat_release: 0,
                melting_point: None,
                freezing_point: None,
                boiling_point: None,
                liquid_form: None,
                solid_form: None,
                hardness: 0,
                ductility: 0,
                integrity: 1000,
                corrosion_resistance: 500,
                is_growable: false,
                growth_rate: 0,
                max_growth_stage: 0,
            },
        },
        VoxelKind::Grass => VoxelDef {
            name: "grass block",
            color: ColorRgba { r: 71, g: 158, b: 63, a: 255 },
            props: VoxelProperties {
                temperature: 18000,
                heat_capacity: 800,
                thermal_conductivity: 250,
                env_exchange_coef: 100,
                humidity: 600,
                moisture_capacity: 400,
                evaporation_rate: 0,
                is_flammable: true,
                ignition_temp: 400000,
                burn_energy: 30,
                burn_rate: 300,
                heat_release: 50,
                melting_point: None,
                freezing_point: None,
                boiling_point: None,
                liquid_form: None,
                solid_form: None,
                hardness: 200,
                ductility: 350,
                integrity: 1000,
                corrosion_resistance: 500,
                is_growable: false,
                growth_rate: 0,
                max_growth_stage: 0,
            },
        },
        VoxelKind::Dirt => VoxelDef {
            name: "dirt",
            color: ColorRgba { r: 107, g: 76, b: 45, a: 255 },
            props: VoxelProperties {
                temperature: 16000,
                heat_capacity: 1500,
                thermal_conductivity: 800,
                env_exchange_coef: 50,
                humidity: 400,
                moisture_capacity: 600,
                evaporation_rate: 0,
                is_flammable: false,
                ignition_temp: 1000000,
                burn_energy: 0,
                burn_rate: 0,
                heat_release: 0,
                melting_point: None,
                freezing_point: None,
                boiling_point: None,
                liquid_form: None,
                solid_form: None,
                hardness: 350,
                ductility: 200,
                integrity: 1000,
                corrosion_resistance: 500,
                is_growable: false,
                growth_rate: 0,
                max_growth_stage: 0,
            },
        },
        VoxelKind::Stone => VoxelDef {
            name: "stone",
            color: ColorRgba { r: 140, g: 140, b: 147, a: 255 },
            props: VoxelProperties {
                temperature: 12000,
                heat_capacity: 2000,
                thermal_conductivity: 2500,
                env_exchange_coef: 20,
                humidity: 100,
                moisture_capacity: 500,
                evaporation_rate: 0,
                is_flammable: false,
                ignition_temp: 1000000,
                burn_energy: 0,
                burn_rate: 0,
                heat_release: 0,
                melting_point: Some(1200000),
                freezing_point: None,
                boiling_point: None,
                liquid_form: None,
                solid_form: None,
                hardness: 900,
                ductility: 50,
                integrity: 1000,
                corrosion_resistance: 900,
                is_growable: false,
                growth_rate: 0,
                max_growth_stage: 0,
            },
        },
        VoxelKind::Sand => VoxelDef {
            name: "sand",
            color: ColorRgba { r: 219, g: 209, b: 147, a: 255 },
            props: VoxelProperties {
                temperature: 28000,
                heat_capacity: 830,
                thermal_conductivity: 250,
                env_exchange_coef: 150,
                humidity: 50,
                moisture_capacity: 500,
                evaporation_rate: 200,
                is_flammable: false,
                ignition_temp: 1000000,
                burn_energy: 0,
                burn_rate: 0,
                heat_release: 0,
                melting_point: Some(1700000),
                freezing_point: None,
                boiling_point: None,
                liquid_form: None,
                solid_form: None,
                hardness: 250,
                ductility: 450,
                integrity: 300,
                corrosion_resistance: 500,
                is_growable: false,
                growth_rate: 0,
                max_growth_stage: 0,
            },
        },
        VoxelKind::Gravel => VoxelDef {
            name: "gravel",
            color: ColorRgba { r: 132, g: 127, b: 122, a: 255 },
            props: VoxelProperties {
                temperature: 14000,
                heat_capacity: 1200,
                thermal_conductivity: 1500,
                env_exchange_coef: 50,
                humidity: 150,
                moisture_capacity: 500,
                evaporation_rate: 0,
                is_flammable: false,
                ignition_temp: 1000000,
                burn_energy: 0,
                burn_rate: 0,
                heat_release: 0,
                melting_point: None,
                freezing_point: None,
                boiling_point: None,
                liquid_form: None,
                solid_form: None,
                hardness: 400,
                ductility: 300,
                integrity: 400,
                corrosion_resistance: 500,
                is_growable: false,
                growth_rate: 0,
                max_growth_stage: 0,
            },
        },
        VoxelKind::Clay => VoxelDef {
            name: "clay",
            color: ColorRgba { r: 158, g: 163, b: 173, a: 255 },
            props: VoxelProperties {
                temperature: 15000,
                heat_capacity: 900,
                thermal_conductivity: 1000,
                env_exchange_coef: 30,
                humidity: 700,
                moisture_capacity: 800,
                evaporation_rate: 0,
                is_flammable: false,
                ignition_temp: 1000000,
                burn_energy: 0,
                burn_rate: 0,
                heat_release: 0,
                melting_point: None,
                freezing_point: None,
                boiling_point: None,
                liquid_form: None,
                solid_form: None,
                hardness: 300,
                ductility: 500,
                integrity: 1000,
                corrosion_resistance: 500,
                is_growable: false,
                growth_rate: 0,
                max_growth_stage: 0,
            },
        },
        VoxelKind::Snow => VoxelDef {
            name: "snow block",
            color: ColorRgba { r: 242, g: 247, b: 255, a: 255 },
            props: VoxelProperties {
                temperature: -5000i64,
                heat_capacity: 2090,
                thermal_conductivity: 100,
                env_exchange_coef: 200,
                humidity: 800,
                moisture_capacity: 500,
                evaporation_rate: 0,
                is_flammable: false,
                ignition_temp: 1000000,
                burn_energy: 0,
                burn_rate: 0,
                heat_release: 0,
                melting_point: Some(0),
                freezing_point: None,
                boiling_point: None,
                liquid_form: Some(VoxelKind::Water),
                solid_form: None,
                hardness: 100,
                ductility: 200,
                integrity: 1000,
                corrosion_resistance: 500,
                is_growable: false,
                growth_rate: 0,
                max_growth_stage: 0,
            },
        },
        VoxelKind::Ice => VoxelDef {
            name: "ice block",
            color: ColorRgba { r: 173, g: 216, b: 242, a: 216 },
            props: VoxelProperties {
                temperature: -10000i64,
                heat_capacity: 2090,
                thermal_conductivity: 2220,
                env_exchange_coef: 100,
                humidity: 900,
                moisture_capacity: 500,
                evaporation_rate: 0,
                is_flammable: false,
                ignition_temp: 1000000,
                burn_energy: 0,
                burn_rate: 0,
                heat_release: 0,
                melting_point: Some(0),
                freezing_point: None,
                boiling_point: None,
                liquid_form: Some(VoxelKind::Water),
                solid_form: None,
                hardness: 300,
                ductility: 100,
                integrity: 1000,
                corrosion_resistance: 500,
                is_growable: false,
                growth_rate: 0,
                max_growth_stage: 0,
            },
        },
        VoxelKind::Water => VoxelDef {
            name: "water",
            color: ColorRgba { r: 51, g: 114, b: 198, a: 178 },
            props: VoxelProperties {
                temperature: 14000,
                heat_capacity: 4186,
                thermal_conductivity: 600,
                env_exchange_coef: 300,
                humidity: 1000,
                moisture_capacity: 500,
                evaporation_rate: 100,
                is_flammable: false,
                ignition_temp: 1000000,
                burn_energy: 0,
                burn_rate: 0,
                heat_release: 0,
                melting_point: None,
                freezing_point: Some(0),
                boiling_point: Some(100000),
                liquid_form: None,
                solid_form: Some(VoxelKind::Ice),
                hardness: 0,
                ductility: 1000,
                integrity: 1000,
                corrosion_resistance: 500,
                is_growable: false,
                growth_rate: 0,
                max_growth_stage: 0,
            },
        },
        VoxelKind::OakLog => VoxelDef {
            name: "oak log",
            color: ColorRgba { r: 102, g: 76, b: 45, a: 255 },
            props: VoxelProperties {
                temperature: 20000,
                heat_capacity: 1700,
                thermal_conductivity: 120,
                env_exchange_coef: 50,
                humidity: 300,
                moisture_capacity: 500,
                evaporation_rate: 0,
                is_flammable: true,
                ignition_temp: 300000,
                burn_energy: 100,
                burn_rate: 200,
                heat_release: 200,
                melting_point: None,
                freezing_point: None,
                boiling_point: None,
                liquid_form: None,
                solid_form: None,
                hardness: 500,
                ductility: 600,
                integrity: 1000,
                corrosion_resistance: 300,
                is_growable: false,
                growth_rate: 0,
                max_growth_stage: 0,
            },
        },
        VoxelKind::OakLeaves => VoxelDef {
            name: "oak leaves",
            color: ColorRgba { r: 56, g: 132, b: 51, a: 229 },
            props: VoxelProperties {
                temperature: 22000,
                heat_capacity: 500,
                thermal_conductivity: 50,
                env_exchange_coef: 300,
                humidity: 500,
                moisture_capacity: 500,
                evaporation_rate: 0,
                is_flammable: true,
                ignition_temp: 250000,
                burn_energy: 20,
                burn_rate: 500,
                heat_release: 100,
                melting_point: None,
                freezing_point: None,
                boiling_point: None,
                liquid_form: None,
                solid_form: None,
                hardness: 50,
                ductility: 100,
                integrity: 1000,
                corrosion_resistance: 500,
                is_growable: false,
                growth_rate: 0,
                max_growth_stage: 0,
            },
        },
        VoxelKind::BirchLog => VoxelDef {
            name: "birch log",
            color: ColorRgba { r: 216, g: 209, b: 191, a: 255 },
            props: VoxelProperties {
                temperature: 18000,
                heat_capacity: 1600,
                thermal_conductivity: 140,
                env_exchange_coef: 50,
                humidity: 350,
                moisture_capacity: 500,
                evaporation_rate: 0,
                is_flammable: true,
                ignition_temp: 280000,
                burn_energy: 90,
                burn_rate: 220,
                heat_release: 180,
                melting_point: None,
                freezing_point: None,
                boiling_point: None,
                liquid_form: None,
                solid_form: None,
                hardness: 450,
                ductility: 550,
                integrity: 1000,
                corrosion_resistance: 500,
                is_growable: false,
                growth_rate: 0,
                max_growth_stage: 0,
            },
        },
        VoxelKind::BirchLeaves => VoxelDef {
            name: "birch leaves",
            color: ColorRgba { r: 114, g: 158, b: 89, a: 229 },
            props: VoxelProperties {
                temperature: 20000,
                heat_capacity: 500,
                thermal_conductivity: 50,
                env_exchange_coef: 300,
                humidity: 450,
                moisture_capacity: 500,
                evaporation_rate: 0,
                is_flammable: true,
                ignition_temp: 240000,
                burn_energy: 18,
                burn_rate: 550,
                heat_release: 90,
                melting_point: None,
                freezing_point: None,
                boiling_point: None,
                liquid_form: None,
                solid_form: None,
                hardness: 50,
                ductility: 100,
                integrity: 1000,
                corrosion_resistance: 500,
                is_growable: false,
                growth_rate: 0,
                max_growth_stage: 0,
            },
        },
        VoxelKind::SpruceLog => VoxelDef {
            name: "spruce log",
            color: ColorRgba { r: 76, g: 56, b: 30, a: 255 },
            props: VoxelProperties {
                temperature: 8000,
                heat_capacity: 1800,
                thermal_conductivity: 110,
                env_exchange_coef: 40,
                humidity: 400,
                moisture_capacity: 500,
                evaporation_rate: 0,
                is_flammable: true,
                ignition_temp: 320000,
                burn_energy: 110,
                burn_rate: 180,
                heat_release: 220,
                melting_point: None,
                freezing_point: None,
                boiling_point: None,
                liquid_form: None,
                solid_form: None,
                hardness: 550,
                ductility: 500,
                integrity: 1000,
                corrosion_resistance: 500,
                is_growable: false,
                growth_rate: 0,
                max_growth_stage: 0,
            },
        },
        VoxelKind::SpruceLeaves => VoxelDef {
            name: "spruce leaves",
            color: ColorRgba { r: 38, g: 89, b: 56, a: 229 },
            props: VoxelProperties {
                temperature: 6000,
                heat_capacity: 550,
                thermal_conductivity: 60,
                env_exchange_coef: 250,
                humidity: 500,
                moisture_capacity: 500,
                evaporation_rate: 0,
                is_flammable: true,
                ignition_temp: 260000,
                burn_energy: 25,
                burn_rate: 450,
                heat_release: 110,
                melting_point: None,
                freezing_point: None,
                boiling_point: None,
                liquid_form: None,
                solid_form: None,
                hardness: 50,
                ductility: 100,
                integrity: 1000,
                corrosion_resistance: 500,
                is_growable: false,
                growth_rate: 0,
                max_growth_stage: 0,
            },
        },
        VoxelKind::Cactus => VoxelDef {
            name: "cactus",
            color: ColorRgba { r: 63, g: 140, b: 51, a: 255 },
            props: VoxelProperties {
                temperature: 35000,
                heat_capacity: 3500,
                thermal_conductivity: 500,
                env_exchange_coef: 100,
                humidity: 100,
                moisture_capacity: 900,
                evaporation_rate: 0,
                is_flammable: false,
                ignition_temp: 1000000,
                burn_energy: 0,
                burn_rate: 0,
                heat_release: 0,
                melting_point: None,
                freezing_point: None,
                boiling_point: None,
                liquid_form: None,
                solid_form: None,
                hardness: 200,
                ductility: 300,
                integrity: 1000,
                corrosion_resistance: 500,
                is_growable: true,
                growth_rate: 10,
                max_growth_stage: 3,
            },
        },
        VoxelKind::CoalOre => VoxelDef {
            name: "coal ore",
            color: ColorRgba { r: 63, g: 63, b: 71, a: 255 },
            props: VoxelProperties {
                temperature: 12000,
                heat_capacity: 1300,
                thermal_conductivity: 200,
                env_exchange_coef: 20,
                humidity: 100,
                moisture_capacity: 500,
                evaporation_rate: 0,
                is_flammable: true,
                ignition_temp: 450000,
                burn_energy: 500,
                burn_rate: 50,
                heat_release: 300,
                melting_point: None,
                freezing_point: None,
                boiling_point: None,
                liquid_form: None,
                solid_form: None,
                hardness: 850,
                ductility: 50,
                integrity: 1000,
                corrosion_resistance: 500,
                is_growable: false,
                growth_rate: 0,
                max_growth_stage: 0,
            },
        },
        VoxelKind::IronOre => VoxelDef {
            name: "iron ore",
            color: ColorRgba { r: 147, g: 132, b: 122, a: 255 },
            props: VoxelProperties {
                temperature: 12000,
                heat_capacity: 450,
                thermal_conductivity: 80000,
                env_exchange_coef: 20,
                humidity: 100,
                moisture_capacity: 500,
                evaporation_rate: 0,
                is_flammable: false,
                ignition_temp: 1000000,
                burn_energy: 0,
                burn_rate: 0,
                heat_release: 0,
                melting_point: Some(1538000),
                freezing_point: None,
                boiling_point: None,
                liquid_form: None,
                solid_form: None,
                hardness: 900,
                ductility: 50,
                integrity: 1000,
                corrosion_resistance: 300,
                is_growable: false,
                growth_rate: 0,
                max_growth_stage: 0,
            },
        },
        VoxelKind::GoldOre => VoxelDef {
            name: "gold ore",
            color: ColorRgba { r: 183, g: 165, b: 89, a: 255 },
            props: VoxelProperties {
                temperature: 12000,
                heat_capacity: 129,
                thermal_conductivity: 317000,
                env_exchange_coef: 20,
                humidity: 100,
                moisture_capacity: 500,
                evaporation_rate: 0,
                is_flammable: false,
                ignition_temp: 1000000,
                burn_energy: 0,
                burn_rate: 0,
                heat_release: 0,
                melting_point: Some(1064000),
                freezing_point: None,
                boiling_point: None,
                liquid_form: None,
                solid_form: None,
                hardness: 850,
                ductility: 150,
                integrity: 1000,
                corrosion_resistance: 1000,
                is_growable: false,
                growth_rate: 0,
                max_growth_stage: 0,
            },
        },
        VoxelKind::DiamondOre => VoxelDef {
            name: "diamond ore",
            color: ColorRgba { r: 114, g: 183, b: 198, a: 255 },
            props: VoxelProperties {
                temperature: 12000,
                heat_capacity: 509,
                thermal_conductivity: 2200000,
                env_exchange_coef: 10,
                humidity: 100,
                moisture_capacity: 500,
                evaporation_rate: 0,
                is_flammable: false,
                ignition_temp: 1000000,
                burn_energy: 0,
                burn_rate: 0,
                heat_release: 0,
                melting_point: None,
                freezing_point: None,
                boiling_point: None,
                liquid_form: None,
                solid_form: None,
                hardness: 980,
                ductility: 20,
                integrity: 1000,
                corrosion_resistance: 1000,
                is_growable: false,
                growth_rate: 0,
                max_growth_stage: 0,
            },
        },
        VoxelKind::Flower => VoxelDef {
            name: "flower",
            color: ColorRgba { r: 216, g: 89, b: 102, a: 255 },
            props: VoxelProperties {
                temperature: 22000,
                heat_capacity: 300,
                thermal_conductivity: 100,
                env_exchange_coef: 500,
                humidity: 600,
                moisture_capacity: 500,
                evaporation_rate: 0,
                is_flammable: true,
                ignition_temp: 200000,
                burn_energy: 5,
                burn_rate: 1000,
                heat_release: 20,
                melting_point: None,
                freezing_point: None,
                boiling_point: None,
                liquid_form: None,
                solid_form: None,
                hardness: 10,
                ductility: 50,
                integrity: 1000,
                corrosion_resistance: 500,
                is_growable: true,
                growth_rate: 50,
                max_growth_stage: 2,
            },
        },
        VoxelKind::TallGrass => VoxelDef {
            name: "tall grass",
            color: ColorRgba { r: 89, g: 147, b: 71, a: 255 },
            props: VoxelProperties {
                temperature: 20000,
                heat_capacity: 200,
                thermal_conductivity: 80,
                env_exchange_coef: 600,
                humidity: 500,
                moisture_capacity: 500,
                evaporation_rate: 0,
                is_flammable: true,
                ignition_temp: 180000,
                burn_energy: 8,
                burn_rate: 800,
                heat_release: 30,
                melting_point: None,
                freezing_point: None,
                boiling_point: None,
                liquid_form: None,
                solid_form: None,
                hardness: 10,
                ductility: 50,
                integrity: 1000,
                corrosion_resistance: 500,
                is_growable: true,
                growth_rate: 100,
                max_growth_stage: 2,
            },
        },
        VoxelKind::DeadBush => VoxelDef {
            name: "dead bush",
            color: ColorRgba { r: 140, g: 114, b: 71, a: 255 },
            props: VoxelProperties {
                temperature: 32000,
                heat_capacity: 150,
                thermal_conductivity: 50,
                env_exchange_coef: 400,
                humidity: 50,
                moisture_capacity: 500,
                evaporation_rate: 0,
                is_flammable: true,
                ignition_temp: 150000,
                burn_energy: 10,
                burn_rate: 1000,
                heat_release: 40,
                melting_point: None,
                freezing_point: None,
                boiling_point: None,
                liquid_form: None,
                solid_form: None,
                hardness: 10,
                ductility: 20,
                integrity: 1000,
                corrosion_resistance: 500,
                is_growable: false,
                growth_rate: 0,
                max_growth_stage: 0,
            },
        },
    }
}

impl VoxelKind {
    /// Looks up the catalog entry for this kind.
    pub fn def(self) -> (r: VoxelDef)
        ensures
            r == spec_def(self),
    {
        match self {
            VoxelKind::Air => VoxelDef {
                name: "air",
                color: ColorRgba { r: 0, g: 0, b: 0, a: 0 },
                props: VoxelProperties {
                    temperature: 20000,
                    heat_capacity: 1,
                    thermal_conductivity: 26,
                    env_exchange_coef: 0,
                    humidity: 500,
                    moisture_capacity: 500,
                    evaporation_rate: 0,
                    is_flammable: false,
                    ignition_temp: 1000000,
                    burn_energy: 0,
                    burn_rate: 0,
                    heat_release: 0,
                    melting_point: None,
                    freezing_point: None,
                    boiling_point: None,
                    liquid_form: None,
                    solid_form: None,
                    hardness: 0,
                    ductility: 0,
                    integrity: 1000,
                    corrosion_resistance: 500,
                    is_growable: false,
                    growth_rate: 0,
                    max_growth_stage: 0,
                },
            },
            VoxelKind::Grass => VoxelDef {
                name: "grass block",
                color: ColorRgba { r: 71, g: 158, b: 63, a: 255 },
                props: VoxelProperties {
                    temperature: 18000,
                    heat_capacity: 800,
                    thermal_conductivity: 250,
                    env_exchange_coef: 100,
                    humidity: 600,
                    moisture_capacity: 400,
                    evaporation_rate: 0,
                    is_flammable: true,
                    ignition_temp: 400000,
                    burn_energy: 30,
                    burn_rate: 300,
                    heat_release: 50,
                    melting_point: None,
                    freezing_point: None,
                    boiling_point: None,
                    liquid_form: None,
                    solid_form: None,
                    hardness: 200,
                    ductility: 350,
                    integrity: 1000,
                    corrosion_resistance: 500,
                    is_growable: false,
                    growth_rate: 0,
                    max_growth_stage: 0,
                },
            },
            VoxelKind::Dirt => VoxelDef {
                name: "dirt",
                color: ColorRgba { r: 107, g: 76, b: 45, a: 255 },
                props: VoxelProperties {
                    temperature: 16000,
                    heat_capacity: 1500,
                    thermal_conductivity: 800,
                    env_exchange_coef: 50,
                    humidity: 400,
                    moisture_capacity: 600,
                    evaporation_rate: 0,
                    is_flammable: false,
                    ignition_temp: 1000000,
                    burn_energy: 0,
                    burn_rate: 0,
                    heat_release: 0,
                    melting_point: None,
                    freezing_point: None,
                    boiling_point: None,
                    liquid_form: None,
                    solid_form: None,
                    hardness: 350,
                    ductility: 200,
                    integrity: 1000,
                    corrosion_resistance: 500,
                    is_growable: false,
                    growth_rate: 0,
                    max_growth_stage: 0,
                },
            },
            VoxelKind::Stone => VoxelDef {
                name: "stone",
                color: ColorRgba { r: 140, g: 140, b: 147, a: 255 },
                props: VoxelProperties {
                    temperature: 12000,
                    heat_capacity: 2000,
                    thermal_conductivity: 2500,
                    env_exchange_coef: 20,
                    humidity: 100,
                    moisture_capacity: 500,
                    evaporation_rate: 0,
                    is_flammable: false,
                    ignition_temp: 1000000,
                    burn_energy: 0,
                    burn_rate: 0,
                    heat_release: 0,
                    melting_point: Some(1200000),
                    freezing_point: None,
                    boiling_point: None,
                    liquid_form: None,
                    solid_form: None,
                    hardness: 900,
                    ductility: 50,
                    integrity: 1000,
                    corrosion_resistance: 900,
                    is_growable: false,
                    growth_rate: 0,
                    max_growth_stage: 0,
                },
            },
            VoxelKind::Sand => VoxelDef {
                name: "sand",
                color: ColorRgba { r: 219, g: 209, b: 147, a: 255 },
                props: VoxelProperties {
                    temperature: 28000,
                    heat_capacity: 830,
                    thermal_conductivity: 250,
                    env_exchange_coef: 150,
                    humidity: 50,
                    moisture_capacity: 500,
                    evaporation_rate: 200,
                    is_flammable: false,
                    ignition_temp: 1000000,
                    burn_energy: 0,
                    burn_rate: 0,
                    heat_release: 0,
                    melting_point: Some(1700000),
                    freezing_point: None,
                    boiling_point: None,
                    liquid_form: None,
                    solid_form: None,
                    hardness: 250,
                    ductility: 450,
                    integrity: 300,
                    corrosion_resistance: 500,
                    is_growable: false,
                    growth_rate: 0,
                    max_growth_stage: 0,
                },
            },
            VoxelKind::Gravel => VoxelDef {
                name: "gravel",
                color: ColorRgba { r: 132, g: 127, b: 122, a: 255 },
                props: VoxelProperties {
                    temperature: 14000,
                    heat_capacity: 1200,
                    thermal_conductivity: 1500,
                    env_exchange_coef: 50,
                    humidity: 150,
                    moisture_capacity: 500,
                    evaporation_rate: 0,
                    is_flammable: false,
                    ignition_temp: 1000000,
                    burn_energy: 0,
                    burn_rate: 0,
                    heat_release: 0,
                    melting_point: None,
                    freezing_point: None,
                    boiling_point: None,
                    liquid_form: None,
                    solid_form: None,
                    hardness: 400,
                    ductility: 300,
                    integrity: 400,
                    corrosion_resistance: 500,
                    is_growable: false,
                    growth_rate: 0,
                    max_growth_stage: 0,
                },
            },
            VoxelKind::Clay => VoxelDef {
                name: "clay",
                color: ColorRgba { r: 158, g: 163, b: 173, a: 255 },
                props: VoxelProperties {
                    temperature: 15000,
                    heat_capacity: 900,
                    thermal_conductivity: 1000,
                    env_exchange_coef: 30,
                    humidity: 700,
                    moisture_capacity: 800,
                    evaporation_rate: 0,
                    is_flammable: false,
                    ignition_temp: 1000000,
                    burn_energy: 0,
                    burn_rate: 0,
                    heat_release: 0,
                    melting_point: None,
                    freezing_point: None,
                    boiling_point: None,
                    liquid_form: None,
                    solid_form: None,
                    hardness: 300,
                    ductility: 500,
                    integrity: 1000,
                    corrosion_resistance: 500,
                    is_growable: false,
                    growth_rate: 0,
                    max_growth_stage: 0,
                },
            },
            VoxelKind::Snow => VoxelDef {
                name: "snow block",
                color: ColorRgba { r: 242, g: 247, b: 255, a: 255 },
                props: VoxelProperties {
                    temperature: -5000i64,
                    heat_capacity: 2090,
                    thermal_conductivity: 100,
                    env_exchange_coef: 200,
                    humidity: 800,
                    moisture_capacity: 500,
                    evaporation_rate: 0,
                    is_flammable: false,
                    ignition_temp: 1000000,
                    burn_energy: 0,
                    burn_rate: 0,
                    heat_release: 0,
                    melting_point: Some(0),
                    freezing_point: None,
                    boiling_point: None,
                    liquid_form: Some(VoxelKind::Water),
                    solid_form: None,
                    hardness: 100,
                    ductility: 200,
                    integrity: 1000,
                    corrosion_resistance: 500,
                    is_growable: false,
                    growth_rate: 0,
                    max_growth_stage: 0,
                },
            },
            VoxelKind::Ice => VoxelDef {
                name: "ice block",
                color: ColorRgba { r: 173, g: 216, b: 242, a: 216 },
                props: VoxelProperties {
                    temperature: -10000i64,
                    heat_capacity: 2090,
                    thermal_conductivity: 2220,
                    env_exchange_coef: 100,
                    humidity: 900,
                    moisture_capacity: 500,
                    evaporation_rate: 0,
                    is_flammable: false,
                    ignition_temp: 1000000,
                    burn_energy: 0,
                    burn_rate: 0,
                    heat_release: 0,
                    melting_point: Some(0),
                    freezing_point: None,
                    boiling_point: None,
                    liquid_form: Some(VoxelKind::Water),
                    solid_form: None,
                    hardness: 300,
                    ductility: 100,
                    integrity: 1000,
                    corrosion_resistance: 500,
                    is_growable: false,
                    growth_rate: 0,
                    max_growth_stage: 0,
                },
            },
            VoxelKind::Water => VoxelDef {
                name: "water",
                color: ColorRgba { r: 51, g: 114, b: 198, a: 178 },
                props: VoxelProperties {
                    temperature: 14000,
                    heat_capacity: 4186,
                    thermal_conductivity: 600,
                    env_exchange_coef: 300,
                    humidity: 1000,
                    moisture_capacity: 500,
                    evaporation_rate: 100,
                    is_flammable: false,
                    ignition_temp: 1000000,
                    burn_energy: 0,
                    burn_rate: 0,
                    heat_release: 0,
                    melting_point: None,
                    freezing_point: Some(0),
                    boiling_point: Some(100000),
                    liquid_form: None,
                    solid_form: Some(VoxelKind::Ice),
                    hardness: 0,
                    ductility: 1000,
                    integrity: 1000,
                    corrosion_resistance: 500,
                    is_growable: false,
                    growth_rate: 0,
                    max_growth_stage: 0,
                },
            },
            VoxelKind::OakLog => VoxelDef {
                name: "oak log",
                color: ColorRgba { r: 102, g: 76, b: 45, a: 255 },
                props: VoxelProperties {
                    temperature: 20000,
                    heat_capacity: 1700,
                    thermal_conductivity: 120,
                    env_exchange_coef: 50,
                    humidity: 300,
                    moisture_capacity: 500,
                    evaporation_rate: 0,
                    is_flammable: true,
                    ignition_temp: 300000,
                    burn_energy: 100,
                    burn_rate: 200,
                    heat_release: 200,
                    melting_point: None,
                    freezing_point: None,
                    boiling_point: None,
                    liquid_form: None,
                    solid_form: None,
                    hardness: 500,
                    ductility: 600,
                    integrity: 1000,
                    corrosion_resistance: 300,
                    is_growable: false,
                    growth_rate: 0,
                    max_growth_stage: 0,
                },
            },
            VoxelKind::OakLeaves => VoxelDef {
                name: "oak leaves",
                color: ColorRgba { r: 56, g: 132, b: 51, a: 229 },
                props: VoxelProperties {
                    temperature: 22000,
                    heat_capacity: 500,
                    thermal_conductivity: 50,
                    env_exchange_coef: 300,
                    humidity: 500,
                    moisture_capacity: 500,
                    evaporation_rate: 0,
                    is_flammable: true,
                    ignition_temp: 250000,
                    burn_energy: 20,
                    burn_rate: 500,
                    heat_release: 100,
                    melting_point: None,
                    freezing_point: None,
                    boiling_point: None,
                    liquid_form: None,
                    solid_form: None,
                    hardness: 50,
                    ductility: 100,
                    integrity: 1000,
                    corrosion_resistance: 500,
                    is_growable: false,
                    growth_rate: 0,
                    max_growth_stage: 0,
                },
            },
            VoxelKind::BirchLog => VoxelDef {
                name: "birch log",
                color: ColorRgba { r: 216, g: 209, b: 191, a: 255 },
                props: VoxelProperties {
                    temperature: 18000,
                    heat_capacity: 1600,
                    thermal_conductivity: 140,
                    env_exchange_coef: 50,
                    humidity: 350,
                    moisture_capacity: 500,
                    evaporation_rate: 0,
                    is_flammable: true,
                    ignition_temp: 280000,
                    burn_energy: 90,
                    burn_rate: 220,
                    heat_release: 180,
                    melting_point: None,
                    freezing_point: None,
                    boiling_point: None,
                    liquid_form: None,
                    solid_form: None,
                    hardness: 450,
                    ductility: 550,
                    integrity: 1000,
                    corrosion_resistance: 500,
                    is_growable: false,
                    growth_rate: 0,
                    max_growth_stage: 0,
                },
            },
            VoxelKind::BirchLeaves => VoxelDef {
                name: "birch leaves",
                color: ColorRgba { r: 114, g: 158, b: 89, a: 229 },
                props: VoxelProperties {
                    temperature: 20000,
                    heat_capacity: 500,
                    thermal_conductivity: 50,
                    env_exchange_coef: 300,
                    humidity: 450,
                    moisture_capacity: 500,
                    evaporation_rate: 0,
                    is_flammable: true,
                    ignition_temp: 240000,
                    burn_energy: 18,
                    burn_rate: 550,
                    heat_release: 90,
                    melting_point: None,
                    freezing_point: None,
                    boiling_point: None,
                    liquid_form: None,
                    solid_form: None,
                    hardness: 50,
                    ductility: 100,
                    integrity: 1000,
                    corrosion_resistance: 500,
                    is_growable: false,
                    growth_rate: 0,
                    max_growth_stage: 0,
                },
            },
            VoxelKind::SpruceLog => VoxelDef {
                name: "spruce log",
                color: ColorRgba { r: 76, g: 56, b: 30, a: 255 },
                props: VoxelProperties {
                    temperature: 8000,
                    heat_capacity: 1800,
                    thermal_conductivity: 110,
                    env_exchange_coef: 40,
                    humidity: 400,
                    moisture_capacity: 500,
                    evaporation_rate: 0,
                    is_flammable: true,
                    ignition_temp: 320000,
                    burn_energy: 110,
                    burn_rate: 180,
                    heat_release: 220,
                    melting_point: None,
                    freezing_point: None,
                    boiling_point: None,
                    liquid_form: None,
                    solid_form: None,
                    hardness: 550,
                    ductility: 500,
                    integrity: 1000,
                    corrosion_resistance: 500,
                    is_growable: false,
                    growth_rate: 0,
                    max_growth_stage: 0,
                },
            },
            VoxelKind::SpruceLeaves => VoxelDef {
                name: "spruce leaves",
                color: ColorRgba { r: 38, g: 89, b: 56, a: 229 },
                props: VoxelProperties {
                    temperature: 6000,
                    heat_capacity: 550,
                    thermal_conductivity: 60,
                    env_exchange_coef: 250,
                    humidity: 500,
                    moisture_capacity: 500,
                    evaporation_rate: 0,
                    is_flammable: true,
                    ignition_temp: 260000,
                    burn_energy: 25,
                    burn_rate: 450,
                    heat_release: 110,
                    melting_point: None,
                    freezing_point: None,
                    boiling_point: None,
                    liquid_form: None,
                    solid_form: None,
                    hardness: 50,
                    ductility: 100,
                    integrity: 1000,
                    corrosion_resistance: 500,
                    is_growable: false,
                    growth_rate: 0,
                    max_growth_stage: 0,
                },
            },
            VoxelKind::Cactus => VoxelDef {
                name: "cactus",
                color: ColorRgba { r: 63, g: 140, b: 51, a: 255 },
                props: VoxelProperties {
                    temperature: 35000,
                    heat_capacity: 3500,
                    thermal_conductivity: 500,
                    env_exchange_coef: 100,
                    humidity: 100,
                    moisture_capacity: 900,
                    evaporation_rate: 0,
                    is_flammable: false,
                    ignition_temp: 1000000,
                    burn_energy: 0,
                    burn_rate: 0,
                    heat_release: 0,
                    melting_point: None,
                    freezing_point: None,
                    boiling_point: None,
                    liquid_form: None,
                    solid_form: None,
                    hardness: 200,
                    ductility: 300,
                    integrity: 1000,
                    corrosion_resistance: 500,
                    is_growable: true,
                    growth_rate: 10,
                    max_growth_stage: 3,
                },
            },
            VoxelKind::CoalOre => VoxelDef {
                name: "coal ore",
                color: ColorRgba { r: 63, g: 63, b: 71, a: 255 },
                props: VoxelProperties {
                    temperature: 12000,
                    heat_capacity: 1300,
                    thermal_conductivity: 200,
                    env_exchange_coef: 20,
                    humidity: 100,
                    moisture_capacity: 500,
                    evaporation_rate: 0,
                    is_flammable: true,
                    ignition_temp: 450000,
                    burn_energy: 500,
                    burn_rate: 50,
                    heat_release: 300,
                    melting_point: None,
                    freezing_point: None,
                    boiling_point: None,
                    liquid_form: None,
                    solid_form: None,
                    hardness: 850,
                    ductility: 50,
                    integrity: 1000,
                    corrosion_resistance: 500,
                    is_growable: false,
                    growth_rate: 0,
                    max_growth_stage: 0,
                },
            },
            VoxelKind::IronOre => VoxelDef {
                name: "iron ore",
                color: ColorRgba { r: 147, g: 132, b: 122, a: 255 },
                props: VoxelProperties {
                    temperature: 12000,
                    heat_capacity: 450,
                    thermal_conductivity: 80000,
                    env_exchange_coef: 20,
                    humidity: 100,
                    moisture_capacity: 500,
                    evaporation_rate: 0,
                    is_flammable: false,
                    ignition_temp: 1000000,
                    burn_energy: 0,
                    burn_rate: 0,
                    heat_release: 0,
                    melting_point: Some(1538000),
                    freezing_point: None,
                    boiling_point: None,
                    liquid_form: None,
                    solid_form: None,
                    hardness: 900,
                    ductility: 50,
                    integrity: 1000,
                    corrosion_resistance: 300,
                    is_growable: false,
                    growth_rate: 0,
                    max_growth_stage: 0,
                },
            },
            VoxelKind::GoldOre => VoxelDef {
                name: "gold ore",
                color: ColorRgba { r: 183, g: 165, b: 89, a: 255 },
                props: VoxelProperties {
                    temperature: 12000,
                    heat_capacity: 129,
                    thermal_conductivity: 317000,
                    env_exchange_coef: 20,
                    humidity: 100,
                    moisture_capacity: 500,
                    evaporation_rate: 0,
                    is_flammable: false,
                    ignition_temp: 1000000,
                    burn_energy: 0,
                    burn_rate: 0,
                    heat_release: 0,
                    melting_point: Some(1064000),
                    freezing_point: None,
                    boiling_point: None,
                    liquid_form: None,
                    solid_form: None,
                    hardness: 850,
                    ductility: 150,
                    integrity: 1000,
                    corrosion_resistance: 1000,
                    is_growable: false,
                    growth_rate: 0,
                    max_growth_stage: 0,
                },
            },
            VoxelKind::DiamondOre => VoxelDef {
                name: "diamond ore",
                color: ColorRgba { r: 114, g: 183, b: 198, a: 255 },
                props: VoxelProperties {
                    temperature: 12000,
                    heat_capacity: 509,
                    thermal_conductivity: 2200000,
                    env_exchange_coef: 10,
                    humidity: 100,
                    moisture_capacity: 500,
                    evaporation_rate: 0,
                    is_flammable: false,
                    ignition_temp: 1000000,
                    burn_energy: 0,
                    burn_rate: 0,
                    heat_release: 0,
                    melting_point: None,
                    freezing_point: None,
                    boiling_point: None,
                    liquid_form: None,
                    solid_form: None,
                    hardness: 980,
                    ductility: 20,
                    integrity: 1000,
                    corrosion_resistance: 1000,
                    is_growable: false,
                    growth_rate: 0,
                    max_growth_stage: 0,
                },
            },
            VoxelKind::Flower => VoxelDef {
                name: "flower",
                color: ColorRgba { r: 216, g: 89, b: 102, a: 255 },
                props: VoxelProperties {
                    temperature: 22000,
                    heat_capacity: 300,
                    thermal_conductivity: 100,
                    env_exchange_coef: 500,
                    humidity: 600,
                    moisture_capacity: 500,
                    evaporation_rate: 0,
                    is_flammable: true,
                    ignition_temp: 200000,
                    burn_energy: 5,
                    burn_rate: 1000,
                    heat_release: 20,
                    melting_point: None,
                    freezing_point: None,
                    boiling_point: None,
                    liquid_form: None,
                    solid_form: None,
                    hardness: 10,
                    ductility: 50,
                    integrity: 1000,
                    corrosion_resistance: 500,
                    is_growable: true,
                    growth_rate: 50,
                    max_growth_stage: 2,
                },
            },
            VoxelKind::TallGrass => VoxelDef {
                name: "tall grass",
                color: ColorRgba { r: 89, g: 147, b: 71, a: 255 },
                props: VoxelProperties {
                    temperature: 20000,
                    heat_capacity: 200,
                    thermal_conductivity: 80,
                    env_exchange_coef: 600,
                    humidity: 500,
                    moisture_capacity: 500,
                    evaporation_rate: 0,
                    is_flammable: true,
                    ignition_temp: 180000,
                    burn_energy: 8,
                    burn_rate: 800,
                    heat_release: 30,
                    melting_point: None,
                    freezing_point: None,
                    boiling_point: None,
                    liquid_form: None,
                    solid_form: None,
                    hardness: 10,
                    ductility: 50,
                    integrity: 1000,
                    corrosion_resistance: 500,
                    is_growable: true,
                    growth_rate: 100,
                    max_growth_stage: 2,
                },
            },
            VoxelKind::DeadBush => VoxelDef {
                name: "dead bush",
                color: ColorRgba { r: 140, g: 114, b: 71, a: 255 },
                props: VoxelProperties {
                    temperature: 32000,
                    heat_capacity: 150,
                    thermal_conductivity: 50,
                    env_exchange_coef: 400,
                    humidity: 50,
                    moisture_capacity: 500,
                    evaporation_rate: 0,
                    is_flammable: true,
                    ignition_temp: 150000,
                    burn_energy: 10,
                    burn_rate: 1000,
                    heat_release: 40,
                    melting_point: None,
                    freezing_point: None,
                    boiling_point: None,
                    liquid_form: None,
                    solid_form: None,
                    hardness: 10,
                    ductility: 20,
                    integrity: 1000,
                    corrosion_resistance: 500,
                    is_growable: false,
                    growth_rate: 0,
                    max_growth_stage: 0,
                },
            },
        }
    }

    /// True for kinds that do not fully occlude a neighboring face:
    /// air, water, ice, leaves and small flora.
    pub fn is_transparent(self) -> (r: bool)
        ensures
            r == spec_is_transparent(self),
    {
        matches!(
            self,
            VoxelKind::Air
                | VoxelKind::Water
                | VoxelKind::Ice
                | VoxelKind::OakLeaves
                | VoxelKind::BirchLeaves
                | VoxelKind::SpruceLeaves
                | VoxelKind::Flower
                | VoxelKind::TallGrass
                | VoxelKind::DeadBush
        )
    }

    /// True for kinds that block movement: everything except air and
    /// small flora.
    pub fn is_solid(self) -> (r: bool)
        ensures
            r == spec_is_solid(self),
    {
        !matches!(
            self,
            VoxelKind::Air | VoxelKind::Flower | VoxelKind::TallGrass | VoxelKind::DeadBush
        )
    }
}

/// Which kinds do not fully occlude a neighboring face.
pub open spec fn spec_is_transparent(kind: VoxelKind) -> bool {
    kind == VoxelKind::Air || kind == VoxelKind::Water || kind == VoxelKind::Ice
        || kind == VoxelKind::OakLeaves || kind == VoxelKind::BirchLeaves
        || kind == VoxelKind::SpruceLeaves || kind == VoxelKind::Flower
        || kind == VoxelKind::TallGrass || kind == VoxelKind::DeadBush
}

/// Which kinds block movement.
pub open spec fn spec_is_solid(kind: VoxelKind) -> bool {
    !(kind == VoxelKind::Air || kind == VoxelKind::Flower || kind == VoxelKind::TallGrass
        || kind == VoxelKind::DeadBush)
}

} // verus!
