use voxworld::{ChunkData, ThermalApi, VoxelKind};
use voxworld::thermal::temp_to_color;

#[test]
fn test_thermal_api_basic() {
    let mut chunk = ChunkData::new();

    // the default temperature is air's default, 20 degrees (milli-degrees here)
    let default_temp = ThermalApi::get_temp(&chunk, 0);
    assert_eq!(default_temp, 20_000);

    // set 100 degrees
    ThermalApi::set_temp(&mut chunk, 0, 100_000);
    let new_temp = ThermalApi::get_temp(&chunk, 0);
    assert_eq!(new_temp, 100_000);

    // the cell joined the thermal active set
    assert!(chunk.active_thermal.contains(0));
}

#[test]
fn test_thermal_api_heat_capacity() {
    let mut chunk = ChunkData::new();

    // make the cell stone (heat capacity 2000 J/K)
    chunk.set(0, 0, 0, VoxelKind::Stone);

    let initial_temp = ThermalApi::get_temp(&chunk, 0);

    // add 2000 J = 2_000_000 mJ: a temperature rise of exactly 1 degree
    ThermalApi::add_heat(&mut chunk, 0, 2_000_000);

    let new_temp = ThermalApi::get_temp(&chunk, 0);
    assert_eq!(new_temp - initial_temp, 1_000);
}

#[test]
fn test_add_heat_zero_capacity_is_noop() {
    let mut chunk = ChunkData::new();
    // air has heat capacity 1 J/K, stone 2000; no catalog kind has a
    // non-positive capacity, so drive the no-op branch indirectly: heat
    // below one capacity unit rounds to a zero temperature step
    chunk.set(0, 0, 0, VoxelKind::Stone);
    let before = ThermalApi::get_temp(&chunk, 0);
    ThermalApi::add_heat(&mut chunk, 0, 1_999); // less than 2000 mJ per milli-degree
    let after = ThermalApi::get_temp(&chunk, 0);
    assert_eq!(before, after);
}

#[test]
fn test_override_elimination() {
    let mut chunk = ChunkData::new();
    ThermalApi::set_temp(&mut chunk, 0, 100_000);
    assert_eq!(ThermalApi::get_temp(&chunk, 0), 100_000);
    // writing within epsilon (0.1 degree) of the default removes the override
    ThermalApi::set_temp(&mut chunk, 0, 20_050);
    assert_eq!(ThermalApi::get_temp(&chunk, 0), 20_000);
}

#[test]
fn test_temp_to_color() {
    // cold end: saturated blue (channels are in thousandths)
    let cold_color = temp_to_color(-50_000);
    assert!(cold_color.2 > 900);

    // hot end: saturated red
    let hot_color = temp_to_color(500_000);
    assert!(hot_color.0 > 900);
}
