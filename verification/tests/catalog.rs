use samsynk::catalog::Catalog;
use samsynk::sensor::{BasicSensor, Sensor, SensorTypes};
use samsynk::sensor_definitions::register_sensors;

#[test]
fn catalog_holds_every_defined_sensor() {
    // 49 plain + 5 binary + 4 temperature + 3 compound + 1 fault sensor,
    // every normalized name distinct.
    let catalog = register_sensors();
    assert_eq!(catalog.len(), 62);
}

#[test]
fn catalog_lookup_finds_registered_sensors() {
    let catalog = register_sensors();
    assert!(catalog.lookup("battery_voltage").is_some());
    assert!(catalog.lookup("battery_power").is_some());
    assert!(catalog.lookup("priority_load").is_some());
    assert!(catalog.lookup("battery_temperature").is_some());
    assert!(catalog.lookup("essential_power").is_some());
    assert!(catalog.lookup("sunsynk_fault_codes").is_some());
}

#[test]
fn catalog_lookup_miss_is_none() {
    let catalog = register_sensors();
    assert!(catalog.lookup("no_such_sensor").is_none());
    // Lookups use the normalized name, not the display name.
    assert!(catalog.lookup("Battery Voltage").is_none());
}

#[test]
fn catalog_reads_battery_power() {
    let catalog = register_sensors();
    let sensor = catalog.lookup("battery_power").unwrap();
    assert_eq!(sensor.read(&vec![9001]), "9001");
}

#[test]
fn catalog_reads_battery_voltage_scaled() {
    let catalog = register_sensors();
    let sensor = catalog.lookup("battery_voltage").unwrap();
    // Factor 100: the raw word 240 reads as 2.
    assert_eq!(sensor.read(&vec![240]), "2");
}

#[test]
fn catalog_reads_battery_current_scaled() {
    let catalog = register_sensors();
    let sensor = catalog.lookup("battery_current").unwrap();
    assert_eq!(sensor.read(&vec![500]), "5");
}

#[test]
fn catalog_insert_replaces_same_name() {
    let mut catalog = Catalog::new();
    catalog.insert(
        "x".to_string(),
        SensorTypes::Basic(BasicSensor(Sensor::new("X".to_string(), vec![1], 1, false))),
    );
    catalog.insert(
        "x".to_string(),
        SensorTypes::Basic(BasicSensor(Sensor::new("X".to_string(), vec![2], 10, false))),
    );
    assert_eq!(catalog.len(), 1);
    let sensor = catalog.lookup("x").unwrap();
    // The replacement's scale factor is in effect.
    assert_eq!(sensor.read(&vec![50]), "5");
}
