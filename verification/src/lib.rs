//! Decoding and transaction-serialization logic for a solar inverter's
//! Modbus RTU register map: register-range compaction, the typed sensor
//! decode/encode rules, the FIFO transaction queue model, and the sensor
//! catalog.

pub mod catalog;
pub mod helpers;
pub mod modbus;
pub mod numfmt;
pub mod sensor;
pub mod sensor_definitions;
pub mod server;
