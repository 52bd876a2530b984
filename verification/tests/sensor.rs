use samsynk::modbus::{Query, Response, Serializer, TransportError};
use samsynk::sensor::{
    faults_decode, BasicSensor, BinarySensor, CompoundSensor, FaultSensor, SDStatus,
    SDStatusSensor, Sensor, SensorError, SensorTypes, SerialSensor, TemperatureSensor,
};

/// Drives one read request through the serializer the way the bus worker
/// does, handing back the words of `reply` as the transport's response.
fn mock_read(sensor: &SensorTypes, replies: Vec<Vec<u16>>) -> Vec<u16> {
    let mut serializer = Serializer::new();
    let queries = sensor.read_queries();
    let mut tickets = Vec::new();
    for q in queries {
        tickets.push(serializer.submit(q).unwrap());
    }
    let mut words: Vec<u16> = Vec::new();
    for (i, reply) in replies.into_iter().enumerate() {
        let (ticket, outcome) = serializer.complete(Ok(Response::Read(reply))).unwrap();
        assert_eq!(ticket, tickets[i]);
        match outcome {
            Ok(Response::Read(mut w)) => words.append(&mut w),
            _ => panic!("expected a read response"),
        }
    }
    words
}

// Basic test that you can read data from a sensor.
#[test]
fn read_data_from_modbus_sensor() {
    let sensor = SensorTypes::Basic(BasicSensor(Sensor::new(
        "Battery Voltage".to_string(),
        vec![183],
        1,
        false,
    )));
    let words = mock_read(&sensor, vec![vec![240]]);
    let result = sensor.read(&words);
    assert_eq!("240", result);
}

#[test]
fn read_data_from_modbus_over_serial() {
    let sensor = BasicSensor(Sensor::new("Battery Voltage".to_string(), vec![183], 1, false));
    let value = sensor.read(&vec![240]);
    assert_eq!("240", value.display);
    assert_eq!(240, value.value);
}

#[test]
fn basic_sensor_scaled_read() {
    // The same raw word as the temperature test, without the offset.
    let sensor = BasicSensor(Sensor::new("Load power".to_string(), vec![178], 10, false));
    let value = sensor.read(&vec![1110]);
    assert_eq!("111", value.display);
}

/// Check that the Temperature read method works as expected.
#[test]
fn temp_sensor_read() {
    let sensor = SensorTypes::Temperature(TemperatureSensor(Sensor::new(
        "Battery Temperature".to_string(),
        vec![182],
        10,
        false,
    )));
    let words = mock_read(&sensor, vec![vec![1110]]);
    let value = sensor.read(&words);
    assert_eq!("11", value);
}

/// Check that the Serial Number read method works as expected.
#[test]
fn serial_sensor_read() {
    let serial = SerialSensor {
        name: "Serial Number".to_string(),
        registers: [3, 4, 5, 6, 7],
    };
    let sensor = SensorTypes::Serial(serial);
    let words = mock_read(&sensor, vec![vec![513, 513, 513, 513, 513]]);
    let value = sensor.read(&words);
    assert_eq!("2121212121", value);
}

#[test]
fn test_faults_decode() {
    assert_eq!(vec![1u16], faults_decode(vec![0x01, 0x0, 0x0, 0x0]));

    assert_eq!(vec![8u16], faults_decode(vec![0x80, 0x0, 0x0, 0x0]));

    assert_eq!(vec![32u16], faults_decode(vec![0x0, 0x8000, 0x0, 0x0]));

    assert_eq!(
        vec![1u16, 8u16, 32u16],
        faults_decode(vec![0x81, 0x8000, 0x0, 0x0])
    );

    assert_eq!(vec![33u16], faults_decode(vec![0x0, 0x0, 0x1, 0x0]));
}

#[test]
fn faults_sensor_read() {
    let fault_sensor = FaultSensor::new("Sunsynk Faults Sensor".to_string(), [103, 104, 105, 106]);
    let sensor = SensorTypes::Fault(fault_sensor);
    let words = mock_read(&sensor, vec![vec![0x81, 0x8000, 0x0, 0x0]]);
    let value = sensor.read(&words);
    assert_eq!("F1, F8, F32", value);
}

#[test]
fn compound_sensor_read() {
    let compound_sensor = CompoundSensor::new(
        "Grid Current".to_string(),
        vec![160, 161],
        vec![1, -1],
        false,
        false,
    );
    let sensor = SensorTypes::Compound(compound_sensor);
    // Each register is read independently, one word per request.
    let words = mock_read(&sensor, vec![vec![1000], vec![800]]);
    let value = sensor.read(&words);
    assert_eq!("200", value);
}

#[test]
fn compound_sensor_read2() {
    let compound_sensor = CompoundSensor::new(
        "Fake Sensor".to_string(),
        vec![160, 161],
        vec![1, -1],
        false,
        false,
    );
    let value = compound_sensor.read(&vec![200, 800]);
    assert_eq!("-600", value.display);
}

#[test]
fn compound_sensor_read_no_negative() {
    let compound_sensor = CompoundSensor::new(
        "Compound Sensor No Negative".to_string(),
        vec![160, 161],
        vec![1, -1],
        true,
        false,
    );
    let value = compound_sensor.read(&vec![200, 800]);
    assert_eq!("0", value.display);
}

#[test]
fn compound_sensor_absolute() {
    let compound_sensor = CompoundSensor::new(
        "Compound Sensor Absolute".to_string(),
        vec![160, 161],
        vec![1, -1],
        false,
        true,
    );
    let value = compound_sensor.read(&vec![200, 800]);
    assert_eq!("600", value.display);
}

#[test]
fn write_data_to_modbus_over_serial() {
    let sensor = Sensor::new_mut("Battery Shutdown Voltage".to_string(), vec![220], 100, false);

    let query = sensor.write(45).unwrap();
    assert_eq!(query, Query::Write((220, 45)));

    // The write transaction goes out through the serializer and its
    // acknowledgement comes back to the submitting ticket.
    let mut serializer = Serializer::new();
    let ticket = serializer.submit(query).unwrap();
    let (routed, outcome) = serializer.complete(Ok(Response::Write(()))).unwrap();
    assert_eq!(routed, ticket);
    assert!(matches!(outcome, Ok(Response::Write(()))));
}

#[test]
fn write_data_to_modbus_over_serial_err() {
    let sensor = Sensor::new("Load Power".to_string(), vec![178], 1, true);
    assert!(sensor.write(45).is_err());
    assert_eq!(sensor.write(45), Err(SensorError::NotWritable));
}

#[test]
fn binary_write_rejects_out_of_range_without_transport() {
    let sensor = BinarySensor(Sensor::new_mut(
        "Priority Load".to_string(),
        vec![243],
        1,
        false,
    ));
    // Any value other than 0 or 1 is rejected before a query exists, so
    // nothing can reach a transport.
    assert_eq!(sensor.write(2), Err(SensorError::OutOfRange));
    assert_eq!(sensor.write(45), Err(SensorError::OutOfRange));
    // 0 and 1 produce exactly one write transaction.
    assert_eq!(sensor.write(1), Ok(Query::Write((243, 1))));
    assert_eq!(sensor.write(0), Ok(Query::Write((243, 0))));
}

#[test]
fn write_bounds_are_enforced() {
    let sensor = Sensor::new_mut("Battery Shutdown Voltage".to_string(), vec![220], 100, false)
        .with_bounds(Some(40), Some(60));
    assert_eq!(sensor.write(39), Err(SensorError::OutOfRange));
    assert_eq!(sensor.write(61), Err(SensorError::OutOfRange));
    assert_eq!(sensor.write(45), Ok(Query::Write((220, 45))));
}

#[test]
fn read_only_variants_reject_writes() {
    let fault = SensorTypes::Fault(FaultSensor::new(
        "Faults".to_string(),
        [103, 104, 105, 106],
    ));
    assert_eq!(fault.write(1), Err(SensorError::NotWritable));
    let serial = SensorTypes::Serial(SerialSensor {
        name: "Serial".to_string(),
        registers: [3, 4, 5, 6, 7],
    });
    assert_eq!(serial.write(1), Err(SensorError::NotWritable));
    let temp = SensorTypes::Temperature(TemperatureSensor(Sensor::new(
        "Battery Temperature".to_string(),
        vec![182],
        10,
        false,
    )));
    assert_eq!(temp.write(1), Err(SensorError::NotWritable));
    let compound = SensorTypes::Compound(CompoundSensor::new(
        "Grid Current".to_string(),
        vec![160, 161],
        vec![1, -1],
        false,
        false,
    ));
    assert_eq!(compound.write(1), Err(SensorError::NotWritable));
}

#[test]
fn signed_basic_sensor_read() {
    // A signed single-register sensor turns a high raw word negative.
    let sensor = BasicSensor(Sensor::new("Battery Power".to_string(), vec![190], 1, true));
    let value = sensor.read(&vec![0xFFFE]);
    assert_eq!(-1, value.value);
    assert_eq!("-1", value.display);
}

#[test]
fn sd_status_decodes() {
    let sensor = SDStatusSensor {
        name: "SD Status".to_string(),
        registers: [92],
    };
    assert_eq!(sensor.status(1000), SDStatus::Fault);
    assert_eq!(sensor.status(2000), SDStatus::Okay);
    assert_eq!(sensor.status(0), SDStatus::Unknown);
    assert_eq!(sensor.read(&vec![1000]), "Fault");
    assert_eq!(sensor.read(&vec![2000]), "Ok");
    assert_eq!(sensor.read(&vec![123]), "Unknown");
}

#[test]
fn compound_read_plan_is_per_register() {
    let compound = SensorTypes::Compound(CompoundSensor::new(
        "Essential Power".to_string(),
        vec![175, 167, 166],
        vec![1, 1, -1],
        false,
        false,
    ));
    let queries = compound.read_queries();
    assert_eq!(queries.len(), 3);
    assert_eq!(queries[0], Query::Read(vec![175]));
    assert_eq!(queries[1], Query::Read(vec![167]));
    assert_eq!(queries[2], Query::Read(vec![166]));

    let basic = SensorTypes::Basic(BasicSensor(Sensor::new(
        "Total PV Energy".to_string(),
        vec![96, 97],
        10,
        false,
    )));
    let queries = basic.read_queries();
    assert_eq!(queries.len(), 1);
    assert_eq!(queries[0], Query::Read(vec![96, 97]));
}

#[test]
fn metric_values_for_numeric_sensors_only() {
    let temp = SensorTypes::Temperature(TemperatureSensor(Sensor::new(
        "Battery Temperature".to_string(),
        vec![182],
        10,
        false,
    )));
    assert_eq!(temp.metric_value(&vec![1110]), Some(11));
    let fault = SensorTypes::Fault(FaultSensor::new(
        "Faults".to_string(),
        [103, 104, 105, 106],
    ));
    assert_eq!(fault.metric_value(&vec![0x81, 0x8000, 0, 0]), None);
}

#[test]
fn transport_error_kinds_are_distinct() {
    assert_ne!(TransportError::Io, TransportError::Timeout);
    assert_ne!(TransportError::Io, TransportError::ResponseLength);
    assert_ne!(TransportError::ResponseLength, TransportError::Timeout);
}
