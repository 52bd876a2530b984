//! The inverter's register map: every sensor the catalog serves, defined
//! once at startup and never mutated afterwards.

use crate::catalog::{catalog_entry_ok, Catalog};
use crate::helpers::{slug_name, slug_of};
use crate::sensor::{
    BasicSensor, BinarySensor, CompoundSensor, FaultSensor, Sensor, SensorTypes, SerialSensor,
    TemperatureSensor,
};
use vstd::prelude::*;
use vstd::string::StringExecFns;

verus! {


/// The display names of the plain sensors, in definition order.
pub open spec fn basic_names() -> Seq<Seq<char>> {
    seq![
        "Battery Voltage"@,
        "Battery SOC"@,
        "Battery Power"@,
        "Battery Current"@,
        "Battery Charging Voltage"@,
        "Battery 1 SOC"@,
        "Battery 1 Cycle"@,
        "Inverter Power"@,
        "Inverter Voltage"@,
        "Inverter Frequency"@,
        "Grid frequency"@,
        "Grid power"@,
        "Grid LD power"@,
        "Grid L2 power"@,
        "Grid voltage"@,
        "Grid CT power"@,
        "Load power"@,
        "Load L1 power"@,
        "Load L2 power"@,
        "PV1 power"@,
        "PV1 voltage"@,
        "PV1 current"@,
        "PV2 power"@,
        "PV2 voltage"@,
        "PV2 current"@,
        "AUX power"@,
        "Day Active Energy"@,
        "Day Battery Charge"@,
        "Day Battery discharge"@,
        "Day Grid Export"@,
        "Day Grid Import"@,
        "Day Load Energy"@,
        "Day PV Energy"@,
        "Day Reactive Energy"@,
        "Month Grid Energy"@,
        "Month Load Energy"@,
        "Month PV Energy"@,
        "Total Active Energy"@,
        "Total Battery Charge"@,
        "Total Battery Discharge"@,
        "Total Grid Export"@,
        "Total Grid Import"@,
        "Total Load Energy"@,
        "Total PV Energy"@,
        "Year Grid Export"@,
        "Year Load Energy"@,
        "Year PV Energy"@,
        "Control Mode"@,
        "Grid Charge Battery current"@,
    ]
}

/// The display names of the binary sensors, in definition order.
pub open spec fn binary_names() -> Seq<Seq<char>> {
    seq![
        "Grid Charge Enabled"@,
        "Priority Load"@,
        "Solar Export"@,
        "Use Timer"@,
        "Grid Connected"@,
    ]
}

/// The display names of the temperature sensors, in definition order.
pub open spec fn temperature_names() -> Seq<Seq<char>> {
    seq![
        "Battery Temperature"@,
        "DC transformer temperature"@,
        "Environment temperature"@,
        "Radiator temperature"@,
    ]
}

/// The display names of the compound sensors, in definition order.
pub open spec fn compound_names() -> Seq<Seq<char>> {
    seq!["Essential Power"@, "Non-Essential Power"@, "Grid current"@]
}


/// The register lists of the plain sensors, in definition order.
pub open spec fn basic_regs() -> Seq<Seq<u16>> {
    seq![
        seq![183u16],
        seq![184u16],
        seq![190u16],
        seq![191u16],
        seq![312u16],
        seq![603u16],
        seq![611u16],
        seq![175u16],
        seq![154u16],
        seq![195u16],
        seq![79u16],
        seq![169u16],
        seq![167u16],
        seq![168u16],
        seq![150u16],
        seq![172u16],
        seq![178u16],
        seq![176u16],
        seq![177u16],
        seq![186u16],
        seq![109u16],
        seq![110u16],
        seq![187u16],
        seq![111u16],
        seq![112u16],
        seq![166u16],
        seq![60u16],
        seq![70u16],
        seq![71u16],
        seq![77u16],
        seq![76u16],
        seq![84u16],
        seq![108u16],
        seq![61u16],
        seq![67u16],
        seq![66u16],
        seq![65u16],
        seq![63u16, 64u16],
        seq![72u16, 73u16],
        seq![74u16, 75u16],
        seq![81u16, 82u16],
        seq![78u16, 80u16],
        seq![85u16, 86u16],
        seq![96u16, 97u16],
        seq![98u16, 99u16],
        seq![87u16, 88u16],
        seq![68u16, 69u16],
        seq![200u16],
        seq![230u16],
    ]
}

/// The scale factors of the plain sensors, in definition order.
pub open spec fn basic_factors() -> Seq<i64> {
    seq![100i64, 1i64, 1i64, 100i64, 100i64, 1i64, 1i64, 1i64, 10i64, 100i64, 100i64, 1i64, 1i64, 1i64, 10i64, 1i64, 1i64, 1i64, 1i64, 1i64, 10i64, 10i64, 1i64, 10i64, 10i64, 1i64, 10i64, 10i64, 10i64, 10i64, 10i64, 10i64, 10i64, 10i64, 10i64, 10i64, 10i64, 10i64, 10i64, 10i64, 10i64, 10i64, 10i64, 10i64, 10i64, 10i64, 10i64, 1i64, 1i64]
}

/// Which plain sensors carry signed raw values, in definition order.
pub open spec fn basic_signed() -> Seq<bool> {
    seq![false, false, true, true, false, false, false, true, false, false, false, true, true, true, false, true, true, true, true, true, false, false, true, false, false, true, true, false, false, false, false, false, false, true, false, false, false, false, false, false, false, false, false, false, false, false, false, false, false]
}

/// The register lists of the binary sensors, in definition order.
pub open spec fn binary_regs() -> Seq<Seq<u16>> {
    seq![seq![232u16], seq![243u16], seq![247u16], seq![248u16], seq![194u16]]
}

/// Which binary sensors are writable, in definition order; only the
/// grid-connection indicator is read-only.
pub open spec fn binary_mut() -> Seq<bool> {
    seq![true, true, true, true, false]
}

/// The register lists of the temperature sensors, in definition order.
pub open spec fn temperature_regs() -> Seq<Seq<u16>> {
    seq![seq![182u16], seq![90u16], seq![95u16], seq![91u16]]
}

/// The register lists of the compound sensors, in definition order.
pub open spec fn compound_regs() -> Seq<Seq<u16>> {
    seq![seq![175u16, 167u16, 166u16], seq![172u16, 176u16], seq![160u16, 161u16]]
}

/// The factor lists of the compound sensors, in definition order.
pub open spec fn compound_factors() -> Seq<Seq<i64>> {
    seq![seq![1i64, 1i64, -1i64], seq![1i64, -1i64], seq![100i64, 100i64]]
}

/// Which compound sensors clamp a negative result to zero, in definition
/// order.
pub open spec fn compound_no_negative() -> Seq<bool> {
    seq![false, true, false]
}

/// Which compound sensors negate a negative sum, in definition order.
pub open spec fn compound_absolute() -> Seq<bool> {
    seq![false, false, false]
}

/// Whether `s` is, field for field, the `i`-th plain sensor definition.
pub open spec fn matches_basic_def(s: Sensor, i: int) -> bool {
    &&& s.name@ == basic_names()[i]
    &&& s.registers@ =~= basic_regs()[i]
    &&& s.factor == basic_factors()[i]
    &&& s.is_signed == basic_signed()[i]
    &&& !s.is_mut
    &&& s.min is None
    &&& s.max is None
}

/// Whether `s` is, field for field, the `i`-th binary sensor definition.
pub open spec fn matches_binary_def(s: Sensor, i: int) -> bool {
    &&& s.name@ == binary_names()[i]
    &&& s.registers@ =~= binary_regs()[i]
    &&& s.factor == 1
    &&& !s.is_signed
    &&& s.is_mut == binary_mut()[i]
    &&& s.min is None
    &&& s.max is None
}

/// Whether `s` is, field for field, the `i`-th temperature sensor
/// definition.
pub open spec fn matches_temperature_def(s: Sensor, i: int) -> bool {
    &&& s.name@ == temperature_names()[i]
    &&& s.registers@ =~= temperature_regs()[i]
    &&& s.factor == 10
    &&& !s.is_signed
    &&& !s.is_mut
    &&& s.min is None
    &&& s.max is None
}

/// Whether `c` is, field for field, the `i`-th compound sensor definition.
pub open spec fn matches_compound_def(c: CompoundSensor, i: int) -> bool {
    &&& c.name@ == compound_names()[i]
    &&& c.registers@ =~= compound_regs()[i]
    &&& c.factors@ =~= compound_factors()[i]
    &&& c.no_negative == compound_no_negative()[i]
    &&& c.absolute == compound_absolute()[i]
}

/// Whether a sensor is one of the definitions the catalog is built from:
/// field for field one of the plain, binary, temperature or compound
/// definitions, or the fault bitmask sensor. The serial sensor is not
/// registered.
pub open spec fn is_defined_sensor(st: SensorTypes) -> bool {
    match st {
        SensorTypes::Basic(b) => exists|i: int|
            0 <= i < basic_names().len() && #[trigger] matches_basic_def(b.0, i),
        SensorTypes::Binary(b) => exists|i: int|
            0 <= i < binary_names().len() && #[trigger] matches_binary_def(b.0, i),
        SensorTypes::Temperature(t) => exists|i: int|
            0 <= i < temperature_names().len() && #[trigger] matches_temperature_def(t.0, i),
        SensorTypes::Compound(c) => exists|i: int|
            0 <= i < compound_names().len() && #[trigger] matches_compound_def(c, i),
        SensorTypes::Fault(f) => f.name@ == "Sunsynk Fault Codes"@ && f.registers@ =~= seq![
            103u16,
            104u16,
            105u16,
            106u16,
        ],
        SensorTypes::Serial(_) => false,
    }
}

/// The serial-number sensor.
pub fn serial_sensor() -> (s: SerialSensor)
    ensures
        s.name@ == "Serial Sensor"@,
        s.registers@ =~= seq![3u16, 4u16, 5u16, 6u16, 7u16],
{
    SerialSensor { name: String::from_str("Serial Sensor"), registers: [3, 4, 5, 6, 7] }
}

/// The fault bitmask sensor.
pub fn fault_sensor() -> (s: FaultSensor)
    ensures
        s.name@ == "Sunsynk Fault Codes"@,
        s.registers@ =~= seq![103u16, 104u16, 105u16, 106u16],
{
    FaultSensor::new(String::from_str("Sunsynk Fault Codes"), [103, 104, 105, 106])
}

/// The temperature sensors.
pub fn temperature_sensors() -> (v: Vec<TemperatureSensor>)
    ensures
        v@.len() == temperature_names().len(),
        forall|i: int| 0 <= i < v@.len() ==> matches_temperature_def((#[trigger] v@[i]).0, i),
        forall|i: int|
            0 <= i < v@.len() ==> (#[trigger] v@[i]).0.factor != 0 && 1 <= v@[i].0.registers@.len()
                <= 3,
{
    let mut v: Vec<TemperatureSensor> = Vec::new();
    v.push(TemperatureSensor(Sensor::new(String::from_str("Battery Temperature"), vec![182u16], 10, false)));
    v.push(TemperatureSensor(Sensor::new(String::from_str("DC transformer temperature"), vec![90u16], 10, false)));
    v.push(TemperatureSensor(Sensor::new(String::from_str("Environment temperature"), vec![95u16], 10, false)));
    v.push(TemperatureSensor(Sensor::new(String::from_str("Radiator temperature"), vec![91u16], 10, false)));
    v
}

/// A well-shaped compound definition: at least one register, one nonzero
/// factor per register.
pub open spec fn compound_def_ok(c: CompoundSensor) -> bool {
    &&& 1 <= c.registers@.len() <= 0x10000
    &&& c.registers@.len() == c.factors@.len()
    &&& forall|k: int| 0 <= k < c.factors@.len() ==> #[trigger] c.factors@[k] != 0
}

/// The compound sensors.
pub fn compound_sensors() -> (v: Vec<CompoundSensor>)
    ensures
        v@.len() == compound_names().len(),
        forall|i: int| 0 <= i < v@.len() ==> matches_compound_def(#[trigger] v@[i], i),
        forall|i: int| 0 <= i < v@.len() ==> compound_def_ok(#[trigger] v@[i]),
{
    let mut v: Vec<CompoundSensor> = Vec::new();
    v.push(CompoundSensor::new(String::from_str("Essential Power"), vec![175u16, 167, 166], vec![1i64, 1, -1], false, false));
    v.push(CompoundSensor::new(String::from_str("Non-Essential Power"), vec![172u16, 176], vec![1i64, -1], true, false));
    v.push(CompoundSensor::new(String::from_str("Grid current"), vec![160u16, 161], vec![100i64, 100], false, false));
    v
}

/// The first half of the plain sensors, covering definitions 0 through 24.
#[verifier::rlimit(100)]
fn basic_sensors_front() -> (v: Vec<BasicSensor>)
    ensures
        v@.len() == 25,
        forall|i: int| 0 <= i < 25 ==> matches_basic_def((#[trigger] v@[i]).0, i),
{
    let mut v: Vec<BasicSensor> = Vec::new();
    v.push(BasicSensor(Sensor::new(String::from_str("Battery Voltage"), vec![183u16], 100, false)));
    v.push(BasicSensor(Sensor::new(String::from_str("Battery SOC"), vec![184u16], 1, false)));
    v.push(BasicSensor(Sensor::new(String::from_str("Battery Power"), vec![190u16], 1, true)));
    v.push(BasicSensor(Sensor::new(String::from_str("Battery Current"), vec![191u16], 100, true)));
    v.push(BasicSensor(Sensor::new(String::from_str("Battery Charging Voltage"), vec![312u16], 100, false)));
    v.push(BasicSensor(Sensor::new(String::from_str("Battery 1 SOC"), vec![603u16], 1, false)));
    v.push(BasicSensor(Sensor::new(String::from_str("Battery 1 Cycle"), vec![611u16], 1, false)));
    v.push(BasicSensor(Sensor::new(String::from_str("Inverter Power"), vec![175u16], 1, true)));
    v.push(BasicSensor(Sensor::new(String::from_str("Inverter Voltage"), vec![154u16], 10, false)));
    v.push(BasicSensor(Sensor::new(String::from_str("Inverter Frequency"), vec![195u16], 100, false)));
    v.push(BasicSensor(Sensor::new(String::from_str("Grid frequency"), vec![79u16], 100, false)));
    v.push(BasicSensor(Sensor::new(String::from_str("Grid power"), vec![169u16], 1, true)));
    v.push(BasicSensor(Sensor::new(String::from_str("Grid LD power"), vec![167u16], 1, true)));
    v.push(BasicSensor(Sensor::new(String::from_str("Grid L2 power"), vec![168u16], 1, true)));
    v.push(BasicSensor(Sensor::new(String::from_str("Grid voltage"), vec![150u16], 10, false)));
    v.push(BasicSensor(Sensor::new(String::from_str("Grid CT power"), vec![172u16], 1, true)));
    v.push(BasicSensor(Sensor::new(String::from_str("Load power"), vec![178u16], 1, true)));
    v.push(BasicSensor(Sensor::new(String::from_str("Load L1 power"), vec![176u16], 1, true)));
    v.push(BasicSensor(Sensor::new(String::from_str("Load L2 power"), vec![177u16], 1, true)));
    v.push(BasicSensor(Sensor::new(String::from_str("PV1 power"), vec![186u16], 1, true)));
    v.push(BasicSensor(Sensor::new(String::from_str("PV1 voltage"), vec![109u16], 10, false)));
    v.push(BasicSensor(Sensor::new(String::from_str("PV1 current"), vec![110u16], 10, false)));
    v.push(BasicSensor(Sensor::new(String::from_str("PV2 power"), vec![187u16], 1, true)));
    v.push(BasicSensor(Sensor::new(String::from_str("PV2 voltage"), vec![111u16], 10, false)));
    v.push(BasicSensor(Sensor::new(String::from_str("PV2 current"), vec![112u16], 10, false)));
    v
}

/// The second half of the plain sensors, covering definitions 25 through
/// 48.
#[verifier::rlimit(100)]
fn basic_sensors_back() -> (v: Vec<BasicSensor>)
    ensures
        v@.len() == 24,
        forall|i: int| 0 <= i < 24 ==> matches_basic_def((#[trigger] v@[i]).0, 25 + i),
{
    let mut v: Vec<BasicSensor> = Vec::new();
    v.push(BasicSensor(Sensor::new(String::from_str("AUX power"), vec![166u16], 1, true)));
    v.push(BasicSensor(Sensor::new(String::from_str("Day Active Energy"), vec![60u16], 10, true)));
    v.push(BasicSensor(Sensor::new(String::from_str("Day Battery Charge"), vec![70u16], 10, false)));
    v.push(BasicSensor(Sensor::new(String::from_str("Day Battery discharge"), vec![71u16], 10, false)));
    v.push(BasicSensor(Sensor::new(String::from_str("Day Grid Export"), vec![77u16], 10, false)));
    v.push(BasicSensor(Sensor::new(String::from_str("Day Grid Import"), vec![76u16], 10, false)));
    v.push(BasicSensor(Sensor::new(String::from_str("Day Load Energy"), vec![84u16], 10, false)));
    v.push(BasicSensor(Sensor::new(String::from_str("Day PV Energy"), vec![108u16], 10, false)));
    v.push(BasicSensor(Sensor::new(String::from_str("Day Reactive Energy"), vec![61u16], 10, true)));
    v.push(BasicSensor(Sensor::new(String::from_str("Month Grid Energy"), vec![67u16], 10, false)));
    v.push(BasicSensor(Sensor::new(String::from_str("Month Load Energy"), vec![66u16], 10, false)));
    v.push(BasicSensor(Sensor::new(String::from_str("Month PV Energy"), vec![65u16], 10, false)));
    v.push(BasicSensor(Sensor::new(String::from_str("Total Active Energy"), vec![63u16, 64], 10, false)));
    v.push(BasicSensor(Sensor::new(String::from_str("Total Battery Charge"), vec![72u16, 73], 10, false)));
    v.push(BasicSensor(Sensor::new(String::from_str("Total Battery Discharge"), vec![74u16, 75], 10, false)));
    v.push(BasicSensor(Sensor::new(String::from_str("Total Grid Export"), vec![81u16, 82], 10, false)));
    v.push(BasicSensor(Sensor::new(String::from_str("Total Grid Import"), vec![78u16, 80], 10, false)));
    v.push(BasicSensor(Sensor::new(String::from_str("Total Load Energy"), vec![85u16, 86], 10, false)));
    v.push(BasicSensor(Sensor::new(String::from_str("Total PV Energy"), vec![96u16, 97], 10, false)));
    v.push(BasicSensor(Sensor::new(String::from_str("Year Grid Export"), vec![98u16, 99], 10, false)));
    v.push(BasicSensor(Sensor::new(String::from_str("Year Load Energy"), vec![87u16, 88], 10, false)));
    v.push(BasicSensor(Sensor::new(String::from_str("Year PV Energy"), vec![68u16, 69], 10, false)));
    v.push(BasicSensor(Sensor::new(String::from_str("Control Mode"), vec![200u16], 1, false)));
    v.push(BasicSensor(Sensor::new(String::from_str("Grid Charge Battery current"), vec![230u16], 1, false)));
    v
}

/// The plain sensors.
pub fn basic_sensors() -> (v: Vec<BasicSensor>)
    ensures
        v@.len() == basic_names().len(),
        forall|i: int| 0 <= i < v@.len() ==> matches_basic_def((#[trigger] v@[i]).0, i),
        forall|i: int|
            0 <= i < v@.len() ==> (#[trigger] v@[i]).0.factor != 0 && 1 <= v@[i].0.registers@.len()
                <= 3,
{
    let mut v = basic_sensors_front();
    let ghost front = v@;
    let mut rest = basic_sensors_back();
    let ghost back = rest@;
    v.append(&mut rest);
    proof {
        assert(v@ == front + back);
        assert forall|i: int|
            0 <= i < v@.len() implies matches_basic_def((#[trigger] v@[i]).0, i) by {
            if i < 25 {
                assert(v@[i] == front[i]);
            } else {
                assert(v@[i] == back[i - 25]);
                assert(matches_basic_def(back[i - 25].0, i));
            }
        }
        assert forall|i: int|
            0 <= i < v@.len() implies (#[trigger] v@[i]).0.factor != 0 && 1
            <= v@[i].0.registers@.len() <= 3 by {
            assert(matches_basic_def(v@[i].0, i));
            lemma_basic_defs_shape(i);
        }
    }
    v
}

/// Each plain definition has a nonzero factor and one to three registers.
proof fn lemma_basic_defs_shape(i: int)
    requires
        0 <= i < basic_names().len(),
    ensures
        basic_factors()[i] != 0,
        1 <= basic_regs()[i].len() <= 3,
{
}

/// The binary sensors; all but the grid-connection indicator are writable.
pub fn binary_sensors() -> (v: Vec<BinarySensor>)
    ensures
        v@.len() == binary_names().len(),
        forall|i: int| 0 <= i < v@.len() ==> matches_binary_def((#[trigger] v@[i]).0, i),
        forall|i: int|
            0 <= i < v@.len() ==> (#[trigger] v@[i]).0.factor != 0 && 1 <= v@[i].0.registers@.len()
                <= 3,
{
    let mut v: Vec<BinarySensor> = Vec::new();
    v.push(BinarySensor(Sensor::new_mut(String::from_str("Grid Charge Enabled"), vec![232u16], 1, false)));
    v.push(BinarySensor(Sensor::new_mut(String::from_str("Priority Load"), vec![243u16], 1, false)));
    v.push(BinarySensor(Sensor::new_mut(String::from_str("Solar Export"), vec![247u16], 1, false)));
    v.push(BinarySensor(Sensor::new_mut(String::from_str("Use Timer"), vec![248u16], 1, false)));
    v.push(BinarySensor(Sensor::new(String::from_str("Grid Connected"), vec![194u16], 1, false)));
    v
}

/// Inserting a defined sensor into a catalog of defined sensors leaves
/// every entry a defined sensor, whether the insert replaced a binding or
/// appended one.
proof fn lemma_insert_preserves_defined(
    pre: Seq<(String, SensorTypes)>,
    post: Seq<(String, SensorTypes)>,
    name: String,
    sensor: SensorTypes,
)
    requires
        (exists|i: int| 0 <= i < pre.len() && (#[trigger] pre[i]).0@ == name@) ==> (exists|i: int|
            0 <= i < pre.len() && (#[trigger] pre[i]).0@ == name@ && post == pre.update(
                i,
                (name, sensor),
            )),
        (forall|i: int| 0 <= i < pre.len() ==> (#[trigger] pre[i]).0@ != name@) ==> post
            == pre.push((name, sensor)),
        forall|m: int| 0 <= m < pre.len() ==> is_defined_sensor((#[trigger] pre[m]).1),
        is_defined_sensor(sensor),
    ensures
        forall|m: int| 0 <= m < post.len() ==> is_defined_sensor((#[trigger] post[m]).1),
{
    if exists|i: int| 0 <= i < pre.len() && (#[trigger] pre[i]).0@ == name@ {
        let i = choose|i: int|
            0 <= i < pre.len() && (#[trigger] pre[i]).0@ == name@ && post == pre.update(
                i,
                (name, sensor),
            );
        assert forall|m: int|
            0 <= m < post.len() implies is_defined_sensor((#[trigger] post[m]).1) by {
            if m == i {
                assert(post[m].1 == sensor);
            } else {
                assert(post[m] == pre[m]);
            }
        }
    } else {
        assert forall|i: int| 0 <= i < pre.len() implies (#[trigger] pre[i]).0@ != name@ by {}
        assert(post == pre.push((name, sensor)));
        assert forall|m: int|
            0 <= m < post.len() implies is_defined_sensor((#[trigger] post[m]).1) by {
            if m < pre.len() {
                assert(post[m] == pre[m]);
            } else {
                assert(post[m].1 == sensor);
            }
        }
    }
}

/// Builds the catalog served to the query layer: every sensor above, keyed
/// by its normalized name. Each defined sensor is inserted under the
/// normalized form of its name, so the catalog holds a binding for every
/// defined name, every binding's key is the normalized name of its sensor,
/// and every registered sensor is, field for field, one of the definitions
/// above; should two names normalize to the same key, the sensor inserted
/// later holds it.
pub fn register_sensors() -> (c: Catalog)
    ensures
        c.wf(),
        c.entries_ok(),
        forall|j: int|
            0 <= j < basic_names().len() ==> c.has_key(slug_of(#[trigger] basic_names()[j])),
        forall|j: int|
            0 <= j < binary_names().len() ==> c.has_key(slug_of(#[trigger] binary_names()[j])),
        forall|j: int|
            0 <= j < temperature_names().len() ==> c.has_key(
                slug_of(#[trigger] temperature_names()[j]),
            ),
        forall|j: int|
            0 <= j < compound_names().len() ==> c.has_key(slug_of(#[trigger] compound_names()[j])),
        c.has_key(slug_of("Sunsynk Fault Codes"@)),
        forall|m: int|
            0 <= m < c.entries@.len() ==> is_defined_sensor((#[trigger] c.entries@[m]).1),
        exists|i: int|
            0 <= i < c.entries@.len() && ((#[trigger] c.entries@[i]).1 matches SensorTypes::Fault(f)
                && f.name@ == "Sunsynk Fault Codes"@ && f.registers@ == seq![
                103u16,
                104u16,
                105u16,
                106u16,
            ] && c.entries@[i].0@ == slug_of("Sunsynk Fault Codes"@)),
{
    let mut c = Catalog::new();
    let mut basics = basic_sensors();
    while basics.len() > 0
        invariant
            c.wf(),
            c.entries_ok(),
            forall|m: int|
                0 <= m < c.entries@.len() ==> is_defined_sensor((#[trigger] c.entries@[m]).1),
            basics@.len() <= basic_names().len(),
            forall|i: int|
                0 <= i < basics@.len() ==> matches_basic_def((#[trigger] basics@[i]).0, i),
            forall|i: int|
                0 <= i < basics@.len() ==> (#[trigger] basics@[i]).0.factor != 0 && 1
                    <= basics@[i].0.registers@.len() <= 3,
            forall|j: int|
                basics@.len() <= j < basic_names().len() ==> c.has_key(
                    slug_of(#[trigger] basic_names()[j]),
                ),
        decreases basics@.len(),
    {
        let ghost n = basics@.len();
        if let Some(s) = basics.pop() {
            let key = slug_name(s.0.name.as_str());
            proof {
                assert(matches_basic_def(s.0, n - 1));
                assert(s.0.name@ == basic_names()[n - 1]);
                assert(catalog_entry_ok((key, SensorTypes::Basic(s))));
                assert(is_defined_sensor(SensorTypes::Basic(s)));
            }
            let ghost key_s = key;
            let ghost st_s = SensorTypes::Basic(s);
            let ghost c_pre = c;
            c.insert(key, SensorTypes::Basic(s));
            proof {
                lemma_insert_preserves_defined(c_pre.entries@, c.entries@, key_s, st_s);
                assert forall|j: int|
                    basics@.len() <= j < basic_names().len() implies c.has_key(
                    slug_of(#[trigger] basic_names()[j]),
                ) by {
                    if j > n - 1 {
                        assert(c_pre.has_key(slug_of(basic_names()[j])));
                    }
                }
            }
        }
    }
    let mut binaries = binary_sensors();
    while binaries.len() > 0
        invariant
            c.wf(),
            c.entries_ok(),
            forall|m: int|
                0 <= m < c.entries@.len() ==> is_defined_sensor((#[trigger] c.entries@[m]).1),
            binaries@.len() <= binary_names().len(),
            forall|i: int|
                0 <= i < binaries@.len() ==> matches_binary_def((#[trigger] binaries@[i]).0, i),
            forall|i: int|
                0 <= i < binaries@.len() ==> (#[trigger] binaries@[i]).0.factor != 0 && 1
                    <= binaries@[i].0.registers@.len() <= 3,
            forall|j: int|
                0 <= j < basic_names().len() ==> c.has_key(slug_of(#[trigger] basic_names()[j])),
            forall|j: int|
                binaries@.len() <= j < binary_names().len() ==> c.has_key(
                    slug_of(#[trigger] binary_names()[j]),
                ),
        decreases binaries@.len(),
    {
        let ghost n = binaries@.len();
        if let Some(s) = binaries.pop() {
            let key = slug_name(s.0.name.as_str());
            proof {
                assert(matches_binary_def(s.0, n - 1));
                assert(s.0.name@ == binary_names()[n - 1]);
                assert(catalog_entry_ok((key, SensorTypes::Binary(s))));
                assert(is_defined_sensor(SensorTypes::Binary(s)));
            }
            let ghost key_s = key;
            let ghost st_s = SensorTypes::Binary(s);
            let ghost c_pre = c;
            c.insert(key, SensorTypes::Binary(s));
            proof {
                lemma_insert_preserves_defined(c_pre.entries@, c.entries@, key_s, st_s);
                assert forall|j: int|
                    0 <= j < basic_names().len() implies c.has_key(
                    slug_of(#[trigger] basic_names()[j]),
                ) by {
                    assert(c_pre.has_key(slug_of(basic_names()[j])));
                }
                assert forall|j: int|
                    binaries@.len() <= j < binary_names().len() implies c.has_key(
                    slug_of(#[trigger] binary_names()[j]),
                ) by {
                    if j > n - 1 {
                        assert(c_pre.has_key(slug_of(binary_names()[j])));
                    }
                }
            }
        }
    }
    let mut temps = temperature_sensors();
    while temps.len() > 0
        invariant
            c.wf(),
            c.entries_ok(),
            forall|m: int|
                0 <= m < c.entries@.len() ==> is_defined_sensor((#[trigger] c.entries@[m]).1),
            temps@.len() <= temperature_names().len(),
            forall|i: int|
                0 <= i < temps@.len() ==> matches_temperature_def((#[trigger] temps@[i]).0, i),
            forall|i: int|
                0 <= i < temps@.len() ==> (#[trigger] temps@[i]).0.factor != 0 && 1
                    <= temps@[i].0.registers@.len() <= 3,
            forall|j: int|
                0 <= j < basic_names().len() ==> c.has_key(slug_of(#[trigger] basic_names()[j])),
            forall|j: int|
                0 <= j < binary_names().len() ==> c.has_key(slug_of(#[trigger] binary_names()[j])),
            forall|j: int|
                temps@.len() <= j < temperature_names().len() ==> c.has_key(
                    slug_of(#[trigger] temperature_names()[j]),
                ),
        decreases temps@.len(),
    {
        let ghost n = temps@.len();
        if let Some(s) = temps.pop() {
            let key = slug_name(s.0.name.as_str());
            proof {
                assert(matches_temperature_def(s.0, n - 1));
                assert(s.0.name@ == temperature_names()[n - 1]);
                assert(catalog_entry_ok((key, SensorTypes::Temperature(s))));
                assert(is_defined_sensor(SensorTypes::Temperature(s)));
            }
            let ghost key_s = key;
            let ghost st_s = SensorTypes::Temperature(s);
            let ghost c_pre = c;
            c.insert(key, SensorTypes::Temperature(s));
            proof {
                lemma_insert_preserves_defined(c_pre.entries@, c.entries@, key_s, st_s);
                assert forall|j: int|
                    0 <= j < basic_names().len() implies c.has_key(
                    slug_of(#[trigger] basic_names()[j]),
                ) by {
                    assert(c_pre.has_key(slug_of(basic_names()[j])));
                }
                assert forall|j: int|
                    0 <= j < binary_names().len() implies c.has_key(
                    slug_of(#[trigger] binary_names()[j]),
                ) by {
                    assert(c_pre.has_key(slug_of(binary_names()[j])));
                }
                assert forall|j: int|
                    temps@.len() <= j < temperature_names().len() implies c.has_key(
                    slug_of(#[trigger] temperature_names()[j]),
                ) by {
                    if j > n - 1 {
                        assert(c_pre.has_key(slug_of(temperature_names()[j])));
                    }
                }
            }
        }
    }
    let mut compounds = compound_sensors();
    while compounds.len() > 0
        invariant
            c.wf(),
            c.entries_ok(),
            forall|m: int|
                0 <= m < c.entries@.len() ==> is_defined_sensor((#[trigger] c.entries@[m]).1),
            compounds@.len() <= compound_names().len(),
            forall|i: int|
                0 <= i < compounds@.len() ==> matches_compound_def(#[trigger] compounds@[i], i),
            forall|i: int| 0 <= i < compounds@.len() ==> compound_def_ok(#[trigger] compounds@[i]),
            forall|j: int|
                0 <= j < basic_names().len() ==> c.has_key(slug_of(#[trigger] basic_names()[j])),
            forall|j: int|
                0 <= j < binary_names().len() ==> c.has_key(slug_of(#[trigger] binary_names()[j])),
            forall|j: int|
                0 <= j < temperature_names().len() ==> c.has_key(
                    slug_of(#[trigger] temperature_names()[j]),
                ),
            forall|j: int|
                compounds@.len() <= j < compound_names().len() ==> c.has_key(
                    slug_of(#[trigger] compound_names()[j]),
                ),
        decreases compounds@.len(),
    {
        let ghost n = compounds@.len();
        if let Some(s) = compounds.pop() {
            let key = slug_name(s.name.as_str());
            proof {
                assert(matches_compound_def(s, n - 1));
                assert(s.name@ == compound_names()[n - 1]);
                assert(compound_def_ok(s));
                assert(catalog_entry_ok((key, SensorTypes::Compound(s))));
                assert(is_defined_sensor(SensorTypes::Compound(s)));
            }
            let ghost key_s = key;
            let ghost st_s = SensorTypes::Compound(s);
            let ghost c_pre = c;
            c.insert(key, SensorTypes::Compound(s));
            proof {
                lemma_insert_preserves_defined(c_pre.entries@, c.entries@, key_s, st_s);
                assert forall|j: int|
                    0 <= j < basic_names().len() implies c.has_key(
                    slug_of(#[trigger] basic_names()[j]),
                ) by {
                    assert(c_pre.has_key(slug_of(basic_names()[j])));
                }
                assert forall|j: int|
                    0 <= j < binary_names().len() implies c.has_key(
                    slug_of(#[trigger] binary_names()[j]),
                ) by {
                    assert(c_pre.has_key(slug_of(binary_names()[j])));
                }
                assert forall|j: int|
                    0 <= j < temperature_names().len() implies c.has_key(
                    slug_of(#[trigger] temperature_names()[j]),
                ) by {
                    assert(c_pre.has_key(slug_of(temperature_names()[j])));
                }
                assert forall|j: int|
                    compounds@.len() <= j < compound_names().len() implies c.has_key(
                    slug_of(#[trigger] compound_names()[j]),
                ) by {
                    if j > n - 1 {
                        assert(c_pre.has_key(slug_of(compound_names()[j])));
                    }
                }
            }
        }
    }
    let faults = fault_sensor();
    let key = slug_name(faults.name.as_str());
    let ghost key_snap = key;
    let ghost st_snap = SensorTypes::Fault(faults);
    proof {
        assert(catalog_entry_ok((key_snap, st_snap)));
        assert(is_defined_sensor(st_snap));
    }
    let ghost c_pre = c;
    c.insert(key, SensorTypes::Fault(faults));
    proof {
        lemma_insert_preserves_defined(c_pre.entries@, c.entries@, key_snap, st_snap);
        assert forall|j: int|
            0 <= j < basic_names().len() implies c.has_key(
            slug_of(#[trigger] basic_names()[j]),
        ) by {
            assert(c_pre.has_key(slug_of(basic_names()[j])));
        }
        assert forall|j: int|
            0 <= j < binary_names().len() implies c.has_key(
            slug_of(#[trigger] binary_names()[j]),
        ) by {
            assert(c_pre.has_key(slug_of(binary_names()[j])));
        }
        assert forall|j: int|
            0 <= j < temperature_names().len() implies c.has_key(
            slug_of(#[trigger] temperature_names()[j]),
        ) by {
            assert(c_pre.has_key(slug_of(temperature_names()[j])));
        }
        assert forall|j: int|
            0 <= j < compound_names().len() implies c.has_key(
            slug_of(#[trigger] compound_names()[j]),
        ) by {
            assert(c_pre.has_key(slug_of(compound_names()[j])));
        }
        assert(key_snap@ == slug_of("Sunsynk Fault Codes"@));
        assert(c.has_key(slug_of("Sunsynk Fault Codes"@)));
        // The exact fault entry stands in the catalog: the final insert
        // either replaced the entry under its key or appended a new one,
        // and either way that entry holds this very pair.
        if exists|i: int|
            0 <= i < c_pre.entries@.len() && (#[trigger] c_pre.entries@[i]).0@ == key_snap@ {
            let i = choose|i: int|
                0 <= i < c_pre.entries@.len() && (#[trigger] c_pre.entries@[i]).0@ == key_snap@
                    && c.entries@ == c_pre.entries@.update(i, (key_snap, st_snap));
            assert(c.entries@[i] == (key_snap, st_snap));
        } else {
            assert(c.entries@ == c_pre.entries@.push((key_snap, st_snap)));
            assert(c.entries@[c_pre.entries@.len() as int] == (key_snap, st_snap));
        }
    }
    c
}

} // verus!
