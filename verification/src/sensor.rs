//! The typed sensor model: each sensor owns a register layout and a
//! decode/encode rule turning raw 16-bit register words into typed, signed,
//! multi-register, and bitmask-derived values, and back for writes.

use crate::helpers::{abs_i, div_i64, div_trunc, signed, signed_spec};
use crate::modbus::Query;
use crate::numfmt::{i64_string, int_rep};
use vstd::prelude::*;

verus! {

/// A locally detected failure: none of these ever reaches the bus.
#[derive(Clone, Copy, Debug, PartialEq, Eq, Structural)]
pub enum SensorError {
    /// A write was attempted on a read-only or non-mutable sensor.
    NotWritable,
    /// A write value lies outside the sensor's configured bounds.
    OutOfRange,
    /// A catalog lookup missed.
    Unknown,
    /// The serializer's mailbox is closed (shutdown); submissions fail
    /// immediately.
    SerializerUnavailable,
}

/// Which load the inverter feeds first.
#[derive(Default, Clone)]
pub enum PriorityLoad {
    #[default]
    BatteryFirst,
    LoadFirst,
}

/// A decoded reading: the signed 64-bit value (what a metric sink records)
/// and its decimal string rendering (what a query interface returns).
#[derive(Clone, Debug)]
pub struct SensorValue {
    pub value: i64,
    pub display: String,
}

/// Register words composed little-word-first into one integer: the sum of
/// `word[i] * 2^(16*i)`.
pub open spec fn compose_spec(words: Seq<u16>) -> int
    decreases words.len(),
{
    if words.len() == 0 {
        0
    } else {
        words[0] + 0x10000 * compose_spec(words.drop_first())
    }
}

/// The value a plain sensor reading stands for: the composed words, put
/// through the signed conversion when the sensor is marked signed and reads
/// exactly one register, then divided by the scale factor.
pub open spec fn basic_value(words: Seq<u16>, factor: int, is_signed: bool) -> int {
    let raw = compose_spec(words);
    let adj = if is_signed && words.len() == 1 {
        signed_spec(raw)
    } else {
        raw
    };
    div_trunc(adj, factor)
}

/// A temperature reading: the plain value minus the device's fixed offset
/// of 100 (the device encodes degrees Celsius plus 100).
pub open spec fn temperature_value(words: Seq<u16>, factor: int, is_signed: bool) -> int {
    basic_value(words, factor, is_signed) - 100
}

/// Composes up to three register words little-word-first into one value.
fn compose_words(words: &Vec<u16>) -> (v: i64)
    requires
        words@.len() <= 3,
    ensures
        v == compose_spec(words@),
        0 <= v < 0x1000000000000,
{
    proof {
        reveal_with_fuel(compose_spec, 4);
    }
    if words.len() == 0 {
        0
    } else if words.len() == 1 {
        words[0] as i64
    } else if words.len() == 2 {
        words[0] as i64 + (words[1] as i64) * 0x10000
    } else {
        words[0] as i64 + (words[1] as i64) * 0x10000 + (words[2] as i64) * 0x100000000
    }
}

/// What a write to a plain sensor does, decided before any bus access: a
/// sensor not marked mutable rejects every write, a value outside the
/// configured bounds is out of range, and otherwise exactly one write
/// transaction for the sensor's first register is produced.
pub open spec fn sensor_write_spec(s: Sensor, value: u16) -> Result<Query, SensorError> {
    if !s.is_mut {
        Err(SensorError::NotWritable)
    } else if !s.value_in_bounds(value) {
        Err(SensorError::OutOfRange)
    } else {
        Ok(Query::Write((s.registers[0], value)))
    }
}

/// What a write to a binary sensor does: only the values 0 and 1 reach the
/// plain write rules; anything else is rejected with no transaction.
pub open spec fn binary_write_spec(s: Sensor, value: u16) -> Result<Query, SensorError> {
    if value > 1 {
        Err(SensorError::OutOfRange)
    } else {
        sensor_write_spec(s, value)
    }
}

/// One plain sensor: a name, the registers it reads, a scale factor, and
/// whether its raw value is signed and whether it may be written.
#[derive(Clone, Debug)]
pub struct Sensor {
    pub name: String,
    pub registers: Vec<u16>,
    pub factor: i64,
    pub is_signed: bool,
    pub is_mut: bool,
    pub min: Option<u16>,
    pub max: Option<u16>,
}

impl Default for Sensor {
    /// An unconfigured sensor with no registers and a zero factor; it can
    /// be neither decoded nor written until it is configured.
    fn default() -> (s: Sensor)
        ensures
            s.name@ == Seq::<char>::empty(),
            s.registers@ == Seq::<u16>::empty(),
            s.factor == 0,
            !s.is_signed,
            !s.is_mut,
            s.min is None,
            s.max is None,
    {
        Sensor {
            name: String::new(),
            registers: Vec::new(),
            factor: 0,
            is_signed: false,
            is_mut: false,
            min: None,
            max: None,
        }
    }
}

impl Sensor {
    /// A read-only sensor over the given registers.
    pub fn new(name: String, registers: Vec<u16>, factor: i64, is_signed: bool) -> (s: Sensor)
        ensures
            s.name == name,
            s.registers == registers,
            s.factor == factor,
            s.is_signed == is_signed,
            !s.is_mut,
            s.min is None,
            s.max is None,
    {
        Sensor { name, registers, factor, is_signed, is_mut: false, min: None, max: None }
    }

    /// A writable sensor over the given registers.
    pub fn new_mut(name: String, registers: Vec<u16>, factor: i64, is_signed: bool) -> (s: Sensor)
        ensures
            s.name == name,
            s.registers == registers,
            s.factor == factor,
            s.is_signed == is_signed,
            s.is_mut,
            s.min is None,
            s.max is None,
    {
        Sensor { name, registers, factor, is_signed, is_mut: true, min: None, max: None }
    }

    /// The same sensor with write bounds configured.
    pub fn with_bounds(self, min: Option<u16>, max: Option<u16>) -> (s: Sensor)
        ensures
            s == (Sensor { min, max, ..self }),
    {
        Sensor { min, max, ..self }
    }

    /// Whether a write value lies within the configured bounds.
    pub open spec fn value_in_bounds(self, value: u16) -> bool {
        &&& (self.min matches Some(m) ==> value >= m)
        &&& (self.max matches Some(m) ==> value <= m)
    }

    /// Decodes the words read for this sensor's registers into its value.
    pub fn decode(&self, words: &Vec<u16>) -> (v: i64)
        requires
            self.factor != 0,
            words@.len() <= 3,
        ensures
            v == basic_value(words@, self.factor as int, self.is_signed),
            abs_i(v as int) < 0x1000000000000,
    {
        let mut value: i64 = compose_words(words);
        if self.is_signed && words.len() == 1 {
            value = signed(value);
        }
        div_i64(value, self.factor)
    }

    /// The single write transaction for this sensor, or the local error that
    /// rejects the write before any bus access: a sensor not marked mutable
    /// rejects every write, and a value outside the configured bounds is
    /// rejected as out of range.
    pub fn write(&self, value: u16) -> (r: Result<Query, SensorError>)
        requires
            self.is_mut ==> self.registers@.len() >= 1,
        ensures
            r == sensor_write_spec(*self, value),
    {
        if !self.is_mut {
            return Err(SensorError::NotWritable);
        }
        if let Some(m) = self.min {
            if value < m {
                return Err(SensorError::OutOfRange);
            }
        }
        if let Some(m) = self.max {
            if value > m {
                return Err(SensorError::OutOfRange);
            }
        }
        Ok(Query::Write((self.registers[0], value)))
    }
}

/// A sensor decoded with the plain rule.
#[derive(Clone, Debug)]
pub struct BasicSensor(pub Sensor);

impl BasicSensor {
    /// Decodes the words read for this sensor into its value and rendering.
    pub fn read(&self, words: &Vec<u16>) -> (r: SensorValue)
        requires
            self.0.factor != 0,
            words@.len() <= 3,
        ensures
            r.value == basic_value(words@, self.0.factor as int, self.0.is_signed),
            r.display@ == int_rep(r.value as int),
    {
        let value = self.0.decode(words);
        SensorValue { value, display: i64_string(value) }
    }

    /// Forwards a write to the underlying sensor's rules.
    pub fn write(&self, value: u16) -> (r: Result<Query, SensorError>)
        requires
            self.0.is_mut ==> self.0.registers@.len() >= 1,
        ensures
            r == sensor_write_spec(self.0, value),
    {
        self.0.write(value)
    }
}

/// A sensor that accepts only the values 0 and 1 on its write path.
#[derive(Clone, Debug)]
pub struct BinarySensor(pub Sensor);

impl BinarySensor {
    /// Decodes like a plain sensor.
    pub fn read(&self, words: &Vec<u16>) -> (r: SensorValue)
        requires
            self.0.factor != 0,
            words@.len() <= 3,
        ensures
            r.value == basic_value(words@, self.0.factor as int, self.0.is_signed),
            r.display@ == int_rep(r.value as int),
    {
        let value = self.0.decode(words);
        SensorValue { value, display: i64_string(value) }
    }

    /// Rejects any value other than 0 or 1 before the underlying sensor is
    /// even consulted, so no bus transaction can be issued for it.
    pub fn write(&self, value: u16) -> (r: Result<Query, SensorError>)
        requires
            self.0.is_mut ==> self.0.registers@.len() >= 1,
        ensures
            r == binary_write_spec(self.0, value),
    {
        if value > 1 {
            return Err(SensorError::OutOfRange);
        }
        self.0.write(value)
    }
}

/// A sensor whose plain value is offset by 100 on the device.
#[derive(Clone, Debug)]
pub struct TemperatureSensor(pub Sensor);

impl TemperatureSensor {
    /// Decodes like a plain sensor, then subtracts the fixed offset of 100.
    pub fn read(&self, words: &Vec<u16>) -> (r: SensorValue)
        requires
            self.0.factor != 0,
            words@.len() <= 3,
        ensures
            r.value == temperature_value(words@, self.0.factor as int, self.0.is_signed),
            r.display@ == int_rep(r.value as int),
    {
        let mut value = self.0.decode(words);
        value = value - 100;
        SensorValue { value, display: i64_string(value) }
    }
}

/// The contribution of one register to a compound reading: the raw word,
/// signed-converted exactly when its factor is negative, divided by its
/// factor.
pub open spec fn compound_term(word: u16, factor: int) -> int {
    if factor < 0 {
        div_trunc(signed_spec(word as int), factor)
    } else {
        div_trunc(word as int, factor)
    }
}

/// The sum of all register contributions of a compound reading.
pub open spec fn compound_sum(words: Seq<u16>, factors: Seq<i64>) -> int
    decreases words.len(),
{
    if words.len() == 0 {
        0
    } else {
        compound_sum(words.drop_last(), factors.drop_last()) + compound_term(
            words.last(),
            factors.last() as int,
        )
    }
}

/// A compound reading: the sum of the contributions, negated when
/// `absolute` is set and the sum is negative, then clamped to 0 when
/// `no_negative` is set and the result is still negative.
pub open spec fn compound_value(
    words: Seq<u16>,
    factors: Seq<i64>,
    no_negative: bool,
    absolute: bool,
) -> int {
    let s = compound_sum(words, factors);
    let s1 = if absolute && s < 0 {
        -s
    } else {
        s
    };
    if no_negative && s1 < 0 {
        0
    } else {
        s1
    }
}

/// A sensor summing several independently read registers, each with its own
/// scale factor whose sign also selects signed conversion for that word.
#[derive(Clone, Debug)]
pub struct CompoundSensor {
    pub name: String,
    pub registers: Vec<u16>,
    pub factors: Vec<i64>,
    pub no_negative: bool,
    pub absolute: bool,
}

impl CompoundSensor {
    /// A compound sensor over the given registers and factors.
    pub fn new(
        name: String,
        registers: Vec<u16>,
        factors: Vec<i64>,
        no_negative: bool,
        absolute: bool,
    ) -> (s: CompoundSensor)
        ensures
            s.name == name,
            s.registers == registers,
            s.factors == factors,
            s.no_negative == no_negative,
            s.absolute == absolute,
    {
        CompoundSensor { name, registers, factors, no_negative, absolute }
    }

    /// Decodes the words read one per register — in register order, one
    /// word each — into the compound value and its rendering.
    pub fn read(&self, words: &Vec<u16>) -> (r: SensorValue)
        requires
            words@.len() == self.factors@.len(),
            words@.len() <= 0x10000,
            forall|i: int| 0 <= i < self.factors@.len() ==> self.factors@[i] != 0,
        ensures
            r.value == compound_value(words@, self.factors@, self.no_negative, self.absolute),
            r.display@ == int_rep(r.value as int),
    {
        let mut output: i64 = 0;
        let mut i: usize = 0;
        while i < words.len()
            invariant
                i <= words@.len(),
                words@.len() == self.factors@.len(),
                words@.len() <= 0x10000,
                forall|j: int| 0 <= j < self.factors@.len() ==> self.factors@[j] != 0,
                output == compound_sum(words@.take(i as int), self.factors@.take(i as int)),
                abs_i(output as int) <= i * 0x10000,
            decreases words@.len() - i,
        {
            let w = words[i];
            let f = self.factors[i];
            let raw: i64 = if f < 0 {
                signed(w as i64)
            } else {
                w as i64
            };
            let term = div_i64(raw, f);
            proof {
                assert(words@.take(i as int + 1).drop_last() =~= words@.take(i as int));
                assert(self.factors@.take(i as int + 1).drop_last() =~= self.factors@.take(
                    i as int,
                ));
                assert(term == compound_term(w, f as int));
            }
            output = output + term;
            i += 1;
        }
        proof {
            assert(words@.take(words@.len() as int) =~= words@);
            assert(self.factors@.take(words@.len() as int) =~= self.factors@);
        }
        if self.absolute && output < 0 {
            output = -output;
        }
        if self.no_negative && output < 0 {
            output = 0;
        }
        SensorValue { value: output, display: i64_string(output) }
    }
}

/// Whether bit `b` of the word `w` is set.
pub open spec fn fault_bit(w: u16, b: u16) -> bool {
    b < 16 && (w >> b) & 1 == 1
}

/// The 1-indexed fault codes contributed by the bits of one word from bit
/// `b` upward, in bit order, where the word sits `off` bit positions into
/// the bitmask.
pub open spec fn word_fault_codes(w: u16, off: int, b: int) -> Seq<u16>
    recommends
        0 <= b <= 16,
        0 <= off,
        off + 17 <= 0x10000,
    decreases 16 - b,
{
    if b < 0 || b >= 16 {
        Seq::empty()
    } else {
        (if fault_bit(w, b as u16) {
            seq![(off + b + 1) as u16]
        } else {
            Seq::empty()
        }) + word_fault_codes(w, off, b + 1)
    }
}

/// All 1-indexed fault codes of a bitmask reading, in word order and bit
/// order within each word: bit `b` of word `i` stands for fault code
/// `b + 16*i + 1`.
pub open spec fn faults_spec(words: Seq<u16>) -> Seq<u16>
    decreases words.len(),
{
    if words.len() == 0 {
        Seq::empty()
    } else {
        faults_spec(words.drop_last()) + word_fault_codes(
            words.last(),
            16 * (words.len() - 1),
            0,
        )
    }
}

/// Extracts the 1-indexed fault codes from the words of a bitmask reading:
/// for every set bit, in word order and bit order, the code
/// `bit + 16*word + 1`.
pub fn faults_decode(reg_vals: Vec<u16>) -> (faults: Vec<u16>)
    requires
        reg_vals@.len() <= 4095,
    ensures
        faults@ == faults_spec(reg_vals@),
{
    let mut faults: Vec<u16> = Vec::new();
    let mut off: u16 = 0;
    let mut i: usize = 0;
    while i < reg_vals.len()
        invariant
            i <= reg_vals@.len() <= 4095,
            off == 16 * i,
            faults@ == faults_spec(reg_vals@.take(i as int)),
        decreases reg_vals@.len() - i,
    {
        let val = reg_vals[i];
        let mut bit: u16 = 0;
        while bit < 16
            invariant
                bit <= 16,
                i < reg_vals@.len() <= 4095,
                off == 16 * i,
                val == reg_vals@[i as int],
                faults_spec(reg_vals@.take(i as int)) + word_fault_codes(val, off as int, 0)
                    =~= faults@ + word_fault_codes(val, off as int, bit as int),
            decreases 16 - bit,
        {
            let ghost faults_before = faults@;
            if (val >> bit) & 1 == 1 {
                faults.push(bit + off + 1);
            }
            proof {
                let code = (off + bit + 1) as u16;
                assert(word_fault_codes(val, off as int, bit as int) == (if fault_bit(val, bit) {
                    seq![code]
                } else {
                    Seq::empty()
                }) + word_fault_codes(val, off as int, bit as int + 1));
                if fault_bit(val, bit) {
                    assert(faults@ =~= faults_before + seq![code]);
                    assert(faults_before + (seq![code] + word_fault_codes(
                        val,
                        off as int,
                        bit as int + 1,
                    )) =~= (faults_before + seq![code]) + word_fault_codes(
                        val,
                        off as int,
                        bit as int + 1,
                    ));
                } else {
                    assert(Seq::<u16>::empty() + word_fault_codes(val, off as int, bit as int + 1)
                        =~= word_fault_codes(val, off as int, bit as int + 1));
                }
            }
            bit += 1;
        }
        proof {
            assert(word_fault_codes(val, off as int, 16) =~= Seq::<u16>::empty());
            assert(faults@ + Seq::<u16>::empty() =~= faults@);
            let ghost next = reg_vals@.take(i as int + 1);
            assert(next.drop_last() =~= reg_vals@.take(i as int));
            assert(next.last() == val);
            assert(faults_spec(next) == faults_spec(reg_vals@.take(i as int)) + word_fault_codes(
                val,
                16 * (i as int),
                0,
            ));
        }
        off += 16;
        i += 1;
    }
    proof {
        assert(reg_vals@.take(reg_vals@.len() as int) =~= reg_vals@);
    }
    faults
}

/// The display rendering of a fault code list: each code as `F<code>`,
/// joined by `", "`.
pub open spec fn fault_display(faults: Seq<u16>) -> Seq<char>
    decreases faults.len(),
{
    if faults.len() == 0 {
        Seq::empty()
    } else if faults.len() == 1 {
        seq!['F'] + crate::numfmt::dec_rep(faults[0] as nat)
    } else {
        fault_display(faults.drop_last()) + seq![',', ' '] + seq!['F'] + crate::numfmt::dec_rep(
            faults.last() as nat,
        )
    }
}

/// Renders a fault code list as `F<code>` entries joined by `", "`.
pub fn render_faults(faults: &Vec<u16>) -> (r: String)
    ensures
        r@ == fault_display(faults@),
{
    let mut r = String::new();
    let mut i: usize = 0;
    while i < faults.len()
        invariant
            i <= faults@.len(),
            r@ == fault_display(faults@.take(i as int)),
        decreases faults@.len() - i,
    {
        let ghost r_before = r@;
        if i > 0 {
            r.append(", ");
        }
        r.append("F");
        let num = crate::numfmt::u64_string(faults[i] as u64);
        r.append(num.as_str());
        proof {
            reveal_strlit(", ");
            reveal_strlit("F");
            let ghost next = faults@.take(i as int + 1);
            assert(next.drop_last() =~= faults@.take(i as int));
            assert(next.last() == faults@[i as int]);
            if i == 0 {
                assert(r@ =~= seq!['F'] + crate::numfmt::dec_rep(faults@[0] as nat));
                assert(fault_display(next) == seq!['F'] + crate::numfmt::dec_rep(next[0] as nat));
            } else {
                assert(r@ =~= fault_display(faults@.take(i as int)) + seq![',', ' '] + seq!['F']
                    + crate::numfmt::dec_rep(faults@[i as int] as nat));
            }
        }
        i += 1;
    }
    proof {
        assert(faults@.take(faults@.len() as int) =~= faults@);
    }
    r
}

/// Copies a word list so that a borrowed response can be handed to an
/// owning consumer.
fn copy_words(words: &Vec<u16>) -> (r: Vec<u16>)
    ensures
        r@ == words@,
{
    let mut r: Vec<u16> = Vec::new();
    let mut i: usize = 0;
    while i < words.len()
        invariant
            i <= words@.len(),
            r@ == words@.take(i as int),
        decreases words@.len() - i,
    {
        r.push(words[i]);
        proof {
            assert(words@.take(i as int + 1) =~= words@.take(i as int).push(words@[i as int]));
        }
        i += 1;
    }
    proof {
        assert(words@.take(words@.len() as int) =~= words@);
    }
    r
}

/// A sensor reading a four-word fault bitmask as one contiguous run.
#[derive(Clone, Debug)]
pub struct FaultSensor {
    pub name: String,
    pub registers: [u16; 4],
}

impl FaultSensor {
    /// A fault sensor over its four bitmask registers.
    pub fn new(name: String, registers: [u16; 4]) -> (s: FaultSensor)
        ensures
            s.name == name,
            s.registers == registers,
    {
        FaultSensor { name, registers }
    }

    /// Decodes the four bitmask words into the rendered fault code list.
    pub fn read(&self, words: &Vec<u16>) -> (r: String)
        requires
            words@.len() == 4,
        ensures
            r@ == fault_display(faults_spec(words@)),
    {
        let faults = faults_decode(copy_words(words));
        render_faults(&faults)
    }
}

/// A sensor holding a plain number; reserved for device settings.
#[derive(Clone, Debug)]
pub struct NumberSensor(pub Sensor);

/// A sensor naming the inverter's charge-program options.
#[derive(Clone, Debug)]
pub struct ProgChargeOptionsSensor(pub Sensor);

/// A sensor naming the inverter's mode-program options.
#[derive(Clone, Debug)]
pub struct ProgModeOptionsSensor(pub Sensor);

/// A sensor reporting the inverter's overall state.
#[derive(Clone, Debug)]
pub struct InverterStateSensor(pub Sensor);

/// The identifier string a serial-number reading stands for: each word's
/// high byte and low byte, in order, each rendered as its decimal numeral.
pub open spec fn serial_display(words: Seq<u16>) -> Seq<char>
    decreases words.len(),
{
    if words.len() == 0 {
        Seq::empty()
    } else {
        serial_display(words.drop_last()) + crate::numfmt::dec_rep((words.last() / 256) as nat)
            + crate::numfmt::dec_rep((words.last() % 256) as nat)
    }
}

/// A sensor reading the device's serial number from five registers as one
/// contiguous run.
#[derive(Clone, Debug)]
pub struct SerialSensor {
    pub name: String,
    pub registers: [u16; 5],
}

impl SerialSensor {
    /// Builds the identifier string from the words read: the high and low
    /// byte of each word become consecutive decimal numerals.
    pub fn read(&self, words: &Vec<u16>) -> (r: String)
        ensures
            r@ == serial_display(words@),
    {
        let mut r = String::new();
        let mut i: usize = 0;
        while i < words.len()
            invariant
                i <= words@.len(),
                r@ == serial_display(words@.take(i as int)),
            decreases words@.len() - i,
        {
            let w = words[i];
            let hi = crate::numfmt::u64_string((w / 256) as u64);
            let lo = crate::numfmt::u64_string((w % 256) as u64);
            r.append(hi.as_str());
            r.append(lo.as_str());
            proof {
                let ghost next = words@.take(i as int + 1);
                assert(next.drop_last() =~= words@.take(i as int));
                assert(next.last() == words@[i as int]);
            }
            i += 1;
        }
        proof {
            assert(words@.take(words@.len() as int) =~= words@);
        }
        r
    }
}

/// The state of the device's storage card, as its status register encodes
/// it.
#[derive(Clone, Copy, Debug, PartialEq, Eq, Structural)]
pub enum SDStatus {
    Fault,
    Okay,
    Unknown,
}

/// The status a storage-card status word stands for: 1000 is a fault, 2000
/// is healthy, anything else is unknown.
pub open spec fn sd_status_spec(word: u16) -> SDStatus {
    if word == 1000 {
        SDStatus::Fault
    } else if word == 2000 {
        SDStatus::Okay
    } else {
        SDStatus::Unknown
    }
}

/// The display rendering of a storage-card status.
pub open spec fn sd_display(word: u16) -> Seq<char> {
    match sd_status_spec(word) {
        SDStatus::Fault => "Fault"@,
        SDStatus::Okay => "Ok"@,
        SDStatus::Unknown => "Unknown"@,
    }
}

/// A sensor reading the storage-card status register.
#[derive(Clone, Debug)]
pub struct SDStatusSensor {
    pub name: String,
    pub registers: [u16; 1],
}

impl SDStatusSensor {
    /// Decodes the status word into its typed status.
    pub fn status(&self, word: u16) -> (s: SDStatus)
        ensures
            s == sd_status_spec(word),
    {
        if word == 1000 {
            SDStatus::Fault
        } else if word == 2000 {
            SDStatus::Okay
        } else {
            SDStatus::Unknown
        }
    }

    /// Renders the status word read for this sensor.
    pub fn read(&self, words: &Vec<u16>) -> (r: String)
        requires
            words@.len() >= 1,
        ensures
            r@ == sd_display(words@[0]),
    {
        let status = self.status(words[0]);
        match status {
            SDStatus::Fault => String::from_str("Fault"),
            SDStatus::Okay => String::from_str("Ok"),
            SDStatus::Unknown => String::from_str("Unknown"),
        }
    }
}

/// The closed set of sensor variants, matched exhaustively wherever a
/// sensor is read or written.
#[derive(Clone, Debug)]
pub enum SensorTypes {
    Basic(BasicSensor),
    Binary(BinarySensor),
    Compound(CompoundSensor),
    Fault(FaultSensor),
    Serial(SerialSensor),
    Temperature(TemperatureSensor),
}

impl SensorTypes {
    /// The name this sensor is registered under, before normalization.
    pub open spec fn spec_name(self) -> Seq<char> {
        match self {
            SensorTypes::Basic(s) => s.0.name@,
            SensorTypes::Binary(s) => s.0.name@,
            SensorTypes::Temperature(s) => s.0.name@,
            SensorTypes::Compound(c) => c.name@,
            SensorTypes::Fault(f) => f.name@,
            SensorTypes::Serial(s) => s.name@,
        }
    }

    /// A well-formed sensor definition: its scale factors are nonzero, it
    /// has at least one register — so its write path can name its first
    /// register — and its register count fits its decode rule, so the words
    /// its own read plan fetches can always be decoded.
    pub open spec fn wf(self) -> bool {
        match self {
            SensorTypes::Basic(s) => s.0.factor != 0 && 1 <= s.0.registers@.len() <= 3,
            SensorTypes::Binary(s) => s.0.factor != 0 && 1 <= s.0.registers@.len() <= 3,
            SensorTypes::Temperature(s) => s.0.factor != 0 && 1 <= s.0.registers@.len() <= 3,
            SensorTypes::Compound(c) => 1 <= c.registers@.len() <= 0x10000 && c.registers@.len()
                == c.factors@.len() && (forall|i: int|
                0 <= i < c.factors@.len() ==> #[trigger] c.factors@[i] != 0),
            SensorTypes::Fault(_) => true,
            SensorTypes::Serial(_) => true,
        }
    }

    /// What a well-formed word list for this sensor's decode rule is.
    pub open spec fn read_req(self, words: Seq<u16>) -> bool {
        match self {
            SensorTypes::Basic(s) => s.0.factor != 0 && words.len() <= 3,
            SensorTypes::Binary(s) => s.0.factor != 0 && words.len() <= 3,
            SensorTypes::Temperature(s) => s.0.factor != 0 && words.len() <= 3,
            SensorTypes::Compound(c) => words.len() == c.factors@.len() && words.len() <= 0x10000
                && (forall|i: int| 0 <= i < c.factors@.len() ==> c.factors@[i] != 0),
            SensorTypes::Fault(_) => words.len() == 4,
            SensorTypes::Serial(_) => true,
        }
    }

    /// The display string this sensor's decode rule produces for the words
    /// read.
    pub open spec fn read_display(self, words: Seq<u16>) -> Seq<char> {
        match self {
            SensorTypes::Basic(s) => int_rep(
                basic_value(words, s.0.factor as int, s.0.is_signed),
            ),
            SensorTypes::Binary(s) => int_rep(
                basic_value(words, s.0.factor as int, s.0.is_signed),
            ),
            SensorTypes::Temperature(s) => int_rep(
                temperature_value(words, s.0.factor as int, s.0.is_signed),
            ),
            SensorTypes::Compound(c) => int_rep(
                compound_value(words, c.factors@, c.no_negative, c.absolute),
            ),
            SensorTypes::Fault(_) => fault_display(faults_spec(words)),
            SensorTypes::Serial(_) => serial_display(words),
        }
    }

    /// Decodes the words read for this sensor into its display string.
    pub fn read(&self, words: &Vec<u16>) -> (r: String)
        requires
            self.read_req(words@),
        ensures
            r@ == self.read_display(words@),
    {
        match self {
            SensorTypes::Basic(s) => s.read(words).display,
            SensorTypes::Binary(s) => s.read(words).display,
            SensorTypes::Temperature(s) => s.read(words).display,
            SensorTypes::Compound(c) => c.read(words).display,
            SensorTypes::Fault(f) => f.read(words),
            SensorTypes::Serial(s) => s.read(words),
        }
    }

    /// The signed integer a metric sink records for this sensor: the
    /// decoded value of the numeric variants; the fault and serial variants
    /// feed no plain gauge.
    pub open spec fn metric_spec(self, words: Seq<u16>) -> Option<int> {
        match self {
            SensorTypes::Basic(s) => Some(basic_value(words, s.0.factor as int, s.0.is_signed)),
            SensorTypes::Binary(s) => Some(basic_value(words, s.0.factor as int, s.0.is_signed)),
            SensorTypes::Temperature(s) => Some(
                temperature_value(words, s.0.factor as int, s.0.is_signed),
            ),
            SensorTypes::Compound(c) => Some(
                compound_value(words, c.factors@, c.no_negative, c.absolute),
            ),
            SensorTypes::Fault(_) => None,
            SensorTypes::Serial(_) => None,
        }
    }

    /// Decodes the words read for this sensor into the value a metric sink
    /// records, where the sensor has one.
    pub fn metric_value(&self, words: &Vec<u16>) -> (r: Option<i64>)
        requires
            self.read_req(words@),
        ensures
            match r {
                Some(v) => self.metric_spec(words@) == Some(v as int),
                None => self.metric_spec(words@) is None,
            },
    {
        match self {
            SensorTypes::Basic(s) => Some(s.read(words).value),
            SensorTypes::Binary(s) => Some(s.read(words).value),
            SensorTypes::Temperature(s) => Some(s.read(words).value),
            SensorTypes::Compound(c) => Some(c.read(words).value),
            SensorTypes::Fault(_) => None,
            SensorTypes::Serial(_) => None,
        }
    }

    /// Whether this sensor's write path can name its first register.
    pub open spec fn write_req(self) -> bool {
        match self {
            SensorTypes::Basic(s) => s.0.is_mut ==> s.0.registers@.len() >= 1,
            SensorTypes::Binary(s) => s.0.is_mut ==> s.0.registers@.len() >= 1,
            _ => true,
        }
    }

    /// What a write to this sensor does: only the plain and binary variants
    /// are writable at all; every other variant rejects the write with no
    /// bus transaction.
    pub open spec fn write_spec(self, value: u16) -> Result<Query, SensorError> {
        match self {
            SensorTypes::Basic(s) => sensor_write_spec(s.0, value),
            SensorTypes::Binary(s) => binary_write_spec(s.0, value),
            _ => Err(SensorError::NotWritable),
        }
    }

    /// The single write transaction for this sensor, or the local error
    /// that rejects the write before any bus access.
    pub fn write(&self, value: u16) -> (r: Result<Query, SensorError>)
        requires
            self.write_req(),
        ensures
            r == self.write_spec(value),
    {
        match self {
            SensorTypes::Basic(s) => s.write(value),
            SensorTypes::Binary(s) => s.write(value),
            _ => Err(SensorError::NotWritable),
        }
    }
}

/// Copies a fixed-size register block into an owned list.
fn array_to_vec<const N: usize>(a: &[u16; N]) -> (r: Vec<u16>)
    ensures
        r@ == a@,
{
    let mut r: Vec<u16> = Vec::new();
    let mut i: usize = 0;
    while i < N
        invariant
            i <= N,
            a@.len() == N,
            r@ == a@.take(i as int),
        decreases N - i,
    {
        proof {
            assert(a@.take(i as int + 1) =~= a@.take(i as int).push(a@[i as int]));
        }
        r.push(a[i]);
        i += 1;
    }
    proof {
        assert(a@.take(N as int) =~= a@);
    }
    r
}

impl SensorTypes {
    /// Whether `queries` is exactly the request plan of this sensor's read:
    /// a compound sensor submits one single-register request per register,
    /// each contributing independently; every other variant submits one
    /// request for all its registers, which the worker compacts into runs.
    pub open spec fn read_queries_ok(self, queries: Seq<Query>) -> bool {
        match self {
            SensorTypes::Basic(s) => queries.len() == 1 && (queries[0] matches Query::Read(v)
                && v@ == s.0.registers@),
            SensorTypes::Binary(s) => queries.len() == 1 && (queries[0] matches Query::Read(v)
                && v@ == s.0.registers@),
            SensorTypes::Temperature(s) => queries.len() == 1 && (queries[0] matches Query::Read(v)
                && v@ == s.0.registers@),
            SensorTypes::Compound(c) => queries.len() == c.registers@.len() && forall|i: int|
                0 <= i < queries.len() ==> (#[trigger] queries[i] matches Query::Read(v)
                    && v@ == seq![c.registers@[i]]),
            SensorTypes::Fault(f) => queries.len() == 1 && (queries[0] matches Query::Read(v)
                && v@ == f.registers@),
            SensorTypes::Serial(s) => queries.len() == 1 && (queries[0] matches Query::Read(v)
                && v@ == s.registers@),
        }
    }

    /// The queue requests this sensor's read submits, in order.
    pub fn read_queries(&self) -> (r: Vec<Query>)
        ensures
            self.read_queries_ok(r@),
    {
        let mut r: Vec<Query> = Vec::new();
        match self {
            SensorTypes::Basic(s) => {
                r.push(Query::Read(copy_words(&s.0.registers)));
            },
            SensorTypes::Binary(s) => {
                r.push(Query::Read(copy_words(&s.0.registers)));
            },
            SensorTypes::Temperature(s) => {
                r.push(Query::Read(copy_words(&s.0.registers)));
            },
            SensorTypes::Compound(c) => {
                let mut i: usize = 0;
                while i < c.registers.len()
                    invariant
                        i <= c.registers@.len(),
                        r@.len() == i,
                        forall|j: int|
                            0 <= j < i ==> (#[trigger] r@[j] matches Query::Read(v)
                                && v@ == seq![c.registers@[j]]),
                    decreases c.registers@.len() - i,
                {
                    let reg = c.registers[i];
                    let one: Vec<u16> = vec![reg];
                    proof {
                        assert(one@ =~= seq![c.registers@[i as int]]);
                    }
                    r.push(Query::Read(one));
                    i += 1;
                }
            },
            SensorTypes::Fault(f) => {
                r.push(Query::Read(array_to_vec(&f.registers)));
            },
            SensorTypes::Serial(s) => {
                r.push(Query::Read(array_to_vec(&s.registers)));
            },
        }
        r
    }
}

} // verus!

