//! The BTHome v2 format.

use super::events::{ButtonEventType, DimmerEventType, Event, button_from_bytes_spec, dimmer_from_bytes_spec};
use super::v1::{le_u16, le_u16_spec, le_u24, le_u24_spec, le_u32, le_u32_spec, le_i16, signed_spec};
use super::{result_view, DecodeError, DecodeErrorView};
use crate::text::{int_str, push_i64, push_scaled, scaled_str};
use vstd::prelude::*;
use vstd::string::StringExecFns;

verus! {

/// The service data UUID used for BTHome v2 advertisements (0xfcd2, on the Bluetooth base
/// UUID), as a 128-bit integer.
pub const UUID: u128 = 0x0000fcd2_0000_1000_8000_00805f9b34fb;

/// A BTHome v2 advertisement.
#[derive(Clone, Debug, Eq, PartialEq)]
pub struct BtHomeV2 {
    pub encrypted: bool,
    pub trigger_based: bool,
    pub elements: Vec<Element>,
}

/// A single element of a BTHome v2 advertisement, holding its raw value.
#[derive(Copy, Clone, Debug, Eq, PartialEq, Structural)]
pub enum Element {
    Acceleration(u16),
    Battery(u8),
    Co2(u16),
    Count8(u8),
    Count16(u16),
    Count32(u32),
    Current(u16),
    Dewpoint(i16),
    DistanceMm(u16),
    DistanceM(u16),
    Duration(u32),
    Energy(u32),
    Gas(u32),
    Gyroscope(u16),
    Humidity(u16),
    HumidityShort(u8),
    Illuminance(u32),
    MassKg(u16),
    MassLb(u16),
    Moisture(u16),
    MoistureShort(u8),
    Pm2_5(u16),
    Pm10(u16),
    Power(u32),
    Pressure(u32),
    Rotation(i16),
    Speed(u16),
    Temperature(i16),
    TemperatureSmall(i16),
    Timestamp(u32),
    Tvoc(u16),
    VoltageSmall(u16),
    Voltage(u16),
    VolumeLong(u32),
    Volume(u16),
    VolumeMl(u16),
    FlowRate(u16),
    UvIndex(u8),
    Water(u32),
    BatteryLow(bool),
    BatteryCharging(bool),
    CarbonMonoxideDetected(bool),
    Cold(bool),
    Connected(bool),
    DoorOpen(bool),
    GarageDoorOpen(bool),
    GasDetected(bool),
    GenericBoolean(bool),
    Hot(bool),
    LightDetected(bool),
    Unlocked(bool),
    Wet(bool),
    MotionDetected(bool),
    Moving(bool),
    OccupancyDetected(bool),
    Open(bool),
    Plugged(bool),
    PowerOn(bool),
    Present(bool),
    Problem(bool),
    Running(bool),
    Safe(bool),
    SmokeDetected(bool),
    Sound(bool),
    Tamper(bool),
    VibrationDetected(bool),
    WindowOpen(bool),
    ButtonEvent(Option<ButtonEventType>),
    DimmerEvent(Option<DimmerEventType>),
}

/// Reading one byte.
pub open spec fn read_u8_spec(d: Seq<u8>) -> Result<(u8, nat), DecodeErrorView> {
    if d.len() >= 1 { Ok((d[0], 1)) } else { Err(DecodeErrorView::PrematureEnd) }
}

/// Reading a little-endian `u16`.
pub open spec fn read_u16_spec(d: Seq<u8>) -> Result<(u16, nat), DecodeErrorView> {
    if d.len() >= 2 { Ok((le_u16_spec(d[0], d[1]) as u16, 2)) } else { Err(DecodeErrorView::PrematureEnd) }
}

/// Reading a little-endian three-byte unsigned integer.
pub open spec fn read_u24_spec(d: Seq<u8>) -> Result<(u32, nat), DecodeErrorView> {
    if d.len() >= 3 { Ok((le_u24_spec(d[0], d[1], d[2]) as u32, 3)) } else { Err(DecodeErrorView::PrematureEnd) }
}

/// Reading a little-endian `u32`.
pub open spec fn read_u32_spec(d: Seq<u8>) -> Result<(u32, nat), DecodeErrorView> {
    if d.len() >= 4 { Ok((le_u32_spec(d[0], d[1], d[2], d[3]) as u32, 4)) } else { Err(DecodeErrorView::PrematureEnd) }
}

/// Reading a little-endian `i16`.
pub open spec fn read_i16_spec(d: Seq<u8>) -> Result<(i16, nat), DecodeErrorView> {
    if d.len() >= 2 { Ok((signed_spec(le_u16_spec(d[0], d[1]), 16) as i16, 2)) } else { Err(DecodeErrorView::PrematureEnd) }
}

/// Reading a boolean byte: 0 or 1.
pub open spec fn read_bool_spec(d: Seq<u8>) -> Result<(bool, nat), DecodeErrorView> {
    if d.len() >= 1 {
        if d[0] == 0 { Ok((false, 1)) } else if d[0] == 1 { Ok((true, 1)) } else { Err(DecodeErrorView::InvalidBooleanValue(d[0])) }
    } else {
        Err(DecodeErrorView::PrematureEnd)
    }
}

/// Reading a one-byte button event.
pub open spec fn read_button_event_spec(d: Seq<u8>) -> Result<(Option<ButtonEventType>, nat), DecodeErrorView> {
    if d.len() >= 1 {
        match button_from_bytes_spec(d.subrange(0, 1)) { Ok(t) => Ok((t, 1)), Err(e) => Err(e) }
    } else {
        Err(DecodeErrorView::PrematureEnd)
    }
}

/// Reading a dimmer event: one 0 byte for none, else two bytes.
pub open spec fn read_dimmer_event_spec(d: Seq<u8>) -> Result<(Option<DimmerEventType>, nat), DecodeErrorView> {
    if d.len() == 0 {
        Err(DecodeErrorView::PrematureEnd)
    } else if d[0] == 0 {
        Ok((None, 1))
    } else if d.len() >= 2 {
        match dimmer_from_bytes_spec(d.subrange(0, 2)) { Ok(t) => Ok((t, 2)), Err(e) => Err(e) }
    } else {
        Err(DecodeErrorView::PrematureEnd)
    }
}

/// What decoding one element (object ID, then value) gives: the element and the number of
/// bytes it took. Data without an object ID ends prematurely.
pub open spec fn element_spec(d: Seq<u8>) -> Result<(Element, nat), DecodeErrorView> {
    let r = d.skip(1);
    if d.len() == 0 {
        Err(DecodeErrorView::PrematureEnd)
    } else {
        match d[0] {
            0x0a => match read_u24_spec(r) { Ok((v, k)) => Ok((Element::Energy(v), k + 1)), Err(e) => Err(e) },
            0x4b => match read_u24_spec(r) { Ok((v, k)) => Ok((Element::Gas(v), k + 1)), Err(e) => Err(e) },
            0x51 => match read_u16_spec(r) { Ok((v, k)) => Ok((Element::Acceleration(v), k + 1)), Err(e) => Err(e) },
            0x01 => match read_u8_spec(r) { Ok((v, k)) => Ok((Element::Battery(v), k + 1)), Err(e) => Err(e) },
            0x12 => match read_u16_spec(r) { Ok((v, k)) => Ok((Element::Co2(v), k + 1)), Err(e) => Err(e) },
            0x09 => match read_u8_spec(r) { Ok((v, k)) => Ok((Element::Count8(v), k + 1)), Err(e) => Err(e) },
            0x3d => match read_u16_spec(r) { Ok((v, k)) => Ok((Element::Count16(v), k + 1)), Err(e) => Err(e) },
            0x3e => match read_u32_spec(r) { Ok((v, k)) => Ok((Element::Count32(v), k + 1)), Err(e) => Err(e) },
            0x43 => match read_u16_spec(r) { Ok((v, k)) => Ok((Element::Current(v), k + 1)), Err(e) => Err(e) },
            0x08 => match read_i16_spec(r) { Ok((v, k)) => Ok((Element::Dewpoint(v), k + 1)), Err(e) => Err(e) },
            0x40 => match read_u16_spec(r) { Ok((v, k)) => Ok((Element::DistanceMm(v), k + 1)), Err(e) => Err(e) },
            0x41 => match read_u16_spec(r) { Ok((v, k)) => Ok((Element::DistanceM(v), k + 1)), Err(e) => Err(e) },
            0x42 => match read_u24_spec(r) { Ok((v, k)) => Ok((Element::Duration(v), k + 1)), Err(e) => Err(e) },
            0x4d => match read_u32_spec(r) { Ok((v, k)) => Ok((Element::Energy(v), k + 1)), Err(e) => Err(e) },
            0x4c => match read_u32_spec(r) { Ok((v, k)) => Ok((Element::Gas(v), k + 1)), Err(e) => Err(e) },
            0x52 => match read_u16_spec(r) { Ok((v, k)) => Ok((Element::Gyroscope(v), k + 1)), Err(e) => Err(e) },
            0x03 => match read_u16_spec(r) { Ok((v, k)) => Ok((Element::Humidity(v), k + 1)), Err(e) => Err(e) },
            0x2e => match read_u8_spec(r) { Ok((v, k)) => Ok((Element::HumidityShort(v), k + 1)), Err(e) => Err(e) },
            0x05 => match read_u24_spec(r) { Ok((v, k)) => Ok((Element::Illuminance(v), k + 1)), Err(e) => Err(e) },
            0x06 => match read_u16_spec(r) { Ok((v, k)) => Ok((Element::MassKg(v), k + 1)), Err(e) => Err(e) },
            0x07 => match read_u16_spec(r) { Ok((v, k)) => Ok((Element::MassLb(v), k + 1)), Err(e) => Err(e) },
            0x14 => match read_u16_spec(r) { Ok((v, k)) => Ok((Element::Moisture(v), k + 1)), Err(e) => Err(e) },
            0x2f => match read_u8_spec(r) { Ok((v, k)) => Ok((Element::MoistureShort(v), k + 1)), Err(e) => Err(e) },
            0x0d => match read_u16_spec(r) { Ok((v, k)) => Ok((Element::Pm2_5(v), k + 1)), Err(e) => Err(e) },
            0x0e => match read_u16_spec(r) { Ok((v, k)) => Ok((Element::Pm10(v), k + 1)), Err(e) => Err(e) },
            0x0b => match read_u24_spec(r) { Ok((v, k)) => Ok((Element::Power(v), k + 1)), Err(e) => Err(e) },
            0x04 => match read_u24_spec(r) { Ok((v, k)) => Ok((Element::Pressure(v), k + 1)), Err(e) => Err(e) },
            0x3f => match read_i16_spec(r) { Ok((v, k)) => Ok((Element::Rotation(v), k + 1)), Err(e) => Err(e) },
            0x44 => match read_u16_spec(r) { Ok((v, k)) => Ok((Element::Speed(v), k + 1)), Err(e) => Err(e) },
            0x45 => match read_i16_spec(r) { Ok((v, k)) => Ok((Element::Temperature(v), k + 1)), Err(e) => Err(e) },
            0x02 => match read_i16_spec(r) { Ok((v, k)) => Ok((Element::TemperatureSmall(v), k + 1)), Err(e) => Err(e) },
            0x50 => match read_u32_spec(r) { Ok((v, k)) => Ok((Element::Timestamp(v), k + 1)), Err(e) => Err(e) },
            0x13 => match read_u16_spec(r) { Ok((v, k)) => Ok((Element::Tvoc(v), k + 1)), Err(e) => Err(e) },
            0x0c => match read_u16_spec(r) { Ok((v, k)) => Ok((Element::VoltageSmall(v), k + 1)), Err(e) => Err(e) },
            0x4a => match read_u16_spec(r) { Ok((v, k)) => Ok((Element::Voltage(v), k + 1)), Err(e) => Err(e) },
            0x4e => match read_u32_spec(r) { Ok((v, k)) => Ok((Element::VolumeLong(v), k + 1)), Err(e) => Err(e) },
            0x47 => match read_u16_spec(r) { Ok((v, k)) => Ok((Element::Volume(v), k + 1)), Err(e) => Err(e) },
            0x48 => match read_u16_spec(r) { Ok((v, k)) => Ok((Element::VolumeMl(v), k + 1)), Err(e) => Err(e) },
            0x49 => match read_u16_spec(r) { Ok((v, k)) => Ok((Element::FlowRate(v), k + 1)), Err(e) => Err(e) },
            0x46 => match read_u8_spec(r) { Ok((v, k)) => Ok((Element::UvIndex(v), k + 1)), Err(e) => Err(e) },
            0x4f => match read_u32_spec(r) { Ok((v, k)) => Ok((Element::Water(v), k + 1)), Err(e) => Err(e) },
            0x15 => match read_bool_spec(r) { Ok((v, k)) => Ok((Element::BatteryLow(v), k + 1)), Err(e) => Err(e) },
            0x16 => match read_bool_spec(r) { Ok((v, k)) => Ok((Element::BatteryCharging(v), k + 1)), Err(e) => Err(e) },
            0x17 => match read_bool_spec(r) { Ok((v, k)) => Ok((Element::CarbonMonoxideDetected(v), k + 1)), Err(e) => Err(e) },
            0x18 => match read_bool_spec(r) { Ok((v, k)) => Ok((Element::Cold(v), k + 1)), Err(e) => Err(e) },
            0x19 => match read_bool_spec(r) { Ok((v, k)) => Ok((Element::Connected(v), k + 1)), Err(e) => Err(e) },
            0x1a => match read_bool_spec(r) { Ok((v, k)) => Ok((Element::DoorOpen(v), k + 1)), Err(e) => Err(e) },
            0x1b => match read_bool_spec(r) { Ok((v, k)) => Ok((Element::GarageDoorOpen(v), k + 1)), Err(e) => Err(e) },
            0x1c => match read_bool_spec(r) { Ok((v, k)) => Ok((Element::GasDetected(v), k + 1)), Err(e) => Err(e) },
            0x0f => match read_bool_spec(r) { Ok((v, k)) => Ok((Element::GenericBoolean(v), k + 1)), Err(e) => Err(e) },
            0x1d => match read_bool_spec(r) { Ok((v, k)) => Ok((Element::Hot(v), k + 1)), Err(e) => Err(e) },
            0x1e => match read_bool_spec(r) { Ok((v, k)) => Ok((Element::LightDetected(v), k + 1)), Err(e) => Err(e) },
            0x1f => match read_bool_spec(r) { Ok((v, k)) => Ok((Element::Unlocked(v), k + 1)), Err(e) => Err(e) },
            0x20 => match read_bool_spec(r) { Ok((v, k)) => Ok((Element::Wet(v), k + 1)), Err(e) => Err(e) },
            0x21 => match read_bool_spec(r) { Ok((v, k)) => Ok((Element::MotionDetected(v), k + 1)), Err(e) => Err(e) },
            0x22 => match read_bool_spec(r) { Ok((v, k)) => Ok((Element::Moving(v), k + 1)), Err(e) => Err(e) },
            0x23 => match read_bool_spec(r) { Ok((v, k)) => Ok((Element::OccupancyDetected(v), k + 1)), Err(e) => Err(e) },
            0x11 => match read_bool_spec(r) { Ok((v, k)) => Ok((Element::Open(v), k + 1)), Err(e) => Err(e) },
            0x24 => match read_bool_spec(r) { Ok((v, k)) => Ok((Element::Plugged(v), k + 1)), Err(e) => Err(e) },
            0x10 => match read_bool_spec(r) { Ok((v, k)) => Ok((Element::PowerOn(v), k + 1)), Err(e) => Err(e) },
            0x25 => match read_bool_spec(r) { Ok((v, k)) => Ok((Element::Present(v), k + 1)), Err(e) => Err(e) },
            0x26 => match read_bool_spec(r) { Ok((v, k)) => Ok((Element::Problem(v), k + 1)), Err(e) => Err(e) },
            0x27 => match read_bool_spec(r) { Ok((v, k)) => Ok((Element::Running(v), k + 1)), Err(e) => Err(e) },
            0x28 => match read_bool_spec(r) { Ok((v, k)) => Ok((Element::Safe(v), k + 1)), Err(e) => Err(e) },
            0x29 => match read_bool_spec(r) { Ok((v, k)) => Ok((Element::SmokeDetected(v), k + 1)), Err(e) => Err(e) },
            0x2a => match read_bool_spec(r) { Ok((v, k)) => Ok((Element::Sound(v), k + 1)), Err(e) => Err(e) },
            0x2b => match read_bool_spec(r) { Ok((v, k)) => Ok((Element::Tamper(v), k + 1)), Err(e) => Err(e) },
            0x2c => match read_bool_spec(r) { Ok((v, k)) => Ok((Element::VibrationDetected(v), k + 1)), Err(e) => Err(e) },
            0x2d => match read_bool_spec(r) { Ok((v, k)) => Ok((Element::WindowOpen(v), k + 1)), Err(e) => Err(e) },
            0x3a => match read_button_event_spec(r) { Ok((v, k)) => Ok((Element::ButtonEvent(v), k + 1)), Err(e) => Err(e) },
            0x3c => match read_dimmer_event_spec(r) { Ok((v, k)) => Ok((Element::DimmerEvent(v), k + 1)), Err(e) => Err(e) },
            _ => Err(DecodeErrorView::InvalidProperty(d[0])),
        }
    }
}

/// An element takes at least two bytes, and no more than there are.
pub proof fn lemma_element_len(d: Seq<u8>)
    requires
        d.len() >= 2,
    ensures
        element_spec(d) matches Ok((_, n)) ==> 2 <= n <= d.len(),
{
}

/// What a measurement element at the front of `d` reads: its raw value, the number of decimal
/// places of that value, its name, its unit, and the number of bytes it took; none where `d`
/// does not start with a measurement that decodes.
pub open spec fn measurement(d: Seq<u8>) -> Option<(int, u32, Seq<char>, Seq<char>, nat)> {
    match element_spec(d) {
        Ok((e, n)) => match e.spec_value_scaled() {
            Some((v, k)) => Some((v as int, k, e.spec_name(), e.spec_unit(), n)),
            None => None,
        },
        Err(_) => None,
    }
}

/// What an integer element at the front of `d` reads: its value, its name, its unit, and the
/// number of bytes it took; none where `d` does not start with an integer element that decodes.
pub open spec fn integer_reading(d: Seq<u8>) -> Option<(int, Seq<char>, Seq<char>, nat)> {
    match element_spec(d) {
        Ok((e, n)) => match e.spec_value_int() {
            Some(v) => Some((v as int, e.spec_name(), e.spec_unit(), n)),
            None => None,
        },
        Err(_) => None,
    }
}

/// What a binary sensor element at the front of `d` reads: its state and its name; none where
/// `d` does not start with a binary sensor element that decodes.
pub open spec fn flag_reading(d: Seq<u8>) -> Option<(bool, Seq<char>, nat)> {
    match element_spec(d) {
        Ok((e, n)) => match e.spec_value_bool() {
            Some(v) => Some((v, e.spec_name(), n)),
            None => None,
        },
        Err(_) => None,
    }
}

/// The measurements that two little-endian unsigned bytes carry, by object ID: each reads the
/// bytes as an unsigned number, with the decimal places, name and unit of the BTHome v2 object
/// table (so 0x0c is a voltage in thousandths of a volt, 0x4a one in tenths).
#[verifier::rlimit(60)]
pub proof fn lemma_two_byte_unsigned_measurements(lo: u8, hi: u8)
    ensures
        ({
            let x = lo as int + 256 * hi as int;
            &&& measurement(seq![0x51u8, lo, hi]) == Some((x, 3u32, "acceleration"@, "m/s²"@, 3nat))
            &&& measurement(seq![0x43u8, lo, hi]) == Some((x, 3u32, "current"@, "A"@, 3nat))
            &&& measurement(seq![0x40u8, lo, hi]) == Some((x, 0u32, "distance"@, "mm"@, 3nat))
            &&& measurement(seq![0x41u8, lo, hi]) == Some((x, 1u32, "distance"@, "m"@, 3nat))
            &&& measurement(seq![0x52u8, lo, hi]) == Some((x, 3u32, "gyroscope"@, "°/s"@, 3nat))
            &&& measurement(seq![0x03u8, lo, hi]) == Some((x, 2u32, "humidity"@, "%"@, 3nat))
            &&& measurement(seq![0x06u8, lo, hi]) == Some((x, 2u32, "mass"@, "kg"@, 3nat))
            &&& measurement(seq![0x07u8, lo, hi]) == Some((x, 2u32, "mass"@, "lb"@, 3nat))
            &&& measurement(seq![0x14u8, lo, hi]) == Some((x, 2u32, "moisture"@, "%"@, 3nat))
            &&& measurement(seq![0x44u8, lo, hi]) == Some((x, 2u32, "speed"@, "m/s"@, 3nat))
            &&& measurement(seq![0x0cu8, lo, hi]) == Some((x, 3u32, "voltage"@, "V"@, 3nat))
            &&& measurement(seq![0x4au8, lo, hi]) == Some((x, 1u32, "voltage"@, "V"@, 3nat))
            &&& measurement(seq![0x47u8, lo, hi]) == Some((x, 1u32, "volume"@, "L"@, 3nat))
            &&& measurement(seq![0x48u8, lo, hi]) == Some((x, 0u32, "volume"@, "mL"@, 3nat))
            &&& measurement(seq![0x49u8, lo, hi]) == Some((x, 3u32, "volume flow rate"@, "m3/hr"@, 3nat))
        }),
{
    let x = lo as int + 256 * hi as int;
    assert(measurement(seq![0x51u8, lo, hi]) == Some((x, 3u32, "acceleration"@, "m/s²"@, 3nat))) by {
        assert(seq![0x51u8, lo, hi].skip(1) =~= seq![lo, hi]);
    }
    assert(measurement(seq![0x43u8, lo, hi]) == Some((x, 3u32, "current"@, "A"@, 3nat))) by {
        assert(seq![0x43u8, lo, hi].skip(1) =~= seq![lo, hi]);
    }
    assert(measurement(seq![0x40u8, lo, hi]) == Some((x, 0u32, "distance"@, "mm"@, 3nat))) by {
        assert(seq![0x40u8, lo, hi].skip(1) =~= seq![lo, hi]);
    }
    assert(measurement(seq![0x41u8, lo, hi]) == Some((x, 1u32, "distance"@, "m"@, 3nat))) by {
        assert(seq![0x41u8, lo, hi].skip(1) =~= seq![lo, hi]);
    }
    assert(measurement(seq![0x52u8, lo, hi]) == Some((x, 3u32, "gyroscope"@, "°/s"@, 3nat))) by {
        assert(seq![0x52u8, lo, hi].skip(1) =~= seq![lo, hi]);
    }
    assert(measurement(seq![0x03u8, lo, hi]) == Some((x, 2u32, "humidity"@, "%"@, 3nat))) by {
        assert(seq![0x03u8, lo, hi].skip(1) =~= seq![lo, hi]);
    }
    assert(measurement(seq![0x06u8, lo, hi]) == Some((x, 2u32, "mass"@, "kg"@, 3nat))) by {
        assert(seq![0x06u8, lo, hi].skip(1) =~= seq![lo, hi]);
    }
    assert(measurement(seq![0x07u8, lo, hi]) == Some((x, 2u32, "mass"@, "lb"@, 3nat))) by {
        assert(seq![0x07u8, lo, hi].skip(1) =~= seq![lo, hi]);
    }
    assert(measurement(seq![0x14u8, lo, hi]) == Some((x, 2u32, "moisture"@, "%"@, 3nat))) by {
        assert(seq![0x14u8, lo, hi].skip(1) =~= seq![lo, hi]);
    }
    assert(measurement(seq![0x44u8, lo, hi]) == Some((x, 2u32, "speed"@, "m/s"@, 3nat))) by {
        assert(seq![0x44u8, lo, hi].skip(1) =~= seq![lo, hi]);
    }
    assert(measurement(seq![0x0cu8, lo, hi]) == Some((x, 3u32, "voltage"@, "V"@, 3nat))) by {
        assert(seq![0x0cu8, lo, hi].skip(1) =~= seq![lo, hi]);
    }
    assert(measurement(seq![0x4au8, lo, hi]) == Some((x, 1u32, "voltage"@, "V"@, 3nat))) by {
        assert(seq![0x4au8, lo, hi].skip(1) =~= seq![lo, hi]);
    }
    assert(measurement(seq![0x47u8, lo, hi]) == Some((x, 1u32, "volume"@, "L"@, 3nat))) by {
        assert(seq![0x47u8, lo, hi].skip(1) =~= seq![lo, hi]);
    }
    assert(measurement(seq![0x48u8, lo, hi]) == Some((x, 0u32, "volume"@, "mL"@, 3nat))) by {
        assert(seq![0x48u8, lo, hi].skip(1) =~= seq![lo, hi]);
    }
    assert(measurement(seq![0x49u8, lo, hi]) == Some((x, 3u32, "volume flow rate"@, "m3/hr"@, 3nat))) by {
        assert(seq![0x49u8, lo, hi].skip(1) =~= seq![lo, hi]);
    }
}

/// The measurements that two little-endian bytes carry as a signed number, by object ID, with
/// the decimal places, name and unit of the BTHome v2 object table.
pub proof fn lemma_two_byte_signed_measurements(lo: u8, hi: u8)
    ensures
        ({
            let u = lo as int + 256 * hi as int;
            let x = if u >= 32768 { u - 65536 } else { u };
            &&& measurement(seq![0x08u8, lo, hi]) == Some((x, 2u32, "dewpoint"@, "°C"@, 3nat))
            &&& measurement(seq![0x3fu8, lo, hi]) == Some((x, 1u32, "rotation"@, "°"@, 3nat))
            &&& measurement(seq![0x45u8, lo, hi]) == Some((x, 1u32, "temperature"@, "°C"@, 3nat))
            &&& measurement(seq![0x02u8, lo, hi]) == Some((x, 2u32, "temperature"@, "°C"@, 3nat))
        }),
{
    crate::text::lemma_pow2_16();
    let u = lo as int + 256 * hi as int;
    let x = if u >= 32768 { u - 65536 } else { u };
    assert(measurement(seq![0x08u8, lo, hi]) == Some((x, 2u32, "dewpoint"@, "°C"@, 3nat))) by {
        assert(seq![0x08u8, lo, hi].skip(1) =~= seq![lo, hi]);
    }
    assert(measurement(seq![0x3fu8, lo, hi]) == Some((x, 1u32, "rotation"@, "°"@, 3nat))) by {
        assert(seq![0x3fu8, lo, hi].skip(1) =~= seq![lo, hi]);
    }
    assert(measurement(seq![0x45u8, lo, hi]) == Some((x, 1u32, "temperature"@, "°C"@, 3nat))) by {
        assert(seq![0x45u8, lo, hi].skip(1) =~= seq![lo, hi]);
    }
    assert(measurement(seq![0x02u8, lo, hi]) == Some((x, 2u32, "temperature"@, "°C"@, 3nat))) by {
        assert(seq![0x02u8, lo, hi].skip(1) =~= seq![lo, hi]);
    }
}

/// The measurements that one byte carries, by object ID, with the decimal places, name and
/// unit of the BTHome v2 object table.
pub proof fn lemma_one_byte_measurements(b: u8)
    ensures
        ({
            let x = b as int;
            &&& measurement(seq![0x2eu8, b]) == Some((x, 0u32, "humidity"@, "%"@, 2nat))
            &&& measurement(seq![0x2fu8, b]) == Some((x, 0u32, "moisture"@, "%"@, 2nat))
            &&& measurement(seq![0x46u8, b]) == Some((x, 1u32, "UV index"@, ""@, 2nat))
        }),
{
    let x = b as int;
    assert(measurement(seq![0x2eu8, b]) == Some((x, 0u32, "humidity"@, "%"@, 2nat))) by {
        assert(seq![0x2eu8, b].skip(1) =~= seq![b]);
    }
    assert(measurement(seq![0x2fu8, b]) == Some((x, 0u32, "moisture"@, "%"@, 2nat))) by {
        assert(seq![0x2fu8, b].skip(1) =~= seq![b]);
    }
    assert(measurement(seq![0x46u8, b]) == Some((x, 1u32, "UV index"@, ""@, 2nat))) by {
        assert(seq![0x46u8, b].skip(1) =~= seq![b]);
    }
}

/// The measurements that three little-endian unsigned bytes carry, by object ID, with the
/// decimal places, name and unit of the BTHome v2 object table.
#[verifier::rlimit(30)]
pub proof fn lemma_three_byte_measurements(b0: u8, b1: u8, b2: u8)
    ensures
        ({
            let x = b0 as int + 256 * b1 as int + 65536 * b2 as int;
            &&& measurement(seq![0x42u8, b0, b1, b2]) == Some((x, 3u32, "duration"@, "s"@, 4nat))
            &&& measurement(seq![0x05u8, b0, b1, b2]) == Some((x, 2u32, "illuminance"@, "lux"@, 4nat))
            &&& measurement(seq![0x0bu8, b0, b1, b2]) == Some((x, 2u32, "power"@, "W"@, 4nat))
            &&& measurement(seq![0x04u8, b0, b1, b2]) == Some((x, 2u32, "pressure"@, "hPa"@, 4nat))
            &&& measurement(seq![0x0au8, b0, b1, b2]) == Some((x, 3u32, "energy"@, "kWh"@, 4nat))
            &&& measurement(seq![0x4bu8, b0, b1, b2]) == Some((x, 3u32, "gas"@, "m3"@, 4nat))
        }),
{
    let x = b0 as int + 256 * b1 as int + 65536 * b2 as int;
    assert(measurement(seq![0x42u8, b0, b1, b2]) == Some((x, 3u32, "duration"@, "s"@, 4nat))) by {
        assert(seq![0x42u8, b0, b1, b2].skip(1) =~= seq![b0, b1, b2]);
    }
    assert(measurement(seq![0x05u8, b0, b1, b2]) == Some((x, 2u32, "illuminance"@, "lux"@, 4nat))) by {
        assert(seq![0x05u8, b0, b1, b2].skip(1) =~= seq![b0, b1, b2]);
    }
    assert(measurement(seq![0x0bu8, b0, b1, b2]) == Some((x, 2u32, "power"@, "W"@, 4nat))) by {
        assert(seq![0x0bu8, b0, b1, b2].skip(1) =~= seq![b0, b1, b2]);
    }
    assert(measurement(seq![0x04u8, b0, b1, b2]) == Some((x, 2u32, "pressure"@, "hPa"@, 4nat))) by {
        assert(seq![0x04u8, b0, b1, b2].skip(1) =~= seq![b0, b1, b2]);
    }
    assert(measurement(seq![0x0au8, b0, b1, b2]) == Some((x, 3u32, "energy"@, "kWh"@, 4nat))) by {
        assert(seq![0x0au8, b0, b1, b2].skip(1) =~= seq![b0, b1, b2]);
    }
    assert(measurement(seq![0x4bu8, b0, b1, b2]) == Some((x, 3u32, "gas"@, "m3"@, 4nat))) by {
        assert(seq![0x4bu8, b0, b1, b2].skip(1) =~= seq![b0, b1, b2]);
    }
}

/// The measurements that four little-endian unsigned bytes carry, by object ID, with the
/// decimal places, name and unit of the BTHome v2 object table.
#[verifier::rlimit(30)]
pub proof fn lemma_four_byte_measurements(b0: u8, b1: u8, b2: u8, b3: u8)
    ensures
        ({
            let x = b0 as int + 256 * b1 as int + 65536 * b2 as int + 16777216 * b3 as int;
            &&& measurement(seq![0x4du8, b0, b1, b2, b3]) == Some((x, 3u32, "energy"@, "kWh"@, 5nat))
            &&& measurement(seq![0x4cu8, b0, b1, b2, b3]) == Some((x, 3u32, "gas"@, "m3"@, 5nat))
            &&& measurement(seq![0x4eu8, b0, b1, b2, b3]) == Some((x, 3u32, "volume"@, "L"@, 5nat))
            &&& measurement(seq![0x4fu8, b0, b1, b2, b3]) == Some((x, 3u32, "water"@, "L"@, 5nat))
        }),
{
    let x = b0 as int + 256 * b1 as int + 65536 * b2 as int + 16777216 * b3 as int;
    assert(measurement(seq![0x4du8, b0, b1, b2, b3]) == Some((x, 3u32, "energy"@, "kWh"@, 5nat))) by {
        assert(seq![0x4du8, b0, b1, b2, b3].skip(1) =~= seq![b0, b1, b2, b3]);
    }
    assert(measurement(seq![0x4cu8, b0, b1, b2, b3]) == Some((x, 3u32, "gas"@, "m3"@, 5nat))) by {
        assert(seq![0x4cu8, b0, b1, b2, b3].skip(1) =~= seq![b0, b1, b2, b3]);
    }
    assert(measurement(seq![0x4eu8, b0, b1, b2, b3]) == Some((x, 3u32, "volume"@, "L"@, 5nat))) by {
        assert(seq![0x4eu8, b0, b1, b2, b3].skip(1) =~= seq![b0, b1, b2, b3]);
    }
    assert(measurement(seq![0x4fu8, b0, b1, b2, b3]) == Some((x, 3u32, "water"@, "L"@, 5nat))) by {
        assert(seq![0x4fu8, b0, b1, b2, b3].skip(1) =~= seq![b0, b1, b2, b3]);
    }
}

/// The whole-number readings that one byte carries, by object ID, with the name and unit of
/// the BTHome v2 object table.
pub proof fn lemma_one_byte_integers(b: u8)
    ensures
        ({
            let x = b as int;
            &&& integer_reading(seq![0x01u8, b]) == Some((x, "battery"@, "%"@, 2nat))
            &&& integer_reading(seq![0x09u8, b]) == Some((x, "count"@, ""@, 2nat))
            &&& integer_reading(seq![0x2eu8, b]) == Some((x, "humidity"@, "%"@, 2nat))
            &&& integer_reading(seq![0x2fu8, b]) == Some((x, "moisture"@, "%"@, 2nat))
        }),
{
    let x = b as int;
    assert(integer_reading(seq![0x01u8, b]) == Some((x, "battery"@, "%"@, 2nat))) by {
        assert(seq![0x01u8, b].skip(1) =~= seq![b]);
    }
    assert(integer_reading(seq![0x09u8, b]) == Some((x, "count"@, ""@, 2nat))) by {
        assert(seq![0x09u8, b].skip(1) =~= seq![b]);
    }
    assert(integer_reading(seq![0x2eu8, b]) == Some((x, "humidity"@, "%"@, 2nat))) by {
        assert(seq![0x2eu8, b].skip(1) =~= seq![b]);
    }
    assert(integer_reading(seq![0x2fu8, b]) == Some((x, "moisture"@, "%"@, 2nat))) by {
        assert(seq![0x2fu8, b].skip(1) =~= seq![b]);
    }
}

/// The whole-number readings that two little-endian bytes carry, by object ID, with the name
/// and unit of the BTHome v2 object table.
#[verifier::rlimit(40)]
pub proof fn lemma_two_byte_integers(lo: u8, hi: u8)
    ensures
        ({
            let x = lo as int + 256 * hi as int;
            &&& integer_reading(seq![0x12u8, lo, hi]) == Some((x, "CO2"@, "ppm"@, 3nat))
            &&& integer_reading(seq![0x3du8, lo, hi]) == Some((x, "count"@, ""@, 3nat))
            &&& integer_reading(seq![0x40u8, lo, hi]) == Some((x, "distance"@, "mm"@, 3nat))
            &&& integer_reading(seq![0x0du8, lo, hi]) == Some((x, "pm2.5"@, "ug/m3"@, 3nat))
            &&& integer_reading(seq![0x0eu8, lo, hi]) == Some((x, "pm10"@, "ug/m3"@, 3nat))
            &&& integer_reading(seq![0x13u8, lo, hi]) == Some((x, "tvoc"@, "ug/m3"@, 3nat))
            &&& integer_reading(seq![0x48u8, lo, hi]) == Some((x, "volume"@, "mL"@, 3nat))
        }),
{
    let x = lo as int + 256 * hi as int;
    assert(integer_reading(seq![0x12u8, lo, hi]) == Some((x, "CO2"@, "ppm"@, 3nat))) by {
        assert(seq![0x12u8, lo, hi].skip(1) =~= seq![lo, hi]);
    }
    assert(integer_reading(seq![0x3du8, lo, hi]) == Some((x, "count"@, ""@, 3nat))) by {
        assert(seq![0x3du8, lo, hi].skip(1) =~= seq![lo, hi]);
    }
    assert(integer_reading(seq![0x40u8, lo, hi]) == Some((x, "distance"@, "mm"@, 3nat))) by {
        assert(seq![0x40u8, lo, hi].skip(1) =~= seq![lo, hi]);
    }
    assert(integer_reading(seq![0x0du8, lo, hi]) == Some((x, "pm2.5"@, "ug/m3"@, 3nat))) by {
        assert(seq![0x0du8, lo, hi].skip(1) =~= seq![lo, hi]);
    }
    assert(integer_reading(seq![0x0eu8, lo, hi]) == Some((x, "pm10"@, "ug/m3"@, 3nat))) by {
        assert(seq![0x0eu8, lo, hi].skip(1) =~= seq![lo, hi]);
    }
    assert(integer_reading(seq![0x13u8, lo, hi]) == Some((x, "tvoc"@, "ug/m3"@, 3nat))) by {
        assert(seq![0x13u8, lo, hi].skip(1) =~= seq![lo, hi]);
    }
    assert(integer_reading(seq![0x48u8, lo, hi]) == Some((x, "volume"@, "mL"@, 3nat))) by {
        assert(seq![0x48u8, lo, hi].skip(1) =~= seq![lo, hi]);
    }
}

/// The whole-number readings that four little-endian bytes carry, by object ID, with the name
/// and unit of the BTHome v2 object table.
pub proof fn lemma_four_byte_integers(b0: u8, b1: u8, b2: u8, b3: u8)
    ensures
        ({
            let x = b0 as int + 256 * b1 as int + 65536 * b2 as int + 16777216 * b3 as int;
            &&& integer_reading(seq![0x3eu8, b0, b1, b2, b3]) == Some((x, "count"@, ""@, 5nat))
            &&& integer_reading(seq![0x50u8, b0, b1, b2, b3]) == Some((x, "timestamp"@, ""@, 5nat))
        }),
{
    let x = b0 as int + 256 * b1 as int + 65536 * b2 as int + 16777216 * b3 as int;
    assert(integer_reading(seq![0x3eu8, b0, b1, b2, b3]) == Some((x, "count"@, ""@, 5nat))) by {
        assert(seq![0x3eu8, b0, b1, b2, b3].skip(1) =~= seq![b0, b1, b2, b3]);
    }
    assert(integer_reading(seq![0x50u8, b0, b1, b2, b3]) == Some((x, "timestamp"@, ""@, 5nat))) by {
        assert(seq![0x50u8, b0, b1, b2, b3].skip(1) =~= seq![b0, b1, b2, b3]);
    }
}

/// The first part of the binary sensors, by object ID: a byte of 0 or 1 reads as off or
/// on, under the name of the BTHome v2 object table.
#[verifier::rlimit(40)]
pub proof fn lemma_binary_sensors_first(b: u8)
    requires
        b <= 1,
    ensures
        ({
            &&& flag_reading(seq![0x15u8, b]) == Some((b == 1, "battery low"@, 2nat))
            &&& flag_reading(seq![0x16u8, b]) == Some((b == 1, "battery charging"@, 2nat))
            &&& flag_reading(seq![0x17u8, b]) == Some((b == 1, "carbon monoxide detected"@, 2nat))
            &&& flag_reading(seq![0x18u8, b]) == Some((b == 1, "cold"@, 2nat))
            &&& flag_reading(seq![0x19u8, b]) == Some((b == 1, "connected"@, 2nat))
            &&& flag_reading(seq![0x1au8, b]) == Some((b == 1, "door open"@, 2nat))
            &&& flag_reading(seq![0x1bu8, b]) == Some((b == 1, "garade door open"@, 2nat))
            &&& flag_reading(seq![0x1cu8, b]) == Some((b == 1, "gas detected"@, 2nat))
            &&& flag_reading(seq![0x0fu8, b]) == Some((b == 1, "generic boolean"@, 2nat))
            &&& flag_reading(seq![0x1du8, b]) == Some((b == 1, "hot"@, 2nat))
        }),
{
    assert(flag_reading(seq![0x15u8, b]) == Some((b == 1, "battery low"@, 2nat))) by {
        assert(seq![0x15u8, b].skip(1) =~= seq![b]);
    }
    assert(flag_reading(seq![0x16u8, b]) == Some((b == 1, "battery charging"@, 2nat))) by {
        assert(seq![0x16u8, b].skip(1) =~= seq![b]);
    }
    assert(flag_reading(seq![0x17u8, b]) == Some((b == 1, "carbon monoxide detected"@, 2nat))) by {
        assert(seq![0x17u8, b].skip(1) =~= seq![b]);
    }
    assert(flag_reading(seq![0x18u8, b]) == Some((b == 1, "cold"@, 2nat))) by {
        assert(seq![0x18u8, b].skip(1) =~= seq![b]);
    }
    assert(flag_reading(seq![0x19u8, b]) == Some((b == 1, "connected"@, 2nat))) by {
        assert(seq![0x19u8, b].skip(1) =~= seq![b]);
    }
    assert(flag_reading(seq![0x1au8, b]) == Some((b == 1, "door open"@, 2nat))) by {
        assert(seq![0x1au8, b].skip(1) =~= seq![b]);
    }
    assert(flag_reading(seq![0x1bu8, b]) == Some((b == 1, "garade door open"@, 2nat))) by {
        assert(seq![0x1bu8, b].skip(1) =~= seq![b]);
    }
    assert(flag_reading(seq![0x1cu8, b]) == Some((b == 1, "gas detected"@, 2nat))) by {
        assert(seq![0x1cu8, b].skip(1) =~= seq![b]);
    }
    assert(flag_reading(seq![0x0fu8, b]) == Some((b == 1, "generic boolean"@, 2nat))) by {
        assert(seq![0x0fu8, b].skip(1) =~= seq![b]);
    }
    assert(flag_reading(seq![0x1du8, b]) == Some((b == 1, "hot"@, 2nat))) by {
        assert(seq![0x1du8, b].skip(1) =~= seq![b]);
    }
}

/// The second part of the binary sensors, by object ID: a byte of 0 or 1 reads as off or
/// on, under the name of the BTHome v2 object table.
#[verifier::rlimit(40)]
pub proof fn lemma_binary_sensors_second(b: u8)
    requires
        b <= 1,
    ensures
        ({
            &&& flag_reading(seq![0x1eu8, b]) == Some((b == 1, "light detected"@, 2nat))
            &&& flag_reading(seq![0x1fu8, b]) == Some((b == 1, "unlocked"@, 2nat))
            &&& flag_reading(seq![0x20u8, b]) == Some((b == 1, "wet"@, 2nat))
            &&& flag_reading(seq![0x21u8, b]) == Some((b == 1, "motion detected"@, 2nat))
            &&& flag_reading(seq![0x22u8, b]) == Some((b == 1, "moving"@, 2nat))
            &&& flag_reading(seq![0x23u8, b]) == Some((b == 1, "occupancy detected"@, 2nat))
            &&& flag_reading(seq![0x11u8, b]) == Some((b == 1, "open"@, 2nat))
            &&& flag_reading(seq![0x24u8, b]) == Some((b == 1, "plugged in"@, 2nat))
            &&& flag_reading(seq![0x10u8, b]) == Some((b == 1, "power on"@, 2nat))
            &&& flag_reading(seq![0x25u8, b]) == Some((b == 1, "home"@, 2nat))
        }),
{
    assert(flag_reading(seq![0x1eu8, b]) == Some((b == 1, "light detected"@, 2nat))) by {
        assert(seq![0x1eu8, b].skip(1) =~= seq![b]);
    }
    assert(flag_reading(seq![0x1fu8, b]) == Some((b == 1, "unlocked"@, 2nat))) by {
        assert(seq![0x1fu8, b].skip(1) =~= seq![b]);
    }
    assert(flag_reading(seq![0x20u8, b]) == Some((b == 1, "wet"@, 2nat))) by {
        assert(seq![0x20u8, b].skip(1) =~= seq![b]);
    }
    assert(flag_reading(seq![0x21u8, b]) == Some((b == 1, "motion detected"@, 2nat))) by {
        assert(seq![0x21u8, b].skip(1) =~= seq![b]);
    }
    assert(flag_reading(seq![0x22u8, b]) == Some((b == 1, "moving"@, 2nat))) by {
        assert(seq![0x22u8, b].skip(1) =~= seq![b]);
    }
    assert(flag_reading(seq![0x23u8, b]) == Some((b == 1, "occupancy detected"@, 2nat))) by {
        assert(seq![0x23u8, b].skip(1) =~= seq![b]);
    }
    assert(flag_reading(seq![0x11u8, b]) == Some((b == 1, "open"@, 2nat))) by {
        assert(seq![0x11u8, b].skip(1) =~= seq![b]);
    }
    assert(flag_reading(seq![0x24u8, b]) == Some((b == 1, "plugged in"@, 2nat))) by {
        assert(seq![0x24u8, b].skip(1) =~= seq![b]);
    }
    assert(flag_reading(seq![0x10u8, b]) == Some((b == 1, "power on"@, 2nat))) by {
        assert(seq![0x10u8, b].skip(1) =~= seq![b]);
    }
    assert(flag_reading(seq![0x25u8, b]) == Some((b == 1, "home"@, 2nat))) by {
        assert(seq![0x25u8, b].skip(1) =~= seq![b]);
    }
}

/// The third part of the binary sensors, by object ID: a byte of 0 or 1 reads as off or
/// on, under the name of the BTHome v2 object table.
#[verifier::rlimit(40)]
pub proof fn lemma_binary_sensors_third(b: u8)
    requires
        b <= 1,
    ensures
        ({
            &&& flag_reading(seq![0x26u8, b]) == Some((b == 1, "problem"@, 2nat))
            &&& flag_reading(seq![0x27u8, b]) == Some((b == 1, "running"@, 2nat))
            &&& flag_reading(seq![0x28u8, b]) == Some((b == 1, "safe"@, 2nat))
            &&& flag_reading(seq![0x29u8, b]) == Some((b == 1, "smoke detected"@, 2nat))
            &&& flag_reading(seq![0x2au8, b]) == Some((b == 1, "sound detected"@, 2nat))
            &&& flag_reading(seq![0x2bu8, b]) == Some((b == 1, "tampered"@, 2nat))
            &&& flag_reading(seq![0x2cu8, b]) == Some((b == 1, "vibration detected"@, 2nat))
            &&& flag_reading(seq![0x2du8, b]) == Some((b == 1, "window open"@, 2nat))
        }),
{
    assert(flag_reading(seq![0x26u8, b]) == Some((b == 1, "problem"@, 2nat))) by {
        assert(seq![0x26u8, b].skip(1) =~= seq![b]);
    }
    assert(flag_reading(seq![0x27u8, b]) == Some((b == 1, "running"@, 2nat))) by {
        assert(seq![0x27u8, b].skip(1) =~= seq![b]);
    }
    assert(flag_reading(seq![0x28u8, b]) == Some((b == 1, "safe"@, 2nat))) by {
        assert(seq![0x28u8, b].skip(1) =~= seq![b]);
    }
    assert(flag_reading(seq![0x29u8, b]) == Some((b == 1, "smoke detected"@, 2nat))) by {
        assert(seq![0x29u8, b].skip(1) =~= seq![b]);
    }
    assert(flag_reading(seq![0x2au8, b]) == Some((b == 1, "sound detected"@, 2nat))) by {
        assert(seq![0x2au8, b].skip(1) =~= seq![b]);
    }
    assert(flag_reading(seq![0x2bu8, b]) == Some((b == 1, "tampered"@, 2nat))) by {
        assert(seq![0x2bu8, b].skip(1) =~= seq![b]);
    }
    assert(flag_reading(seq![0x2cu8, b]) == Some((b == 1, "vibration detected"@, 2nat))) by {
        assert(seq![0x2cu8, b].skip(1) =~= seq![b]);
    }
    assert(flag_reading(seq![0x2du8, b]) == Some((b == 1, "window open"@, 2nat))) by {
        assert(seq![0x2du8, b].skip(1) =~= seq![b]);
    }
}

/// What decoding the elements of an advertisement gives: decoding goes on while at least two
/// bytes are left, and a single byte left at the end is ignored.
pub open spec fn elements_spec(d: Seq<u8>) -> Result<Seq<Element>, DecodeErrorView>
    decreases d.len(),
{
    if d.len() >= 2 {
        match element_spec(d) {
            Err(e) => Err(e),
            Ok((el, n)) => {
                if 2 <= n <= d.len() {
                    match elements_spec(d.skip(n as int)) {
                        Err(e) => Err(e),
                        Ok(rest) => Ok(seq![el] + rest),
                    }
                } else {
                    Err(DecodeErrorView::PrematureEnd)
                }
            },
        }
    } else {
        Ok(Seq::<Element>::empty())
    }
}

/// What decoding a BTHome v2 advertisement gives: the device information byte (bit 0:
/// encrypted, bit 2: trigger based, top three bits: version, which must be 2), then the elements.
/// Data without the device information byte ends prematurely.
pub open spec fn decode_spec(d: Seq<u8>) -> Result<(bool, bool, Seq<Element>), DecodeErrorView> {
    let info = d[0];
    let version = info / 32;
    if d.len() == 0 {
        Err(DecodeErrorView::PrematureEnd)
    } else if version != 2 {
        Err(DecodeErrorView::UnsupportedVersion(version))
    } else {
        match elements_spec(d.skip(1)) {
            Err(e) => Err(e),
            Ok(els) => Ok((info % 2 == 1, (info / 4) % 2 == 1, els)),
        }
    }
}

fn read_u8(data: &[u8]) -> (r: Result<(u8, usize), DecodeError>)
    ensures
        match (r, read_u8_spec(data@)) {
            (Ok((v, n)), Ok((w, m))) => v == w && n == m,
            (Err(e), Err(f)) => e@ == f,
            _ => false,
        },
{
    if data.len() >= 1 { Ok((data[0], 1)) } else { Err(DecodeError::PrematureEnd) }
}

fn read_u16(data: &[u8]) -> (r: Result<(u16, usize), DecodeError>)
    ensures
        match (r, read_u16_spec(data@)) {
            (Ok((v, n)), Ok((w, m))) => v == w && n == m,
            (Err(e), Err(f)) => e@ == f,
            _ => false,
        },
{
    if data.len() >= 2 { Ok((le_u16(data[0], data[1]), 2)) } else { Err(DecodeError::PrematureEnd) }
}

fn read_u24(data: &[u8]) -> (r: Result<(u32, usize), DecodeError>)
    ensures
        match (r, read_u24_spec(data@)) {
            (Ok((v, n)), Ok((w, m))) => v == w && n == m,
            (Err(e), Err(f)) => e@ == f,
            _ => false,
        },
{
    if data.len() >= 3 { Ok((le_u24(data[0], data[1], data[2]), 3)) } else { Err(DecodeError::PrematureEnd) }
}

fn read_u32(data: &[u8]) -> (r: Result<(u32, usize), DecodeError>)
    ensures
        match (r, read_u32_spec(data@)) {
            (Ok((v, n)), Ok((w, m))) => v == w && n == m,
            (Err(e), Err(f)) => e@ == f,
            _ => false,
        },
{
    if data.len() >= 4 { Ok((le_u32(data[0], data[1], data[2], data[3]), 4)) } else { Err(DecodeError::PrematureEnd) }
}

fn read_i16(data: &[u8]) -> (r: Result<(i16, usize), DecodeError>)
    ensures
        match (r, read_i16_spec(data@)) {
            (Ok((v, n)), Ok((w, m))) => v == w && n == m,
            (Err(e), Err(f)) => e@ == f,
            _ => false,
        },
{
    if data.len() >= 2 { Ok((le_i16(data[0], data[1]), 2)) } else { Err(DecodeError::PrematureEnd) }
}

fn read_bool(data: &[u8]) -> (r: Result<(bool, usize), DecodeError>)
    ensures
        match (r, read_bool_spec(data@)) {
            (Ok((v, n)), Ok((w, m))) => v == w && n == m,
            (Err(e), Err(f)) => e@ == f,
            _ => false,
        },
{
    let (value, length) = match read_u8(data) {
        Ok(x) => x,
        Err(e) => return Err(e),
    };
    if value == 0 {
        Ok((false, length))
    } else if value == 1 {
        Ok((true, length))
    } else {
        Err(DecodeError::InvalidBooleanValue(value))
    }
}

fn read_button_event(data: &[u8]) -> (r: Result<(Option<ButtonEventType>, usize), DecodeError>)
    ensures
        match (r, read_button_event_spec(data@)) {
            (Ok((v, n)), Ok((w, m))) => v == w && n == m,
            (Err(e), Err(f)) => e@ == f,
            _ => false,
        },
{
    if data.len() < 1 {
        return Err(DecodeError::PrematureEnd);
    }
    match ButtonEventType::from_bytes(&data[0..1]) {
        Ok(t) => Ok((t, 1)),
        Err(e) => Err(e),
    }
}

fn read_dimmer_event(data: &[u8]) -> (r: Result<(Option<DimmerEventType>, usize), DecodeError>)
    ensures
        match (r, read_dimmer_event_spec(data@)) {
            (Ok((v, n)), Ok((w, m))) => v == w && n == m,
            (Err(e), Err(f)) => e@ == f,
            _ => false,
        },
{
    if data.len() == 0 {
        return Err(DecodeError::PrematureEnd);
    }
    if data[0] == 0x00 {
        Ok((None, 1))
    } else {
        if data.len() < 2 {
            return Err(DecodeError::PrematureEnd);
        }
        match DimmerEventType::from_bytes(&data[0..2]) {
            Ok(t) => Ok((t, 2)),
            Err(e) => Err(e),
        }
    }
}

impl Element {
    /// Decodes one element from the start of `data`: its object ID, then its value. Gives the
    /// element and the number of bytes it took.
    pub fn decode(data: &[u8]) -> (r: Result<(Element, usize), DecodeError>)
        ensures
            match (r, element_spec(data@)) {
                (Ok((v, n)), Ok((w, m))) => v == w && n == m,
                (Err(e), Err(f)) => e@ == f,
                _ => false,
            },
    {
        if data.len() == 0 {
            return Err(DecodeError::PrematureEnd);
        }
        let object_id = data[0];
        let remaining = &data[1..data.len()];
        assert(remaining@ =~= data@.skip(1));
        match object_id {
            0x0a => match read_u24(remaining) { Ok((v, k)) => Ok((Element::Energy(v), k + 1)), Err(e) => Err(e) },
            0x4b => match read_u24(remaining) { Ok((v, k)) => Ok((Element::Gas(v), k + 1)), Err(e) => Err(e) },
            0x51 => match read_u16(remaining) { Ok((v, k)) => Ok((Element::Acceleration(v), k + 1)), Err(e) => Err(e) },
            0x01 => match read_u8(remaining) { Ok((v, k)) => Ok((Element::Battery(v), k + 1)), Err(e) => Err(e) },
            0x12 => match read_u16(remaining) { Ok((v, k)) => Ok((Element::Co2(v), k + 1)), Err(e) => Err(e) },
            0x09 => match read_u8(remaining) { Ok((v, k)) => Ok((Element::Count8(v), k + 1)), Err(e) => Err(e) },
            0x3d => match read_u16(remaining) { Ok((v, k)) => Ok((Element::Count16(v), k + 1)), Err(e) => Err(e) },
            0x3e => match read_u32(remaining) { Ok((v, k)) => Ok((Element::Count32(v), k + 1)), Err(e) => Err(e) },
            0x43 => match read_u16(remaining) { Ok((v, k)) => Ok((Element::Current(v), k + 1)), Err(e) => Err(e) },
            0x08 => match read_i16(remaining) { Ok((v, k)) => Ok((Element::Dewpoint(v), k + 1)), Err(e) => Err(e) },
            0x40 => match read_u16(remaining) { Ok((v, k)) => Ok((Element::DistanceMm(v), k + 1)), Err(e) => Err(e) },
            0x41 => match read_u16(remaining) { Ok((v, k)) => Ok((Element::DistanceM(v), k + 1)), Err(e) => Err(e) },
            0x42 => match read_u24(remaining) { Ok((v, k)) => Ok((Element::Duration(v), k + 1)), Err(e) => Err(e) },
            0x4d => match read_u32(remaining) { Ok((v, k)) => Ok((Element::Energy(v), k + 1)), Err(e) => Err(e) },
            0x4c => match read_u32(remaining) { Ok((v, k)) => Ok((Element::Gas(v), k + 1)), Err(e) => Err(e) },
            0x52 => match read_u16(remaining) { Ok((v, k)) => Ok((Element::Gyroscope(v), k + 1)), Err(e) => Err(e) },
            0x03 => match read_u16(remaining) { Ok((v, k)) => Ok((Element::Humidity(v), k + 1)), Err(e) => Err(e) },
            0x2e => match read_u8(remaining) { Ok((v, k)) => Ok((Element::HumidityShort(v), k + 1)), Err(e) => Err(e) },
            0x05 => match read_u24(remaining) { Ok((v, k)) => Ok((Element::Illuminance(v), k + 1)), Err(e) => Err(e) },
            0x06 => match read_u16(remaining) { Ok((v, k)) => Ok((Element::MassKg(v), k + 1)), Err(e) => Err(e) },
            0x07 => match read_u16(remaining) { Ok((v, k)) => Ok((Element::MassLb(v), k + 1)), Err(e) => Err(e) },
            0x14 => match read_u16(remaining) { Ok((v, k)) => Ok((Element::Moisture(v), k + 1)), Err(e) => Err(e) },
            0x2f => match read_u8(remaining) { Ok((v, k)) => Ok((Element::MoistureShort(v), k + 1)), Err(e) => Err(e) },
            0x0d => match read_u16(remaining) { Ok((v, k)) => Ok((Element::Pm2_5(v), k + 1)), Err(e) => Err(e) },
            0x0e => match read_u16(remaining) { Ok((v, k)) => Ok((Element::Pm10(v), k + 1)), Err(e) => Err(e) },
            0x0b => match read_u24(remaining) { Ok((v, k)) => Ok((Element::Power(v), k + 1)), Err(e) => Err(e) },
            0x04 => match read_u24(remaining) { Ok((v, k)) => Ok((Element::Pressure(v), k + 1)), Err(e) => Err(e) },
            0x3f => match read_i16(remaining) { Ok((v, k)) => Ok((Element::Rotation(v), k + 1)), Err(e) => Err(e) },
            0x44 => match read_u16(remaining) { Ok((v, k)) => Ok((Element::Speed(v), k + 1)), Err(e) => Err(e) },
            0x45 => match read_i16(remaining) { Ok((v, k)) => Ok((Element::Temperature(v), k + 1)), Err(e) => Err(e) },
            0x02 => match read_i16(remaining) { Ok((v, k)) => Ok((Element::TemperatureSmall(v), k + 1)), Err(e) => Err(e) },
            0x50 => match read_u32(remaining) { Ok((v, k)) => Ok((Element::Timestamp(v), k + 1)), Err(e) => Err(e) },
            0x13 => match read_u16(remaining) { Ok((v, k)) => Ok((Element::Tvoc(v), k + 1)), Err(e) => Err(e) },
            0x0c => match read_u16(remaining) { Ok((v, k)) => Ok((Element::VoltageSmall(v), k + 1)), Err(e) => Err(e) },
            0x4a => match read_u16(remaining) { Ok((v, k)) => Ok((Element::Voltage(v), k + 1)), Err(e) => Err(e) },
            0x4e => match read_u32(remaining) { Ok((v, k)) => Ok((Element::VolumeLong(v), k + 1)), Err(e) => Err(e) },
            0x47 => match read_u16(remaining) { Ok((v, k)) => Ok((Element::Volume(v), k + 1)), Err(e) => Err(e) },
            0x48 => match read_u16(remaining) { Ok((v, k)) => Ok((Element::VolumeMl(v), k + 1)), Err(e) => Err(e) },
            0x49 => match read_u16(remaining) { Ok((v, k)) => Ok((Element::FlowRate(v), k + 1)), Err(e) => Err(e) },
            0x46 => match read_u8(remaining) { Ok((v, k)) => Ok((Element::UvIndex(v), k + 1)), Err(e) => Err(e) },
            0x4f => match read_u32(remaining) { Ok((v, k)) => Ok((Element::Water(v), k + 1)), Err(e) => Err(e) },
            0x15 => match read_bool(remaining) { Ok((v, k)) => Ok((Element::BatteryLow(v), k + 1)), Err(e) => Err(e) },
            0x16 => match read_bool(remaining) { Ok((v, k)) => Ok((Element::BatteryCharging(v), k + 1)), Err(e) => Err(e) },
            0x17 => match read_bool(remaining) { Ok((v, k)) => Ok((Element::CarbonMonoxideDetected(v), k + 1)), Err(e) => Err(e) },
            0x18 => match read_bool(remaining) { Ok((v, k)) => Ok((Element::Cold(v), k + 1)), Err(e) => Err(e) },
            0x19 => match read_bool(remaining) { Ok((v, k)) => Ok((Element::Connected(v), k + 1)), Err(e) => Err(e) },
            0x1a => match read_bool(remaining) { Ok((v, k)) => Ok((Element::DoorOpen(v), k + 1)), Err(e) => Err(e) },
            0x1b => match read_bool(remaining) { Ok((v, k)) => Ok((Element::GarageDoorOpen(v), k + 1)), Err(e) => Err(e) },
            0x1c => match read_bool(remaining) { Ok((v, k)) => Ok((Element::GasDetected(v), k + 1)), Err(e) => Err(e) },
            0x0f => match read_bool(remaining) { Ok((v, k)) => Ok((Element::GenericBoolean(v), k + 1)), Err(e) => Err(e) },
            0x1d => match read_bool(remaining) { Ok((v, k)) => Ok((Element::Hot(v), k + 1)), Err(e) => Err(e) },
            0x1e => match read_bool(remaining) { Ok((v, k)) => Ok((Element::LightDetected(v), k + 1)), Err(e) => Err(e) },
            0x1f => match read_bool(remaining) { Ok((v, k)) => Ok((Element::Unlocked(v), k + 1)), Err(e) => Err(e) },
            0x20 => match read_bool(remaining) { Ok((v, k)) => Ok((Element::Wet(v), k + 1)), Err(e) => Err(e) },
            0x21 => match read_bool(remaining) { Ok((v, k)) => Ok((Element::MotionDetected(v), k + 1)), Err(e) => Err(e) },
            0x22 => match read_bool(remaining) { Ok((v, k)) => Ok((Element::Moving(v), k + 1)), Err(e) => Err(e) },
            0x23 => match read_bool(remaining) { Ok((v, k)) => Ok((Element::OccupancyDetected(v), k + 1)), Err(e) => Err(e) },
            0x11 => match read_bool(remaining) { Ok((v, k)) => Ok((Element::Open(v), k + 1)), Err(e) => Err(e) },
            0x24 => match read_bool(remaining) { Ok((v, k)) => Ok((Element::Plugged(v), k + 1)), Err(e) => Err(e) },
            0x10 => match read_bool(remaining) { Ok((v, k)) => Ok((Element::PowerOn(v), k + 1)), Err(e) => Err(e) },
            0x25 => match read_bool(remaining) { Ok((v, k)) => Ok((Element::Present(v), k + 1)), Err(e) => Err(e) },
            0x26 => match read_bool(remaining) { Ok((v, k)) => Ok((Element::Problem(v), k + 1)), Err(e) => Err(e) },
            0x27 => match read_bool(remaining) { Ok((v, k)) => Ok((Element::Running(v), k + 1)), Err(e) => Err(e) },
            0x28 => match read_bool(remaining) { Ok((v, k)) => Ok((Element::Safe(v), k + 1)), Err(e) => Err(e) },
            0x29 => match read_bool(remaining) { Ok((v, k)) => Ok((Element::SmokeDetected(v), k + 1)), Err(e) => Err(e) },
            0x2a => match read_bool(remaining) { Ok((v, k)) => Ok((Element::Sound(v), k + 1)), Err(e) => Err(e) },
            0x2b => match read_bool(remaining) { Ok((v, k)) => Ok((Element::Tamper(v), k + 1)), Err(e) => Err(e) },
            0x2c => match read_bool(remaining) { Ok((v, k)) => Ok((Element::VibrationDetected(v), k + 1)), Err(e) => Err(e) },
            0x2d => match read_bool(remaining) { Ok((v, k)) => Ok((Element::WindowOpen(v), k + 1)), Err(e) => Err(e) },
            0x3a => match read_button_event(remaining) { Ok((v, k)) => Ok((Element::ButtonEvent(v), k + 1)), Err(e) => Err(e) },
            0x3c => match read_dimmer_event(remaining) { Ok((v, k)) => Ok((Element::DimmerEvent(v), k + 1)), Err(e) => Err(e) },
            _ => Err(DecodeError::InvalidProperty(object_id)),
        }
    }

    pub open spec fn spec_name(self) -> Seq<char> {
        match self {
            Element::Acceleration(_) => "acceleration"@,
            Element::Battery(_) => "battery"@,
            Element::Co2(_) => "CO2"@,
            Element::Count8(_) => "count"@,
            Element::Count16(_) => "count"@,
            Element::Count32(_) => "count"@,
            Element::Current(_) => "current"@,
            Element::Dewpoint(_) => "dewpoint"@,
            Element::DistanceMm(_) => "distance"@,
            Element::DistanceM(_) => "distance"@,
            Element::Duration(_) => "duration"@,
            Element::Energy(_) => "energy"@,
            Element::Gas(_) => "gas"@,
            Element::Gyroscope(_) => "gyroscope"@,
            Element::Humidity(_) => "humidity"@,
            Element::HumidityShort(_) => "humidity"@,
            Element::Illuminance(_) => "illuminance"@,
            Element::MassKg(_) => "mass"@,
            Element::MassLb(_) => "mass"@,
            Element::Moisture(_) => "moisture"@,
            Element::MoistureShort(_) => "moisture"@,
            Element::Pm2_5(_) => "pm2.5"@,
            Element::Pm10(_) => "pm10"@,
            Element::Power(_) => "power"@,
            Element::Pressure(_) => "pressure"@,
            Element::Rotation(_) => "rotation"@,
            Element::Speed(_) => "speed"@,
            Element::Temperature(_) => "temperature"@,
            Element::TemperatureSmall(_) => "temperature"@,
            Element::Timestamp(_) => "timestamp"@,
            Element::Tvoc(_) => "tvoc"@,
            Element::VoltageSmall(_) => "voltage"@,
            Element::Voltage(_) => "voltage"@,
            Element::VolumeLong(_) => "volume"@,
            Element::Volume(_) => "volume"@,
            Element::VolumeMl(_) => "volume"@,
            Element::FlowRate(_) => "volume flow rate"@,
            Element::UvIndex(_) => "UV index"@,
            Element::Water(_) => "water"@,
            Element::BatteryLow(_) => "battery low"@,
            Element::BatteryCharging(_) => "battery charging"@,
            Element::CarbonMonoxideDetected(_) => "carbon monoxide detected"@,
            Element::Cold(_) => "cold"@,
            Element::Connected(_) => "connected"@,
            Element::DoorOpen(_) => "door open"@,
            Element::GarageDoorOpen(_) => "garade door open"@,
            Element::GasDetected(_) => "gas detected"@,
            Element::GenericBoolean(_) => "generic boolean"@,
            Element::Hot(_) => "hot"@,
            Element::LightDetected(_) => "light detected"@,
            Element::Unlocked(_) => "unlocked"@,
            Element::Wet(_) => "wet"@,
            Element::MotionDetected(_) => "motion detected"@,
            Element::Moving(_) => "moving"@,
            Element::OccupancyDetected(_) => "occupancy detected"@,
            Element::Open(_) => "open"@,
            Element::Plugged(_) => "plugged in"@,
            Element::PowerOn(_) => "power on"@,
            Element::Present(_) => "home"@,
            Element::Problem(_) => "problem"@,
            Element::Running(_) => "running"@,
            Element::Safe(_) => "safe"@,
            Element::SmokeDetected(_) => "smoke detected"@,
            Element::Sound(_) => "sound detected"@,
            Element::Tamper(_) => "tampered"@,
            Element::VibrationDetected(_) => "vibration detected"@,
            Element::WindowOpen(_) => "window open"@,
            Element::ButtonEvent(_) => "button event"@,
            Element::DimmerEvent(_) => "dimmer event"@,
        }
    }

    /// The name of the element's property.
    pub fn name(&self) -> (s: &'static str)
        ensures
            s@ == self.spec_name(),
    {
        match self {
            Element::Acceleration(_) => "acceleration",
            Element::Battery(_) => "battery",
            Element::Co2(_) => "CO2",
            Element::Count8(_) => "count",
            Element::Count16(_) => "count",
            Element::Count32(_) => "count",
            Element::Current(_) => "current",
            Element::Dewpoint(_) => "dewpoint",
            Element::DistanceMm(_) => "distance",
            Element::DistanceM(_) => "distance",
            Element::Duration(_) => "duration",
            Element::Energy(_) => "energy",
            Element::Gas(_) => "gas",
            Element::Gyroscope(_) => "gyroscope",
            Element::Humidity(_) => "humidity",
            Element::HumidityShort(_) => "humidity",
            Element::Illuminance(_) => "illuminance",
            Element::MassKg(_) => "mass",
            Element::MassLb(_) => "mass",
            Element::Moisture(_) => "moisture",
            Element::MoistureShort(_) => "moisture",
            Element::Pm2_5(_) => "pm2.5",
            Element::Pm10(_) => "pm10",
            Element::Power(_) => "power",
            Element::Pressure(_) => "pressure",
            Element::Rotation(_) => "rotation",
            Element::Speed(_) => "speed",
            Element::Temperature(_) => "temperature",
            Element::TemperatureSmall(_) => "temperature",
            Element::Timestamp(_) => "timestamp",
            Element::Tvoc(_) => "tvoc",
            Element::VoltageSmall(_) => "voltage",
            Element::Voltage(_) => "voltage",
            Element::VolumeLong(_) => "volume",
            Element::Volume(_) => "volume",
            Element::VolumeMl(_) => "volume",
            Element::FlowRate(_) => "volume flow rate",
            Element::UvIndex(_) => "UV index",
            Element::Water(_) => "water",
            Element::BatteryLow(_) => "battery low",
            Element::BatteryCharging(_) => "battery charging",
            Element::CarbonMonoxideDetected(_) => "carbon monoxide detected",
            Element::Cold(_) => "cold",
            Element::Connected(_) => "connected",
            Element::DoorOpen(_) => "door open",
            Element::GarageDoorOpen(_) => "garade door open",
            Element::GasDetected(_) => "gas detected",
            Element::GenericBoolean(_) => "generic boolean",
            Element::Hot(_) => "hot",
            Element::LightDetected(_) => "light detected",
            Element::Unlocked(_) => "unlocked",
            Element::Wet(_) => "wet",
            Element::MotionDetected(_) => "motion detected",
            Element::Moving(_) => "moving",
            Element::OccupancyDetected(_) => "occupancy detected",
            Element::Open(_) => "open",
            Element::Plugged(_) => "plugged in",
            Element::PowerOn(_) => "power on",
            Element::Present(_) => "home",
            Element::Problem(_) => "problem",
            Element::Running(_) => "running",
            Element::Safe(_) => "safe",
            Element::SmokeDetected(_) => "smoke detected",
            Element::Sound(_) => "sound detected",
            Element::Tamper(_) => "tampered",
            Element::VibrationDetected(_) => "vibration detected",
            Element::WindowOpen(_) => "window open",
            Element::ButtonEvent(_) => "button event",
            Element::DimmerEvent(_) => "dimmer event",
        }
    }

    pub open spec fn spec_unit(self) -> Seq<char> {
        match self {
            Element::Acceleration(_) => "m/s²"@,
            Element::Battery(_) => "%"@,
            Element::Co2(_) => "ppm"@,
            Element::Count8(_) => ""@,
            Element::Count16(_) => ""@,
            Element::Count32(_) => ""@,
            Element::Current(_) => "A"@,
            Element::Dewpoint(_) => "°C"@,
            Element::DistanceMm(_) => "mm"@,
            Element::DistanceM(_) => "m"@,
            Element::Duration(_) => "s"@,
            Element::Energy(_) => "kWh"@,
            Element::Gas(_) => "m3"@,
            Element::Gyroscope(_) => "°/s"@,
            Element::Humidity(_) => "%"@,
            Element::HumidityShort(_) => "%"@,
            Element::Illuminance(_) => "lux"@,
            Element::MassKg(_) => "kg"@,
            Element::MassLb(_) => "lb"@,
            Element::Moisture(_) => "%"@,
            Element::MoistureShort(_) => "%"@,
            Element::Pm2_5(_) => "ug/m3"@,
            Element::Pm10(_) => "ug/m3"@,
            Element::Power(_) => "W"@,
            Element::Pressure(_) => "hPa"@,
            Element::Rotation(_) => "°"@,
            Element::Speed(_) => "m/s"@,
            Element::Temperature(_) => "°C"@,
            Element::TemperatureSmall(_) => "°C"@,
            Element::Timestamp(_) => ""@,
            Element::Tvoc(_) => "ug/m3"@,
            Element::VoltageSmall(_) => "V"@,
            Element::Voltage(_) => "V"@,
            Element::VolumeLong(_) => "L"@,
            Element::Volume(_) => "L"@,
            Element::VolumeMl(_) => "mL"@,
            Element::FlowRate(_) => "m3/hr"@,
            Element::UvIndex(_) => ""@,
            Element::Water(_) => "L"@,
            Element::BatteryLow(_) => ""@,
            Element::BatteryCharging(_) => ""@,
            Element::CarbonMonoxideDetected(_) => ""@,
            Element::Cold(_) => ""@,
            Element::Connected(_) => ""@,
            Element::DoorOpen(_) => ""@,
            Element::GarageDoorOpen(_) => ""@,
            Element::GasDetected(_) => ""@,
            Element::GenericBoolean(_) => ""@,
            Element::Hot(_) => ""@,
            Element::LightDetected(_) => ""@,
            Element::Unlocked(_) => ""@,
            Element::Wet(_) => ""@,
            Element::MotionDetected(_) => ""@,
            Element::Moving(_) => ""@,
            Element::OccupancyDetected(_) => ""@,
            Element::Open(_) => ""@,
            Element::Plugged(_) => ""@,
            Element::PowerOn(_) => ""@,
            Element::Present(_) => ""@,
            Element::Problem(_) => ""@,
            Element::Running(_) => ""@,
            Element::Safe(_) => ""@,
            Element::SmokeDetected(_) => ""@,
            Element::Sound(_) => ""@,
            Element::Tamper(_) => ""@,
            Element::VibrationDetected(_) => ""@,
            Element::WindowOpen(_) => ""@,
            Element::ButtonEvent(_) => ""@,
            Element::DimmerEvent(_) => ""@,
        }
    }

    /// The unit of the element's value.
    pub fn unit(&self) -> (s: &'static str)
        ensures
            s@ == self.spec_unit(),
    {
        match self {
            Element::Acceleration(_) => "m/s²",
            Element::Battery(_) => "%",
            Element::Co2(_) => "ppm",
            Element::Count8(_) => "",
            Element::Count16(_) => "",
            Element::Count32(_) => "",
            Element::Current(_) => "A",
            Element::Dewpoint(_) => "°C",
            Element::DistanceMm(_) => "mm",
            Element::DistanceM(_) => "m",
            Element::Duration(_) => "s",
            Element::Energy(_) => "kWh",
            Element::Gas(_) => "m3",
            Element::Gyroscope(_) => "°/s",
            Element::Humidity(_) => "%",
            Element::HumidityShort(_) => "%",
            Element::Illuminance(_) => "lux",
            Element::MassKg(_) => "kg",
            Element::MassLb(_) => "lb",
            Element::Moisture(_) => "%",
            Element::MoistureShort(_) => "%",
            Element::Pm2_5(_) => "ug/m3",
            Element::Pm10(_) => "ug/m3",
            Element::Power(_) => "W",
            Element::Pressure(_) => "hPa",
            Element::Rotation(_) => "°",
            Element::Speed(_) => "m/s",
            Element::Temperature(_) => "°C",
            Element::TemperatureSmall(_) => "°C",
            Element::Timestamp(_) => "",
            Element::Tvoc(_) => "ug/m3",
            Element::VoltageSmall(_) => "V",
            Element::Voltage(_) => "V",
            Element::VolumeLong(_) => "L",
            Element::Volume(_) => "L",
            Element::VolumeMl(_) => "mL",
            Element::FlowRate(_) => "m3/hr",
            Element::UvIndex(_) => "",
            Element::Water(_) => "L",
            Element::BatteryLow(_) => "",
            Element::BatteryCharging(_) => "",
            Element::CarbonMonoxideDetected(_) => "",
            Element::Cold(_) => "",
            Element::Connected(_) => "",
            Element::DoorOpen(_) => "",
            Element::GarageDoorOpen(_) => "",
            Element::GasDetected(_) => "",
            Element::GenericBoolean(_) => "",
            Element::Hot(_) => "",
            Element::LightDetected(_) => "",
            Element::Unlocked(_) => "",
            Element::Wet(_) => "",
            Element::MotionDetected(_) => "",
            Element::Moving(_) => "",
            Element::OccupancyDetected(_) => "",
            Element::Open(_) => "",
            Element::Plugged(_) => "",
            Element::PowerOn(_) => "",
            Element::Present(_) => "",
            Element::Problem(_) => "",
            Element::Running(_) => "",
            Element::Safe(_) => "",
            Element::SmokeDetected(_) => "",
            Element::Sound(_) => "",
            Element::Tamper(_) => "",
            Element::VibrationDetected(_) => "",
            Element::WindowOpen(_) => "",
            Element::ButtonEvent(_) => "",
            Element::DimmerEvent(_) => "",
        }
    }

    /// The value of a binary sensor element.
    pub open spec fn spec_value_bool(self) -> Option<bool> {
        match self {
            Element::BatteryLow(b) => Some(b),
            Element::BatteryCharging(b) => Some(b),
            Element::CarbonMonoxideDetected(b) => Some(b),
            Element::Cold(b) => Some(b),
            Element::Connected(b) => Some(b),
            Element::DoorOpen(b) => Some(b),
            Element::GarageDoorOpen(b) => Some(b),
            Element::GasDetected(b) => Some(b),
            Element::GenericBoolean(b) => Some(b),
            Element::Hot(b) => Some(b),
            Element::LightDetected(b) => Some(b),
            Element::Unlocked(b) => Some(b),
            Element::Wet(b) => Some(b),
            Element::MotionDetected(b) => Some(b),
            Element::Moving(b) => Some(b),
            Element::OccupancyDetected(b) => Some(b),
            Element::Open(b) => Some(b),
            Element::Plugged(b) => Some(b),
            Element::PowerOn(b) => Some(b),
            Element::Present(b) => Some(b),
            Element::Problem(b) => Some(b),
            Element::Running(b) => Some(b),
            Element::Safe(b) => Some(b),
            Element::SmokeDetected(b) => Some(b),
            Element::Sound(b) => Some(b),
            Element::Tamper(b) => Some(b),
            Element::VibrationDetected(b) => Some(b),
            Element::WindowOpen(b) => Some(b),
            _ => None,
        }
    }

    /// The value of a binary sensor element.
    pub fn value_bool(&self) -> (r: Option<bool>)
        ensures
            r == self.spec_value_bool(),
    {
        match *self {
            Element::BatteryLow(b) => Some(b),
            Element::BatteryCharging(b) => Some(b),
            Element::CarbonMonoxideDetected(b) => Some(b),
            Element::Cold(b) => Some(b),
            Element::Connected(b) => Some(b),
            Element::DoorOpen(b) => Some(b),
            Element::GarageDoorOpen(b) => Some(b),
            Element::GasDetected(b) => Some(b),
            Element::GenericBoolean(b) => Some(b),
            Element::Hot(b) => Some(b),
            Element::LightDetected(b) => Some(b),
            Element::Unlocked(b) => Some(b),
            Element::Wet(b) => Some(b),
            Element::MotionDetected(b) => Some(b),
            Element::Moving(b) => Some(b),
            Element::OccupancyDetected(b) => Some(b),
            Element::Open(b) => Some(b),
            Element::Plugged(b) => Some(b),
            Element::PowerOn(b) => Some(b),
            Element::Present(b) => Some(b),
            Element::Problem(b) => Some(b),
            Element::Running(b) => Some(b),
            Element::Safe(b) => Some(b),
            Element::SmokeDetected(b) => Some(b),
            Element::Sound(b) => Some(b),
            Element::Tamper(b) => Some(b),
            Element::VibrationDetected(b) => Some(b),
            Element::WindowOpen(b) => Some(b),
            _ => None,
        }
    }

    /// The value of an element whose value is a whole number with no scaling factor.
    pub open spec fn spec_value_int(self) -> Option<i64> {
        match self {
            Element::Battery(x) => Some(x as i64),
            Element::Co2(x) => Some(x as i64),
            Element::Count8(x) => Some(x as i64),
            Element::Count16(x) => Some(x as i64),
            Element::Count32(x) => Some(x as i64),
            Element::DistanceMm(x) => Some(x as i64),
            Element::HumidityShort(x) => Some(x as i64),
            Element::MoistureShort(x) => Some(x as i64),
            Element::Pm2_5(x) => Some(x as i64),
            Element::Pm10(x) => Some(x as i64),
            Element::Timestamp(x) => Some(x as i64),
            Element::Tvoc(x) => Some(x as i64),
            Element::VolumeMl(x) => Some(x as i64),
            _ => None,
        }
    }

    /// The value of an element whose value is a whole number with no scaling factor.
    pub fn value_int(&self) -> (r: Option<i64>)
        ensures
            r == self.spec_value_int(),
    {
        match *self {
            Element::Battery(x) => Some(x as i64),
            Element::Co2(x) => Some(x as i64),
            Element::Count8(x) => Some(x as i64),
            Element::Count16(x) => Some(x as i64),
            Element::Count32(x) => Some(x as i64),
            Element::DistanceMm(x) => Some(x as i64),
            Element::HumidityShort(x) => Some(x as i64),
            Element::MoistureShort(x) => Some(x as i64),
            Element::Pm2_5(x) => Some(x as i64),
            Element::Pm10(x) => Some(x as i64),
            Element::Timestamp(x) => Some(x as i64),
            Element::Tvoc(x) => Some(x as i64),
            Element::VolumeMl(x) => Some(x as i64),
            _ => None,
        }
    }

    /// The value of a measurement element as a fixed-point number: the raw value and the
    /// number of decimal places, so that the measured value is `raw / 10^places`.
    pub open spec fn spec_value_scaled(self) -> Option<(i64, u32)> {
        match self {
            Element::Acceleration(x) => Some((x as i64, 3)),
            Element::Current(x) => Some((x as i64, 3)),
            Element::Dewpoint(x) => Some((x as i64, 2)),
            Element::DistanceMm(x) => Some((x as i64, 0)),
            Element::DistanceM(x) => Some((x as i64, 1)),
            Element::Duration(x) => Some((x as i64, 3)),
            Element::Energy(x) => Some((x as i64, 3)),
            Element::Gas(x) => Some((x as i64, 3)),
            Element::Gyroscope(x) => Some((x as i64, 3)),
            Element::Humidity(x) => Some((x as i64, 2)),
            Element::HumidityShort(x) => Some((x as i64, 0)),
            Element::Illuminance(x) => Some((x as i64, 2)),
            Element::MassKg(x) => Some((x as i64, 2)),
            Element::MassLb(x) => Some((x as i64, 2)),
            Element::Moisture(x) => Some((x as i64, 2)),
            Element::MoistureShort(x) => Some((x as i64, 0)),
            Element::Power(x) => Some((x as i64, 2)),
            Element::Pressure(x) => Some((x as i64, 2)),
            Element::Rotation(x) => Some((x as i64, 1)),
            Element::Speed(x) => Some((x as i64, 2)),
            Element::Temperature(x) => Some((x as i64, 1)),
            Element::TemperatureSmall(x) => Some((x as i64, 2)),
            Element::VoltageSmall(x) => Some((x as i64, 3)),
            Element::Voltage(x) => Some((x as i64, 1)),
            Element::VolumeLong(x) => Some((x as i64, 3)),
            Element::Volume(x) => Some((x as i64, 1)),
            Element::VolumeMl(x) => Some((x as i64, 0)),
            Element::FlowRate(x) => Some((x as i64, 3)),
            Element::UvIndex(x) => Some((x as i64, 1)),
            Element::Water(x) => Some((x as i64, 3)),
            _ => None,
        }
    }

    /// The value of a measurement element as a fixed-point number: the raw value and the
    /// number of decimal places, so that the measured value is `raw / 10^places`.
    pub fn value_scaled(&self) -> (r: Option<(i64, u32)>)
        ensures
            r == self.spec_value_scaled(),
            r matches Some((_, k)) ==> k <= 3,
    {
        match *self {
            Element::Acceleration(x) => Some((x as i64, 3)),
            Element::Current(x) => Some((x as i64, 3)),
            Element::Dewpoint(x) => Some((x as i64, 2)),
            Element::DistanceMm(x) => Some((x as i64, 0)),
            Element::DistanceM(x) => Some((x as i64, 1)),
            Element::Duration(x) => Some((x as i64, 3)),
            Element::Energy(x) => Some((x as i64, 3)),
            Element::Gas(x) => Some((x as i64, 3)),
            Element::Gyroscope(x) => Some((x as i64, 3)),
            Element::Humidity(x) => Some((x as i64, 2)),
            Element::HumidityShort(x) => Some((x as i64, 0)),
            Element::Illuminance(x) => Some((x as i64, 2)),
            Element::MassKg(x) => Some((x as i64, 2)),
            Element::MassLb(x) => Some((x as i64, 2)),
            Element::Moisture(x) => Some((x as i64, 2)),
            Element::MoistureShort(x) => Some((x as i64, 0)),
            Element::Power(x) => Some((x as i64, 2)),
            Element::Pressure(x) => Some((x as i64, 2)),
            Element::Rotation(x) => Some((x as i64, 1)),
            Element::Speed(x) => Some((x as i64, 2)),
            Element::Temperature(x) => Some((x as i64, 1)),
            Element::TemperatureSmall(x) => Some((x as i64, 2)),
            Element::VoltageSmall(x) => Some((x as i64, 3)),
            Element::Voltage(x) => Some((x as i64, 1)),
            Element::VolumeLong(x) => Some((x as i64, 3)),
            Element::Volume(x) => Some((x as i64, 1)),
            Element::VolumeMl(x) => Some((x as i64, 0)),
            Element::FlowRate(x) => Some((x as i64, 3)),
            Element::UvIndex(x) => Some((x as i64, 1)),
            Element::Water(x) => Some((x as i64, 3)),
            _ => None,
        }
    }

    /// The event of an event element.
    pub open spec fn spec_event(self) -> Option<Event> {
        match self {
            Element::ButtonEvent(t) => Some(Event::Button(t)),
            Element::DimmerEvent(t) => Some(Event::Dimmer(t)),
            _ => None,
        }
    }

    /// The event of an event element.
    pub fn event(&self) -> (r: Option<Event>)
        ensures
            r == self.spec_event(),
    {
        match *self {
            Element::ButtonEvent(t) => Some(Event::Button(t)),
            Element::DimmerEvent(t) => Some(Event::Dimmer(t)),
            _ => None,
        }
    }

    /// Every element has an event, a boolean, an integer or a fixed-point value.
    pub proof fn lemma_has_value(self)
        ensures
            self.spec_event() is Some || self.spec_value_bool() is Some || self.spec_value_int() is Some
                || self.spec_value_scaled() is Some,
    {
    }

    /// The element as text: the event, or "name: value" followed by the unit.
    pub open spec fn spec_to_string(self) -> Seq<char> {
        match self.spec_event() {
            Some(e) => e.spec_to_string(),
            None => match self.spec_value_bool() {
                Some(b) => self.spec_name() + ": "@ + (if b { "true"@ } else { "false"@ }) + self.spec_unit(),
                None => match self.spec_value_int() {
                    Some(i) => self.spec_name() + ": "@ + int_str(i as int) + self.spec_unit(),
                    None => match self.spec_value_scaled() {
                        Some((raw, k)) => self.spec_name() + ": "@ + scaled_str(raw as int, k as nat) + self.spec_unit(),
                        None => Seq::<char>::empty(),
                    },
                },
            },
        }
    }

    /// Appends the element as text.
    pub fn push_str(&self, s: &mut String)
        ensures
            final(s)@ == old(s)@ + self.spec_to_string(),
    {
        let ghost s0 = s@;
        if let Some(event) = self.event() {
            event.push_str(s);
        } else {
            s.append(self.name());
            s.append(": ");
            if let Some(b) = self.value_bool() {
                s.append(if b { "true" } else { "false" });
            } else if let Some(i) = self.value_int() {
                push_i64(s, i);
            } else if let Some((raw, k)) = self.value_scaled() {
                push_scaled(s, raw, k);
            } else {
                proof { self.lemma_has_value(); }
            }
            s.append(self.unit());
            assert(s@ =~= s0 + self.spec_to_string());
        }
    }

    /// The element as text, e.g. "temperature: 25.06°C".
    pub fn to_string(&self) -> (s: String)
        ensures
            s@ == self.spec_to_string(),
    {
        let mut s = String::new();
        self.push_str(&mut s);
        s
    }
}

impl BtHomeV2 {
    /// Decodes a BTHome v2 advertisement.
    pub fn decode(data: &[u8]) -> (r: Result<BtHomeV2, DecodeError>)
        ensures
            match (r, decode_spec(data@)) {
                (Ok(b), Ok((enc, trig, els))) => b.encrypted == enc && b.trigger_based == trig && b.elements@ == els,
                (Err(e), Err(f)) => e@ == f,
                _ => false,
            },
    {
        if data.len() == 0 {
            return Err(DecodeError::PrematureEnd);
        }
        let device_info = data[0];
        let encrypted = device_info % 2 == 1;
        let trigger_based = (device_info / 4) % 2 == 1;
        let version = device_info / 32;
        if version != 2 {
            return Err(DecodeError::UnsupportedVersion(version));
        }
        let mut remaining: &[u8] = &data[1..data.len()];
        assert(remaining@ =~= data@.skip(1));
        let ghost all = data@.skip(1);
        let mut elements: Vec<Element> = Vec::new();
        while remaining.len() >= 2
            invariant
                data@.len() >= 1,
                all == data@.skip(1),
                data@[0] / 32 == 2,
                encrypted == (data@[0] % 2 == 1),
                trigger_based == ((data@[0] / 4) % 2 == 1),
                match elements_spec(all) {
                    Ok(s) => match elements_spec(remaining@) {
                        Ok(t) => s == elements@ + t,
                        Err(_) => false,
                    },
                    Err(f) => elements_spec(remaining@) == Err::<Seq<Element>, DecodeErrorView>(f),
                },
            decreases remaining@.len(),
        {
            proof { lemma_element_len(remaining@); }
            let (element, length) = match Element::decode(remaining) {
                Ok(x) => x,
                Err(e) => {
                    assert(elements_spec(remaining@) == Err::<Seq<Element>, DecodeErrorView>(e@));
                    return Err(e);
                },
            };
            let next = &remaining[length..remaining.len()];
            assert(next@ =~= remaining@.skip(length as int));
            let ghost old_elements = elements@;
            elements.push(element);
            proof {
                match elements_spec(all) {
                    Ok(s) => {
                        assert(elements@ + elements_spec(next@)->Ok_0 =~= old_elements + (seq![element] + elements_spec(next@)->Ok_0));
                    },
                    Err(f) => {},
                }
            }
            remaining = next;
        }
        assert(elements@ + Seq::<Element>::empty() =~= elements@);
        Ok(BtHomeV2 { encrypted, trigger_based, elements })
    }

    /// The advertisement as text: "(encrypted)" or "(unencrypted)", ", trigger based" inside the
    /// brackets if it is, then the elements separated by ", ".
    pub open spec fn spec_to_string(self) -> Seq<char> {
        "("@ + (if self.encrypted { "encrypted"@ } else { "unencrypted"@ })
            + (if self.trigger_based { ", trigger based"@ } else { Seq::<char>::empty() }) + ") "@
            + elements_str(self.elements@)
    }

    /// The advertisement as text.
    pub fn to_string(&self) -> (s: String)
        ensures
            s@ == self.spec_to_string(),
    {
        let mut s = String::new();
        s.append("(");
        if self.encrypted {
            s.append("encrypted");
        } else {
            s.append("unencrypted");
        }
        if self.trigger_based {
            s.append(", trigger based");
        }
        s.append(") ");
        let ghost prefix = s@;
        let mut i: usize = 0;
        while i < self.elements.len()
            invariant
                i <= self.elements@.len(),
                s@ == prefix + elements_str(self.elements@.subrange(0, i as int)),
            decreases self.elements@.len() - i,
        {
            let ghost before = s@;
            if i != 0 {
                s.append(", ");
            }
            self.elements[i].push_str(&mut s);
            let ghost sub = self.elements@.subrange(0, i + 1);
            assert(sub.drop_last() =~= self.elements@.subrange(0, i as int));
            i = i + 1;
            assert(s@ =~= prefix + elements_str(self.elements@.subrange(0, i as int)));
        }
        assert(self.elements@.subrange(0, self.elements@.len() as int) =~= self.elements@);
        assert(s@ =~= self.spec_to_string());
        s
    }
}

/// The elements as text, separated by ", ".
pub open spec fn elements_str(els: Seq<Element>) -> Seq<char>
    decreases els.len(),
{
    if els.len() == 0 {
        Seq::<char>::empty()
    } else if els.len() == 1 {
        els[0].spec_to_string()
    } else {
        elements_str(els.drop_last()) + ", "@ + els.last().spec_to_string()
    }
}

/// A 16-bit value, unsigned or signed.
#[derive(Copy, Clone, Debug, Eq, PartialEq, Structural)]
pub enum Value {
    U16(u16),
    I16(i16),
}

impl Value {
    /// The value in decimal.
    pub fn to_string(&self) -> (s: String)
        ensures
            s@ == int_str(match self { Value::U16(v) => *v as int, Value::I16(v) => *v as int }),
    {
        let mut s = String::new();
        match self {
            Value::U16(v) => push_i64(&mut s, *v as i64),
            Value::I16(v) => push_i64(&mut s, *v as i64),
        }
        s
    }
}

} // verus!
