//! The BTHome v1 format.

use super::events::{ButtonEventType, DimmerEventType, Event};
use super::{result_view, DecodeError, DecodeErrorView};
use super::events::{button_from_bytes_spec, dimmer_from_bytes_spec};
use crate::text::{push_i64, push_scaled, int_str, scaled_str};
use vstd::prelude::*;
use vstd::string::StringExecFns;

verus! {

/// The service data UUID used for unencrypted BTHome v1 advertisements (0x181c, on the
/// Bluetooth base UUID), as a 128-bit integer.
pub const UNENCRYPTED_UUID: u128 = 0x0000181c_0000_1000_8000_00805f9b34fb;

/// The service data UUID used for encrypted BTHome v1 advertisements (0x181e, on the Bluetooth
/// base UUID), as a 128-bit integer.
pub const ENCRYPTED_UUID: u128 = 0x0000181e_0000_1000_8000_00805f9b34fb;

/// The data type of a BTHome v1 element, from the top three bits of its length/format byte.
#[derive(Copy, Clone, Debug, Eq, PartialEq, Structural)]
pub enum DataType {
    UnsignedInt,
    SignedInt,
    Float,
    String,
    Mac,
}

/// The data type with the given code, if there is one.
pub open spec fn data_type_of(code: u8) -> Option<DataType> {
    if code == 0 {
        Some(DataType::UnsignedInt)
    } else if code == 1 {
        Some(DataType::SignedInt)
    } else if code == 2 {
        Some(DataType::Float)
    } else if code == 3 {
        Some(DataType::String)
    } else if code == 4 {
        Some(DataType::Mac)
    } else {
        None
    }
}

impl DataType {
    /// The data type with the given code, or `InvalidDataType` if there is none.
    pub fn from_u8(code: u8) -> (r: Result<DataType, DecodeError>)
        ensures
            result_view(r) == (match data_type_of(code) {
                Some(t) => Ok(t),
                None => Err(DecodeErrorView::InvalidDataType(code)),
            }),
    {
        if code == 0 {
            Ok(DataType::UnsignedInt)
        } else if code == 1 {
            Ok(DataType::SignedInt)
        } else if code == 2 {
            Ok(DataType::Float)
        } else if code == 3 {
            Ok(DataType::String)
        } else if code == 4 {
            Ok(DataType::Mac)
        } else {
            Err(DecodeError::InvalidDataType(code))
        }
    }

    /// The code of the data type.
    pub fn code(self) -> (c: u8)
        ensures
            data_type_of(c) == Some(self),
    {
        match self {
            DataType::UnsignedInt => 0,
            DataType::SignedInt => 1,
            DataType::Float => 2,
            DataType::String => 3,
            DataType::Mac => 4,
        }
    }
}

/// A BTHome v1 property type. Each has a unit and a scale defined by the standard.
#[derive(Copy, Clone, Debug, Eq, PartialEq, Structural)]
pub enum Property {
    PacketId,
    Battery,
    Temperature,
    Humidity,
    HumidityShort,
    Pressure,
    Illuminance,
    MassKg,
    MassLb,
    Dewpoint,
    Count,
    Energy,
    Power,
    Voltage,
    Pm2_5,
    Pm10,
    Co2,
    Tvoc,
    Moisture,
    MoistureShort,
    Timestamp,
    Acceleration,
    Gyroscope,
    GenericBoolean,
    PowerOn,
    Open,
    BatteryLow,
    BatteryCharging,
    CarbonMonoxideDetected,
    Cold,
    Connected,
    DoorOpen,
    GarageDoorOpen,
    GasDetected,
    HeatAbnormal,
    LightDetected,
    Unlocked,
    Wet,
    MotionDetected,
    Moving,
    OccupancyDetected,
    PluggedIn,
    Home,
    Problem,
    Running,
    Safe,
    SmokeDetected,
    Sound,
    Tamper,
    VibrationDetected,
    WindowOpen,
    ButtonEvent,
    DimmerEvent,
}

/// The property with the given object ID, if there is one.
pub open spec fn property_of(code: u8) -> Option<Property> {
    match code {
        0x00 => Some(Property::PacketId),
        0x01 => Some(Property::Battery),
        0x02 => Some(Property::Temperature),
        0x03 => Some(Property::Humidity),
        0x2e => Some(Property::HumidityShort),
        0x04 => Some(Property::Pressure),
        0x05 => Some(Property::Illuminance),
        0x06 => Some(Property::MassKg),
        0x07 => Some(Property::MassLb),
        0x08 => Some(Property::Dewpoint),
        0x09 => Some(Property::Count),
        0x0a => Some(Property::Energy),
        0x0b => Some(Property::Power),
        0x0c => Some(Property::Voltage),
        0x0d => Some(Property::Pm2_5),
        0x0e => Some(Property::Pm10),
        0x12 => Some(Property::Co2),
        0x13 => Some(Property::Tvoc),
        0x14 => Some(Property::Moisture),
        0x2f => Some(Property::MoistureShort),
        0x50 => Some(Property::Timestamp),
        0x51 => Some(Property::Acceleration),
        0x52 => Some(Property::Gyroscope),
        0x0f => Some(Property::GenericBoolean),
        0x10 => Some(Property::PowerOn),
        0x11 => Some(Property::Open),
        0x15 => Some(Property::BatteryLow),
        0x16 => Some(Property::BatteryCharging),
        0x17 => Some(Property::CarbonMonoxideDetected),
        0x18 => Some(Property::Cold),
        0x19 => Some(Property::Connected),
        0x1a => Some(Property::DoorOpen),
        0x1b => Some(Property::GarageDoorOpen),
        0x1c => Some(Property::GasDetected),
        0x1d => Some(Property::HeatAbnormal),
        0x1e => Some(Property::LightDetected),
        0x1f => Some(Property::Unlocked),
        0x20 => Some(Property::Wet),
        0x21 => Some(Property::MotionDetected),
        0x22 => Some(Property::Moving),
        0x23 => Some(Property::OccupancyDetected),
        0x24 => Some(Property::PluggedIn),
        0x25 => Some(Property::Home),
        0x26 => Some(Property::Problem),
        0x27 => Some(Property::Running),
        0x28 => Some(Property::Safe),
        0x29 => Some(Property::SmokeDetected),
        0x2a => Some(Property::Sound),
        0x2b => Some(Property::Tamper),
        0x2c => Some(Property::VibrationDetected),
        0x2d => Some(Property::WindowOpen),
        0x3a => Some(Property::ButtonEvent),
        0x3c => Some(Property::DimmerEvent),
        _ => None,
    }
}

impl Property {
    /// The object ID of the property.
    pub open spec fn spec_code(self) -> u8 {
        match self {
            Property::PacketId => 0x00,
            Property::Battery => 0x01,
            Property::Temperature => 0x02,
            Property::Humidity => 0x03,
            Property::HumidityShort => 0x2e,
            Property::Pressure => 0x04,
            Property::Illuminance => 0x05,
            Property::MassKg => 0x06,
            Property::MassLb => 0x07,
            Property::Dewpoint => 0x08,
            Property::Count => 0x09,
            Property::Energy => 0x0a,
            Property::Power => 0x0b,
            Property::Voltage => 0x0c,
            Property::Pm2_5 => 0x0d,
            Property::Pm10 => 0x0e,
            Property::Co2 => 0x12,
            Property::Tvoc => 0x13,
            Property::Moisture => 0x14,
            Property::MoistureShort => 0x2f,
            Property::Timestamp => 0x50,
            Property::Acceleration => 0x51,
            Property::Gyroscope => 0x52,
            Property::GenericBoolean => 0x0f,
            Property::PowerOn => 0x10,
            Property::Open => 0x11,
            Property::BatteryLow => 0x15,
            Property::BatteryCharging => 0x16,
            Property::CarbonMonoxideDetected => 0x17,
            Property::Cold => 0x18,
            Property::Connected => 0x19,
            Property::DoorOpen => 0x1a,
            Property::GarageDoorOpen => 0x1b,
            Property::GasDetected => 0x1c,
            Property::HeatAbnormal => 0x1d,
            Property::LightDetected => 0x1e,
            Property::Unlocked => 0x1f,
            Property::Wet => 0x20,
            Property::MotionDetected => 0x21,
            Property::Moving => 0x22,
            Property::OccupancyDetected => 0x23,
            Property::PluggedIn => 0x24,
            Property::Home => 0x25,
            Property::Problem => 0x26,
            Property::Running => 0x27,
            Property::Safe => 0x28,
            Property::SmokeDetected => 0x29,
            Property::Sound => 0x2a,
            Property::Tamper => 0x2b,
            Property::VibrationDetected => 0x2c,
            Property::WindowOpen => 0x2d,
            Property::ButtonEvent => 0x3a,
            Property::DimmerEvent => 0x3c,
        }
    }

    /// The object ID of the property.
    pub fn code(self) -> (c: u8)
        ensures
            c == self.spec_code(),
            property_of(c) == Some(self),
    {
        match self {
            Property::PacketId => 0x00,
            Property::Battery => 0x01,
            Property::Temperature => 0x02,
            Property::Humidity => 0x03,
            Property::HumidityShort => 0x2e,
            Property::Pressure => 0x04,
            Property::Illuminance => 0x05,
            Property::MassKg => 0x06,
            Property::MassLb => 0x07,
            Property::Dewpoint => 0x08,
            Property::Count => 0x09,
            Property::Energy => 0x0a,
            Property::Power => 0x0b,
            Property::Voltage => 0x0c,
            Property::Pm2_5 => 0x0d,
            Property::Pm10 => 0x0e,
            Property::Co2 => 0x12,
            Property::Tvoc => 0x13,
            Property::Moisture => 0x14,
            Property::MoistureShort => 0x2f,
            Property::Timestamp => 0x50,
            Property::Acceleration => 0x51,
            Property::Gyroscope => 0x52,
            Property::GenericBoolean => 0x0f,
            Property::PowerOn => 0x10,
            Property::Open => 0x11,
            Property::BatteryLow => 0x15,
            Property::BatteryCharging => 0x16,
            Property::CarbonMonoxideDetected => 0x17,
            Property::Cold => 0x18,
            Property::Connected => 0x19,
            Property::DoorOpen => 0x1a,
            Property::GarageDoorOpen => 0x1b,
            Property::GasDetected => 0x1c,
            Property::HeatAbnormal => 0x1d,
            Property::LightDetected => 0x1e,
            Property::Unlocked => 0x1f,
            Property::Wet => 0x20,
            Property::MotionDetected => 0x21,
            Property::Moving => 0x22,
            Property::OccupancyDetected => 0x23,
            Property::PluggedIn => 0x24,
            Property::Home => 0x25,
            Property::Problem => 0x26,
            Property::Running => 0x27,
            Property::Safe => 0x28,
            Property::SmokeDetected => 0x29,
            Property::Sound => 0x2a,
            Property::Tamper => 0x2b,
            Property::VibrationDetected => 0x2c,
            Property::WindowOpen => 0x2d,
            Property::ButtonEvent => 0x3a,
            Property::DimmerEvent => 0x3c,
        }
    }

    /// The property with the given object ID, or `InvalidProperty` if there is none.
    pub fn from_u8(code: u8) -> (r: Result<Property, DecodeError>)
        ensures
            result_view(r) == (match property_of(code) {
                Some(p) => Ok(p),
                None => Err(DecodeErrorView::InvalidProperty(code)),
            }),
    {
        match code {
            0x00 => Ok(Property::PacketId),
            0x01 => Ok(Property::Battery),
            0x02 => Ok(Property::Temperature),
            0x03 => Ok(Property::Humidity),
            0x2e => Ok(Property::HumidityShort),
            0x04 => Ok(Property::Pressure),
            0x05 => Ok(Property::Illuminance),
            0x06 => Ok(Property::MassKg),
            0x07 => Ok(Property::MassLb),
            0x08 => Ok(Property::Dewpoint),
            0x09 => Ok(Property::Count),
            0x0a => Ok(Property::Energy),
            0x0b => Ok(Property::Power),
            0x0c => Ok(Property::Voltage),
            0x0d => Ok(Property::Pm2_5),
            0x0e => Ok(Property::Pm10),
            0x12 => Ok(Property::Co2),
            0x13 => Ok(Property::Tvoc),
            0x14 => Ok(Property::Moisture),
            0x2f => Ok(Property::MoistureShort),
            0x50 => Ok(Property::Timestamp),
            0x51 => Ok(Property::Acceleration),
            0x52 => Ok(Property::Gyroscope),
            0x0f => Ok(Property::GenericBoolean),
            0x10 => Ok(Property::PowerOn),
            0x11 => Ok(Property::Open),
            0x15 => Ok(Property::BatteryLow),
            0x16 => Ok(Property::BatteryCharging),
            0x17 => Ok(Property::CarbonMonoxideDetected),
            0x18 => Ok(Property::Cold),
            0x19 => Ok(Property::Connected),
            0x1a => Ok(Property::DoorOpen),
            0x1b => Ok(Property::GarageDoorOpen),
            0x1c => Ok(Property::GasDetected),
            0x1d => Ok(Property::HeatAbnormal),
            0x1e => Ok(Property::LightDetected),
            0x1f => Ok(Property::Unlocked),
            0x20 => Ok(Property::Wet),
            0x21 => Ok(Property::MotionDetected),
            0x22 => Ok(Property::Moving),
            0x23 => Ok(Property::OccupancyDetected),
            0x24 => Ok(Property::PluggedIn),
            0x25 => Ok(Property::Home),
            0x26 => Ok(Property::Problem),
            0x27 => Ok(Property::Running),
            0x28 => Ok(Property::Safe),
            0x29 => Ok(Property::SmokeDetected),
            0x2a => Ok(Property::Sound),
            0x2b => Ok(Property::Tamper),
            0x2c => Ok(Property::VibrationDetected),
            0x2d => Ok(Property::WindowOpen),
            0x3a => Ok(Property::ButtonEvent),
            0x3c => Ok(Property::DimmerEvent),
            _ => Err(DecodeError::InvalidProperty(code)),
        }
    }

    pub open spec fn spec_name(self) -> Seq<char> {
        match self {
            Property::PacketId => "packet ID"@,
            Property::Battery => "battery"@,
            Property::Temperature => "temperature"@,
            Property::Humidity => "humidity"@,
            Property::HumidityShort => "humidity"@,
            Property::Pressure => "pressure"@,
            Property::Illuminance => "illuminance"@,
            Property::MassKg => "mass"@,
            Property::MassLb => "mass"@,
            Property::Dewpoint => "dew point"@,
            Property::Count => "count"@,
            Property::Energy => "energy"@,
            Property::Power => "power"@,
            Property::Voltage => "voltage"@,
            Property::Pm2_5 => "pm2.5"@,
            Property::Pm10 => "pm10"@,
            Property::Co2 => "CO2"@,
            Property::Tvoc => "tvoc"@,
            Property::Moisture => "moisture"@,
            Property::MoistureShort => "moisture"@,
            Property::Timestamp => "timestamp"@,
            Property::Acceleration => "acceleration"@,
            Property::Gyroscope => "gyroscope"@,
            Property::GenericBoolean => "generic boolean"@,
            Property::PowerOn => "power on"@,
            Property::Open => "open"@,
            Property::BatteryLow => "battery low"@,
            Property::BatteryCharging => "battery charging"@,
            Property::CarbonMonoxideDetected => "carbon monoxide detected"@,
            Property::Cold => "cold"@,
            Property::Connected => "connected"@,
            Property::DoorOpen => "door open"@,
            Property::GarageDoorOpen => "garage door open"@,
            Property::GasDetected => "gas detected"@,
            Property::HeatAbnormal => "abnormal heat"@,
            Property::LightDetected => "light detected"@,
            Property::Unlocked => "unlocked"@,
            Property::Wet => "wet"@,
            Property::MotionDetected => "motion detected"@,
            Property::Moving => "moving"@,
            Property::OccupancyDetected => "occupancy detected"@,
            Property::PluggedIn => "plugged in"@,
            Property::Home => "home"@,
            Property::Problem => "problem"@,
            Property::Running => "running"@,
            Property::Safe => "safe"@,
            Property::SmokeDetected => "smoke detected"@,
            Property::Sound => "sound detected"@,
            Property::Tamper => "tampered"@,
            Property::VibrationDetected => "vibration detected"@,
            Property::WindowOpen => "window open"@,
            Property::ButtonEvent => "button event"@,
            Property::DimmerEvent => "dimmer event"@,
        }
    }

    /// The name of the property.
    pub fn name(self) -> (s: &'static str)
        ensures
            s@ == self.spec_name(),
    {
        match self {
            Property::PacketId => "packet ID",
            Property::Battery => "battery",
            Property::Temperature => "temperature",
            Property::Humidity => "humidity",
            Property::HumidityShort => "humidity",
            Property::Pressure => "pressure",
            Property::Illuminance => "illuminance",
            Property::MassKg => "mass",
            Property::MassLb => "mass",
            Property::Dewpoint => "dew point",
            Property::Count => "count",
            Property::Energy => "energy",
            Property::Power => "power",
            Property::Voltage => "voltage",
            Property::Pm2_5 => "pm2.5",
            Property::Pm10 => "pm10",
            Property::Co2 => "CO2",
            Property::Tvoc => "tvoc",
            Property::Moisture => "moisture",
            Property::MoistureShort => "moisture",
            Property::Timestamp => "timestamp",
            Property::Acceleration => "acceleration",
            Property::Gyroscope => "gyroscope",
            Property::GenericBoolean => "generic boolean",
            Property::PowerOn => "power on",
            Property::Open => "open",
            Property::BatteryLow => "battery low",
            Property::BatteryCharging => "battery charging",
            Property::CarbonMonoxideDetected => "carbon monoxide detected",
            Property::Cold => "cold",
            Property::Connected => "connected",
            Property::DoorOpen => "door open",
            Property::GarageDoorOpen => "garage door open",
            Property::GasDetected => "gas detected",
            Property::HeatAbnormal => "abnormal heat",
            Property::LightDetected => "light detected",
            Property::Unlocked => "unlocked",
            Property::Wet => "wet",
            Property::MotionDetected => "motion detected",
            Property::Moving => "moving",
            Property::OccupancyDetected => "occupancy detected",
            Property::PluggedIn => "plugged in",
            Property::Home => "home",
            Property::Problem => "problem",
            Property::Running => "running",
            Property::Safe => "safe",
            Property::SmokeDetected => "smoke detected",
            Property::Sound => "sound detected",
            Property::Tamper => "tampered",
            Property::VibrationDetected => "vibration detected",
            Property::WindowOpen => "window open",
            Property::ButtonEvent => "button event",
            Property::DimmerEvent => "dimmer event",
        }
    }

    pub open spec fn spec_unit(self) -> Seq<char> {
        match self {
            Property::PacketId => ""@,
            Property::Battery => "%"@,
            Property::Temperature => "°C"@,
            Property::Humidity => "%"@,
            Property::HumidityShort => "%"@,
            Property::Pressure => "hPa"@,
            Property::Illuminance => "lux"@,
            Property::MassKg => "kg"@,
            Property::MassLb => "lb"@,
            Property::Dewpoint => "°C"@,
            Property::Count => ""@,
            Property::Energy => "kWh"@,
            Property::Power => "W"@,
            Property::Voltage => "V"@,
            Property::Pm2_5 => "ug/m3"@,
            Property::Pm10 => "ug/m3"@,
            Property::Co2 => "ppm"@,
            Property::Tvoc => "ug/m3"@,
            Property::Moisture => "%"@,
            Property::MoistureShort => "%"@,
            Property::Timestamp => ""@,
            Property::Acceleration => "m/s²"@,
            Property::Gyroscope => "°/s"@,
            Property::GenericBoolean => ""@,
            Property::PowerOn => ""@,
            Property::Open => ""@,
            Property::BatteryLow => ""@,
            Property::BatteryCharging => ""@,
            Property::CarbonMonoxideDetected => ""@,
            Property::Cold => ""@,
            Property::Connected => ""@,
            Property::DoorOpen => ""@,
            Property::GarageDoorOpen => ""@,
            Property::GasDetected => ""@,
            Property::HeatAbnormal => ""@,
            Property::LightDetected => ""@,
            Property::Unlocked => ""@,
            Property::Wet => ""@,
            Property::MotionDetected => ""@,
            Property::Moving => ""@,
            Property::OccupancyDetected => ""@,
            Property::PluggedIn => ""@,
            Property::Home => ""@,
            Property::Problem => ""@,
            Property::Running => ""@,
            Property::Safe => ""@,
            Property::SmokeDetected => ""@,
            Property::Sound => ""@,
            Property::Tamper => ""@,
            Property::VibrationDetected => ""@,
            Property::WindowOpen => ""@,
            Property::ButtonEvent => ""@,
            Property::DimmerEvent => ""@,
        }
    }

    /// The standard unit for the property.
    pub fn unit(self) -> (s: &'static str)
        ensures
            s@ == self.spec_unit(),
    {
        match self {
            Property::PacketId => "",
            Property::Battery => "%",
            Property::Temperature => "°C",
            Property::Humidity => "%",
            Property::HumidityShort => "%",
            Property::Pressure => "hPa",
            Property::Illuminance => "lux",
            Property::MassKg => "kg",
            Property::MassLb => "lb",
            Property::Dewpoint => "°C",
            Property::Count => "",
            Property::Energy => "kWh",
            Property::Power => "W",
            Property::Voltage => "V",
            Property::Pm2_5 => "ug/m3",
            Property::Pm10 => "ug/m3",
            Property::Co2 => "ppm",
            Property::Tvoc => "ug/m3",
            Property::Moisture => "%",
            Property::MoistureShort => "%",
            Property::Timestamp => "",
            Property::Acceleration => "m/s²",
            Property::Gyroscope => "°/s",
            Property::GenericBoolean => "",
            Property::PowerOn => "",
            Property::Open => "",
            Property::BatteryLow => "",
            Property::BatteryCharging => "",
            Property::CarbonMonoxideDetected => "",
            Property::Cold => "",
            Property::Connected => "",
            Property::DoorOpen => "",
            Property::GarageDoorOpen => "",
            Property::GasDetected => "",
            Property::HeatAbnormal => "",
            Property::LightDetected => "",
            Property::Unlocked => "",
            Property::Wet => "",
            Property::MotionDetected => "",
            Property::Moving => "",
            Property::OccupancyDetected => "",
            Property::PluggedIn => "",
            Property::Home => "",
            Property::Problem => "",
            Property::Running => "",
            Property::Safe => "",
            Property::SmokeDetected => "",
            Property::Sound => "",
            Property::Tamper => "",
            Property::VibrationDetected => "",
            Property::WindowOpen => "",
            Property::ButtonEvent => "",
            Property::DimmerEvent => "",
        }
    }

    /// The number of decimal places of the fixed-point values of the property: the value stored
    /// is to be divided by ten to this power.
    pub open spec fn spec_scale(self) -> u32 {
        match self {
            Property::PacketId => 0,
            Property::Battery => 0,
            Property::Temperature => 2,
            Property::Humidity => 2,
            Property::HumidityShort => 0,
            Property::Pressure => 2,
            Property::Illuminance => 2,
            Property::MassKg => 2,
            Property::MassLb => 2,
            Property::Dewpoint => 2,
            Property::Count => 0,
            Property::Energy => 3,
            Property::Power => 2,
            Property::Voltage => 3,
            Property::Pm2_5 => 0,
            Property::Pm10 => 0,
            Property::Co2 => 0,
            Property::Tvoc => 0,
            Property::Moisture => 2,
            Property::MoistureShort => 0,
            Property::Timestamp => 0,
            Property::Acceleration => 3,
            Property::Gyroscope => 3,
            Property::GenericBoolean => 0,
            Property::PowerOn => 0,
            Property::Open => 0,
            Property::BatteryLow => 0,
            Property::BatteryCharging => 0,
            Property::CarbonMonoxideDetected => 0,
            Property::Cold => 0,
            Property::Connected => 0,
            Property::DoorOpen => 0,
            Property::GarageDoorOpen => 0,
            Property::GasDetected => 0,
            Property::HeatAbnormal => 0,
            Property::LightDetected => 0,
            Property::Unlocked => 0,
            Property::Wet => 0,
            Property::MotionDetected => 0,
            Property::Moving => 0,
            Property::OccupancyDetected => 0,
            Property::PluggedIn => 0,
            Property::Home => 0,
            Property::Problem => 0,
            Property::Running => 0,
            Property::Safe => 0,
            Property::SmokeDetected => 0,
            Property::Sound => 0,
            Property::Tamper => 0,
            Property::VibrationDetected => 0,
            Property::WindowOpen => 0,
            Property::ButtonEvent => 0,
            Property::DimmerEvent => 0,
        }
    }

    /// The number of decimal places of the fixed-point values of the property.
    pub fn scale(self) -> (k: u32)
        ensures
            k == self.spec_scale(),
            k <= 3,
    {
        match self {
            Property::PacketId => 0,
            Property::Battery => 0,
            Property::Temperature => 2,
            Property::Humidity => 2,
            Property::HumidityShort => 0,
            Property::Pressure => 2,
            Property::Illuminance => 2,
            Property::MassKg => 2,
            Property::MassLb => 2,
            Property::Dewpoint => 2,
            Property::Count => 0,
            Property::Energy => 3,
            Property::Power => 2,
            Property::Voltage => 3,
            Property::Pm2_5 => 0,
            Property::Pm10 => 0,
            Property::Co2 => 0,
            Property::Tvoc => 0,
            Property::Moisture => 2,
            Property::MoistureShort => 0,
            Property::Timestamp => 0,
            Property::Acceleration => 3,
            Property::Gyroscope => 3,
            Property::GenericBoolean => 0,
            Property::PowerOn => 0,
            Property::Open => 0,
            Property::BatteryLow => 0,
            Property::BatteryCharging => 0,
            Property::CarbonMonoxideDetected => 0,
            Property::Cold => 0,
            Property::Connected => 0,
            Property::DoorOpen => 0,
            Property::GarageDoorOpen => 0,
            Property::GasDetected => 0,
            Property::HeatAbnormal => 0,
            Property::LightDetected => 0,
            Property::Unlocked => 0,
            Property::Wet => 0,
            Property::MotionDetected => 0,
            Property::Moving => 0,
            Property::OccupancyDetected => 0,
            Property::PluggedIn => 0,
            Property::Home => 0,
            Property::Problem => 0,
            Property::Running => 0,
            Property::Safe => 0,
            Property::SmokeDetected => 0,
            Property::Sound => 0,
            Property::Tamper => 0,
            Property::VibrationDetected => 0,
            Property::WindowOpen => 0,
            Property::ButtonEvent => 0,
            Property::DimmerEvent => 0,
        }
    }

    /// The denominator for fixed-point values: the value stored is to be divided by it.
    pub fn denominator(self) -> (d: u32)
        ensures
            d == crate::text::pow10(self.spec_scale() as nat),
    {
        reveal_with_fuel(crate::text::pow10, 4);
        match self.scale() {
            0 => 1,
            1 => 10,
            2 => 100,
            _ => 1000,
        }
    }

    /// Whether the property is a binary sensor.
    pub open spec fn spec_is_boolean(self) -> bool {
        match self {
            Property::GenericBoolean => true,
            Property::PowerOn => true,
            Property::Open => true,
            Property::BatteryLow => true,
            Property::BatteryCharging => true,
            Property::CarbonMonoxideDetected => true,
            Property::Cold => true,
            Property::Connected => true,
            Property::DoorOpen => true,
            Property::GarageDoorOpen => true,
            Property::GasDetected => true,
            Property::HeatAbnormal => true,
            Property::LightDetected => true,
            Property::Unlocked => true,
            Property::Wet => true,
            Property::MotionDetected => true,
            Property::Moving => true,
            Property::OccupancyDetected => true,
            Property::PluggedIn => true,
            Property::Home => true,
            Property::Problem => true,
            Property::Running => true,
            Property::Safe => true,
            Property::SmokeDetected => true,
            Property::Sound => true,
            Property::Tamper => true,
            Property::VibrationDetected => true,
            Property::WindowOpen => true,
            _ => false,
        }
    }

    /// Whether the property is a binary sensor.
    pub fn is_boolean(self) -> (b: bool)
        ensures
            b == self.spec_is_boolean(),
    {
        match self {
            Property::GenericBoolean => true,
            Property::PowerOn => true,
            Property::Open => true,
            Property::BatteryLow => true,
            Property::BatteryCharging => true,
            Property::CarbonMonoxideDetected => true,
            Property::Cold => true,
            Property::Connected => true,
            Property::DoorOpen => true,
            Property::GarageDoorOpen => true,
            Property::GasDetected => true,
            Property::HeatAbnormal => true,
            Property::LightDetected => true,
            Property::Unlocked => true,
            Property::Wet => true,
            Property::MotionDetected => true,
            Property::Moving => true,
            Property::OccupancyDetected => true,
            Property::PluggedIn => true,
            Property::Home => true,
            Property::Problem => true,
            Property::Running => true,
            Property::Safe => true,
            Property::SmokeDetected => true,
            Property::Sound => true,
            Property::Tamper => true,
            Property::VibrationDetected => true,
            Property::WindowOpen => true,
            _ => false,
        }
    }
}

/// The raw value of a sensor reading, before the scale of its property is applied.
#[derive(Copy, Clone, Debug, Eq, PartialEq, Structural)]
pub enum Value {
    UnsignedInt(u32),
    SignedInt(i32),
}

impl Value {
    /// The value as an integer.
    pub open spec fn spec_int(self) -> int {
        match self {
            Value::UnsignedInt(v) => v as int,
            Value::SignedInt(v) => v as int,
        }
    }

    /// The value as an `i64`.
    pub fn as_i64(&self) -> (v: i64)
        ensures
            v as int == self.spec_int(),
    {
        match self {
            Value::UnsignedInt(v) => *v as i64,
            Value::SignedInt(v) => *v as i64,
        }
    }

    /// Decodes the little-endian value bytes of a sensor element in the given format.
    pub fn from_bytes(bytes: &[u8], format: DataType) -> (r: Result<Value, DecodeError>)
        ensures
            result_view(r) == value_from_bytes_spec(bytes@, format),
    {
        let n = bytes.len();
        match format {
            DataType::UnsignedInt => {
                if n == 4 {
                    Ok(Value::UnsignedInt(le_u32(bytes[0], bytes[1], bytes[2], bytes[3])))
                } else if n == 3 {
                    Ok(Value::UnsignedInt(le_u24(bytes[0], bytes[1], bytes[2])))
                } else if n == 2 {
                    Ok(Value::UnsignedInt(le_u16(bytes[0], bytes[1]) as u32))
                } else if n == 1 {
                    Ok(Value::UnsignedInt(bytes[0] as u32))
                } else {
                    Err(DecodeError::UnsupportedFormat(format))
                }
            },
            DataType::SignedInt => {
                if n == 4 {
                    Ok(Value::SignedInt(le_i32(bytes[0], bytes[1], bytes[2], bytes[3])))
                } else if n == 3 {
                    Ok(Value::SignedInt(le_u24(bytes[0], bytes[1], bytes[2]) as i32))
                } else if n == 2 {
                    Ok(Value::SignedInt(le_i16(bytes[0], bytes[1]) as i32))
                } else if n == 1 {
                    Ok(Value::SignedInt(i8_of(bytes[0]) as i32))
                } else {
                    Err(DecodeError::UnsupportedFormat(format))
                }
            },
            _ => Err(DecodeError::UnsupportedFormat(format)),
        }
    }
}

/// The unsigned value of two little-endian bytes.
pub open spec fn le_u16_spec(b0: u8, b1: u8) -> int {
    b0 + 256 * b1
}

/// The unsigned value of three little-endian bytes.
pub open spec fn le_u24_spec(b0: u8, b1: u8, b2: u8) -> int {
    b0 + 256 * b1 + 65536 * b2
}

/// The unsigned value of four little-endian bytes.
pub open spec fn le_u32_spec(b0: u8, b1: u8, b2: u8, b3: u8) -> int {
    b0 + 256 * b1 + 65536 * b2 + 16777216 * b3
}

/// The two's-complement reading of an unsigned value of `bits` bits.
pub open spec fn signed_spec(u: int, bits: nat) -> int {
    if u >= crate::text::pow2(bits) / 2 {
        u - crate::text::pow2(bits)
    } else {
        u
    }
}

pub fn le_u16(b0: u8, b1: u8) -> (v: u16)
    ensures
        v as int == le_u16_spec(b0, b1),
{
    b0 as u16 + 256 * (b1 as u16)
}

pub fn le_u24(b0: u8, b1: u8, b2: u8) -> (v: u32)
    ensures
        v as int == le_u24_spec(b0, b1, b2),
{
    b0 as u32 + 256 * (b1 as u32) + 65536 * (b2 as u32)
}

pub fn le_u32(b0: u8, b1: u8, b2: u8, b3: u8) -> (v: u32)
    ensures
        v as int == le_u32_spec(b0, b1, b2, b3),
{
    b0 as u32 + 256 * (b1 as u32) + 65536 * (b2 as u32) + 16777216 * (b3 as u32)
}

pub fn i8_of(b: u8) -> (v: i8)
    ensures
        v as int == signed_spec(b as int, 8),
{
    reveal_with_fuel(crate::text::pow2, 9);
    if b >= 128 {
        (b as i16 - 256) as i8
    } else {
        b as i8
    }
}

pub fn le_i16(b0: u8, b1: u8) -> (v: i16)
    ensures
        v as int == signed_spec(le_u16_spec(b0, b1), 16),
{
    proof { crate::text::lemma_pow2_16(); }
    let u = le_u16(b0, b1);
    if u >= 32768 {
        (u as i32 - 65536) as i16
    } else {
        u as i16
    }
}

pub fn le_i32(b0: u8, b1: u8, b2: u8, b3: u8) -> (v: i32)
    ensures
        v as int == signed_spec(le_u32_spec(b0, b1, b2, b3), 32),
{
    proof { crate::text::lemma_pow2_32(); }
    let u = le_u32(b0, b1, b2, b3);
    if u >= 2147483648 {
        (u as i64 - 4294967296) as i32
    } else {
        u as i32
    }
}

/// What decoding the value bytes of a sensor element in the given format gives: unsigned and
/// signed little-endian integers of one to four bytes. Three-byte signed values are read
/// without sign extension.
pub open spec fn value_from_bytes_spec(b: Seq<u8>, format: DataType) -> Result<Value, DecodeErrorView> {
    match format {
        DataType::UnsignedInt => {
            if b.len() == 4 {
                Ok(Value::UnsignedInt(le_u32_spec(b[0], b[1], b[2], b[3]) as u32))
            } else if b.len() == 3 {
                Ok(Value::UnsignedInt(le_u24_spec(b[0], b[1], b[2]) as u32))
            } else if b.len() == 2 {
                Ok(Value::UnsignedInt(le_u16_spec(b[0], b[1]) as u32))
            } else if b.len() == 1 {
                Ok(Value::UnsignedInt(b[0] as u32))
            } else {
                Err(DecodeErrorView::UnsupportedFormat(format))
            }
        },
        DataType::SignedInt => {
            if b.len() == 4 {
                Ok(Value::SignedInt(signed_spec(le_u32_spec(b[0], b[1], b[2], b[3]), 32) as i32))
            } else if b.len() == 3 {
                Ok(Value::SignedInt(le_u24_spec(b[0], b[1], b[2]) as i32))
            } else if b.len() == 2 {
                Ok(Value::SignedInt(signed_spec(le_u16_spec(b[0], b[1]), 16) as i32))
            } else if b.len() == 1 {
                Ok(Value::SignedInt(signed_spec(b[0] as int, 8) as i32))
            } else {
                Err(DecodeErrorView::UnsupportedFormat(format))
            }
        },
        _ => Err(DecodeErrorView::UnsupportedFormat(format)),
    }
}

/// A sensor reading from a device.
#[derive(Copy, Clone, Debug, Eq, PartialEq, Structural)]
pub struct Sensor {
    /// The property for which the reading is taken. This implies the unit and scale.
    pub property: Property,
    /// The raw value of the reading as sent by the device, before the scale of the property is
    /// applied.
    pub value: Value,
}

impl Sensor {
    /// The integer value of the reading, if its property has no scaling factor.
    pub open spec fn spec_value_int(self) -> Option<i64> {
        if self.property.spec_scale() == 0 {
            Some(self.value.spec_int() as i64)
        } else {
            None
        }
    }

    /// The integer value of the reading, if its property has no scaling factor. `None` when
    /// the property has one, so that the value may not be a whole number.
    pub fn value_int(&self) -> (r: Option<i64>)
        ensures
            r == self.spec_value_int(),
    {
        if self.property.scale() == 0 {
            Some(self.value.as_i64())
        } else {
            None
        }
    }

    /// The boolean value of the reading, if it is for a boolean property and has a valid value.
    pub open spec fn spec_value_bool(self) -> Option<bool> {
        if self.property.spec_is_boolean() {
            match self.value {
                Value::UnsignedInt(0) => Some(false),
                Value::UnsignedInt(1) => Some(true),
                _ => None,
            }
        } else {
            None
        }
    }

    /// The boolean value of the reading, if it is for a boolean property and has a valid value.
    pub fn value_bool(&self) -> (r: Option<bool>)
        ensures
            r == self.spec_value_bool(),
    {
        if self.property.is_boolean() {
            match self.value {
                Value::UnsignedInt(0) => Some(false),
                Value::UnsignedInt(1) => Some(true),
                _ => None,
            }
        } else {
            None
        }
    }

    /// Decodes the value of a sensor element for the given property.
    pub fn decode(format: DataType, property: Property, value: &[u8]) -> (r: Result<Sensor, DecodeError>)
        ensures
            result_view(r) == (match value_from_bytes_spec(value@, format) {
                Ok(v) => Ok(Sensor { property, value: v }),
                Err(e) => Err(e),
            }),
    {
        match Value::from_bytes(value, format) {
            Ok(v) => Ok(Sensor { property, value: v }),
            Err(e) => Err(e),
        }
    }

    /// The reading as text: "name: value" for a boolean, else "name: value" followed by the
    /// unit, with the value scaled as the property says.
    pub open spec fn spec_to_string(self) -> Seq<char> {
        match self.spec_value_bool() {
            Some(b) => self.property.spec_name() + ": "@ + (if b { "true"@ } else { "false"@ }),
            None => match self.spec_value_int() {
                Some(i) => self.property.spec_name() + ": "@ + int_str(i as int) + self.property.spec_unit(),
                None => self.property.spec_name() + ": "@ + scaled_str(self.value.spec_int(), self.property.spec_scale() as nat) + self.property.spec_unit(),
            },
        }
    }

    /// Appends the reading as text.
    pub fn push_str(&self, s: &mut String)
        ensures
            final(s)@ == old(s)@ + self.spec_to_string(),
    {
        let ghost s0 = s@;
        s.append(self.property.name());
        s.append(": ");
        match self.value_bool() {
            Some(b) => {
                s.append(if b { "true" } else { "false" });
            },
            None => {
                match self.value_int() {
                    Some(i) => {
                        push_i64(s, i);
                    },
                    None => {
                        push_scaled(s, self.value.as_i64(), self.property.scale());
                    },
                }
                s.append(self.property.unit());
            },
        }
        assert(s@ =~= s0 + self.spec_to_string());
    }

    /// The reading as text, e.g. "humidity: 50.55%".
    pub fn to_string(&self) -> (s: String)
        ensures
            s@ == self.spec_to_string(),
    {
        let mut s = String::new();
        self.push_str(&mut s);
        s
    }
}

/// A single element of a BTHome v1 advertisement: either a sensor reading or an event.
#[derive(Copy, Clone, Debug, Eq, PartialEq, Structural)]
pub enum Element {
    Sensor(Sensor),
    Event(Event),
}

/// The name, unit and denominator of the property with the given object ID, if there is one:
/// a stored value is to be divided by the denominator.
pub open spec fn property_table(code: u8) -> Option<(Seq<char>, Seq<char>, nat)> {
    match property_of(code) {
        Some(p) => Some((p.spec_name(), p.spec_unit(), crate::text::pow10(p.spec_scale() as nat))),
        None => None,
    }
}

/// The BTHome v1 sensor object IDs, with the name, unit and denominator of each (so pressure
/// comes in hundredths of a hectopascal, voltage in thousandths of a volt).
#[verifier::rlimit(40)]
pub proof fn lemma_sensor_properties()
    ensures
        property_table(0x00) == Some(("packet ID"@, ""@, 1nat)),
        property_table(0x01) == Some(("battery"@, "%"@, 1nat)),
        property_table(0x02) == Some(("temperature"@, "°C"@, 100nat)),
        property_table(0x03) == Some(("humidity"@, "%"@, 100nat)),
        property_table(0x2e) == Some(("humidity"@, "%"@, 1nat)),
        property_table(0x04) == Some(("pressure"@, "hPa"@, 100nat)),
        property_table(0x05) == Some(("illuminance"@, "lux"@, 100nat)),
        property_table(0x06) == Some(("mass"@, "kg"@, 100nat)),
        property_table(0x07) == Some(("mass"@, "lb"@, 100nat)),
        property_table(0x08) == Some(("dew point"@, "°C"@, 100nat)),
        property_table(0x09) == Some(("count"@, ""@, 1nat)),
        property_table(0x0a) == Some(("energy"@, "kWh"@, 1000nat)),
        property_table(0x0b) == Some(("power"@, "W"@, 100nat)),
        property_table(0x0c) == Some(("voltage"@, "V"@, 1000nat)),
        property_table(0x0d) == Some(("pm2.5"@, "ug/m3"@, 1nat)),
        property_table(0x0e) == Some(("pm10"@, "ug/m3"@, 1nat)),
        property_table(0x12) == Some(("CO2"@, "ppm"@, 1nat)),
        property_table(0x13) == Some(("tvoc"@, "ug/m3"@, 1nat)),
        property_table(0x14) == Some(("moisture"@, "%"@, 100nat)),
        property_table(0x2f) == Some(("moisture"@, "%"@, 1nat)),
        property_table(0x50) == Some(("timestamp"@, ""@, 1nat)),
        property_table(0x51) == Some(("acceleration"@, "m/s²"@, 1000nat)),
        property_table(0x52) == Some(("gyroscope"@, "°/s"@, 1000nat)),
{
    reveal_with_fuel(crate::text::pow10, 4);
}

/// The BTHome v1 binary sensor and event object IDs, with the name of each: they have no unit
/// and are not scaled.
#[verifier::rlimit(40)]
pub proof fn lemma_binary_and_event_properties()
    ensures
        property_table(0x0f) == Some(("generic boolean"@, ""@, 1nat)),
        property_table(0x10) == Some(("power on"@, ""@, 1nat)),
        property_table(0x11) == Some(("open"@, ""@, 1nat)),
        property_table(0x15) == Some(("battery low"@, ""@, 1nat)),
        property_table(0x16) == Some(("battery charging"@, ""@, 1nat)),
        property_table(0x17) == Some(("carbon monoxide detected"@, ""@, 1nat)),
        property_table(0x18) == Some(("cold"@, ""@, 1nat)),
        property_table(0x19) == Some(("connected"@, ""@, 1nat)),
        property_table(0x1a) == Some(("door open"@, ""@, 1nat)),
        property_table(0x1b) == Some(("garage door open"@, ""@, 1nat)),
        property_table(0x1c) == Some(("gas detected"@, ""@, 1nat)),
        property_table(0x1d) == Some(("abnormal heat"@, ""@, 1nat)),
        property_table(0x1e) == Some(("light detected"@, ""@, 1nat)),
        property_table(0x1f) == Some(("unlocked"@, ""@, 1nat)),
        property_table(0x20) == Some(("wet"@, ""@, 1nat)),
        property_table(0x21) == Some(("motion detected"@, ""@, 1nat)),
        property_table(0x22) == Some(("moving"@, ""@, 1nat)),
        property_table(0x23) == Some(("occupancy detected"@, ""@, 1nat)),
        property_table(0x24) == Some(("plugged in"@, ""@, 1nat)),
        property_table(0x25) == Some(("home"@, ""@, 1nat)),
        property_table(0x26) == Some(("problem"@, ""@, 1nat)),
        property_table(0x27) == Some(("running"@, ""@, 1nat)),
        property_table(0x28) == Some(("safe"@, ""@, 1nat)),
        property_table(0x29) == Some(("smoke detected"@, ""@, 1nat)),
        property_table(0x2a) == Some(("sound detected"@, ""@, 1nat)),
        property_table(0x2b) == Some(("tampered"@, ""@, 1nat)),
        property_table(0x2c) == Some(("vibration detected"@, ""@, 1nat)),
        property_table(0x2d) == Some(("window open"@, ""@, 1nat)),
        property_table(0x3a) == Some(("button event"@, ""@, 1nat)),
        property_table(0x3c) == Some(("dimmer event"@, ""@, 1nat)),
{
    reveal_with_fuel(crate::text::pow10, 4);
}

/// What decoding one element (its object ID followed by its value bytes) gives. An element
/// without an object ID ends prematurely.
pub open spec fn element_decode_spec(format: DataType, d: Seq<u8>) -> Result<Element, DecodeErrorView> {
    if d.len() == 0 {
        Err(DecodeErrorView::PrematureEnd)
    } else {
        match property_of(d[0]) {
            None => Err(DecodeErrorView::InvalidProperty(d[0])),
            Some(Property::ButtonEvent) => match button_from_bytes_spec(d.skip(1)) {
                Ok(t) => Ok(Element::Event(Event::Button(t))),
                Err(e) => Err(e),
            },
            Some(Property::DimmerEvent) => match dimmer_from_bytes_spec(d.skip(1)) {
                Ok(t) => Ok(Element::Event(Event::Dimmer(t))),
                Err(e) => Err(e),
            },
            Some(p) => match value_from_bytes_spec(d.skip(1), format) {
                Ok(v) => Ok(Element::Sensor(Sensor { property: p, value: v })),
                Err(e) => Err(e),
            },
        }
    }
}

/// What decoding a whole BTHome v1 advertisement gives. Each element starts with a byte whose
/// low five bits are its length (object ID and value) and whose top three bits are its data
/// type. Decoding goes on while more than two bytes are left; what is left then must be
/// nothing.
pub open spec fn decode_all_spec(d: Seq<u8>) -> Result<Seq<Element>, DecodeErrorView>
    decreases d.len(),
{
    if d.len() > 2 {
        let length = d[0] % 32;
        let end = length + 1;
        if d.len() <= length {
            Err(DecodeErrorView::PrematureEnd)
        } else {
            match data_type_of(d[0] / 32) {
                None => Err(DecodeErrorView::InvalidDataType(d[0] / 32)),
                Some(format) => match element_decode_spec(format, d.subrange(1, end)) {
                    Err(e) => Err(e),
                    Ok(el) => match decode_all_spec(d.skip(end)) {
                        Err(e) => Err(e),
                        Ok(rest) => Ok(seq![el] + rest),
                    },
                },
            }
        }
    } else if d.len() == 0 {
        Ok(Seq::<Element>::empty())
    } else {
        Err(DecodeErrorView::ExtraData(d))
    }
}

impl Element {
    /// A sensor reading element for the given property, with an unsigned integer value.
    pub fn new_unsigned(property: Property, value: u32) -> (e: Element)
        ensures
            e == Element::Sensor(Sensor { property, value: Value::UnsignedInt(value) }),
    {
        Element::Sensor(Sensor { property, value: Value::UnsignedInt(value) })
    }

    /// A sensor reading element for the given property, with a signed integer value.
    pub fn new_signed(property: Property, value: i32) -> (e: Element)
        ensures
            e == Element::Sensor(Sensor { property, value: Value::SignedInt(value) }),
    {
        Element::Sensor(Sensor { property, value: Value::SignedInt(value) })
    }

    /// An element for the given event.
    pub fn new_event(event: Event) -> (e: Element)
        ensures
            e == Element::Event(event),
    {
        Element::Event(event)
    }

    /// Decodes one element: its object ID followed by its value bytes; with no object ID, the
    /// element ends prematurely.
    pub fn decode(format: DataType, data: &[u8]) -> (r: Result<Element, DecodeError>)
        ensures
            result_view(r) == element_decode_spec(format, data@),
    {
        if data.len() == 0 {
            return Err(DecodeError::PrematureEnd);
        }
        let property = match Property::from_u8(data[0]) {
            Ok(p) => p,
            Err(e) => return Err(e),
        };
        let value = &data[1..data.len()];
        assert(value@ =~= data@.skip(1));
        match property {
            Property::ButtonEvent => match ButtonEventType::from_bytes(value) {
                Ok(t) => Ok(Element::Event(Event::Button(t))),
                Err(e) => Err(e),
            },
            Property::DimmerEvent => match DimmerEventType::from_bytes(value) {
                Ok(t) => Ok(Element::Event(Event::Dimmer(t))),
                Err(e) => Err(e),
            },
            _ => match Sensor::decode(format, property, value) {
                Ok(s) => Ok(Element::Sensor(s)),
                Err(e) => Err(e),
            },
        }
    }

    /// Decodes the given service data as a BTHome v1 advertisement.
    pub fn decode_all(data: &[u8]) -> (r: Result<Vec<Element>, DecodeError>)
        ensures
            match (r, decode_all_spec(data@)) {
                (Ok(v), Ok(s)) => v@ == s,
                (Err(e), Err(f)) => e@ == f,
                _ => false,
            },
    {
        let mut elements: Vec<Element> = Vec::new();
        let mut rest: &[u8] = data;
        while rest.len() > 2
            invariant
                match decode_all_spec(data@) {
                    Ok(s) => match decode_all_spec(rest@) {
                        Ok(t) => s == elements@ + t,
                        Err(_) => false,
                    },
                    Err(f) => decode_all_spec(rest@) == Err::<Seq<Element>, DecodeErrorView>(f),
                },
            decreases rest@.len(),
        {
            let length_format = rest[0];
            let length = length_format % 32;
            let element_end: usize = length as usize + 1;
            if rest.len() <= length as usize {
                return Err(DecodeError::PrematureEnd);
            }
            let format = match DataType::from_u8(length_format / 32) {
                Ok(f) => f,
                Err(e) => return Err(e),
            };
            let body = &rest[1..element_end];
            let el = match Element::decode(format, body) {
                Ok(el) => el,
                Err(e) => return Err(e),
            };
            let ghost old_elements = elements@;
            elements.push(el);
            let next = &rest[element_end..rest.len()];
            assert(next@ =~= rest@.skip(element_end as int));
            proof {
                match decode_all_spec(data@) {
                    Ok(s) => {
                        assert(elements@ + decode_all_spec(next@)->Ok_0 =~= old_elements + (seq![el] + decode_all_spec(next@)->Ok_0));
                    },
                    Err(f) => {},
                }
            }
            rest = next;
        }
        if rest.len() == 0 {
            assert(elements@ =~= elements@ + Seq::<Element>::empty());
            Ok(elements)
        } else {
            Err(DecodeError::ExtraData(vstd::slice::slice_to_vec(rest)))
        }
    }

    /// The element as text.
    pub open spec fn spec_to_string(self) -> Seq<char> {
        match self {
            Element::Sensor(s) => s.spec_to_string(),
            Element::Event(e) => e.spec_to_string(),
        }
    }

    /// Appends the element as text.
    pub fn push_str(&self, s: &mut String)
        ensures
            final(s)@ == old(s)@ + self.spec_to_string(),
    {
        match self {
            Element::Sensor(x) => x.push_str(s),
            Element::Event(x) => x.push_str(s),
        }
    }

    /// The element as text, e.g. "temperature: 25°C" or "button: long double press".
    pub fn to_string(&self) -> (s: String)
        ensures
            s@ == self.spec_to_string(),
    {
        let mut s = String::new();
        self.push_str(&mut s);
        s
    }
}

} // verus!
