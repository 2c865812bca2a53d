//! The atc1441 and pvvx custom advertisement formats of custom thermometer firmware.

use crate::btsensor::bthome::v1::{le_i16, le_u16, le_u16_spec, signed_spec};
use crate::text::{dec_digits, fixed_str, hex2, push_fixed, push_hex2, push_u64};
use vstd::prelude::*;
use vstd::string::StringExecFns;

verus! {

/// GATT service 0x181a, environmental sensing (on the Bluetooth base UUID), as a 128-bit
/// integer.
pub const UUID: u128 = 0x0000181a_0000_1000_8000_00805f9b34fb;

/// A sensor reading in the atc1441 or pvvx custom format. Temperatures are in hundredths of a
/// degree Celsius; the pvvx humidity is in hundredths of a percent.
#[derive(Copy, Clone, Debug, Eq, PartialEq)]
pub enum SensorReading {
    /// The atc1441 format.
    Atc {
        mac: [u8; 6],
        temperature: i16,
        humidity: u8,
        battery_percent: u8,
        battery_mv: u16,
        packet_counter: u8,
    },
    /// The pvvx custom format.
    Pvvx {
        mac: [u8; 6],
        temperature: i16,
        humidity: u16,
        battery_mv: u16,
        battery_percent: u8,
        counter: u8,
        flags: u8,
    },
}

/// The low byte of an `i16` in two's complement.
pub open spec fn lo_byte(t: int) -> u8 {
    ((if t < 0 { t + 65536 } else { t }) % 256) as u8
}

/// The high byte of an `i16` in two's complement.
pub open spec fn hi_byte(t: int) -> u8 {
    ((if t < 0 { t + 65536 } else { t }) / 256) as u8
}

/// The MAC address in the advertisement's byte order, which is reversed.
pub open spec fn mac_of(d: Seq<u8>) -> [u8; 6] {
    [d[5], d[4], d[3], d[2], d[1], d[0]]
}

/// What decoding service data as a sensor reading gives: 13 bytes are the atc1441 format,
/// 15 bytes the pvvx format, and anything else neither. Multi-byte values are little-endian.
pub open spec fn decode_spec(d: Seq<u8>) -> Option<SensorReading> {
    if d.len() == 13 {
        Some(SensorReading::Atc {
            mac: mac_of(d),
            temperature: signed_spec(le_u16_spec(d[6], d[7]), 16) as i16,
            humidity: d[8],
            battery_percent: d[9],
            battery_mv: le_u16_spec(d[10], d[11]) as u16,
            packet_counter: d[12],
        })
    } else if d.len() == 15 {
        Some(SensorReading::Pvvx {
            mac: mac_of(d),
            temperature: signed_spec(le_u16_spec(d[6], d[7]), 16) as i16,
            humidity: le_u16_spec(d[8], d[9]) as u16,
            battery_mv: le_u16_spec(d[10], d[11]) as u16,
            battery_percent: d[12],
            counter: d[13],
            flags: d[14],
        })
    } else {
        None
    }
}

/// The service data that encodes a sensor reading.
pub open spec fn encode_spec(r: SensorReading) -> Seq<u8> {
    match r {
        SensorReading::Atc { mac, temperature, humidity, battery_percent, battery_mv, packet_counter } =>
            seq![mac[5], mac[4], mac[3], mac[2], mac[1], mac[0],
                lo_byte(temperature as int), hi_byte(temperature as int), humidity, battery_percent,
                (battery_mv % 256) as u8, (battery_mv / 256) as u8, packet_counter],
        SensorReading::Pvvx { mac, temperature, humidity, battery_mv, battery_percent, counter, flags } =>
            seq![mac[5], mac[4], mac[3], mac[2], mac[1], mac[0],
                lo_byte(temperature as int), hi_byte(temperature as int),
                (humidity % 256) as u8, (humidity / 256) as u8,
                (battery_mv % 256) as u8, (battery_mv / 256) as u8, battery_percent, counter, flags],
    }
}

/// The MAC address as six lowercase hexadecimal pairs separated by ':'.
pub open spec fn mac_str(m: [u8; 6]) -> Seq<char> {
    hex2(m[0]) + ":"@ + hex2(m[1]) + ":"@ + hex2(m[2]) + ":"@ + hex2(m[3]) + ":"@ + hex2(m[4]) + ":"@ + hex2(m[5])
}

fn push_mac(s: &mut String, m: &[u8; 6])
    ensures
        final(s)@ == old(s)@ + mac_str(*m),
{
    let ghost s0 = s@;
    push_hex2(s, m[0]);
    s.append(":");
    push_hex2(s, m[1]);
    s.append(":");
    push_hex2(s, m[2]);
    s.append(":");
    push_hex2(s, m[3]);
    s.append(":");
    push_hex2(s, m[4]);
    s.append(":");
    push_hex2(s, m[5]);
    assert(s@ =~= s0 + mac_str(*m));
}

proof fn lemma_i16_bytes(t: i16)
    ensures
        signed_spec(le_u16_spec(lo_byte(t as int), hi_byte(t as int)), 16) == t as int,
{
    crate::text::lemma_pow2_16();
}

proof fn lemma_u16_bytes(v: u16)
    ensures
        le_u16_spec((v % 256) as u8, (v / 256) as u8) == v as int,
{
}

impl SensorReading {
    /// Decodes service data (for the UUID [`UUID`]) as a sensor reading; `None` when it is
    /// neither format.
    pub fn decode(data: &[u8]) -> (r: Option<SensorReading>)
        ensures
            r == decode_spec(data@),
    {
        let n = data.len();
        if n == 13 {
            Some(SensorReading::Atc {
                mac: [data[5], data[4], data[3], data[2], data[1], data[0]],
                temperature: le_i16(data[6], data[7]),
                humidity: data[8],
                battery_percent: data[9],
                battery_mv: le_u16(data[10], data[11]),
                packet_counter: data[12],
            })
        } else if n == 15 {
            Some(SensorReading::Pvvx {
                mac: [data[5], data[4], data[3], data[2], data[1], data[0]],
                temperature: le_i16(data[6], data[7]),
                humidity: le_u16(data[8], data[9]),
                battery_mv: le_u16(data[10], data[11]),
                battery_percent: data[12],
                counter: data[13],
                flags: data[14],
            })
        } else {
            None
        }
    }

    /// Encodes the reading as service data for the UUID [`UUID`].
    pub fn encode(&self) -> (v: Vec<u8>)
        ensures
            v@ == encode_spec(*self),
    {
        let mut data: Vec<u8> = Vec::new();
        match self {
            SensorReading::Atc { mac, temperature, humidity, battery_percent, battery_mv, packet_counter } => {
                push_mac_reversed(&mut data, mac);
                push_i16_le(&mut data, *temperature);
                data.push(*humidity);
                data.push(*battery_percent);
                push_u16_le(&mut data, *battery_mv);
                data.push(*packet_counter);
            },
            SensorReading::Pvvx { mac, temperature, humidity, battery_mv, battery_percent, counter, flags } => {
                push_mac_reversed(&mut data, mac);
                push_i16_le(&mut data, *temperature);
                push_u16_le(&mut data, *humidity);
                push_u16_le(&mut data, *battery_mv);
                data.push(*battery_percent);
                data.push(*counter);
                data.push(*flags);
            },
        }
        assert(data@ =~= encode_spec(*self));
        data
    }

    /// The MAC address of the sensor.
    pub fn mac(&self) -> (m: &[u8; 6])
        ensures
            *m == (match *self {
                SensorReading::Atc { mac, .. } => mac,
                SensorReading::Pvvx { mac, .. } => mac,
            }),
    {
        match self {
            SensorReading::Atc { mac, .. } => mac,
            SensorReading::Pvvx { mac, .. } => mac,
        }
    }

    /// The battery level, as a percentage.
    pub fn battery_percent(&self) -> (b: u8)
        ensures
            b == (match *self {
                SensorReading::Atc { battery_percent, .. } => battery_percent,
                SensorReading::Pvvx { battery_percent, .. } => battery_percent,
            }),
    {
        match self {
            SensorReading::Atc { battery_percent, .. } => *battery_percent,
            SensorReading::Pvvx { battery_percent, .. } => *battery_percent,
        }
    }

    /// The battery voltage, in mV.
    pub fn battery_mv(&self) -> (b: u16)
        ensures
            b == (match *self {
                SensorReading::Atc { battery_mv, .. } => battery_mv,
                SensorReading::Pvvx { battery_mv, .. } => battery_mv,
            }),
    {
        match self {
            SensorReading::Atc { battery_mv, .. } => *battery_mv,
            SensorReading::Pvvx { battery_mv, .. } => *battery_mv,
        }
    }

    /// The reading as text: the MAC address, the packet counter in brackets, the temperature
    /// with two decimals in °C, the humidity (with two decimals for pvvx), the battery level
    /// and voltage, and for pvvx the flags in hexadecimal.
    pub open spec fn spec_to_string(self) -> Seq<char> {
        match self {
            SensorReading::Atc { mac, temperature, humidity, battery_percent, battery_mv, packet_counter } =>
                prefix_str(mac, packet_counter, temperature) + dec_digits(humidity as nat) + "% humidity, "@
                    + battery_str(battery_percent, battery_mv),
            SensorReading::Pvvx { mac, temperature, humidity, battery_mv, battery_percent, counter, flags } =>
                prefix_str(mac, counter, temperature) + fixed_str(humidity as int, 2) + "% humidity, "@
                    + battery_str(battery_percent, battery_mv) + ", flags 0x"@ + hex2(flags),
        }
    }

    /// Appends the reading as text.
    pub fn push_str(&self, s: &mut String)
        ensures
            final(s)@ == old(s)@ + self.spec_to_string(),
    {
        let ghost s0 = s@;
        match self {
            SensorReading::Atc { mac, temperature, humidity, battery_percent, battery_mv, packet_counter } => {
                push_prefix(s, mac, *packet_counter, *temperature);
                let ghost s1 = s@;
                push_u64(s, *humidity as u64);
                s.append("% humidity, ");
                let ghost s2 = s@;
                push_battery(s, *battery_percent, *battery_mv);
                assert(s@ =~= s0 + self.spec_to_string());
            },
            SensorReading::Pvvx { mac, temperature, humidity, battery_mv, battery_percent, counter, flags } => {
                push_prefix(s, mac, *counter, *temperature);
                push_fixed(s, *humidity as i64, 2);
                s.append("% humidity, ");
                push_battery(s, *battery_percent, *battery_mv);
                s.append(", flags 0x");
                push_hex2(s, *flags);
                assert(s@ =~= s0 + self.spec_to_string());
            },
        }
    }

    /// The reading as text, e.g. "aa:bb:cc:dd:ee:ff (0): 21.03°C, 42% humidity, 89%/1526mV battery".
    pub fn to_string(&self) -> (s: String)
        ensures
            s@ == self.spec_to_string(),
    {
        let mut s = String::new();
        self.push_str(&mut s);
        s
    }
}

/// The MAC address, the counter in brackets and the temperature in °C with two decimals.
pub open spec fn prefix_str(mac: [u8; 6], counter: u8, temperature: i16) -> Seq<char> {
    mac_str(mac) + " ("@ + dec_digits(counter as nat) + "): "@ + fixed_str(temperature as int, 2) + "°C, "@
}

/// The battery level and voltage.
pub open spec fn battery_str(percent: u8, mv: u16) -> Seq<char> {
    dec_digits(percent as nat) + "%/"@ + dec_digits(mv as nat) + "mV battery"@
}

fn push_prefix(s: &mut String, mac: &[u8; 6], counter: u8, temperature: i16)
    ensures
        final(s)@ == old(s)@ + prefix_str(*mac, counter, temperature),
{
    let ghost s0 = s@;
    push_mac(s, mac);
    s.append(" (");
    push_u64(s, counter as u64);
    s.append("): ");
    push_fixed(s, temperature as i64, 2);
    s.append("°C, ");
    assert(s@ =~= s0 + prefix_str(*mac, counter, temperature));
}

fn push_battery(s: &mut String, percent: u8, mv: u16)
    ensures
        final(s)@ == old(s)@ + battery_str(percent, mv),
{
    let ghost s0 = s@;
    push_u64(s, percent as u64);
    s.append("%/");
    push_u64(s, mv as u64);
    s.append("mV battery");
    assert(s@ =~= s0 + battery_str(percent, mv));
}

fn push_mac_reversed(data: &mut Vec<u8>, mac: &[u8; 6])
    ensures
        final(data)@ == old(data)@ + seq![mac[5], mac[4], mac[3], mac[2], mac[1], mac[0]],
{
    data.push(mac[5]);
    data.push(mac[4]);
    data.push(mac[3]);
    data.push(mac[2]);
    data.push(mac[1]);
    data.push(mac[0]);
    assert(data@ =~= old(data)@ + seq![mac[5], mac[4], mac[3], mac[2], mac[1], mac[0]]);
}

fn push_u16_le(data: &mut Vec<u8>, v: u16)
    ensures
        final(data)@ == old(data)@ + seq![(v % 256) as u8, (v / 256) as u8],
{
    data.push((v % 256) as u8);
    data.push((v / 256) as u8);
    assert(data@ =~= old(data)@ + seq![(v % 256) as u8, (v / 256) as u8]);
}

fn push_i16_le(data: &mut Vec<u8>, t: i16)
    ensures
        final(data)@ == old(data)@ + seq![lo_byte(t as int), hi_byte(t as int)],
{
    let u: u16 = if t < 0 { (t as i32 + 65536) as u16 } else { t as u16 };
    data.push((u % 256) as u8);
    data.push((u / 256) as u8);
    assert(data@ =~= old(data)@ + seq![lo_byte(t as int), hi_byte(t as int)]);
}

/// Decoding the encoding of a reading gives the reading back.
pub proof fn lemma_decode_encode(r: SensorReading)
    ensures
        decode_spec(encode_spec(r)) == Some(r),
{
    match r {
        SensorReading::Atc { mac, temperature, battery_mv, .. } => {
            lemma_i16_bytes(temperature);
            lemma_u16_bytes(battery_mv);
            let d = encode_spec(r);
            assert(mac_of(d) =~= mac);
        },
        SensorReading::Pvvx { mac, temperature, humidity, battery_mv, .. } => {
            lemma_i16_bytes(temperature);
            lemma_u16_bytes(humidity);
            lemma_u16_bytes(battery_mv);
            let d = encode_spec(r);
            assert(mac_of(d) =~= mac);
        },
    }
}

/// Service data that decodes to a reading is exactly the encoding of that reading.
pub proof fn lemma_encode_decode(d: Seq<u8>)
    ensures
        decode_spec(d) matches Some(r) ==> encode_spec(r) == d,
{
    crate::text::lemma_pow2_16();
    if let Some(r) = decode_spec(d) {
        assert(encode_spec(r) =~= d);
    }
}

} // verus!
