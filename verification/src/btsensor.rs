//! Decoding of sensor readings from BLE advertisements: the atc1441 and pvvx custom formats,
//! and BTHome v1 and v2.

pub mod atc;
pub mod bthome;

use self::atc::SensorReading;
use self::bthome::v1::{decode_all_spec, Element};
use self::bthome::v2::BtHomeV2;
use std::collections::HashMap;
use vstd::prelude::*;
use vstd::string::StringExecFns;

verus! {

/// The Bluetooth Base UUID, as a 128-bit integer.
pub const BLUETOOTH_BASE_UUID: u128 = 0x00000000_0000_1000_8000_00805f9b34fb;

/// The full 128-bit UUID of a 16-bit BLE short UUID: the short UUID placed in bits 96 to 111
/// of the Bluetooth Base UUID.
pub open spec fn uuid_from_u16_spec(short: u16) -> u128 {
    (BLUETOOTH_BASE_UUID + short * 0x1_0000_0000_0000_0000_0000_0000) as u128
}

/// Converts a 16-bit BLE short UUID to a full 128-bit UUID by filling in the Bluetooth Base UUID.
pub fn uuid_from_u16(short: u16) -> (u: u128)
    ensures
        u == uuid_from_u16_spec(short),
{
    BLUETOOTH_BASE_UUID + (short as u128) * 0x1_0000_0000_0000_0000_0000_0000u128
}

/// The service UUIDs of the three formats are their short UUIDs on the base UUID.
pub proof fn lemma_format_uuids()
    ensures
        atc::UUID == uuid_from_u16_spec(0x181a),
        bthome::v1::UNENCRYPTED_UUID == uuid_from_u16_spec(0x181c),
        bthome::v1::ENCRYPTED_UUID == uuid_from_u16_spec(0x181e),
        bthome::v2::UUID == uuid_from_u16_spec(0xfcd2),
{
}

/// A reading from some BLE sensor advertisement.
#[derive(Clone, Debug, Eq, PartialEq)]
pub enum Reading {
    Atc(SensorReading),
    BtHomeV1(Vec<Element>),
    BtHomeV2(BtHomeV2),
}

/// Whether the service data holds atc1441 or pvvx data that decodes.
pub open spec fn atc_decodes(m: Map<u128, Vec<u8>>) -> bool {
    m.contains_key(atc::UUID) && atc::decode_spec(m[atc::UUID]@) is Some
}

/// Whether the service data holds unencrypted BTHome v1 data that decodes.
pub open spec fn v1_decodes(m: Map<u128, Vec<u8>>) -> bool {
    m.contains_key(bthome::v1::UNENCRYPTED_UUID) && decode_all_spec(m[bthome::v1::UNENCRYPTED_UUID]@) is Ok
}

/// Whether the service data holds BTHome v2 data that decodes.
pub open spec fn v2_decodes(m: Map<u128, Vec<u8>>) -> bool {
    m.contains_key(bthome::v2::UUID) && bthome::v2::decode_spec(m[bthome::v2::UUID]@) is Ok
}

impl Reading {
    /// Decodes the relevant entries of the service data map (keyed by 128-bit UUID) as atc1441
    /// or pvvx data, then BTHome v1, then BTHome v2: the first that is present and decodes is
    /// returned. `None` if none is present or none decodes.
    pub fn decode(service_data: &HashMap<u128, Vec<u8>>) -> (r: Option<Reading>)
        ensures
            match r {
                Some(Reading::Atc(x)) => atc_decodes(service_data@)
                    && atc::decode_spec(service_data@[atc::UUID]@) == Some(x),
                Some(Reading::BtHomeV1(v)) => !atc_decodes(service_data@) && v1_decodes(service_data@)
                    && decode_all_spec(service_data@[bthome::v1::UNENCRYPTED_UUID]@) == Ok::<Seq<Element>, bthome::DecodeErrorView>(v@),
                Some(Reading::BtHomeV2(b)) => !atc_decodes(service_data@) && !v1_decodes(service_data@)
                    && v2_decodes(service_data@)
                    && bthome::v2::decode_spec(service_data@[bthome::v2::UUID]@)
                        == Ok::<(bool, bool, Seq<bthome::v2::Element>), bthome::DecodeErrorView>((b.encrypted, b.trigger_based, b.elements@)),
                None => !atc_decodes(service_data@) && !v1_decodes(service_data@) && !v2_decodes(service_data@),
            },
    {
        broadcast use vstd::std_specs::hash::group_hash_axioms;
        if let Some(data) = service_data.get(&atc::UUID) {
            if let Some(reading) = SensorReading::decode(data.as_slice()) {
                return Some(Reading::Atc(reading));
            }
        }
        if let Some(data) = service_data.get(&bthome::v1::UNENCRYPTED_UUID) {
            match Element::decode_all(data.as_slice()) {
                Ok(elements) => return Some(Reading::BtHomeV1(elements)),
                Err(_) => {},
            }
        }
        if let Some(data) = service_data.get(&bthome::v2::UUID) {
            match BtHomeV2::decode(data.as_slice()) {
                Ok(b) => return Some(Reading::BtHomeV2(b)),
                Err(_) => {},
            }
        }
        None
    }

    /// The reading as text: the atc reading, the BTHome v1 elements separated by ", ", or the
    /// BTHome v2 advertisement.
    pub fn to_string(&self) -> (s: String)
        ensures
            s@ == (match self {
                Reading::Atc(x) => x.spec_to_string(),
                Reading::BtHomeV1(v) => v1_elements_str(v@),
                Reading::BtHomeV2(b) => b.spec_to_string(),
            }),
    {
        match self {
            Reading::Atc(x) => x.to_string(),
            Reading::BtHomeV1(v) => {
                let mut s = String::new();
                let mut i: usize = 0;
                while i < v.len()
                    invariant
                        i <= v@.len(),
                        s@ == v1_elements_str(v@.subrange(0, i as int)),
                    decreases v@.len() - i,
                {
                    if i != 0 {
                        s.append(", ");
                    }
                    v[i].push_str(&mut s);
                    assert(v@.subrange(0, i + 1).drop_last() =~= v@.subrange(0, i as int));
                    i = i + 1;
                }
                assert(v@.subrange(0, v@.len() as int) =~= v@);
                s
            },
            Reading::BtHomeV2(b) => b.to_string(),
        }
    }
}

/// BTHome v1 elements as text, separated by ", ".
pub open spec fn v1_elements_str(els: Seq<Element>) -> Seq<char>
    decreases els.len(),
{
    if els.len() == 0 {
        Seq::<char>::empty()
    } else if els.len() == 1 {
        els[0].spec_to_string()
    } else {
        v1_elements_str(els.drop_last()) + ", "@ + els.last().spec_to_string()
    }
}

} // verus!
