use mijia_homie::btsensor::atc::{self, SensorReading};
use mijia_homie::btsensor::bthome::events::{ButtonEventType, DimmerEventType, Event};
use mijia_homie::btsensor::bthome::v1::{self, Element, Property, Sensor, Value};
use mijia_homie::btsensor::bthome::v2::{self, BtHomeV2};
use mijia_homie::btsensor::bthome::DecodeError;
use mijia_homie::btsensor::{uuid_from_u16, Reading};
use std::collections::HashMap;

/// The temperature in °C, as a float.
fn temperature(r: &SensorReading) -> f32 {
    let t = match r {
        SensorReading::Atc { temperature, .. } => *temperature,
        SensorReading::Pvvx { temperature, .. } => *temperature,
    };
    f32::from(t) / 100.0
}

/// The humidity in %, as a float.
fn humidity(r: &SensorReading) -> f32 {
    match r {
        SensorReading::Atc { humidity, .. } => (*humidity).into(),
        SensorReading::Pvvx { humidity, .. } => f32::from(*humidity) / 100.0,
    }
}

#[test]
fn format_atc1441() {
    assert_eq!(
        SensorReading::Atc {
            mac: [0xaa, 0xbb, 0xcc, 0xdd, 0xee, 0xff],
            temperature: 2103,
            humidity: 42,
            battery_percent: 89,
            battery_mv: 1526,
            packet_counter: 0,
        }
        .to_string(),
        "aa:bb:cc:dd:ee:ff (0): 21.03°C, 42% humidity, 89%/1526mV battery"
    );
}

#[test]
fn format_pvvx() {
    assert_eq!(
        SensorReading::Pvvx {
            mac: [0xaa, 0xbb, 0xcc, 0xdd, 0xee, 0xff],
            temperature: 2103,
            humidity: 4213,
            battery_percent: 89,
            battery_mv: 1526,
            counter: 0,
            flags: 0x04,
        }
        .to_string(),
        "aa:bb:cc:dd:ee:ff (0): 21.03°C, 42.13% humidity, 89%/1526mV battery, flags 0x04"
    );
}

#[test]
fn decode_atc1441() {
    let decoded = SensorReading::decode(&[
        0xff, 0xee, 0xdd, 0xcc, 0xbb, 0xaa, 0x37, 0x08, 42, 89, 0xf6, 0x05, 0x00,
    ])
    .unwrap();
    assert_eq!(
        decoded,
        SensorReading::Atc {
            mac: [0xaa, 0xbb, 0xcc, 0xdd, 0xee, 0xff],
            temperature: 2103,
            humidity: 42,
            battery_percent: 89,
            battery_mv: 1526,
            packet_counter: 0,
        }
    );
    assert_eq!(temperature(&decoded), 21.03);
    assert_eq!(humidity(&decoded), 42.00);
    assert_eq!(decoded.battery_mv(), 1526);
    assert_eq!(decoded.battery_percent(), 89);
}

#[test]
fn encode_atc1441() {
    assert_eq!(
        SensorReading::Atc {
            mac: [0xaa, 0xbb, 0xcc, 0xdd, 0xee, 0xff],
            temperature: 2103,
            humidity: 42,
            battery_percent: 89,
            battery_mv: 1526,
            packet_counter: 0,
        }
        .encode(),
        &[0xff, 0xee, 0xdd, 0xcc, 0xbb, 0xaa, 0x37, 0x08, 42, 89, 0xf6, 0x05, 0x00]
    );
}

#[test]
fn decode_pvvx() {
    let decoded = SensorReading::decode(&[
        0x93, 0x41, 0x8c, 0x38, 0xc1, 0xa4, 0xac, 0x08, 0x9e, 0x14, 0xa0, 0x0b, 100, 136, 0x04,
    ])
    .unwrap();
    assert_eq!(
        decoded,
        SensorReading::Pvvx {
            mac: [0xa4, 0xc1, 0x38, 0x8c, 0x41, 0x93],
            temperature: 2220,
            humidity: 5278,
            battery_mv: 2976,
            battery_percent: 100,
            counter: 136,
            flags: 0x04,
        }
    );
    assert_eq!(temperature(&decoded), 22.20);
    assert_eq!(humidity(&decoded), 52.78);
    assert_eq!(decoded.battery_mv(), 2976);
    assert_eq!(decoded.battery_percent(), 100);
}

#[test]
fn encode_pvvx() {
    assert_eq!(
        SensorReading::Pvvx {
            mac: [0xa4, 0xc1, 0x38, 0x8c, 0x41, 0x93],
            temperature: 2220,
            humidity: 5278,
            battery_mv: 2976,
            battery_percent: 100,
            counter: 136,
            flags: 0x04,
        }
        .encode(),
        &[0x93, 0x41, 0x8c, 0x38, 0xc1, 0xa4, 0xac, 0x08, 0x9e, 0x14, 0xa0, 0x0b, 100, 136, 0x04]
    );
}

#[test]
fn decode_empty() {
    assert_eq!(SensorReading::decode(&[]), None);
}

#[test]
fn atc_roundtrip_negative_temperature() {
    let reading = SensorReading::Pvvx {
        mac: [1, 2, 3, 4, 5, 6],
        temperature: -1234,
        humidity: 65535,
        battery_mv: 3000,
        battery_percent: 99,
        counter: 7,
        flags: 0xff,
    };
    let encoded = reading.encode();
    assert_eq!(encoded.len(), 15);
    assert_eq!(SensorReading::decode(&encoded), Some(reading));
    assert_eq!(
        reading.to_string(),
        "01:02:03:04:05:06 (7): -12.34°C, 655.35% humidity, 99%/3000mV battery, flags 0xff"
    );
    assert_eq!(SensorReading::decode(&[0u8; 14]), None);
    assert_eq!(reading.mac(), &[1, 2, 3, 4, 5, 6]);
}

#[test]
fn atc_format_small_negative_temperature() {
    let reading = SensorReading::Atc {
        mac: [0, 0, 0, 0, 0, 0x0a],
        temperature: -5,
        humidity: 0,
        battery_percent: 0,
        battery_mv: 0,
        packet_counter: 255,
    };
    assert_eq!(
        reading.to_string(),
        "00:00:00:00:00:0a (255): -0.05°C, 0% humidity, 0%/0mV battery"
    );
}

#[test]
fn v1_decode_valid() {
    assert_eq!(
        Element::decode_all(&[0x23, 0x02, 0xC4, 0x09, 0x03, 0x03, 0xBF, 0x13]).unwrap(),
        vec![
            Element::Sensor(Sensor {
                property: Property::Temperature,
                value: Value::SignedInt(2500),
            }),
            Element::Sensor(Sensor {
                property: Property::Humidity,
                value: Value::UnsignedInt(5055),
            }),
        ]
    );
    assert_eq!(
        Element::decode_all(&[2, 0, 140, 35, 2, 203, 8, 3, 3, 171, 20, 2, 1, 100]).unwrap(),
        vec![
            Element::Sensor(Sensor {
                property: Property::PacketId,
                value: Value::UnsignedInt(140),
            }),
            Element::Sensor(Sensor {
                property: Property::Temperature,
                value: Value::SignedInt(2251),
            }),
            Element::Sensor(Sensor {
                property: Property::Humidity,
                value: Value::UnsignedInt(5291),
            }),
            Element::Sensor(Sensor {
                property: Property::Battery,
                value: Value::UnsignedInt(100),
            }),
        ]
    );
    assert_eq!(
        Element::decode_all(&[2, 0, 137, 2, 16, 0, 3, 12, 182, 11]).unwrap(),
        vec![
            Element::Sensor(Sensor {
                property: Property::PacketId,
                value: Value::UnsignedInt(137),
            }),
            Element::Sensor(Sensor {
                property: Property::PowerOn,
                value: Value::UnsignedInt(0),
            }),
            Element::Sensor(Sensor {
                property: Property::Voltage,
                value: Value::UnsignedInt(2998),
            }),
        ]
    );
}

#[test]
fn v1_decode_button_events() {
    assert_eq!(
        Element::decode_all(&[0x02, 0x3a, 0x00, 0x02, 0x3a, 0x05]).unwrap(),
        vec![
            Element::Event(Event::Button(None)),
            Element::Event(Event::Button(Some(ButtonEventType::LongDoublePress))),
        ]
    );
}

#[test]
fn v1_decode_dimmer_events() {
    assert_eq!(
        Element::decode_all(&[0x02, 0x3c, 0x00, 0x03, 0x3c, 0x01, 0x03]).unwrap(),
        vec![
            Element::Event(Event::Dimmer(None)),
            Element::Event(Event::Dimmer(Some(DimmerEventType::RotateLeft(3)))),
        ]
    );
}

#[test]
fn v1_decode_errors() {
    assert_eq!(Element::decode_all(&[0x02, 0x3a]), Err(DecodeError::ExtraData(vec![0x02, 0x3a])));
    assert_eq!(Element::decode_all(&[0x05, 0x02, 0x00]), Err(DecodeError::PrematureEnd));
    assert_eq!(Element::decode_all(&[0xa3, 0x02, 0x00, 0x00]), Err(DecodeError::InvalidDataType(5)));
    assert_eq!(Element::decode_all(&[0x03, 0x77, 0x00, 0x00]), Err(DecodeError::InvalidProperty(0x77)));
    assert_eq!(
        Element::decode_all(&[0x43, 0x02, 0x00, 0x00]),
        Err(DecodeError::UnsupportedFormat(v1::DataType::Float))
    );
    assert_eq!(Element::decode_all(&[0x02, 0x3a, 0x09]), Err(DecodeError::InvalidEventType(9)));
    assert_eq!(
        Element::decode_all(&[0x23, 0x02, 0xC4, 0xF9]).unwrap(),
        vec![Element::new_signed(Property::Temperature, -1596)]
    );
    assert_eq!(
        Element::decode_all(&[0x24, 0x02, 0x01, 0x02, 0xff]).unwrap(),
        vec![Element::new_signed(Property::Temperature, 0xff0201)]
    );
}

#[test]
fn format_sensor_element() {
    assert_eq!(
        Element::Sensor(Sensor {
            property: Property::Humidity,
            value: Value::UnsignedInt(5055),
        })
        .to_string(),
        "humidity: 50.55%"
    );
    assert_eq!(
        Element::Sensor(Sensor {
            property: Property::Temperature,
            value: Value::SignedInt(2500),
        })
        .to_string(),
        "temperature: 25°C"
    );
    assert_eq!(
        Element::Sensor(Sensor {
            property: Property::HumidityShort,
            value: Value::UnsignedInt(42),
        })
        .to_string(),
        "humidity: 42%"
    );
}

#[test]
fn format_scaled_values() {
    assert_eq!(Element::new_unsigned(Property::Voltage, 2998).to_string(), "voltage: 2.998V");
    assert_eq!(Element::new_unsigned(Property::Voltage, 3000).to_string(), "voltage: 3V");
    assert_eq!(Element::new_unsigned(Property::Voltage, 3050).to_string(), "voltage: 3.05V");
    assert_eq!(Element::new_signed(Property::Temperature, -50).to_string(), "temperature: -0.5°C");
    assert_eq!(Element::new_signed(Property::Temperature, -5).to_string(), "temperature: -0.05°C");
    assert_eq!(Element::new_unsigned(Property::BatteryLow, 7).to_string(), "battery low: 7");
}

#[test]
fn format_boolean_element() {
    assert_eq!(
        Element::Sensor(Sensor {
            property: Property::BatteryLow,
            value: Value::UnsignedInt(0),
        })
        .to_string(),
        "battery low: false"
    );
    assert_eq!(
        Element::Sensor(Sensor {
            property: Property::LightDetected,
            value: Value::UnsignedInt(1),
        })
        .to_string(),
        "light detected: true"
    );
}

#[test]
fn format_event_element() {
    assert_eq!(Element::Event(Event::Button(None)).to_string(), "button: none");
    assert_eq!(
        Element::Event(Event::Button(Some(ButtonEventType::LongDoublePress))).to_string(),
        "button: long double press"
    );
    assert_eq!(
        Element::Event(Event::Dimmer(Some(DimmerEventType::RotateRight(42)))).to_string(),
        "dimmer: rotate right 42 steps"
    );
}

#[test]
fn v1_property_codes() {
    assert_eq!(Property::from_u8(0x2e), Ok(Property::HumidityShort));
    assert_eq!(Property::from_u8(0x30), Err(DecodeError::InvalidProperty(0x30)));
    assert_eq!(Property::DimmerEvent.code(), 0x3c);
    assert_eq!(Property::Temperature.denominator(), 100);
    assert_eq!(Property::Gyroscope.denominator(), 1000);
    assert_eq!(Property::Count.denominator(), 1);
    assert_eq!(Property::Co2.name(), "CO2");
    assert_eq!(Property::Acceleration.unit(), "m/s²");
    assert_eq!(Event::Dimmer(None).property(), Property::DimmerEvent);
    assert_eq!(Event::Button(None).property(), Property::ButtonEvent);
    let s = Sensor { property: Property::Temperature, value: Value::SignedInt(2500) };
    assert_eq!(s.value_int(), None);
    assert_eq!(s.value_bool(), None);
    let b = Sensor { property: Property::Wet, value: Value::UnsignedInt(1) };
    assert_eq!(b.value_int(), Some(1));
    assert_eq!(b.value_bool(), Some(true));
}

#[test]
fn v2_decode_valid() {
    assert_eq!(
        BtHomeV2::decode(&[0x40, 0x02, 0xc4, 0x09]).unwrap(),
        BtHomeV2 {
            encrypted: false,
            trigger_based: false,
            elements: vec![v2::Element::TemperatureSmall(2500)],
        }
    );
}

#[test]
fn decode_u24() {
    assert_eq!(
        BtHomeV2::decode(&[0x40, 0x42, 0x4e, 0x34, 0x00, 0x0a, 0x13, 0x8a, 0x14]).unwrap(),
        BtHomeV2 {
            encrypted: false,
            trigger_based: false,
            elements: vec![v2::Element::Duration(13390), v2::Element::Energy(1346067)],
        }
    );
}

#[test]
fn decode_bool() {
    assert_eq!(
        BtHomeV2::decode(&[0x40, 0x15, 0x01, 0x16, 0x00]).unwrap(),
        BtHomeV2 {
            encrypted: false,
            trigger_based: false,
            elements: vec![v2::Element::BatteryLow(true), v2::Element::BatteryCharging(false)],
        }
    );
}

#[test]
fn v2_decode_button_events() {
    assert_eq!(
        BtHomeV2::decode(&[0x44, 0x3a, 0x00, 0x3a, 0x05]).unwrap(),
        BtHomeV2 {
            encrypted: false,
            trigger_based: true,
            elements: vec![
                v2::Element::ButtonEvent(None),
                v2::Element::ButtonEvent(Some(ButtonEventType::LongDoublePress)),
            ],
        }
    );
}

#[test]
fn v2_decode_dimmer_events() {
    assert_eq!(
        BtHomeV2::decode(&[0x44, 0x3c, 0x00, 0x3c, 0x01, 0x03]).unwrap(),
        BtHomeV2 {
            encrypted: false,
            trigger_based: true,
            elements: vec![
                v2::Element::DimmerEvent(None),
                v2::Element::DimmerEvent(Some(DimmerEventType::RotateLeft(3))),
            ],
        }
    );
}

#[test]
fn v2_decode_errors() {
    assert_eq!(BtHomeV2::decode(&[0x20, 0x02, 0xc4, 0x09]), Err(DecodeError::UnsupportedVersion(1)));
    assert_eq!(BtHomeV2::decode(&[0x41, 0x02, 0xc4]), Err(DecodeError::PrematureEnd));
    assert_eq!(BtHomeV2::decode(&[0x40, 0x15, 0x02]), Err(DecodeError::InvalidBooleanValue(2)));
    assert_eq!(BtHomeV2::decode(&[0x40, 0xee, 0x02]), Err(DecodeError::InvalidProperty(0xee)));
    assert_eq!(BtHomeV2::decode(&[0x40, 0x3c, 0x03, 0x05]), Err(DecodeError::ExtraData(vec![3, 5])));
    let b = BtHomeV2::decode(&[0x41, 0x01, 0x64, 0x07]).unwrap();
    assert!(b.encrypted);
    assert_eq!(b.elements, vec![v2::Element::Battery(100)]);
    assert_eq!(b.elements[0].value_int(), Some(100));
    assert_eq!(v2::Element::Humidity(5055).value_scaled(), Some((5055, 2)));
    assert_eq!(v2::Element::Wet(true).value_bool(), Some(true));
    assert_eq!(v2::Element::Wet(true).event(), None);
}

#[test]
fn format() {
    assert_eq!(
        BtHomeV2 {
            encrypted: false,
            trigger_based: false,
            elements: vec![
                v2::Element::Acceleration(22151),
                v2::Element::TemperatureSmall(2506),
                v2::Element::BatteryCharging(true),
                v2::Element::ButtonEvent(None),
                v2::Element::ButtonEvent(Some(ButtonEventType::LongDoublePress)),
                v2::Element::DimmerEvent(Some(DimmerEventType::RotateLeft(3))),
            ]
        }
        .to_string(),
        "(unencrypted) acceleration: 22.151m/s², temperature: 25.06°C, battery charging: true, button: none, button: long double press, dimmer: rotate left 3 steps"
    );
}

#[test]
fn decode_none() {
    let empty_service_data = HashMap::new();
    assert_eq!(Reading::decode(&empty_service_data), None);
}

#[test]
fn decode_atc_empty() {
    let service_data = [(atc::UUID, vec![])].into_iter().collect();
    assert_eq!(Reading::decode(&service_data), None);
}

#[test]
fn decode_atc_invalid() {
    let service_data = [(atc::UUID, vec![0xaa, 0xbb])].into_iter().collect();
    assert_eq!(Reading::decode(&service_data), None);
}

#[test]
fn decode_atc_valid() {
    let service_data = [(
        atc::UUID,
        vec![0xff, 0xee, 0xdd, 0xcc, 0xbb, 0xaa, 0x37, 0x08, 42, 89, 0xf6, 0x05, 0x00],
    )]
    .into_iter()
    .collect();
    assert_eq!(
        Reading::decode(&service_data),
        Some(Reading::Atc(SensorReading::Atc {
            mac: [0xaa, 0xbb, 0xcc, 0xdd, 0xee, 0xff],
            temperature: 2103,
            humidity: 42,
            battery_percent: 89,
            battery_mv: 1526,
            packet_counter: 0,
        }))
    );
}

#[test]
fn decode_bthome_v1_empty() {
    let service_data = [(v1::UNENCRYPTED_UUID, vec![])].into_iter().collect();
    assert_eq!(Reading::decode(&service_data), Some(Reading::BtHomeV1(vec![])));
}

#[test]
fn decode_bthome_v1_valid() {
    let service_data = [(
        v1::UNENCRYPTED_UUID,
        vec![0x23, 0x02, 0xC4, 0x09, 0x03, 0x03, 0xBF, 0x13],
    )]
    .into_iter()
    .collect();
    assert_eq!(
        Reading::decode(&service_data),
        Some(Reading::BtHomeV1(vec![
            Element::new_signed(Property::Temperature, 2500),
            Element::new_unsigned(Property::Humidity, 5055),
        ]))
    );
}

#[test]
fn decode_falls_through_to_v2() {
    let service_data: HashMap<u128, Vec<u8>> = [
        (atc::UUID, vec![1, 2, 3]),
        (v1::UNENCRYPTED_UUID, vec![0x05]),
        (v2::UUID, vec![0x40, 0x02, 0xc4, 0x09]),
    ]
    .into_iter()
    .collect();
    let reading = Reading::decode(&service_data).unwrap();
    assert_eq!(
        reading,
        Reading::BtHomeV2(BtHomeV2 {
            encrypted: false,
            trigger_based: false,
            elements: vec![v2::Element::TemperatureSmall(2500)],
        })
    );
    assert_eq!(reading.to_string(), "(unencrypted) temperature: 25°C");
}

#[test]
fn uuids_from_short() {
    assert_eq!(uuid_from_u16(0x181a), atc::UUID);
    assert_eq!(uuid_from_u16(0xfcd2), v2::UUID);
    assert_eq!(uuid_from_u16(0x181e), v1::ENCRYPTED_UUID);
}

#[test]
fn decode_empty_elements_fail() {
    // A BTHome v1 element of length zero has no object ID.
    assert_eq!(Element::decode_all(&[0x00, 0x01, 0x02]), Err(DecodeError::PrematureEnd));
    assert_eq!(Element::decode_all(&[0x23, 0x02, 0xc4]), Err(DecodeError::PrematureEnd));
    assert_eq!(Element::decode_all(&[0x02, 0x00, 0x8c, 0x07]), Err(DecodeError::ExtraData(vec![0x07])));
    // BTHome v2 data without the device information byte.
    assert_eq!(BtHomeV2::decode(&[]), Err(DecodeError::PrematureEnd));
    // A BTHome v2 element without its object ID or its value.
    assert_eq!(v2::Element::decode(&[]), Err(DecodeError::PrematureEnd));
    assert_eq!(v2::Element::decode(&[0x3c]), Err(DecodeError::PrematureEnd));
    assert_eq!(v2::Element::decode(&[0x01]), Err(DecodeError::PrematureEnd));
}

#[test]
fn decode_reading_from_empty_or_malformed_data() {
    let service_data: HashMap<u128, Vec<u8>> = [(v2::UUID, vec![])].into_iter().collect();
    assert_eq!(Reading::decode(&service_data), None);
    let service_data: HashMap<u128, Vec<u8>> = [(v1::UNENCRYPTED_UUID, vec![0x00, 0x01, 0x02])].into_iter().collect();
    assert_eq!(Reading::decode(&service_data), None);
}
