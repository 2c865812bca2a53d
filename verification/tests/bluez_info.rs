use mijia_homie::bluez::characteristic::CharacteristicFlags;
use mijia_homie::bluez::ids::{AdapterId, CharacteristicId, DescriptorId, DeviceId, ServiceId};
use mijia_homie::bluez::info::{
    convert_service_data, convert_services, get_manufacturer_data, get_service_data, get_services, keyed_service_data,
    parsed_services, AdapterInfo, AdapterProperties, CharacteristicInfo, DescriptorInfo, DeviceInfo, DeviceProperties,
    ServiceInfo,
};
use mijia_homie::bluez::macaddress::{AddressType, MacAddress};
use mijia_homie::bluez::BluetoothError;
use std::collections::HashMap;
use uuid::Uuid;

const BLUETOOTH_BASE_UUID: u128 = 0x00000000_0000_1000_8000_00805f9b34fb;

/// The 128-bit UUID of a 32-bit BLE short UUID.
fn uuid_from_u32(short: u32) -> u128 {
    BLUETOOTH_BASE_UUID | ((short as u128) << 96)
}

fn no_device_properties() -> DeviceProperties {
    DeviceProperties {
        address: None,
        address_type: None,
        name: None,
        appearance: None,
        uuids: None,
        paired: None,
        connected: None,
        rssi: None,
        tx_power: None,
        manufacturer_data: None,
        service_data: None,
        services_resolved: None,
    }
}

fn minimal_device_properties() -> DeviceProperties {
    DeviceProperties {
        address: Some("00:11:22:33:44:55".to_string()),
        address_type: Some("public".to_string()),
        paired: Some(false),
        connected: Some(false),
        services_resolved: Some(false),
        ..no_device_properties()
    }
}

#[test]
fn adapter_info_minimal() {
    let id = AdapterId::new("/org/bluez/hci0");
    let adapter_properties = AdapterProperties {
        address: Some("00:11:22:33:44:55".to_string()),
        address_type: Some("public".to_string()),
        name: Some("name".to_string()),
        alias: Some("alias".to_string()),
        powered: Some(false),
        discovering: Some(false),
    };

    let adapter = AdapterInfo::from_properties(id.clone(), &adapter_properties).unwrap();
    assert_eq!(
        adapter,
        AdapterInfo {
            id,
            mac_address: MacAddress::from_text("00:11:22:33:44:55").unwrap(),
            address_type: AddressType::Public,
            name: "name".to_string(),
            alias: "alias".to_string(),
            powered: false,
            discovering: false
        }
    )
}

#[test]
fn service_data() {
    let uuid = uuid_from_u32(0x11223344);
    let device_properties = DeviceProperties {
        service_data: Some(vec![(Uuid::from_u128(uuid).to_string(), Some(vec![1u8, 2, 3]))]),
        ..no_device_properties()
    };

    let mut expected_service_data = HashMap::new();
    expected_service_data.insert(uuid, vec![1u8, 2, 3]);

    assert_eq!(get_service_data(&device_properties), Some(expected_service_data));
}

#[test]
fn manufacturer_data() {
    let manufacturer_id = 0x1122;
    let device_properties = DeviceProperties {
        manufacturer_data: Some(vec![(manufacturer_id, Some(vec![1u8, 2, 3]))]),
        ..no_device_properties()
    };

    let mut expected_manufacturer_data = HashMap::new();
    expected_manufacturer_data.insert(manufacturer_id, vec![1u8, 2, 3]);

    assert_eq!(get_manufacturer_data(&device_properties), Some(expected_manufacturer_data));
}

#[test]
fn device_info_minimal() {
    let id = DeviceId::new("/org/bluez/hci0/dev_11_22_33_44_55_66");
    let device = DeviceInfo::from_properties(id.clone(), &minimal_device_properties()).unwrap();
    assert_eq!(
        device,
        DeviceInfo {
            id,
            mac_address: MacAddress::from_text("00:11:22:33:44:55").unwrap(),
            address_type: AddressType::Public,
            name: None,
            appearance: None,
            services: vec![],
            paired: false,
            connected: false,
            rssi: None,
            tx_power: None,
            manufacturer_data: HashMap::new(),
            service_data: HashMap::new(),
            services_resolved: false,
        }
    )
}

#[test]
fn get_services_none() {
    assert_eq!(get_services(&no_device_properties()), vec![])
}

#[test]
fn get_services_some() {
    let uuid = uuid_from_u32(0x11223344);
    let device_properties = DeviceProperties {
        uuids: Some(vec![Uuid::from_u128(uuid).to_string()]),
        ..no_device_properties()
    };
    assert_eq!(get_services(&device_properties), vec![uuid])
}

#[test]
fn device_info_full() {
    let id = DeviceId::new("/org/bluez/hci0/dev_A4_C1_38_00_00_01");
    let battery = uuid_from_u32(0x180f);
    let props = DeviceProperties {
        address: Some("A4:C1:38:00:00:01".to_string()),
        address_type: Some("random".to_string()),
        name: Some("LYWSD03MMC".to_string()),
        appearance: Some(0x0300),
        uuids: Some(vec!["0000180f-0000-1000-8000-00805f9b34fb".to_string(), "not a uuid".to_string()]),
        paired: Some(true),
        connected: Some(true),
        rssi: Some(-70),
        tx_power: Some(4),
        manufacturer_data: Some(vec![(0x004c, Some(vec![9])), (0x0001, None)]),
        service_data: Some(vec![("0000181A-0000-1000-8000-00805F9B34FB".to_string(), Some(vec![7, 8]))]),
        services_resolved: Some(true),
    };
    let device = DeviceInfo::from_properties(id.clone(), &props).unwrap();
    assert_eq!(device.id, id);
    assert_eq!(device.mac_address.as_str(), "A4:C1:38:00:00:01");
    assert_eq!(device.address_type, AddressType::Random);
    assert_eq!(device.name.as_deref(), Some("LYWSD03MMC"));
    assert_eq!(device.appearance, Some(0x0300));
    assert_eq!(device.services, vec![battery]);
    assert!(device.paired && device.connected && device.services_resolved);
    assert_eq!((device.rssi, device.tx_power), (Some(-70), Some(4)));
    assert_eq!(device.manufacturer_data, HashMap::from([(0x004c, vec![9])]));
    assert_eq!(device.service_data, HashMap::from([(uuid_from_u32(0x181a), vec![7, 8])]));
}

#[test]
fn device_info_missing_properties() {
    let id = DeviceId::new("/org/bluez/hci0/dev_11_22_33_44_55_66");
    let missing = |props: DeviceProperties| match DeviceInfo::from_properties(id.clone(), &props) {
        Err(BluetoothError::RequiredPropertyMissing(name)) => name,
        other => panic!("unexpected {:?}", other),
    };
    assert_eq!(missing(no_device_properties()), "Address");
    assert_eq!(missing(DeviceProperties { address_type: None, ..minimal_device_properties() }), "AddressType");
    assert_eq!(missing(DeviceProperties { paired: None, connected: None, ..minimal_device_properties() }), "Paired");
    assert_eq!(missing(DeviceProperties { connected: None, ..minimal_device_properties() }), "Connected");
    assert_eq!(
        missing(DeviceProperties { services_resolved: None, ..minimal_device_properties() }),
        "ServicesResolved"
    );
    // A malformed address type is found before a later missing property.
    let props = DeviceProperties { address_type: Some("other".to_string()), paired: None, ..minimal_device_properties() };
    assert_eq!(
        DeviceInfo::from_properties(id.clone(), &props),
        Err(BluetoothError::AddressTypeParseError("other".to_string()))
    );
}

#[test]
fn adapter_info_missing_properties() {
    let id = AdapterId::new("/org/bluez/hci0");
    let full = AdapterProperties {
        address: Some("00:11:22:33:44:55".to_string()),
        address_type: Some("random".to_string()),
        name: Some("name".to_string()),
        alias: Some("alias".to_string()),
        powered: Some(true),
        discovering: Some(true),
    };
    let info = AdapterInfo::from_properties(id.clone(), &full).unwrap();
    assert_eq!(info.address_type, AddressType::Random);
    assert!(info.powered && info.discovering);
    let missing = |props: AdapterProperties| match AdapterInfo::from_properties(id.clone(), &props) {
        Err(BluetoothError::RequiredPropertyMissing(name)) => name,
        other => panic!("unexpected {:?}", other),
    };
    assert_eq!(missing(AdapterProperties { address: None, ..full.clone() }), "Address");
    assert_eq!(missing(AdapterProperties { address_type: None, ..full.clone() }), "AddressType");
    assert_eq!(missing(AdapterProperties { name: None, alias: None, ..full.clone() }), "Name");
    assert_eq!(missing(AdapterProperties { alias: None, ..full.clone() }), "Alias");
    assert_eq!(missing(AdapterProperties { powered: None, ..full.clone() }), "Powered");
    assert_eq!(missing(AdapterProperties { discovering: None, ..full.clone() }), "Discovering");
    assert_eq!(
        AdapterInfo::from_properties(id, &AdapterProperties { address_type: Some("Public".to_string()), ..full }),
        Err(BluetoothError::AddressTypeParseError("Public".to_string()))
    );
}

#[test]
fn service_uuid_forms() {
    let uuid = uuid_from_u32(0x181a);
    let forms = vec![
        "0000181a-0000-1000-8000-00805f9b34fb".to_string(),
        "0000181A-0000-1000-8000-00805F9B34FB".to_string(),
        "0000181a00001000800000805f9b34fb".to_string(),
        "urn:uuid:0000181a-0000-1000-8000-00805f9b34fb".to_string(),
        "{0000181a-0000-1000-8000-00805f9b34fb}".to_string(),
        "0000181a-0000-1000-8000-00805f9b34f".to_string(),
        "".to_string(),
    ];
    assert_eq!(convert_services(&forms), vec![uuid, uuid, uuid, uuid, uuid]);
}

#[test]
fn service_data_entries() {
    let a = uuid_from_u32(0x181a);
    let b = uuid_from_u32(0xfcd2);
    let data = vec![
        ("0000181a-0000-1000-8000-00805f9b34fb".to_string(), Some(vec![1])),
        ("bad".to_string(), Some(vec![2])),
        ("0000fcd2-0000-1000-8000-00805f9b34fb".to_string(), None),
        ("0000181A-0000-1000-8000-00805F9B34FB".to_string(), Some(vec![3])),
    ];
    // The later entry for a UUID takes the place of the earlier one; bad keys and values are
    // left out.
    assert_eq!(convert_service_data(&data), HashMap::from([(a, vec![3])]));
    assert_eq!(
        keyed_service_data(&vec![(Some(b), Some(vec![4])), (None, Some(vec![5])), (Some(a), None)]),
        HashMap::from([(b, vec![4])])
    );
    assert_eq!(parsed_services(&vec![Some(b), None, Some(a), Some(b)]), vec![b, a, b]);
}

#[test]
fn gatt_info_parents() {
    let service = ServiceInfo {
        id: ServiceId::new("/org/bluez/hci0/dev_11_22_33_44_55_66/service0022"),
        uuid: uuid_from_u32(0x180f),
        primary: true,
    };
    let characteristic = CharacteristicInfo {
        id: CharacteristicId::new("/org/bluez/hci0/dev_11_22_33_44_55_66/service0022/char0033"),
        uuid: uuid_from_u32(0x2a19),
        flags: CharacteristicFlags::from_bits(CharacteristicFlags::READ),
    };
    let descriptor = DescriptorInfo {
        id: DescriptorId::new("/org/bluez/hci0/dev_11_22_33_44_55_66/service0022/char0033/desc0044"),
        uuid: uuid_from_u32(0x2902),
    };
    assert_eq!(descriptor.id.characteristic(), characteristic.id);
    assert_eq!(characteristic.id.service(), service.id);
    assert_eq!(Uuid::from_u128(service.uuid).to_string(), "0000180f-0000-1000-8000-00805f9b34fb");
}
