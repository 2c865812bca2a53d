use mijia_homie::bluez::characteristic::CharacteristicFlags;
use mijia_homie::bluez::ids::{AdapterId, CharacteristicId, DescriptorId, DeviceId, ServiceId};
use mijia_homie::bluez::macaddress::{AddressType, MacAddress, ParseMacAddressError};
use mijia_homie::bluez::BluetoothError;

#[test]
fn parse_flags() {
    let flags = CharacteristicFlags::try_from_strings(vec!["read".to_string(), "encrypt-write".to_string()]).unwrap();
    assert_eq!(
        flags,
        CharacteristicFlags::from_bits(CharacteristicFlags::READ | CharacteristicFlags::ENCRYPT_WRITE)
    )
}

#[test]
fn parse_flags_fail() {
    let flags: Result<CharacteristicFlags, BluetoothError> =
        CharacteristicFlags::try_from_strings(vec!["read".to_string(), "invalid flag".to_string()]);
    assert!(matches!(flags, Err(BluetoothError::FlagParseError(string)) if string == "invalid flag"));
}

#[test]
fn flags_set_operations() {
    let mut flags = CharacteristicFlags::empty();
    flags.insert(CharacteristicFlags::from_bits(CharacteristicFlags::NOTIFY));
    let both = flags | CharacteristicFlags::from_bits(CharacteristicFlags::AUTHORIZE);
    assert_eq!(both.bits(), 0x4010);
    assert!(both.contains(flags));
    assert!(!flags.contains(both));
}

#[test]
fn address_type_parse() {
    for &address_type in &[AddressType::Public, AddressType::Random] {
        assert_eq!(address_type.to_string().parse::<AddressType>().unwrap(), address_type);
    }
    assert_eq!(
        "Public".parse::<AddressType>(),
        Err(BluetoothError::AddressTypeParseError("Public".to_string()))
    );
}

#[test]
fn mac_address_parse() {
    let mac: MacAddress = "aa:BB:0c:dd:ee:ff".parse().unwrap();
    assert_eq!(mac.to_string(), "AA:BB:0C:DD:EE:FF");
    assert_eq!(
        "aa:bb:cc:dd:ee".parse::<MacAddress>(),
        Err(ParseMacAddressError("aa:bb:cc:dd:ee".to_string()))
    );
    assert!("aa:bb:cc:dd:ee:fg".parse::<MacAddress>().is_err());
    assert!("aa:bb:cc:dd:ee:f".parse::<MacAddress>().is_err());
    assert!("aa:bb:cc:dd:ee:fff".parse::<MacAddress>().is_err());
}

#[test]
fn device_adapter() {
    let adapter_id = AdapterId::new("/org/bluez/hci0");
    let device_id = DeviceId::new("/org/bluez/hci0/dev_11_22_33_44_55_66");
    assert_eq!(device_id.adapter(), adapter_id);
}

#[test]
fn service_device() {
    let device_id = DeviceId::new("/org/bluez/hci0/dev_11_22_33_44_55_66");
    let service_id = ServiceId::new("/org/bluez/hci0/dev_11_22_33_44_55_66/service0022");
    assert_eq!(service_id.device(), device_id);
}

#[test]
fn characteristic_service() {
    let service_id = ServiceId::new("/org/bluez/hci0/dev_11_22_33_44_55_66/service0022");
    let characteristic_id =
        CharacteristicId::new("/org/bluez/hci0/dev_11_22_33_44_55_66/service0022/char0033");
    assert_eq!(characteristic_id.service(), service_id);
}

#[test]
fn descriptor_characteristic() {
    let characteristic_id =
        CharacteristicId::new("/org/bluez/hci0/dev_11_22_33_44_55_66/service0022/char0033");
    let descriptor_id =
        DescriptorId::new("/org/bluez/hci0/dev_11_22_33_44_55_66/service0022/char0033/desc0034");
    assert_eq!(descriptor_id.characteristic(), characteristic_id);
}

#[test]
fn id_display() {
    assert_eq!(AdapterId::new("/org/bluez/hci0").to_string(), "hci0");
    assert_eq!(
        DeviceId::new("/org/bluez/hci0/dev_11_22_33_44_55_66").to_string(),
        "hci0/dev_11_22_33_44_55_66"
    );
}
