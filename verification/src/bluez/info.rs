//! What BlueZ reports of adapters and devices: the properties as they arrive, each present or
//! not, and the information gathered from them, with the properties that must be present.

use super::characteristic::CharacteristicFlags;
use super::ids::{AdapterId, CharacteristicId, DescriptorId, DeviceId, ServiceId};
use super::macaddress::{AddressType, MacAddress};
use super::{BluetoothError, BluetoothErrorView};
use crate::text::opt_view;
use std::collections::HashMap;
use vstd::prelude::*;

verus! {

/// The 128-bit value of the UUID that `uuid::Uuid::parse_str` reads from a string, if it reads
/// one. It accepts the simple, hyphenated, URN and braced forms.
pub uninterp spec fn parsed_uuid(s: Seq<char>) -> Option<u128>;

/// Calls `uuid::Uuid::parse_str`, and takes the UUID it reads as its 128-bit value
/// (`Uuid::as_u128`, the bytes in big-endian order). Which strings it accepts, and the value of
/// each, are given by the name `parsed_uuid`: they depend on the string alone.
#[verifier::external_body]
fn parse_uuid(s: &str) -> (r: Option<u128>)
    ensures
        r == parsed_uuid(s@),
{
    match uuid::Uuid::parse_str(s) {
        Ok(u) => Some(u.as_u128()),
        Err(_) => None,
    }
}

/// The properties of a device as BlueZ reports them, each present or not. A data entry whose
/// value is not an array of bytes holds `None`.
#[derive(Clone, Debug, Eq, PartialEq)]
pub struct DeviceProperties {
    pub address: Option<String>,
    pub address_type: Option<String>,
    pub name: Option<String>,
    pub appearance: Option<u16>,
    pub uuids: Option<Vec<String>>,
    pub paired: Option<bool>,
    pub connected: Option<bool>,
    pub rssi: Option<i16>,
    pub tx_power: Option<i16>,
    pub manufacturer_data: Option<Vec<(u16, Option<Vec<u8>>)>>,
    pub service_data: Option<Vec<(String, Option<Vec<u8>>)>>,
    pub services_resolved: Option<bool>,
}

/// The properties of an adapter as BlueZ reports them, each present or not.
#[derive(Clone, Debug, Eq, PartialEq)]
pub struct AdapterProperties {
    pub address: Option<String>,
    pub address_type: Option<String>,
    pub name: Option<String>,
    pub alias: Option<String>,
    pub powered: Option<bool>,
    pub discovering: Option<bool>,
}

/// Information about a Bluetooth device which was discovered.
#[derive(Clone, Debug, Eq, PartialEq)]
pub struct DeviceInfo {
    /// The device, through the adapter it was discovered on.
    pub id: DeviceId,
    /// The MAC address of the device.
    pub mac_address: MacAddress,
    /// The type of MAC address the device uses.
    pub address_type: AddressType,
    /// The human-readable name of the device, if available.
    pub name: Option<String>,
    /// The appearance of the device, as defined by GAP.
    pub appearance: Option<u16>,
    /// The GATT service UUIDs, as 128-bit values, from the advertisement or service discovery.
    pub services: Vec<u128>,
    /// Whether the device is paired with the adapter.
    pub paired: bool,
    /// Whether the device is connected to the adapter.
    pub connected: bool,
    /// The Received Signal Strength Indicator of the advertisement or inquiry.
    pub rssi: Option<i16>,
    /// The transmission power level advertised by the device.
    pub tx_power: Option<i16>,
    /// Manufacturer-specific advertisement data, by manufacturer ID.
    pub manufacturer_data: HashMap<u16, Vec<u8>>,
    /// The GATT service data from the advertisement, by service UUID as a 128-bit value.
    pub service_data: HashMap<u128, Vec<u8>>,
    /// Whether service discovery has finished for the device.
    pub services_resolved: bool,
}

/// Information about a Bluetooth adapter on the system.
#[derive(Clone, Debug, Eq, PartialEq)]
pub struct AdapterInfo {
    /// The adapter.
    pub id: AdapterId,
    /// The MAC address of the adapter.
    pub mac_address: MacAddress,
    /// The type of MAC address the adapter uses.
    pub address_type: AddressType,
    /// The Bluetooth system hostname.
    pub name: String,
    /// The Bluetooth friendly name.
    pub alias: String,
    /// Whether the adapter is turned on.
    pub powered: bool,
    /// Whether the adapter is discovering devices.
    pub discovering: bool,
}

/// Information about a GATT service on a Bluetooth device.
#[derive(Clone, Debug, Eq, PartialEq)]
pub struct ServiceInfo {
    /// The service.
    pub id: ServiceId,
    /// The UUID of the service, as a 128-bit value.
    pub uuid: u128,
    /// Whether this is a primary service.
    pub primary: bool,
}

/// Information about a GATT characteristic on a Bluetooth device.
#[derive(Clone, Debug, Eq, PartialEq)]
pub struct CharacteristicInfo {
    /// The characteristic.
    pub id: CharacteristicId,
    /// The UUID of the characteristic, as a 128-bit value.
    pub uuid: u128,
    /// How the characteristic may be used.
    pub flags: CharacteristicFlags,
}

/// Information about a GATT descriptor on a Bluetooth device.
#[derive(Clone, Debug, Eq, PartialEq)]
pub struct DescriptorInfo {
    /// The descriptor.
    pub id: DescriptorId,
    /// The UUID of the descriptor, as a 128-bit value.
    pub uuid: u128,
}

/// Data entries with their byte arrays taken by their contents.
pub open spec fn entry_views<K>(es: Seq<(K, Option<Vec<u8>>)>) -> Seq<(K, Option<Seq<u8>>)> {
    es.map_values(|e: (K, Option<Vec<u8>>)| (e.0, match e.1 { Some(v) => Some(v@), None => None }))
}

/// A map of byte arrays taken by their contents.
pub open spec fn data_view<K>(m: Map<K, Vec<u8>>) -> Map<K, Seq<u8>> {
    m.map_values(|v: Vec<u8>| v@)
}

/// The data that entries give: each entry whose value is an array of bytes, a later entry
/// for the same key taking the place of an earlier one; entries of other values are left out.
pub open spec fn data_map<K>(es: Seq<(K, Option<Seq<u8>>)>) -> Map<K, Seq<u8>>
    decreases es.len(),
{
    if es.len() == 0 {
        Map::empty()
    } else {
        let m = data_map(es.drop_last());
        match es.last().1 {
            Some(v) => m.insert(es.last().0, v),
            None => m,
        }
    }
}

/// Entries whose key may be missing: those without a key are left out.
pub open spec fn keyed_entries(es: Seq<(Option<u128>, Option<Seq<u8>>)>) -> Seq<(u128, Option<Seq<u8>>)>
    decreases es.len(),
{
    if es.len() == 0 {
        Seq::empty()
    } else {
        let r = keyed_entries(es.drop_last());
        match es.last().0 {
            Some(k) => r.push((k, es.last().1)),
            None => r,
        }
    }
}

/// The keys of service data entries as `parse_str` reads them.
pub open spec fn parsed_keys(es: Seq<(Seq<char>, Option<Seq<u8>>)>) -> Seq<(Option<u128>, Option<Seq<u8>>)> {
    es.map_values(|e: (Seq<char>, Option<Seq<u8>>)| (parsed_uuid(e.0), e.1))
}

/// Service data entries with their keys taken by their characters.
pub open spec fn service_entry_views(es: Seq<(String, Option<Vec<u8>>)>) -> Seq<(Seq<char>, Option<Seq<u8>>)> {
    es.map_values(|e: (String, Option<Vec<u8>>)| (e.0@, match e.1 { Some(v) => Some(v@), None => None }))
}

/// The values that are present, in order.
pub open spec fn present(xs: Seq<Option<u128>>) -> Seq<u128>
    decreases xs.len(),
{
    if xs.len() == 0 {
        Seq::empty()
    } else {
        let r = present(xs.drop_last());
        match xs.last() {
            Some(x) => r.push(x),
            None => r,
        }
    }
}

/// The UUIDs that a list of service UUID strings gives: those that parse, in order.
pub open spec fn services_spec(uuids: Seq<Seq<char>>) -> Seq<u128> {
    present(uuids.map_values(|u: Seq<char>| parsed_uuid(u)))
}

/// Collects manufacturer data: the entries whose value is an array of bytes, by manufacturer ID.
pub fn convert_manufacturer_data(data: &Vec<(u16, Option<Vec<u8>>)>) -> (m: HashMap<u16, Vec<u8>>)
    ensures
        data_view(m@) == data_map(entry_views(data@)),
{
    broadcast use vstd::std_specs::hash::group_hash_axioms;
    let mut m: HashMap<u16, Vec<u8>> = HashMap::new();
    let mut i: usize = 0;
    while i < data.len()
        invariant
            i <= data@.len(),
            data_view(m@) == data_map(entry_views(data@).take(i as int)),
        decreases data@.len() - i,
    {
        let ghost before = m@;
        assert(entry_views(data@).take(i + 1).drop_last() =~= entry_views(data@).take(i as int));
        match &data[i].1 {
            Some(v) => {
                m.insert(data[i].0, v.clone());
                assert(data_view(m@) =~= data_view(before).insert(data@[i as int].0, v@));
            },
            None => {},
        }
        i = i + 1;
    }
    assert(entry_views(data@).take(i as int) =~= entry_views(data@));
    m
}

/// Collects service data whose UUIDs have been read: the entries with a UUID whose value is an
/// array of bytes, by UUID.
pub fn keyed_service_data(data: &Vec<(Option<u128>, Option<Vec<u8>>)>) -> (m: HashMap<u128, Vec<u8>>)
    ensures
        data_view(m@) == data_map(keyed_entries(entry_views(data@))),
{
    broadcast use vstd::std_specs::hash::group_hash_axioms;
    let mut m: HashMap<u128, Vec<u8>> = HashMap::new();
    let mut i: usize = 0;
    while i < data.len()
        invariant
            i <= data@.len(),
            data_view(m@) == data_map(keyed_entries(entry_views(data@).take(i as int))),
        decreases data@.len() - i,
    {
        let ghost before = m@;
        assert(entry_views(data@).take(i + 1).drop_last() =~= entry_views(data@).take(i as int));
        let ghost t = entry_views(data@);
        let ghost ke = keyed_entries(t.take(i as int));
        assert(t.take(i + 1).last() == t[i as int]);
        match (&data[i].0, &data[i].1) {
            (Some(k), Some(v)) => {
                m.insert(*k, v.clone());
                assert(keyed_entries(t.take(i + 1)) == ke.push((*k, Some(v@))));
                assert(ke.push((*k, Some(v@))).drop_last() =~= ke);
                assert(data_view(m@) =~= data_view(before).insert(*k, v@));
            },
            (Some(k), None) => {
                assert(keyed_entries(t.take(i + 1)) == ke.push((*k, None::<Seq<u8>>)));
                assert(ke.push((*k, None::<Seq<u8>>)).drop_last() =~= ke);
            },
            (None, _) => {},
        }
        i = i + 1;
    }
    assert(entry_views(data@).take(i as int) =~= entry_views(data@));
    m
}

/// Collects service data: the entries whose key is a UUID and whose value is an array of
/// bytes, by UUID.
pub fn convert_service_data(data: &Vec<(String, Option<Vec<u8>>)>) -> (m: HashMap<u128, Vec<u8>>)
    ensures
        data_view(m@) == data_map(keyed_entries(parsed_keys(service_entry_views(data@)))),
{
    let mut parsed: Vec<(Option<u128>, Option<Vec<u8>>)> = Vec::new();
    let mut i: usize = 0;
    while i < data.len()
        invariant
            i <= data@.len(),
            entry_views(parsed@) == parsed_keys(service_entry_views(data@)).take(i as int),
        decreases data@.len() - i,
    {
        let key = parse_uuid(data[i].0.as_str());
        let ghost before = parsed@;
        parsed.push((key, data[i].1.clone()));
        assert(entry_views(parsed@) =~= entry_views(before).push(parsed_keys(service_entry_views(data@))[i as int]));
        assert(parsed_keys(service_entry_views(data@)).take(i + 1) =~= parsed_keys(service_entry_views(data@)).take(i as int).push(
            parsed_keys(service_entry_views(data@))[i as int],
        ));
        i = i + 1;
    }
    assert(parsed_keys(service_entry_views(data@)).take(i as int) =~= parsed_keys(service_entry_views(data@)));
    keyed_service_data(&parsed)
}

/// The UUIDs that were read, in order.
pub fn parsed_services(parsed: &Vec<Option<u128>>) -> (r: Vec<u128>)
    ensures
        r@ == present(parsed@),
{
    let mut r: Vec<u128> = Vec::new();
    let mut i: usize = 0;
    while i < parsed.len()
        invariant
            i <= parsed@.len(),
            r@ == present(parsed@.take(i as int)),
        decreases parsed@.len() - i,
    {
        assert(parsed@.take(i + 1).drop_last() =~= parsed@.take(i as int));
        if let Some(u) = parsed[i] {
            r.push(u);
        }
        i = i + 1;
    }
    assert(parsed@.take(i as int) =~= parsed@);
    r
}

/// The service UUIDs in a list of strings: those that parse, in order.
pub fn convert_services(uuids: &Vec<String>) -> (r: Vec<u128>)
    ensures
        r@ == services_spec(uuids@.map_values(|u: String| u@)),
{
    let ghost us = uuids@.map_values(|u: String| u@);
    let mut parsed: Vec<Option<u128>> = Vec::new();
    let mut i: usize = 0;
    while i < uuids.len()
        invariant
            i <= uuids@.len(),
            us == uuids@.map_values(|u: String| u@),
            parsed@ == us.map_values(|u: Seq<char>| parsed_uuid(u)).take(i as int),
        decreases uuids@.len() - i,
    {
        parsed.push(parse_uuid(uuids[i].as_str()));
        assert(parsed@ =~= us.map_values(|u: Seq<char>| parsed_uuid(u)).take(i + 1));
        i = i + 1;
    }
    assert(parsed@ =~= us.map_values(|u: Seq<char>| parsed_uuid(u)));
    parsed_services(&parsed)
}

/// The service UUIDs of a device: none where it reports no list.
pub fn get_services(device_properties: &DeviceProperties) -> (r: Vec<u128>)
    ensures
        match device_properties.uuids {
            Some(us) => r@ == services_spec(us@.map_values(|u: String| u@)),
            None => r@.len() == 0,
        },
{
    match &device_properties.uuids {
        Some(us) => convert_services(us),
        None => Vec::new(),
    }
}

/// The manufacturer data of a device, where it reports any.
pub fn get_manufacturer_data(device_properties: &DeviceProperties) -> (r: Option<HashMap<u16, Vec<u8>>>)
    ensures
        match (device_properties.manufacturer_data, r) {
            (Some(d), Some(m)) => data_view(m@) == data_map(entry_views(d@)),
            (None, None) => true,
            _ => false,
        },
{
    match &device_properties.manufacturer_data {
        Some(d) => Some(convert_manufacturer_data(d)),
        None => None,
    }
}

/// The service data of a device, where it reports any.
pub fn get_service_data(device_properties: &DeviceProperties) -> (r: Option<HashMap<u128, Vec<u8>>>)
    ensures
        match (device_properties.service_data, r) {
            (Some(d), Some(m)) => data_view(m@) == data_map(keyed_entries(parsed_keys(service_entry_views(d@)))),
            (None, None) => true,
            _ => false,
        },
{
    match &device_properties.service_data {
        Some(d) => Some(convert_service_data(d)),
        None => None,
    }
}

/// The first required device property that is missing or malformed, in the order in which
/// they are read: the address, the address type (which must be "public" or "random"), then
/// whether the device is paired, connected, and done with service discovery.
pub open spec fn device_error(p: DeviceProperties) -> Option<BluetoothErrorView> {
    if p.address is None {
        Some(BluetoothErrorView::RequiredPropertyMissing("Address"@))
    } else if p.address_type is None {
        Some(BluetoothErrorView::RequiredPropertyMissing("AddressType"@))
    } else if AddressType::spec_from_str(p.address_type->0@) is None {
        Some(BluetoothErrorView::AddressTypeParseError(p.address_type->0@))
    } else if p.paired is None {
        Some(BluetoothErrorView::RequiredPropertyMissing("Paired"@))
    } else if p.connected is None {
        Some(BluetoothErrorView::RequiredPropertyMissing("Connected"@))
    } else if p.services_resolved is None {
        Some(BluetoothErrorView::RequiredPropertyMissing("ServicesResolved"@))
    } else {
        None
    }
}

/// Device information with its strings and byte arrays taken by their contents.
pub struct DeviceInfoView {
    pub id: Seq<char>,
    pub mac_address: Seq<char>,
    pub address_type: AddressType,
    pub name: Option<Seq<char>>,
    pub appearance: Option<u16>,
    pub services: Seq<u128>,
    pub paired: bool,
    pub connected: bool,
    pub rssi: Option<i16>,
    pub tx_power: Option<i16>,
    pub manufacturer_data: Map<u16, Seq<u8>>,
    pub service_data: Map<u128, Seq<u8>>,
    pub services_resolved: bool,
}

impl View for DeviceInfo {
    type V = DeviceInfoView;

    open spec fn view(&self) -> DeviceInfoView {
        DeviceInfoView {
            id: self.id.object_path@,
            mac_address: self.mac_address@,
            address_type: self.address_type,
            name: opt_view(self.name),
            appearance: self.appearance,
            services: self.services@,
            paired: self.paired,
            connected: self.connected,
            rssi: self.rssi,
            tx_power: self.tx_power,
            manufacturer_data: data_view(self.manufacturer_data@),
            service_data: data_view(self.service_data@),
            services_resolved: self.services_resolved,
        }
    }
}

/// The information that the properties of a device give, where none required is missing or
/// malformed: reported data that is missing counts as empty.
pub open spec fn device_info_spec(id: Seq<char>, p: DeviceProperties) -> DeviceInfoView {
    DeviceInfoView {
        id,
        mac_address: p.address->0@,
        address_type: AddressType::spec_from_str(p.address_type->0@)->0,
        name: opt_view(p.name),
        appearance: p.appearance,
        services: match p.uuids {
            Some(us) => services_spec(us@.map_values(|u: String| u@)),
            None => Seq::empty(),
        },
        paired: p.paired->0,
        connected: p.connected->0,
        rssi: p.rssi,
        tx_power: p.tx_power,
        manufacturer_data: match p.manufacturer_data {
            Some(d) => data_map(entry_views(d@)),
            None => Map::empty(),
        },
        service_data: match p.service_data {
            Some(d) => data_map(keyed_entries(parsed_keys(service_entry_views(d@)))),
            None => Map::empty(),
        },
        services_resolved: p.services_resolved->0,
    }
}

/// The information gathered about a device gives each reported property under its own name:
/// the address, address type, name, appearance, whether it is paired, connected and done with
/// service discovery, its signal strength and transmission power.
pub proof fn lemma_device_info_fields(id: Seq<char>, p: DeviceProperties)
    requires
        device_error(p) is None,
    ensures
        ({
            let info = device_info_spec(id, p);
            &&& info.id == id
            &&& info.mac_address == p.address->0@
            &&& Some(info.address_type) == AddressType::spec_from_str(p.address_type->0@)
            &&& info.name == opt_view(p.name)
            &&& info.appearance == p.appearance
            &&& p.paired == Some(info.paired)
            &&& p.connected == Some(info.connected)
            &&& info.rssi == p.rssi
            &&& info.tx_power == p.tx_power
            &&& p.services_resolved == Some(info.services_resolved)
        }),
{
}

/// A required property, or the error that it is missing.
fn required<T>(value: Option<T>, name: &str) -> (r: Result<T, BluetoothError>)
    ensures
        match value {
            Some(v) => r == Ok::<T, BluetoothError>(v),
            None => r matches Err(e) && e@ == BluetoothErrorView::RequiredPropertyMissing(name@),
        },
{
    match value {
        Some(v) => Ok(v),
        None => Err(BluetoothError::RequiredPropertyMissing(name.to_owned())),
    }
}

impl DeviceInfo {
    /// Gathers the information about a device from the properties that BlueZ reports: an error
    /// names the first required property that is missing, or gives an address type that is
    /// neither "public" nor "random".
    pub fn from_properties(id: DeviceId, device_properties: &DeviceProperties) -> (r: Result<DeviceInfo, BluetoothError>)
        ensures
            match r {
                Ok(info) => device_error(*device_properties) is None
                    && info@ == device_info_spec(id.object_path@, *device_properties)
                    && info.id == id
                    && info.mac_address@ == device_properties.address->0@
                    && Some(info.address_type) == AddressType::spec_from_str(device_properties.address_type->0@)
                    && opt_view(info.name) == opt_view(device_properties.name)
                    && info.appearance == device_properties.appearance
                    && info.paired == device_properties.paired->0
                    && info.connected == device_properties.connected->0
                    && info.rssi == device_properties.rssi
                    && info.tx_power == device_properties.tx_power
                    && info.services_resolved == device_properties.services_resolved->0,
                Err(e) => device_error(*device_properties) == Some(e@),
            },
    {
        proof {
            reveal_strlit("Address");
            reveal_strlit("AddressType");
            reveal_strlit("Paired");
            reveal_strlit("Connected");
            reveal_strlit("ServicesResolved");
        }
        let address = required(device_properties.address.as_ref(), "Address")?;
        let address_type_text = required(device_properties.address_type.as_ref(), "AddressType")?;
        let address_type = AddressType::from_text(address_type_text.as_str())?;
        let services = get_services(device_properties);
        let manufacturer_data = match get_manufacturer_data(device_properties) {
            Some(m) => m,
            None => HashMap::new(),
        };
        let service_data = match get_service_data(device_properties) {
            Some(m) => m,
            None => HashMap::new(),
        };
        let paired = required(device_properties.paired, "Paired")?;
        let connected = required(device_properties.connected, "Connected")?;
        let services_resolved = required(device_properties.services_resolved, "ServicesResolved")?;
        let info = DeviceInfo {
            id,
            mac_address: MacAddress::reported(address.as_str()),
            address_type,
            name: device_properties.name.clone(),
            appearance: device_properties.appearance,
            services,
            paired,
            connected,
            rssi: device_properties.rssi,
            tx_power: device_properties.tx_power,
            manufacturer_data,
            service_data,
            services_resolved,
        };
        proof {
            broadcast use vstd::std_specs::hash::group_hash_axioms;
            let sp = device_info_spec(info.id.object_path@, *device_properties);
            assert(info@.mac_address == sp.mac_address);
            assert(info@.address_type == sp.address_type);
            assert(info@.services == sp.services);
            assert(info@.manufacturer_data == sp.manufacturer_data);
            assert(info@.service_data == sp.service_data);
            assert(info@ == sp);
        }
        Ok(info)
    }
}

/// The first required adapter property that is missing or malformed, in the order in which
/// they are read: the address, the address type (which must be "public" or "random"), the
/// name, the alias, and whether the adapter is powered and discovering.
pub open spec fn adapter_error(p: AdapterProperties) -> Option<BluetoothErrorView> {
    if p.address is None {
        Some(BluetoothErrorView::RequiredPropertyMissing("Address"@))
    } else if p.address_type is None {
        Some(BluetoothErrorView::RequiredPropertyMissing("AddressType"@))
    } else if AddressType::spec_from_str(p.address_type->0@) is None {
        Some(BluetoothErrorView::AddressTypeParseError(p.address_type->0@))
    } else if p.name is None {
        Some(BluetoothErrorView::RequiredPropertyMissing("Name"@))
    } else if p.alias is None {
        Some(BluetoothErrorView::RequiredPropertyMissing("Alias"@))
    } else if p.powered is None {
        Some(BluetoothErrorView::RequiredPropertyMissing("Powered"@))
    } else if p.discovering is None {
        Some(BluetoothErrorView::RequiredPropertyMissing("Discovering"@))
    } else {
        None
    }
}

impl AdapterInfo {
    /// Gathers the information about an adapter from the properties that BlueZ reports: an
    /// error names the first required property that is missing, or gives an address type that
    /// is neither "public" nor "random".
    pub fn from_properties(id: AdapterId, adapter_properties: &AdapterProperties) -> (r: Result<AdapterInfo, BluetoothError>)
        ensures
            match r {
                Ok(info) => adapter_error(*adapter_properties) is None
                    && info.id == id
                    && info.mac_address@ == adapter_properties.address->0@
                    && Some(info.address_type) == AddressType::spec_from_str(adapter_properties.address_type->0@)
                    && info.name@ == adapter_properties.name->0@
                    && info.alias@ == adapter_properties.alias->0@
                    && info.powered == adapter_properties.powered->0
                    && info.discovering == adapter_properties.discovering->0,
                Err(e) => adapter_error(*adapter_properties) == Some(e@),
            },
    {
        proof {
            reveal_strlit("Address");
            reveal_strlit("AddressType");
            reveal_strlit("Name");
            reveal_strlit("Alias");
            reveal_strlit("Powered");
            reveal_strlit("Discovering");
        }
        let address = required(adapter_properties.address.as_ref(), "Address")?;
        let address_type_text = required(adapter_properties.address_type.as_ref(), "AddressType")?;
        let address_type = AddressType::from_text(address_type_text.as_str())?;
        let name = required(adapter_properties.name.as_ref(), "Name")?;
        let alias = required(adapter_properties.alias.as_ref(), "Alias")?;
        let powered = required(adapter_properties.powered, "Powered")?;
        let discovering = required(adapter_properties.discovering, "Discovering")?;
        Ok(AdapterInfo {
            id,
            mac_address: MacAddress::reported(address.as_str()),
            address_type,
            name: name.clone(),
            alias: alias.clone(),
            powered,
            discovering,
        })
    }
}

} // verus!
