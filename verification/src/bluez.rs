//! Bluetooth identifiers and attributes as BlueZ reports them: MAC addresses, address types,
//! object paths of adapters, devices, services, characteristics and descriptors, and
//! characteristic flags.

pub mod characteristic;
pub mod ids;
pub mod info;
pub mod macaddress;

use vstd::prelude::*;

verus! {

/// An error in interpreting what BlueZ reports.
#[derive(Clone, Debug, Eq, PartialEq)]
pub enum BluetoothError {
    /// A MAC address type that is neither "public" nor "random".
    AddressTypeParseError(String),
    /// A characteristic flag that is not known.
    FlagParseError(String),
    /// A property that BlueZ always reports was missing; its name is given.
    RequiredPropertyMissing(String),
}

/// A `BluetoothError` with its strings taken by their characters.
pub enum BluetoothErrorView {
    AddressTypeParseError(Seq<char>),
    FlagParseError(Seq<char>),
    RequiredPropertyMissing(Seq<char>),
}

impl View for BluetoothError {
    type V = BluetoothErrorView;

    open spec fn view(&self) -> BluetoothErrorView {
        match self {
            BluetoothError::AddressTypeParseError(s) => BluetoothErrorView::AddressTypeParseError(s@),
            BluetoothError::FlagParseError(s) => BluetoothErrorView::FlagParseError(s@),
            BluetoothError::RequiredPropertyMissing(s) => BluetoothErrorView::RequiredPropertyMissing(s@),
        }
    }
}

} // verus!
