//! MAC addresses of Bluetooth devices, and their types.

use super::BluetoothError;
use crate::text::{chars_of, split_spec, split_str, str_eq, StrLen};
use vstd::prelude::*;

verus! {

/// An error parsing a MAC address from a string.
#[derive(Clone, Debug, Eq, PartialEq)]
pub struct ParseMacAddressError(pub String);

/// The MAC address of a Bluetooth device, as six pairs of uppercase hexadecimal digits
/// separated by ':'.
#[derive(Clone, Debug, Eq, Hash, Ord, PartialEq, PartialOrd)]
pub struct MacAddress(String);

/// Whether `c` is an ASCII hexadecimal digit.
pub open spec fn is_hex_digit(c: char) -> bool {
    ('0' <= c && c <= '9') || ('a' <= c && c <= 'f') || ('A' <= c && c <= 'F')
}

/// The ASCII uppercase of a character.
pub open spec fn ascii_upper(c: char) -> char {
    if 'a' <= c && c <= 'z' {
        ((c as u32) - 32) as char
    } else {
        c
    }
}

/// Whether a string is a MAC address: six pieces separated by ':', each two hexadecimal digits.
pub open spec fn is_mac_address(s: Seq<char>) -> bool {
    let octets = split_spec(s, ':');
    &&& octets.len() == 6
    &&& forall|i: int| 0 <= i < 6 ==> (#[trigger] octets[i]).len() == 2 && is_hex_digit(octets[i][0]) && is_hex_digit(octets[i][1])
}

impl View for MacAddress {
    type V = Seq<char>;

    closed spec fn view(&self) -> Seq<char> {
        self.0@
    }
}

fn upper_char(c: char) -> (r: char)
    ensures
        r == ascii_upper(c),
{
    if 'a' <= c && c <= 'z' {
        let u: u32 = c as u32 - 32;
        let b: u8 = u as u8;
        b as char
    } else {
        c
    }
}

/// The ASCII uppercase of a string.
pub fn to_ascii_uppercase(s: &str) -> (r: String)
    ensures
        r@ == s@.map_values(|c: char| ascii_upper(c)),
{
    let v = chars_of(s);
    let mut r = String::new();
    let mut i: usize = 0;
    while i < v.len()
        invariant
            i <= v@.len(),
            v@ == s@,
            r@ == s@.subrange(0, i as int).map_values(|c: char| ascii_upper(c)),
        decreases v@.len() - i,
    {
        crate::text::push_char(&mut r, upper_char(v[i]));
        i = i + 1;
        assert(r@ =~= s@.subrange(0, i as int).map_values(|c: char| ascii_upper(c)));
    }
    assert(s@.subrange(0, v@.len() as int) =~= s@);
    r
}

fn is_hex(c: char) -> (b: bool)
    ensures
        b == is_hex_digit(c),
{
    ('0' <= c && c <= '9') || ('a' <= c && c <= 'f') || ('A' <= c && c <= 'F')
}

impl MacAddress {
    /// Parses a MAC address: six pairs of hexadecimal digits separated by ':', in either case.
    /// The address keeps the digits in uppercase.
    pub fn from_text(s: &str) -> (r: Result<MacAddress, ParseMacAddressError>)
        ensures
            match r {
                Ok(m) => is_mac_address(s@) && m@ == s@.map_values(|c: char| ascii_upper(c)),
                Err(e) => !is_mac_address(s@) && e.0@ == s@,
            },
    {
        let octets = split_str(s, ':');
        if octets.len() != 6 {
            return Err(ParseMacAddressError(s.to_owned()));
        }
        let mut i: usize = 0;
        while i < 6
            invariant
                octets@.len() == 6,
                octets@.len() == split_spec(s@, ':').len(),
                forall|k: int| 0 <= k < 6 ==> #[trigger] octets@[k]@ == split_spec(s@, ':')[k],
                i <= 6,
                forall|k: int| 0 <= k < i ==> (#[trigger] split_spec(s@, ':')[k]).len() == 2
                    && is_hex_digit(split_spec(s@, ':')[k][0]) && is_hex_digit(split_spec(s@, ':')[k][1]),
            decreases 6 - i,
        {
            let octet = octets[i];
            if octet.char_len() != 2 {
                return Err(ParseMacAddressError(s.to_owned()));
            }
            if !is_hex(octet.get_char(0)) || !is_hex(octet.get_char(1)) {
                return Err(ParseMacAddressError(s.to_owned()));
            }
            i = i + 1;
        }
        Ok(MacAddress(to_ascii_uppercase(s)))
    }

    /// The address as six pairs of uppercase hexadecimal digits separated by ':'.
    pub fn to_string(&self) -> (s: String)
        ensures
            s@ == self@,
    {
        self.0.clone()
    }

    /// The address exactly as BlueZ reports it, which writes it as six pairs of uppercase
    /// hexadecimal digits separated by ':'.
    pub(crate) fn reported(s: &str) -> (m: MacAddress)
        ensures
            m@ == s@,
    {
        MacAddress(s.to_owned())
    }

    /// The address as a string slice.
    pub fn as_str(&self) -> (s: &str)
        ensures
            s@ == self@,
    {
        self.0.as_str()
    }
}

impl std::str::FromStr for MacAddress {
    type Err = ParseMacAddressError;

    fn from_str(s: &str) -> (r: Result<MacAddress, ParseMacAddressError>)
        ensures
            match r {
                Ok(m) => is_mac_address(s@) && m@ == s@.map_values(|c: char| ascii_upper(c)),
                Err(e) => !is_mac_address(s@) && e.0@ == s@,
            },
    {
        MacAddress::from_text(s)
    }
}

/// The MAC address type of a Bluetooth device.
#[derive(Clone, Copy, Debug, Eq, Hash, Ord, PartialEq, PartialOrd, Structural)]
pub enum AddressType {
    /// Public address.
    Public,
    /// Random address.
    Random,
}

impl AddressType {
    pub open spec fn spec_as_str(self) -> Seq<char> {
        match self {
            AddressType::Public => "public"@,
            AddressType::Random => "random"@,
        }
    }

    /// The address type as BlueZ writes it.
    pub fn as_str(&self) -> (s: &'static str)
        ensures
            s@ == self.spec_as_str(),
    {
        match self {
            AddressType::Public => "public",
            AddressType::Random => "random",
        }
    }

    /// The address type as BlueZ writes it.
    pub fn to_string(&self) -> (s: String)
        ensures
            s@ == self.spec_as_str(),
    {
        self.as_str().to_owned()
    }

    /// The address type that a string names, if any.
    pub open spec fn spec_from_str(s: Seq<char>) -> Option<AddressType> {
        if s == "public"@ {
            Some(AddressType::Public)
        } else if s == "random"@ {
            Some(AddressType::Random)
        } else {
            None
        }
    }

    /// Parses an address type: "public" or "random".
    pub fn from_text(s: &str) -> (r: Result<AddressType, BluetoothError>)
        ensures
            match r {
                Ok(t) => Self::spec_from_str(s@) == Some(t),
                Err(e) => Self::spec_from_str(s@) is None && (e matches BluetoothError::AddressTypeParseError(m) && m@ == s@),
            },
    {
        if str_eq(s, "public") {
            Ok(AddressType::Public)
        } else if str_eq(s, "random") {
            Ok(AddressType::Random)
        } else {
            Err(BluetoothError::AddressTypeParseError(s.to_owned()))
        }
    }

    /// Parsing the name of an address type gives it back.
    pub proof fn lemma_roundtrip(self)
        ensures
            Self::spec_from_str(self.spec_as_str()) == Some(self),
    {
        reveal_strlit("public");
        reveal_strlit("random");
        assert("public"@ != "random"@) by {
            assert("public"@[0] != "random"@[0]);
        }
    }
}

impl std::str::FromStr for AddressType {
    type Err = BluetoothError;

    fn from_str(s: &str) -> (r: Result<AddressType, BluetoothError>)
        ensures
            match r {
                Ok(t) => AddressType::spec_from_str(s@) == Some(t),
                Err(e) => AddressType::spec_from_str(s@) is None && (e matches BluetoothError::AddressTypeParseError(m) && m@ == s@),
            },
    {
        AddressType::from_text(s)
    }
}

} // verus!
