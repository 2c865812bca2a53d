//! The flags (a.k.a. properties) of GATT characteristics.

use super::BluetoothError;
use crate::text::str_eq;
use vstd::prelude::*;

verus! {

/// The set of flags of a characteristic, defining how the characteristic can be used: one bit
/// per flag, as the associated constants give them.
#[derive(Clone, Copy, Debug, Eq, Hash, Ord, PartialEq, PartialOrd, Structural)]
pub struct CharacteristicFlags {
    bits: u16,
}

impl CharacteristicFlags {
    pub const BROADCAST: u16 = 0x1;
    pub const READ: u16 = 0x2;
    pub const WRITE_WITHOUT_RESPONSE: u16 = 0x4;
    pub const WRITE: u16 = 0x8;
    pub const NOTIFY: u16 = 0x10;
    pub const INDICATE: u16 = 0x20;
    pub const SIGNED_WRITE: u16 = 0x40;
    pub const EXTENDED_PROPERTIES: u16 = 0x80;
    pub const RELIABLE_WRITE: u16 = 0x100;
    pub const WRITABLE_AUXILIARIES: u16 = 0x200;
    pub const ENCRYPT_READ: u16 = 0x400;
    pub const ENCRYPT_WRITE: u16 = 0x800;
    pub const ENCRYPT_AUTHENTICATED_READ: u16 = 0x1000;
    pub const ENCRYPT_AUTHENTICATED_WRITE: u16 = 0x2000;
    pub const AUTHORIZE: u16 = 0x4000;

    /// The bits of the set.
    pub closed spec fn spec_bits(self) -> u16 {
        self.bits
    }

    /// The bits of the set.
    pub fn bits(&self) -> (b: u16)
        ensures
            b == self.spec_bits(),
    {
        self.bits
    }

    /// The set with the given bits.
    pub fn from_bits(bits: u16) -> (f: CharacteristicFlags)
        ensures
            f.spec_bits() == bits,
    {
        CharacteristicFlags { bits }
    }

    /// The empty set.
    pub fn empty() -> (f: CharacteristicFlags)
        ensures
            f.spec_bits() == 0,
    {
        CharacteristicFlags { bits: 0 }
    }

    /// Adds the flags of `other` to the set.
    pub fn insert(&mut self, other: CharacteristicFlags)
        ensures
            final(self).spec_bits() == old(self).spec_bits() | other.spec_bits(),
    {
        self.bits = self.bits | other.bits;
    }

    /// The union of two sets.
    pub fn union(self, other: CharacteristicFlags) -> (f: CharacteristicFlags)
        ensures
            f.spec_bits() == self.spec_bits() | other.spec_bits(),
    {
        CharacteristicFlags { bits: self.bits | other.bits }
    }

    /// Whether all the flags of `other` are in the set.
    pub fn contains(&self, other: CharacteristicFlags) -> (b: bool)
        ensures
            b == (self.spec_bits() & other.spec_bits() == other.spec_bits()),
    {
        self.bits & other.bits == other.bits
    }

    /// Parses the flag names that BlueZ reports into a set of flags; an unknown name is an
    /// error, the first one met.
    pub fn try_from_strings(value: Vec<String>) -> (r: Result<CharacteristicFlags, BluetoothError>)
        ensures
            match (r, flags_spec(value@.map_values(|s: String| s@))) {
                (Ok(f), Ok(b)) => f.spec_bits() == b,
                (Err(e), Err(name)) => e matches BluetoothError::FlagParseError(m) && m@ == name,
                _ => false,
            },
    {
        let ghost names = value@.map_values(|s: String| s@);
        let mut flags = CharacteristicFlags::empty();
        let mut i: usize = 0;
        while i < value.len()
            invariant
                i <= value@.len(),
                names == value@.map_values(|s: String| s@),
                flags_spec(names.subrange(0, i as int)) == Ok::<u16, Seq<char>>(flags.spec_bits()),
            decreases value@.len() - i,
        {
            assert(names.subrange(0, i + 1).drop_last() =~= names.subrange(0, i as int));
            assert(names.subrange(0, i + 1).last() == value@[i as int]@);
            match flag_of(value[i].as_str()) {
                Some(f) => {
                    flags.insert(f);
                },
                None => {
                    proof { lemma_flags_error_prefix(names, i as int + 1); }
                    return Err(BluetoothError::FlagParseError(value[i].clone()));
                },
            }
            i = i + 1;
        }
        assert(names.subrange(0, value@.len() as int) =~= names);
        Ok(flags)
    }
}

impl std::ops::BitOr for CharacteristicFlags {
    type Output = CharacteristicFlags;

    fn bitor(self, other: CharacteristicFlags) -> CharacteristicFlags {
        self.union(other)
    }
}

impl vstd::std_specs::ops::BitOrSpecImpl for CharacteristicFlags {
    open spec fn obeys_bitor_spec() -> bool {
        true
    }

    open spec fn bitor_req(self, rhs: CharacteristicFlags) -> bool {
        true
    }

    closed spec fn bitor_spec(self, rhs: CharacteristicFlags) -> CharacteristicFlags {
        CharacteristicFlags { bits: self.bits | rhs.bits }
    }
}

/// The bit of the flag with the given name, if it is one.
pub open spec fn flag_bit(name: Seq<char>) -> Option<u16> {
    if name == "broadcast"@ {
        Some(0x1)
    }     else if name == "read"@ {
        Some(0x2)
    }     else if name == "write-without-response"@ {
        Some(0x4)
    }     else if name == "write"@ {
        Some(0x8)
    }     else if name == "notify"@ {
        Some(0x10)
    }     else if name == "indicate"@ {
        Some(0x20)
    }     else if name == "authenticated-signed-write"@ {
        Some(0x40)
    }     else if name == "extended-properties"@ {
        Some(0x80)
    }     else if name == "reliable-write"@ {
        Some(0x100)
    }     else if name == "writable-auxiliaries"@ {
        Some(0x200)
    }     else if name == "encrypt-read"@ {
        Some(0x400)
    }     else if name == "encrypt-write"@ {
        Some(0x800)
    }     else if name == "encrypt-authenticated-read"@ {
        Some(0x1000)
    }     else if name == "encrypt-authenticated-write"@ {
        Some(0x2000)
    }     else if name == "authorize"@ {
        Some(0x4000)
    } else {
        None
    }
}

/// What parsing a list of flag names gives: the union of their bits, or the first name that
/// is not a flag.
pub open spec fn flags_spec(names: Seq<Seq<char>>) -> Result<u16, Seq<char>>
    decreases names.len(),
{
    if names.len() == 0 {
        Ok(0)
    } else {
        match flags_spec(names.drop_last()) {
            Err(e) => Err(e),
            Ok(b) => match flag_bit(names.last()) {
                Some(f) => Ok(b | f),
                None => Err(names.last()),
            },
        }
    }
}

/// An error met in a prefix of the names is the error of the whole list.
proof fn lemma_flags_error_prefix(names: Seq<Seq<char>>, i: int)
    requires
        0 <= i <= names.len(),
        flags_spec(names.subrange(0, i)) is Err,
    ensures
        flags_spec(names) == flags_spec(names.subrange(0, i)),
    decreases names.len() - i,
{
    if i < names.len() {
        assert(names.subrange(0, i + 1).drop_last() =~= names.subrange(0, i));
        lemma_flags_error_prefix(names, i + 1);
    } else {
        assert(names.subrange(0, i) =~= names);
    }
}

/// The flag with the given name, if it is one.
fn flag_of(name: &str) -> (r: Option<CharacteristicFlags>)
    ensures
        match r {
            Some(f) => flag_bit(name@) == Some(f.spec_bits()),
            None => flag_bit(name@) is None,
        },
{
    if str_eq(name, "broadcast") {
        Some(CharacteristicFlags::from_bits(CharacteristicFlags::BROADCAST))
    }     else if str_eq(name, "read") {
        Some(CharacteristicFlags::from_bits(CharacteristicFlags::READ))
    }     else if str_eq(name, "write-without-response") {
        Some(CharacteristicFlags::from_bits(CharacteristicFlags::WRITE_WITHOUT_RESPONSE))
    }     else if str_eq(name, "write") {
        Some(CharacteristicFlags::from_bits(CharacteristicFlags::WRITE))
    }     else if str_eq(name, "notify") {
        Some(CharacteristicFlags::from_bits(CharacteristicFlags::NOTIFY))
    }     else if str_eq(name, "indicate") {
        Some(CharacteristicFlags::from_bits(CharacteristicFlags::INDICATE))
    }     else if str_eq(name, "authenticated-signed-write") {
        Some(CharacteristicFlags::from_bits(CharacteristicFlags::SIGNED_WRITE))
    }     else if str_eq(name, "extended-properties") {
        Some(CharacteristicFlags::from_bits(CharacteristicFlags::EXTENDED_PROPERTIES))
    }     else if str_eq(name, "reliable-write") {
        Some(CharacteristicFlags::from_bits(CharacteristicFlags::RELIABLE_WRITE))
    }     else if str_eq(name, "writable-auxiliaries") {
        Some(CharacteristicFlags::from_bits(CharacteristicFlags::WRITABLE_AUXILIARIES))
    }     else if str_eq(name, "encrypt-read") {
        Some(CharacteristicFlags::from_bits(CharacteristicFlags::ENCRYPT_READ))
    }     else if str_eq(name, "encrypt-write") {
        Some(CharacteristicFlags::from_bits(CharacteristicFlags::ENCRYPT_WRITE))
    }     else if str_eq(name, "encrypt-authenticated-read") {
        Some(CharacteristicFlags::from_bits(CharacteristicFlags::ENCRYPT_AUTHENTICATED_READ))
    }     else if str_eq(name, "encrypt-authenticated-write") {
        Some(CharacteristicFlags::from_bits(CharacteristicFlags::ENCRYPT_AUTHENTICATED_WRITE))
    }     else if str_eq(name, "authorize") {
        Some(CharacteristicFlags::from_bits(CharacteristicFlags::AUTHORIZE))
    } else {
        None
    }
}

} // verus!
