//! Identifiers of Bluetooth objects: their D-Bus object paths under BlueZ, each nested in the
//! path of the object it belongs to.

use vstd::prelude::*;

verus! {

/// The index of the last '/' in a path.
pub open spec fn last_slash(p: Seq<char>) -> int
    recommends
        exists|i: int| 0 <= i < p.len() && p[i] == '/',
{
    choose|i: int| 0 <= i < p.len() && p[i] == '/' && forall|j: int| i < j < p.len() ==> p[j] != '/'
}

/// Whether a path holds a '/'.
pub open spec fn has_slash(p: Seq<char>) -> bool {
    exists|i: int| 0 <= i < p.len() && p[i] == '/'
}

/// The path of the parent object: everything before the last '/'.
pub open spec fn parent_path(p: Seq<char>) -> Seq<char> {
    p.subrange(0, last_slash(p))
}

/// The prefix of BlueZ object paths.
pub open spec fn bluez_prefix() -> Seq<char> {
    "/org/bluez/"@
}

fn parent_of(path: &str) -> (r: String)
    requires
        has_slash(path@),
    ensures
        r@ == parent_path(path@),
{
    let v = crate::text::chars_of(path);
    let mut i: usize = v.len();
    while i > 0
        invariant
            i <= v@.len(),
            v@ == path@,
            has_slash(path@),
            forall|j: int| i <= j < v@.len() ==> v@[j] != '/',
        decreases i,
    {
        if v[i - 1] == '/' {
            let k = i - 1;
            proof {
                let l = last_slash(path@);
                assert(0 <= l < path@.len() && path@[l] == '/' && forall|j: int| l < j < path@.len() ==> path@[j] != '/');
                if l < k {
                    assert(path@[k as int] != '/');
                }
                if l > k {
                    assert(path@[l] != '/');
                }
            }
            return crate::text::string_from(&v, 0, k);
        }
        i = i - 1;
    }
    assert(false);
    String::new()
}

fn display_of(path: &str) -> (r: String)
    requires
        bluez_prefix().is_prefix_of(path@),
    ensures
        r@ == path@.skip(bluez_prefix().len() as int),
{
    proof { reveal_strlit("/org/bluez/"); }
    let v = crate::text::chars_of(path);
    crate::text::string_from(&v, 11, v.len())
}

/// An opaque identifier for a Bluetooth adapter on the system.
#[derive(Clone, Debug, Eq, Hash, Ord, PartialEq, PartialOrd)]
pub struct AdapterId {
    pub object_path: String,
}

impl AdapterId {
    /// The adapter with the given object path.
    pub fn new(object_path: &str) -> (r: AdapterId)
        ensures
            r.object_path@ == object_path@,
    {
        AdapterId { object_path: object_path.to_owned() }
    }

    /// The path without its "/org/bluez/" prefix, e.g. "hci0".
    pub fn to_string(&self) -> (s: String)
        requires
            bluez_prefix().is_prefix_of(self.object_path@),
        ensures
            s@ == self.object_path@.skip(11),
    {
        proof { reveal_strlit("/org/bluez/"); }
        display_of(self.object_path.as_str())
    }
}

/// An opaque identifier for a Bluetooth device, including the adapter it was discovered on.
#[derive(Clone, Debug, Eq, Hash, Ord, PartialEq, PartialOrd)]
pub struct DeviceId {
    pub object_path: String,
}

impl DeviceId {
    /// The device with the given object path.
    pub fn new(object_path: &str) -> (r: DeviceId)
        ensures
            r.object_path@ == object_path@,
    {
        DeviceId { object_path: object_path.to_owned() }
    }

    /// The adapter on which the device was discovered: the path before its last '/'.
    pub fn adapter(&self) -> (r: AdapterId)
        requires
            has_slash(self.object_path@),
        ensures
            r.object_path@ == parent_path(self.object_path@),
    {
        AdapterId { object_path: parent_of(self.object_path.as_str()) }
    }

    /// The path without its "/org/bluez/" prefix, e.g. "hci0/dev_11_22_33_44_55_66".
    pub fn to_string(&self) -> (s: String)
        requires
            bluez_prefix().is_prefix_of(self.object_path@),
        ensures
            s@ == self.object_path@.skip(11),
    {
        proof { reveal_strlit("/org/bluez/"); }
        display_of(self.object_path.as_str())
    }
}

/// An opaque identifier for a GATT service on a Bluetooth device.
#[derive(Clone, Debug, Eq, Hash, Ord, PartialEq, PartialOrd)]
pub struct ServiceId {
    pub object_path: String,
}

impl ServiceId {
    /// The service with the given object path.
    pub fn new(object_path: &str) -> (r: ServiceId)
        ensures
            r.object_path@ == object_path@,
    {
        ServiceId { object_path: object_path.to_owned() }
    }

    /// The device on which the service was advertised: the path before its last '/'.
    pub fn device(&self) -> (r: DeviceId)
        requires
            has_slash(self.object_path@),
        ensures
            r.object_path@ == parent_path(self.object_path@),
    {
        DeviceId { object_path: parent_of(self.object_path.as_str()) }
    }

    /// The path without its "/org/bluez/" prefix.
    pub fn to_string(&self) -> (s: String)
        requires
            bluez_prefix().is_prefix_of(self.object_path@),
        ensures
            s@ == self.object_path@.skip(11),
    {
        proof { reveal_strlit("/org/bluez/"); }
        display_of(self.object_path.as_str())
    }
}

/// An opaque identifier for a GATT characteristic on a Bluetooth device.
#[derive(Clone, Debug, Eq, Hash, Ord, PartialEq, PartialOrd)]
pub struct CharacteristicId {
    pub object_path: String,
}

impl CharacteristicId {
    /// The characteristic with the given object path.
    pub fn new(object_path: &str) -> (r: CharacteristicId)
        ensures
            r.object_path@ == object_path@,
    {
        CharacteristicId { object_path: object_path.to_owned() }
    }

    /// The service on which the characteristic was advertised: the path before its last '/'.
    pub fn service(&self) -> (r: ServiceId)
        requires
            has_slash(self.object_path@),
        ensures
            r.object_path@ == parent_path(self.object_path@),
    {
        ServiceId { object_path: parent_of(self.object_path.as_str()) }
    }

    /// The path without its "/org/bluez/" prefix.
    pub fn to_string(&self) -> (s: String)
        requires
            bluez_prefix().is_prefix_of(self.object_path@),
        ensures
            s@ == self.object_path@.skip(11),
    {
        proof { reveal_strlit("/org/bluez/"); }
        display_of(self.object_path.as_str())
    }
}

/// An opaque identifier for a GATT descriptor on a Bluetooth device.
#[derive(Clone, Debug, Eq, Hash, Ord, PartialEq, PartialOrd)]
pub struct DescriptorId {
    pub object_path: String,
}

impl DescriptorId {
    /// The descriptor with the given object path.
    pub fn new(object_path: &str) -> (r: DescriptorId)
        ensures
            r.object_path@ == object_path@,
    {
        DescriptorId { object_path: object_path.to_owned() }
    }

    /// The characteristic the descriptor belongs to: the path before its last '/'.
    pub fn characteristic(&self) -> (r: CharacteristicId)
        requires
            has_slash(self.object_path@),
        ensures
            r.object_path@ == parent_path(self.object_path@),
    {
        CharacteristicId { object_path: parent_of(self.object_path.as_str()) }
    }

    /// The path without its "/org/bluez/" prefix.
    pub fn to_string(&self) -> (s: String)
        requires
            bluez_prefix().is_prefix_of(self.object_path@),
        ensures
            s@ == self.object_path@.skip(11),
    {
        proof { reveal_strlit("/org/bluez/"); }
        display_of(self.object_path.as_str())
    }
}

} // verus!
