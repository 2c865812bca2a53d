//! The controller's side of the MQTT conversation: what each message from the broker changes in
//! the model of discovered devices, which events it gives to the application, and which topics
//! to subscribe to or unsubscribe from as a result.

use super::types::{
    device_complete, extension_spec, new_device_view, node_complete, property_complete, Datatype, Device,
    DeviceView, Extension, ExtensionView, Node, NodeView, Property, PropertyView, State,
};
use super::values::{parse_bool, Value};
use crate::text::{
    base_prefix, strip_base, utf8_text, topic, topic3, topic4, topic5, float_syntax, is_float_text, join_spec, join_strs, opt_view, parse_i64, parse_i64_spec, parse_u64, parse_u64_spec,
    split_spec, split_str, starts_with, str_eq,
};
use vstd::string::StrSliceExecFns;
use vstd::utf8::{decode_utf8, valid_utf8};
use vstd::prelude::*;

verus! {

/// An event from a Homie device, either because of a property change or because something new
/// has been discovered.
#[derive(Clone, Debug, Eq, PartialEq)]
pub enum Event {
    /// A new device has been discovered, or an attribute of the device has been updated.
    DeviceUpdated { device_id: String, has_required_attributes: bool },
    /// An attribute of a node on a device has been updated.
    NodeUpdated { device_id: String, node_id: String, has_required_attributes: bool },
    /// An attribute of a property on a node has been updated.
    PropertyUpdated { device_id: String, node_id: String, property_id: String, has_required_attributes: bool },
    /// The value of a property has changed. It is fresh if the device has just sent it, rather
    /// than it being the value that the broker retained.
    PropertyValueChanged { device_id: String, node_id: String, property_id: String, value: String, fresh: bool },
    /// Connected to the MQTT broker, either for the first time or again after losing the
    /// connection.
    Connected,
}

/// An event with its strings taken by their characters.
pub enum EventView {
    DeviceUpdated { device_id: Seq<char>, has_required_attributes: bool },
    NodeUpdated { device_id: Seq<char>, node_id: Seq<char>, has_required_attributes: bool },
    PropertyUpdated { device_id: Seq<char>, node_id: Seq<char>, property_id: Seq<char>, has_required_attributes: bool },
    PropertyValueChanged { device_id: Seq<char>, node_id: Seq<char>, property_id: Seq<char>, value: Seq<char>, fresh: bool },
    Connected,
}

impl View for Event {
    type V = EventView;

    open spec fn view(&self) -> EventView {
        match self {
            Event::DeviceUpdated { device_id, has_required_attributes } =>
                EventView::DeviceUpdated { device_id: device_id@, has_required_attributes: *has_required_attributes },
            Event::NodeUpdated { device_id, node_id, has_required_attributes } =>
                EventView::NodeUpdated { device_id: device_id@, node_id: node_id@, has_required_attributes: *has_required_attributes },
            Event::PropertyUpdated { device_id, node_id, property_id, has_required_attributes } =>
                EventView::PropertyUpdated {
                    device_id: device_id@,
                    node_id: node_id@,
                    property_id: property_id@,
                    has_required_attributes: *has_required_attributes,
                },
            Event::PropertyValueChanged { device_id, node_id, property_id, value, fresh } =>
                EventView::PropertyValueChanged {
                    device_id: device_id@,
                    node_id: node_id@,
                    property_id: property_id@,
                    value: value@,
                    fresh: *fresh,
                },
            Event::Connected => EventView::Connected,
        }
    }
}

impl Event {
    /// The event for an update of the given device.
    fn device_updated(device: &Device) -> (e: Event)
        ensures
            e@ == (EventView::DeviceUpdated { device_id: device.id@, has_required_attributes: device_complete(device@) }),
    {
        Event::DeviceUpdated { device_id: device.id.clone(), has_required_attributes: device.has_required_attributes() }
    }

    /// The event for an update of the given node of a device.
    fn node_updated(device_id: &str, node: &Node) -> (e: Event)
        ensures
            e@ == (EventView::NodeUpdated {
                device_id: device_id@,
                node_id: node.id@,
                has_required_attributes: node_complete(node@),
            }),
    {
        Event::NodeUpdated {
            device_id: device_id.to_owned(),
            node_id: node.id.clone(),
            has_required_attributes: node.has_required_attributes(),
        }
    }

    /// The event for an update of the given property of a node.
    fn property_updated(device_id: &str, node_id: &str, property: &Property) -> (e: Event)
        ensures
            e@ == (EventView::PropertyUpdated {
                device_id: device_id@,
                node_id: node_id@,
                property_id: property.id@,
                has_required_attributes: property_complete(property@),
            }),
    {
        Event::PropertyUpdated {
            device_id: device_id.to_owned(),
            node_id: node_id.to_owned(),
            property_id: property.id.clone(),
            has_required_attributes: property.has_required_attributes(),
        }
    }

    /// The event for a new value of the given property, which must have one.
    fn property_value(device_id: &str, node_id: &str, property: &Property, fresh: bool) -> (e: Event)
        requires
            property.value is Some,
        ensures
            e@ == (EventView::PropertyValueChanged {
                device_id: device_id@,
                node_id: node_id@,
                property_id: property.id@,
                value: property@.value->0,
                fresh,
            }),
    {
        let value = match &property.value {
            Some(v) => v.clone(),
            None => String::new(),
        };
        Event::PropertyValueChanged {
            device_id: device_id.to_owned(),
            node_id: node_id.to_owned(),
            property_id: property.id.clone(),
            value,
            fresh,
        }
    }
}

/// Why a message from the broker was not taken in: it is logged and otherwise ignored.
#[derive(Clone, Debug, Eq, PartialEq)]
pub enum HandleError {
    /// The payload is not valid UTF-8.
    InvalidUtf8,
    /// The topic is not under the base topic; it is given.
    UnexpectedTopic(String),
    /// The message is about a device that has not been discovered.
    UnknownDevice(String),
    /// The message is about a node that the device does not have.
    UnknownNode(String, String),
    /// The message is about a property that the node does not have.
    UnknownProperty(String, String, String),
    /// The payload of `$state` is not a state.
    InvalidState(String),
    /// The payload of `$datatype` is not a datatype.
    InvalidDatatype(String),
    /// A part of the payload of `$extensions` is not an extension; that part is given.
    InvalidExtension(String),
    /// The payload of an integer statistic is not an integer of its type.
    InvalidInteger(String),
    /// The payload of a decimal statistic is not a floating-point number.
    InvalidFloat(String),
    /// The payload of `$settable` or `$retained` is not "true" or "false".
    InvalidBoolean(String),
}

/// A `HandleError` with its strings taken by their characters.
pub enum HandleErrorView {
    InvalidUtf8,
    UnexpectedTopic(Seq<char>),
    UnknownDevice(Seq<char>),
    UnknownNode(Seq<char>, Seq<char>),
    UnknownProperty(Seq<char>, Seq<char>, Seq<char>),
    InvalidState(Seq<char>),
    InvalidDatatype(Seq<char>),
    InvalidExtension(Seq<char>),
    InvalidInteger(Seq<char>),
    InvalidFloat(Seq<char>),
    InvalidBoolean(Seq<char>),
}

impl View for HandleError {
    type V = HandleErrorView;

    open spec fn view(&self) -> HandleErrorView {
        match self {
            HandleError::InvalidUtf8 => HandleErrorView::InvalidUtf8,
            HandleError::UnexpectedTopic(t) => HandleErrorView::UnexpectedTopic(t@),
            HandleError::UnknownDevice(d) => HandleErrorView::UnknownDevice(d@),
            HandleError::UnknownNode(d, n) => HandleErrorView::UnknownNode(d@, n@),
            HandleError::UnknownProperty(d, n, p) => HandleErrorView::UnknownProperty(d@, n@, p@),
            HandleError::InvalidState(s) => HandleErrorView::InvalidState(s@),
            HandleError::InvalidDatatype(s) => HandleErrorView::InvalidDatatype(s@),
            HandleError::InvalidExtension(s) => HandleErrorView::InvalidExtension(s@),
            HandleError::InvalidInteger(s) => HandleErrorView::InvalidInteger(s@),
            HandleError::InvalidFloat(s) => HandleErrorView::InvalidFloat(s@),
            HandleError::InvalidBoolean(s) => HandleErrorView::InvalidBoolean(s@),
        }
    }
}

/// What handling a message gives besides the change of the model: the events for the
/// application, and the topics to subscribe to and to unsubscribe from.
pub struct PublishResponse {
    pub events: Vec<Event>,
    pub topics_to_subscribe: Vec<String>,
    pub topics_to_unsubscribe: Vec<String>,
}

/// A response with its strings taken by their characters.
pub struct ResponseView {
    pub events: Seq<EventView>,
    pub topics_to_subscribe: Seq<Seq<char>>,
    pub topics_to_unsubscribe: Seq<Seq<char>>,
}

impl View for PublishResponse {
    type V = ResponseView;

    open spec fn view(&self) -> ResponseView {
        ResponseView {
            events: self.events@.map_values(|e: Event| e@),
            topics_to_subscribe: self.topics_to_subscribe@.map_values(|t: String| t@),
            topics_to_unsubscribe: self.topics_to_unsubscribe@.map_values(|t: String| t@),
        }
    }
}

/// A Homie controller's model of what it has discovered under its base topic. It is told of
/// each message that the MQTT broker delivers, and says what to subscribe to.
pub struct HomieController {
    base_topic: String,
    /// The devices discovered so far, each with a different ID.
    devices: Vec<Device>,
    /// Values of properties that arrived retained before their node listed them, keyed by
    /// "device/node/property"; taken when the node's `$properties` arrives.
    early_property_values: Vec<(String, String)>,
}

/// The controller's model with its strings taken by their characters.
pub struct ControllerView {
    pub base_topic: Seq<char>,
    pub devices: Seq<DeviceView>,
    pub early_property_values: Seq<(Seq<char>, Seq<char>)>,
}

/// The views of a sequence of devices.
pub open spec fn device_views(ds: Seq<Device>) -> Seq<DeviceView> {
    ds.map_values(|d: Device| d@)
}

/// The views of a sequence of nodes.
pub open spec fn node_views(ns: Seq<Node>) -> Seq<NodeView> {
    ns.map_values(|n: Node| n@)
}

/// The views of a sequence of properties.
pub open spec fn property_views(ps: Seq<Property>) -> Seq<PropertyView> {
    ps.map_values(|p: Property| p@)
}

/// The views of a sequence of pairs of strings.
pub open spec fn pair_views(es: Seq<(String, String)>) -> Seq<(Seq<char>, Seq<char>)> {
    es.map_values(|e: (String, String)| (e.0@, e.1@))
}

impl View for HomieController {
    type V = ControllerView;

    closed spec fn view(&self) -> ControllerView {
        ControllerView {
            base_topic: self.base_topic@,
            devices: device_views(self.devices@),
            early_property_values: pair_views(self.early_property_values@),
        }
    }
}

/// The IDs of a sequence of devices.
pub open spec fn device_ids(ds: Seq<DeviceView>) -> Seq<Seq<char>> {
    ds.map_values(|d: DeviceView| d.id)
}

/// The IDs of a sequence of nodes.
pub open spec fn node_ids(ns: Seq<NodeView>) -> Seq<Seq<char>> {
    ns.map_values(|n: NodeView| n.id)
}

/// The IDs of a sequence of properties.
pub open spec fn property_ids(ps: Seq<PropertyView>) -> Seq<Seq<char>> {
    ps.map_values(|p: PropertyView| p.id)
}

/// The keys of a sequence of key-value pairs.
pub open spec fn keys_of(es: Seq<(Seq<char>, Seq<char>)>) -> Seq<Seq<char>> {
    es.map_values(|e: (Seq<char>, Seq<char>)| e.0)
}

/// The index of the first occurrence of `id` in `ids`, or -1 if it does not occur.
pub open spec fn find_id(ids: Seq<Seq<char>>, id: Seq<char>) -> int
    decreases ids.len(),
{
    if ids.len() == 0 {
        -1
    } else {
        let k = find_id(ids.drop_last(), id);
        if k >= 0 {
            k
        } else if ids.last() == id {
            ids.len() - 1
        } else {
            -1
        }
    }
}

/// `find_id` gives the first occurrence, or -1 where there is none.
pub proof fn lemma_find_id(ids: Seq<Seq<char>>, id: Seq<char>)
    ensures
        -1 <= find_id(ids, id) < ids.len(),
        find_id(ids, id) >= 0 ==> ids[find_id(ids, id)] == id,
        forall|j: int| 0 <= j < find_id(ids, id) ==> ids[j] != id,
        find_id(ids, id) == -1 ==> forall|j: int| 0 <= j < ids.len() ==> ids[j] != id,
    decreases ids.len(),
{
    if ids.len() > 0 {
        let t = ids.drop_last();
        lemma_find_id(t, id);
        assert forall|j: int| 0 <= j < t.len() implies t[j] == ids[j] by {}
    }
}

/// Where the first occurrence is known, `find_id` gives it.
pub proof fn lemma_find_id_at(ids: Seq<Seq<char>>, id: Seq<char>, i: int)
    requires
        0 <= i <= ids.len(),
        forall|j: int| 0 <= j < i ==> ids[j] != id,
        i < ids.len() ==> ids[i] == id,
    ensures
        find_id(ids, id) == (if i < ids.len() { i } else { -1 }),
{
    lemma_find_id(ids, id);
    let k = find_id(ids, id);
    if k >= 0 && k < i {
        assert(ids[k] != id);
    }
    if i < ids.len() && k > i {
        assert(ids[i] != id);
    }
    if i < ids.len() && k == -1 {
        assert(ids[i] != id);
    }
}

/// Finds the first device with the given ID.
pub fn find_device(devices: &Vec<Device>, id: &str) -> (r: Option<usize>)
    ensures
        match r {
            Some(i) => i < devices@.len() && i as int == find_id(device_ids(device_views(devices@)), id@),
            None => find_id(device_ids(device_views(devices@)), id@) == -1,
        },
{
    let ghost ids = device_ids(device_views(devices@));
    let mut i: usize = 0;
    while i < devices.len()
        invariant
            i <= devices@.len(),
            ids == device_ids(device_views(devices@)),
            forall|j: int| 0 <= j < i ==> ids[j] != id@,
        decreases devices@.len() - i,
    {
        if str_eq(devices[i].id.as_str(), id) {
            proof { lemma_find_id_at(ids, id@, i as int); }
            return Some(i);
        }
        i = i + 1;
    }
    proof { lemma_find_id_at(ids, id@, i as int); }
    None
}

/// Finds the first node with the given ID.
pub fn find_node(nodes: &Vec<Node>, id: &str) -> (r: Option<usize>)
    ensures
        match r {
            Some(i) => i < nodes@.len() && i as int == find_id(node_ids(node_views(nodes@)), id@),
            None => find_id(node_ids(node_views(nodes@)), id@) == -1,
        },
{
    let ghost ids = node_ids(node_views(nodes@));
    let mut i: usize = 0;
    while i < nodes.len()
        invariant
            i <= nodes@.len(),
            ids == node_ids(node_views(nodes@)),
            forall|j: int| 0 <= j < i ==> ids[j] != id@,
        decreases nodes@.len() - i,
    {
        if str_eq(nodes[i].id.as_str(), id) {
            proof { lemma_find_id_at(ids, id@, i as int); }
            return Some(i);
        }
        i = i + 1;
    }
    proof { lemma_find_id_at(ids, id@, i as int); }
    None
}

/// Finds the first property with the given ID.
pub fn find_property(properties: &Vec<Property>, id: &str) -> (r: Option<usize>)
    ensures
        match r {
            Some(i) => i < properties@.len() && i as int == find_id(property_ids(property_views(properties@)), id@),
            None => find_id(property_ids(property_views(properties@)), id@) == -1,
        },
{
    let ghost ids = property_ids(property_views(properties@));
    let mut i: usize = 0;
    while i < properties.len()
        invariant
            i <= properties@.len(),
            ids == property_ids(property_views(properties@)),
            forall|j: int| 0 <= j < i ==> ids[j] != id@,
        decreases properties@.len() - i,
    {
        if str_eq(properties[i].id.as_str(), id) {
            proof { lemma_find_id_at(ids, id@, i as int); }
            return Some(i);
        }
        i = i + 1;
    }
    proof { lemma_find_id_at(ids, id@, i as int); }
    None
}

/// Finds the first pair with the given key.
fn find_key(pairs: &Vec<(String, String)>, key: &str) -> (r: Option<usize>)
    ensures
        match r {
            Some(i) => i < pairs@.len() && i as int == find_id(keys_of(pair_views(pairs@)), key@),
            None => find_id(keys_of(pair_views(pairs@)), key@) == -1,
        },
{
    let ghost ids = keys_of(pair_views(pairs@));
    let mut i: usize = 0;
    while i < pairs.len()
        invariant
            i <= pairs@.len(),
            ids == keys_of(pair_views(pairs@)),
            forall|j: int| 0 <= j < i ==> ids[j] != key@,
        decreases pairs@.len() - i,
    {
        if str_eq(pairs[i].0.as_str(), key) {
            proof { lemma_find_id_at(ids, key@, i as int); }
            return Some(i);
        }
        i = i + 1;
    }
    proof { lemma_find_id_at(ids, key@, i as int); }
    None
}

/// Finds the first string equal to `s`.
fn find_str(strs: &Vec<&str>, s: &str) -> (r: Option<usize>)
    ensures
        match r {
            Some(i) => i < strs@.len() && i as int == find_id(strs@.map_values(|x: &str| x@), s@),
            None => find_id(strs@.map_values(|x: &str| x@), s@) == -1,
        },
{
    let ghost ids = strs@.map_values(|x: &str| x@);
    let mut i: usize = 0;
    while i < strs.len()
        invariant
            i <= strs@.len(),
            ids == strs@.map_values(|x: &str| x@),
            forall|j: int| 0 <= j < i ==> ids[j] != s@,
        decreases strs@.len() - i,
    {
        if str_eq(strs[i], s) {
            proof { lemma_find_id_at(ids, s@, i as int); }
            return Some(i);
        }
        i = i + 1;
    }
    proof { lemma_find_id_at(ids, s@, i as int); }
    None
}

/// A change of one attribute of a device, with the new value.
pub enum DeviceUpdate {
    Name(String),
    State(State),
    Implementation(String),
    Extensions(Vec<Extension>),
    LocalIp(String),
    Mac(String),
    FirmwareName(String),
    FirmwareVersion(String),
    StatsInterval(u64),
    StatsUptime(u64),
    StatsSignal(i64),
    StatsCputemp(String),
    StatsCpuload(i64),
    StatsBattery(i64),
    StatsFreeheap(u64),
    StatsSupply(String),
}

/// A `DeviceUpdate` with its strings taken by their characters.
pub enum DeviceUpdateView {
    Name(Seq<char>),
    State(State),
    Implementation(Seq<char>),
    Extensions(Seq<ExtensionView>),
    LocalIp(Seq<char>),
    Mac(Seq<char>),
    FirmwareName(Seq<char>),
    FirmwareVersion(Seq<char>),
    StatsInterval(u64),
    StatsUptime(u64),
    StatsSignal(i64),
    StatsCputemp(Seq<char>),
    StatsCpuload(i64),
    StatsBattery(i64),
    StatsFreeheap(u64),
    StatsSupply(Seq<char>),
}

impl View for DeviceUpdate {
    type V = DeviceUpdateView;

    open spec fn view(&self) -> DeviceUpdateView {
        match self {
            DeviceUpdate::Name(v) => DeviceUpdateView::Name(v@),
            DeviceUpdate::State(v) => DeviceUpdateView::State(*v),
            DeviceUpdate::Implementation(v) => DeviceUpdateView::Implementation(v@),
            DeviceUpdate::Extensions(v) => DeviceUpdateView::Extensions(v@.map_values(|e: Extension| e@)),
            DeviceUpdate::LocalIp(v) => DeviceUpdateView::LocalIp(v@),
            DeviceUpdate::Mac(v) => DeviceUpdateView::Mac(v@),
            DeviceUpdate::FirmwareName(v) => DeviceUpdateView::FirmwareName(v@),
            DeviceUpdate::FirmwareVersion(v) => DeviceUpdateView::FirmwareVersion(v@),
            DeviceUpdate::StatsInterval(v) => DeviceUpdateView::StatsInterval(*v),
            DeviceUpdate::StatsUptime(v) => DeviceUpdateView::StatsUptime(*v),
            DeviceUpdate::StatsSignal(v) => DeviceUpdateView::StatsSignal(*v),
            DeviceUpdate::StatsCputemp(v) => DeviceUpdateView::StatsCputemp(v@),
            DeviceUpdate::StatsCpuload(v) => DeviceUpdateView::StatsCpuload(*v),
            DeviceUpdate::StatsBattery(v) => DeviceUpdateView::StatsBattery(*v),
            DeviceUpdate::StatsFreeheap(v) => DeviceUpdateView::StatsFreeheap(*v),
            DeviceUpdate::StatsSupply(v) => DeviceUpdateView::StatsSupply(v@),
        }
    }
}

/// The device with one attribute changed.
pub open spec fn updated_device(d: DeviceView, u: DeviceUpdateView) -> DeviceView {
    match u {
        DeviceUpdateView::Name(v) => DeviceView { name: Some(v), ..d },
        DeviceUpdateView::State(v) => DeviceView { state: v, ..d },
        DeviceUpdateView::Implementation(v) => DeviceView { implementation: Some(v), ..d },
        DeviceUpdateView::Extensions(v) => DeviceView { extensions: v, ..d },
        DeviceUpdateView::LocalIp(v) => DeviceView { local_ip: Some(v), ..d },
        DeviceUpdateView::Mac(v) => DeviceView { mac: Some(v), ..d },
        DeviceUpdateView::FirmwareName(v) => DeviceView { firmware_name: Some(v), ..d },
        DeviceUpdateView::FirmwareVersion(v) => DeviceView { firmware_version: Some(v), ..d },
        DeviceUpdateView::StatsInterval(v) => DeviceView { stats_interval: Some(v), ..d },
        DeviceUpdateView::StatsUptime(v) => DeviceView { stats_uptime: Some(v), ..d },
        DeviceUpdateView::StatsSignal(v) => DeviceView { stats_signal: Some(v), ..d },
        DeviceUpdateView::StatsCputemp(v) => DeviceView { stats_cputemp: Some(v), ..d },
        DeviceUpdateView::StatsCpuload(v) => DeviceView { stats_cpuload: Some(v), ..d },
        DeviceUpdateView::StatsBattery(v) => DeviceView { stats_battery: Some(v), ..d },
        DeviceUpdateView::StatsFreeheap(v) => DeviceView { stats_freeheap: Some(v), ..d },
        DeviceUpdateView::StatsSupply(v) => DeviceView { stats_supply: Some(v), ..d },
    }
}

impl DeviceUpdate {
    /// Makes the change on the given device.
    fn apply(self, d: &mut Device)
        ensures
            final(d)@ == updated_device(old(d)@, self@),
    {
        match self {
            DeviceUpdate::Name(v) => { d.name = Some(v); },
            DeviceUpdate::State(v) => { d.state = v; },
            DeviceUpdate::Implementation(v) => { d.implementation = Some(v); },
            DeviceUpdate::Extensions(v) => { d.extensions = v; },
            DeviceUpdate::LocalIp(v) => { d.local_ip = Some(v); },
            DeviceUpdate::Mac(v) => { d.mac = Some(v); },
            DeviceUpdate::FirmwareName(v) => { d.firmware_name = Some(v); },
            DeviceUpdate::FirmwareVersion(v) => { d.firmware_version = Some(v); },
            DeviceUpdate::StatsInterval(v) => { d.stats_interval = Some(v); },
            DeviceUpdate::StatsUptime(v) => { d.stats_uptime = Some(v); },
            DeviceUpdate::StatsSignal(v) => { d.stats_signal = Some(v); },
            DeviceUpdate::StatsCputemp(v) => { d.stats_cputemp = Some(v); },
            DeviceUpdate::StatsCpuload(v) => { d.stats_cpuload = Some(v); },
            DeviceUpdate::StatsBattery(v) => { d.stats_battery = Some(v); },
            DeviceUpdate::StatsFreeheap(v) => { d.stats_freeheap = Some(v); },
            DeviceUpdate::StatsSupply(v) => { d.stats_supply = Some(v); },
        }
    }
}

/// A change of one attribute of a node, with the new value.
pub enum NodeUpdate {
    Name(String),
    Type(String),
}

/// A `NodeUpdate` with its strings taken by their characters.
pub enum NodeUpdateView {
    Name(Seq<char>),
    Type(Seq<char>),
}

impl View for NodeUpdate {
    type V = NodeUpdateView;

    open spec fn view(&self) -> NodeUpdateView {
        match self {
            NodeUpdate::Name(v) => NodeUpdateView::Name(v@),
            NodeUpdate::Type(v) => NodeUpdateView::Type(v@),
        }
    }
}

/// The node with one attribute changed.
pub open spec fn updated_node(n: NodeView, u: NodeUpdateView) -> NodeView {
    match u {
        NodeUpdateView::Name(v) => NodeView { name: Some(v), ..n },
        NodeUpdateView::Type(v) => NodeView { node_type: Some(v), ..n },
    }
}

impl NodeUpdate {
    /// Makes the change on the given node.
    fn apply(self, n: &mut Node)
        ensures
            final(n)@ == updated_node(old(n)@, self@),
    {
        match self {
            NodeUpdate::Name(v) => { n.name = Some(v); },
            NodeUpdate::Type(v) => { n.node_type = Some(v); },
        }
    }
}

/// A change of one attribute of a property, or of its value.
pub enum PropertyUpdate {
    Name(String),
    Datatype(Datatype),
    Unit(String),
    Format(String),
    Settable(bool),
    Retained(bool),
    Value(String),
}

/// A `PropertyUpdate` with its strings taken by their characters.
pub enum PropertyUpdateView {
    Name(Seq<char>),
    Datatype(Datatype),
    Unit(Seq<char>),
    Format(Seq<char>),
    Settable(bool),
    Retained(bool),
    Value(Seq<char>),
}

impl View for PropertyUpdate {
    type V = PropertyUpdateView;

    open spec fn view(&self) -> PropertyUpdateView {
        match self {
            PropertyUpdate::Name(v) => PropertyUpdateView::Name(v@),
            PropertyUpdate::Datatype(v) => PropertyUpdateView::Datatype(*v),
            PropertyUpdate::Unit(v) => PropertyUpdateView::Unit(v@),
            PropertyUpdate::Format(v) => PropertyUpdateView::Format(v@),
            PropertyUpdate::Settable(v) => PropertyUpdateView::Settable(*v),
            PropertyUpdate::Retained(v) => PropertyUpdateView::Retained(*v),
            PropertyUpdate::Value(v) => PropertyUpdateView::Value(v@),
        }
    }
}

/// The property with one attribute, or its value, changed.
pub open spec fn updated_property(p: PropertyView, u: PropertyUpdateView) -> PropertyView {
    match u {
        PropertyUpdateView::Name(v) => PropertyView { name: Some(v), ..p },
        PropertyUpdateView::Datatype(v) => PropertyView { datatype: Some(v), ..p },
        PropertyUpdateView::Unit(v) => PropertyView { unit: Some(v), ..p },
        PropertyUpdateView::Format(v) => PropertyView { format: Some(v), ..p },
        PropertyUpdateView::Settable(v) => PropertyView { settable: v, ..p },
        PropertyUpdateView::Retained(v) => PropertyView { retained: v, ..p },
        PropertyUpdateView::Value(v) => PropertyView { value: Some(v), ..p },
    }
}

impl PropertyUpdate {
    /// Makes the change on the given property.
    fn apply(self, p: &mut Property)
        ensures
            final(p)@ == updated_property(old(p)@, self@),
    {
        match self {
            PropertyUpdate::Name(v) => { p.name = Some(v); },
            PropertyUpdate::Datatype(v) => { p.datatype = Some(v); },
            PropertyUpdate::Unit(v) => { p.unit = Some(v); },
            PropertyUpdate::Format(v) => { p.format = Some(v); },
            PropertyUpdate::Settable(v) => { p.settable = v; },
            PropertyUpdate::Retained(v) => { p.retained = v; },
            PropertyUpdate::Value(v) => { p.value = Some(v); },
        }
    }
}

/// What handling a message gives: the new model and the response, or why it was refused.
pub type PublishOutcome = Result<(ControllerView, ResponseView), HandleErrorView>;

/// The outcome that a result of handling a message stands for, with the model it left.
pub open spec fn outcome_of(r: Result<PublishResponse, HandleError>, after: ControllerView) -> PublishOutcome {
    match r {
        Ok(resp) => Ok((after, resp@)),
        Err(e) => Err(e@),
    }
}

/// The model unchanged, with the given events and no change of subscriptions.
pub open spec fn respond(c: ControllerView, events: Seq<EventView>) -> PublishOutcome {
    Ok((c, ResponseView { events, topics_to_subscribe: Seq::empty(), topics_to_unsubscribe: Seq::empty() }))
}

/// The model with the device at `i` replaced.
pub open spec fn with_device(c: ControllerView, i: int, d: DeviceView) -> ControllerView {
    ControllerView { devices: c.devices.update(i, d), ..c }
}

/// The model with node `j` of device `i` replaced.
pub open spec fn with_node(c: ControllerView, i: int, j: int, n: NodeView) -> ControllerView {
    with_device(c, i, DeviceView { nodes: c.devices[i].nodes.update(j, n), ..c.devices[i] })
}

/// The model with property `k` of node `j` of device `i` replaced.
pub open spec fn with_property(c: ControllerView, i: int, j: int, k: int, p: PropertyView) -> ControllerView {
    with_node(c, i, j, NodeView { properties: c.devices[i].nodes[j].properties.update(k, p), ..c.devices[i].nodes[j] })
}

/// Where the device with the given ID is.
pub open spec fn device_path(c: ControllerView, d: Seq<char>) -> Result<int, HandleErrorView> {
    let i = find_id(device_ids(c.devices), d);
    if i < 0 {
        Err(HandleErrorView::UnknownDevice(d))
    } else {
        Ok(i)
    }
}

/// Where the node with the given device and node IDs is.
pub open spec fn node_path(c: ControllerView, d: Seq<char>, n: Seq<char>) -> Result<(int, int), HandleErrorView> {
    match device_path(c, d) {
        Err(e) => Err(e),
        Ok(i) => {
            let j = find_id(node_ids(c.devices[i].nodes), n);
            if j < 0 {
                Err(HandleErrorView::UnknownNode(d, n))
            } else {
                Ok((i, j))
            }
        },
    }
}

/// Where the property with the given device, node and property IDs is.
pub open spec fn property_path(c: ControllerView, d: Seq<char>, n: Seq<char>, p: Seq<char>) -> Result<(int, int, int), HandleErrorView> {
    match node_path(c, d, n) {
        Err(e) => Err(e),
        Ok((i, j)) => {
            let k = find_id(property_ids(c.devices[i].nodes[j].properties), p);
            if k < 0 {
                Err(HandleErrorView::UnknownProperty(d, n, p))
            } else {
                Ok((i, j, k))
            }
        },
    }
}

/// Changing an attribute of a known device: the change, and an event for the device.
pub open spec fn device_update_spec(c: ControllerView, d: Seq<char>, u: DeviceUpdateView) -> PublishOutcome {
    match device_path(c, d) {
        Err(e) => Err(e),
        Ok(i) => {
            let dv = updated_device(c.devices[i], u);
            respond(
                with_device(c, i, dv),
                seq![EventView::DeviceUpdated { device_id: dv.id, has_required_attributes: device_complete(dv) }],
            )
        },
    }
}

/// Changing an attribute of a known node: the change, and an event for the node.
pub open spec fn node_update_spec(c: ControllerView, d: Seq<char>, n: Seq<char>, u: NodeUpdateView) -> PublishOutcome {
    match node_path(c, d, n) {
        Err(e) => Err(e),
        Ok((i, j)) => {
            let nv = updated_node(c.devices[i].nodes[j], u);
            respond(
                with_node(c, i, j, nv),
                seq![EventView::NodeUpdated { device_id: d, node_id: nv.id, has_required_attributes: node_complete(nv) }],
            )
        },
    }
}

/// Changing an attribute of a known property: the change, and an event for the property.
pub open spec fn property_update_spec(c: ControllerView, d: Seq<char>, n: Seq<char>, p: Seq<char>, u: PropertyUpdateView) -> PublishOutcome {
    match property_path(c, d, n, p) {
        Err(e) => Err(e),
        Ok((i, j, k)) => {
            let pv = updated_property(c.devices[i].nodes[j].properties[k], u);
            respond(
                with_property(c, i, j, k, pv),
                seq![EventView::PropertyUpdated {
                    device_id: d,
                    node_id: n,
                    property_id: pv.id,
                    has_required_attributes: property_complete(pv),
                }],
            )
        },
    }
}

/// A response with one event and no change of subscriptions.
fn single_event(e: Event) -> (r: PublishResponse)
    ensures
        r@ == (ResponseView { events: seq![e@], topics_to_subscribe: Seq::empty(), topics_to_unsubscribe: Seq::empty() }),
{
    let mut events: Vec<Event> = Vec::new();
    events.push(e);
    let r = PublishResponse { events, topics_to_subscribe: Vec::new(), topics_to_unsubscribe: Vec::new() };
    assert(r@.events =~= seq![e@]);
    assert(r@.topics_to_subscribe =~= Seq::<Seq<char>>::empty());
    assert(r@.topics_to_unsubscribe =~= Seq::<Seq<char>>::empty());
    r
}

/// A response with no event and no change of subscriptions.
fn no_response() -> (r: PublishResponse)
    ensures
        r@ == (ResponseView { events: Seq::empty(), topics_to_subscribe: Seq::empty(), topics_to_unsubscribe: Seq::empty() }),
{
    let r = PublishResponse { events: Vec::new(), topics_to_subscribe: Vec::new(), topics_to_unsubscribe: Vec::new() };
    assert(r@.events =~= Seq::<EventView>::empty());
    assert(r@.topics_to_subscribe =~= Seq::<Seq<char>>::empty());
    assert(r@.topics_to_unsubscribe =~= Seq::<Seq<char>>::empty());
    r
}

impl HomieController {
    /// Where the device with the given ID is.
    fn device_index(&self, d: &str) -> (r: Result<usize, HandleError>)
        ensures
            match r {
                Ok(i) => i < self.devices@.len() && device_path(self@, d@) == Ok::<int, HandleErrorView>(i as int),
                Err(e) => device_path(self@, d@) == Err::<int, HandleErrorView>(e@),
            },
    {
        match find_device(&self.devices, d) {
            Some(i) => Ok(i),
            None => Err(HandleError::UnknownDevice(d.to_owned())),
        }
    }

    /// Where the node with the given device and node IDs is.
    fn node_index(&self, d: &str, n: &str) -> (r: Result<(usize, usize), HandleError>)
        ensures
            match r {
                Ok((i, j)) => i < self.devices@.len() && j < self.devices@[i as int].nodes@.len()
                    && node_path(self@, d@, n@) == Ok::<(int, int), HandleErrorView>((i as int, j as int)),
                Err(e) => node_path(self@, d@, n@) == Err::<(int, int), HandleErrorView>(e@),
            },
    {
        let i = match self.device_index(d) {
            Ok(i) => i,
            Err(e) => return Err(e),
        };
        assert(self@.devices[i as int] == self.devices@[i as int]@);
        assert(node_views(self.devices@[i as int].nodes@) == self@.devices[i as int].nodes);
        match find_node(&self.devices[i].nodes, n) {
            Some(j) => Ok((i, j)),
            None => Err(HandleError::UnknownNode(d.to_owned(), n.to_owned())),
        }
    }

    /// Where the property with the given device, node and property IDs is.
    fn property_index(&self, d: &str, n: &str, p: &str) -> (r: Result<(usize, usize, usize), HandleError>)
        ensures
            match r {
                Ok((i, j, k)) => i < self.devices@.len() && j < self.devices@[i as int].nodes@.len()
                    && k < self.devices@[i as int].nodes@[j as int].properties@.len()
                    && property_path(self@, d@, n@, p@) == Ok::<(int, int, int), HandleErrorView>((i as int, j as int, k as int)),
                Err(e) => property_path(self@, d@, n@, p@) == Err::<(int, int, int), HandleErrorView>(e@),
            },
    {
        let (i, j) = match self.node_index(d, n) {
            Ok(ij) => ij,
            Err(e) => return Err(e),
        };
        assert(self@.devices[i as int] == self.devices@[i as int]@);
        assert(self@.devices[i as int].nodes[j as int] == self.devices@[i as int].nodes@[j as int]@);
        assert(property_views(self.devices@[i as int].nodes@[j as int].properties@) == self@.devices[i as int].nodes[j as int].properties);
        match find_property(&self.devices[i].nodes[j].properties, p) {
            Some(k) => Ok((i, j, k)),
            None => Err(HandleError::UnknownProperty(d.to_owned(), n.to_owned(), p.to_owned())),
        }
    }

    /// Changes an attribute of a known device.
    fn update_device(&mut self, d: &str, u: DeviceUpdate) -> (r: Result<PublishResponse, HandleError>)
        ensures
            outcome_of(r, final(self)@) == device_update_spec(old(self)@, d@, u@),
            r is Err ==> final(self)@ == old(self)@,
    {
        let i = match self.device_index(d) {
            Ok(i) => i,
            Err(e) => return Err(e),
        };
        let ghost before = self.devices@;
        let ghost uv = u@;
        let dev = &mut self.devices[i];
        u.apply(dev);
        let ev = Event::device_updated(dev);
        proof {
            assert(device_views(self.devices@) =~= device_views(before).update(i as int, self.devices@[i as int]@));
        }
        Ok(single_event(ev))
    }

    /// Changes an attribute of a known node.
    fn update_node(&mut self, d: &str, n: &str, u: NodeUpdate) -> (r: Result<PublishResponse, HandleError>)
        ensures
            outcome_of(r, final(self)@) == node_update_spec(old(self)@, d@, n@, u@),
            r is Err ==> final(self)@ == old(self)@,
    {
        let (i, j) = match self.node_index(d, n) {
            Ok(ij) => ij,
            Err(e) => return Err(e),
        };
        let ghost before = self.devices@;
        let ghost nodes_before = self.devices@[i as int].nodes@;
        let dev = &mut self.devices[i];
        let node = &mut dev.nodes[j];
        u.apply(node);
        let ev = Event::node_updated(d, node);
        proof {
            assert(node_views(self.devices@[i as int].nodes@) =~= node_views(nodes_before).update(j as int, self.devices@[i as int].nodes@[j as int]@));
            assert(device_views(self.devices@) =~= device_views(before).update(i as int, self.devices@[i as int]@));
        }
        Ok(single_event(ev))
    }

    /// Changes an attribute, or the value, of a known property.
    fn update_property(&mut self, d: &str, n: &str, p: &str, u: PropertyUpdate) -> (r: Result<PublishResponse, HandleError>)
        ensures
            outcome_of(r, final(self)@) == property_update_spec(old(self)@, d@, n@, p@, u@),
            r is Err ==> final(self)@ == old(self)@,
    {
        let (i, j, k) = match self.property_index(d, n, p) {
            Ok(ijk) => ijk,
            Err(e) => return Err(e),
        };
        let ghost before = self.devices@;
        let ghost nodes_before = self.devices@[i as int].nodes@;
        let ghost props_before = self.devices@[i as int].nodes@[j as int].properties@;
        let dev = &mut self.devices[i];
        let node = &mut dev.nodes[j];
        let prop = &mut node.properties[k];
        u.apply(prop);
        let ev = Event::property_updated(d, n, prop);
        proof {
            let ps = self.devices@[i as int].nodes@[j as int].properties@;
            assert(property_views(ps) =~= property_views(props_before).update(k as int, ps[k as int]@));
            assert(node_views(self.devices@[i as int].nodes@) =~= node_views(nodes_before).update(j as int, self.devices@[i as int].nodes@[j as int]@));
            assert(device_views(self.devices@) =~= device_views(before).update(i as int, self.devices@[i as int]@));
        }
        Ok(single_event(ev))
    }
}

/// A `$homie` message: a device not yet known is discovered, with the payload as its Homie
/// version, and its topics are subscribed to; a known device is left as it is.
pub open spec fn homie_spec(c: ControllerView, d: Seq<char>, payload: Seq<char>) -> PublishOutcome {
    if find_id(device_ids(c.devices), d) >= 0 {
        respond(c, Seq::empty())
    } else {
        Ok((
            ControllerView { devices: c.devices.push(new_device_view(d, payload)), ..c },
            ResponseView {
                events: seq![EventView::DeviceUpdated { device_id: d, has_required_attributes: false }],
                topics_to_subscribe: seq![
                    topic(seq![c.base_topic, d, "+"@]),
                    topic(seq![c.base_topic, d, "$fw"@, "+"@]),
                    topic(seq![c.base_topic, d, "$stats"@, "+"@]),
                ],
                topics_to_unsubscribe: Seq::empty(),
            },
        ))
    }
}

/// The pairs with the value for `k` set to `v`: replacing the first pair with that key, or
/// added at the end.
pub open spec fn early_insert(es: Seq<(Seq<char>, Seq<char>)>, k: Seq<char>, v: Seq<char>) -> Seq<(Seq<char>, Seq<char>)> {
    let i = find_id(keys_of(es), k);
    if i >= 0 {
        es.update(i, (k, v))
    } else {
        es.push((k, v))
    }
}

/// A property value: a known property takes it, with an event that says whether it is fresh
/// (not retained). A retained value for a property not yet known is kept under its subtopic
/// until the node lists the property; any other value for an unknown property is refused.
pub open spec fn value_spec(
    c: ControllerView,
    subtopic: Seq<char>,
    d: Seq<char>,
    n: Seq<char>,
    p: Seq<char>,
    payload: Seq<char>,
    retain: bool,
) -> PublishOutcome {
    match property_path(c, d, n, p) {
        Ok((i, j, k)) => {
            let pv = updated_property(c.devices[i].nodes[j].properties[k], PropertyUpdateView::Value(payload));
            respond(
                with_property(c, i, j, k, pv),
                seq![EventView::PropertyValueChanged { device_id: d, node_id: n, property_id: pv.id, value: payload, fresh: !retain }],
            )
        },
        Err(e) => if retain {
            respond(
                ControllerView { early_property_values: early_insert(c.early_property_values, subtopic, payload), ..c },
                Seq::empty(),
            )
        } else {
            Err(e)
        },
    }
}

/// The extension that a string describes, if it is one.
pub open spec fn extension_view(s: Seq<char>) -> Option<ExtensionView> {
    match extension_spec(s) {
        Some((id, version, homie_versions)) => Some(ExtensionView { id, version, homie_versions }),
        None => None,
    }
}

/// The extensions that the parts describe, or the first part that is not an extension.
pub open spec fn extensions_spec(parts: Seq<Seq<char>>) -> Result<Seq<ExtensionView>, Seq<char>>
    decreases parts.len(),
{
    if parts.len() == 0 {
        Ok(Seq::empty())
    } else {
        match extensions_spec(parts.drop_last()) {
            Err(b) => Err(b),
            Ok(es) => match extension_view(parts.last()) {
                None => Err(parts.last()),
                Some(e) => Ok(es.push(e)),
            },
        }
    }
}

/// Once a prefix of the parts holds one that is not an extension, so do the parts.
proof fn lemma_extensions_prefix_err(parts: Seq<Seq<char>>, i: int)
    requires
        0 <= i <= parts.len(),
        extensions_spec(parts.take(i)) is Err,
    ensures
        extensions_spec(parts) == extensions_spec(parts.take(i)),
    decreases parts.len(),
{
    if i == parts.len() {
        assert(parts.take(i) =~= parts);
    } else {
        let t = parts.drop_last();
        assert(t.take(i) =~= parts.take(i));
        lemma_extensions_prefix_err(t, i);
    }
}

/// A `$extensions` message for a known device: the payload split on ',' must be all
/// extensions, which become the device's.
pub open spec fn extensions_arm_spec(c: ControllerView, d: Seq<char>, payload: Seq<char>) -> PublishOutcome {
    match device_path(c, d) {
        Err(e) => Err(e),
        Ok(_) => match extensions_spec(split_spec(payload, ',')) {
            Err(b) => Err(HandleErrorView::InvalidExtension(b)),
            Ok(es) => device_update_spec(c, d, DeviceUpdateView::Extensions(es)),
        },
    }
}

/// Parses the extensions separated by ',' in a payload.
fn parse_extensions(payload: &str) -> (r: Result<Vec<Extension>, HandleError>)
    ensures
        match r {
            Ok(v) => extensions_spec(split_spec(payload@, ',')) == Ok::<Seq<ExtensionView>, Seq<char>>(v@.map_values(|e: Extension| e@)),
            Err(e) => extensions_spec(split_spec(payload@, ',')) is Err
                && e@ == HandleErrorView::InvalidExtension(extensions_spec(split_spec(payload@, ','))->Err_0),
        },
{
    let parts = split_str(payload, ',');
    let ghost pv = split_spec(payload@, ',');
    let mut exts: Vec<Extension> = Vec::new();
    let mut i: usize = 0;
    assert(pv.take(0) =~= Seq::<Seq<char>>::empty());
    assert(exts@.map_values(|e: Extension| e@) =~= Seq::<ExtensionView>::empty());
    while i < parts.len()
        invariant
            i <= parts@.len(),
            pv == split_spec(payload@, ','),
            parts@.len() == pv.len(),
            forall|m: int| 0 <= m < parts@.len() ==> #[trigger] parts@[m]@ == pv[m],
            extensions_spec(pv.take(i as int)) == Ok::<Seq<ExtensionView>, Seq<char>>(exts@.map_values(|e: Extension| e@)),
        decreases parts@.len() - i,
    {
        assert(pv.take(i + 1).drop_last() =~= pv.take(i as int));
        assert(pv.take(i + 1).last() == parts@[i as int]@);
        match Extension::from_text(parts[i]) {
            Ok(e) => {
                let ghost before = exts@;
                exts.push(e);
                proof {
                    let (_, _, vs) = extension_spec(parts@[i as int]@)->0;
                    assert(e@.homie_versions =~= vs);
                }
                assert(exts@.map_values(|e: Extension| e@) =~= before.map_values(|e: Extension| e@).push(e@));
            },
            Err(_) => {
                proof { lemma_extensions_prefix_err(pv, i + 1); }
                return Err(HandleError::InvalidExtension(parts[i].to_owned()));
            },
        }
        i = i + 1;
    }
    assert(pv.take(i as int) =~= pv);
    Ok(exts)
}

impl HomieController {
    /// A `$homie` message.
    fn discover_device(&mut self, d: &str, payload: &str) -> (r: Result<PublishResponse, HandleError>)
        ensures
            outcome_of(r, final(self)@) == homie_spec(old(self)@, d@, payload@),
            r is Ok,
    {
        match find_device(&self.devices, d) {
            Some(_) => Ok(no_response()),
            None => {
                let ghost before = self.devices@;
                let dev = Device::new(d, payload);
                self.devices.push(dev);
                assert(device_views(self.devices@) =~= device_views(before).push(new_device_view(d@, payload@)));
                let mut events: Vec<Event> = Vec::new();
                events.push(Event::DeviceUpdated { device_id: d.to_owned(), has_required_attributes: false });
                let mut subs: Vec<String> = Vec::new();
                subs.push(topic3(self.base_topic.as_str(), d, "+"));
                subs.push(topic4(self.base_topic.as_str(), d, "$fw", "+"));
                subs.push(topic4(self.base_topic.as_str(), d, "$stats", "+"));
                let r = PublishResponse { events, topics_to_subscribe: subs, topics_to_unsubscribe: Vec::new() };
                assert(r@.events =~= seq![EventView::DeviceUpdated { device_id: d@, has_required_attributes: false }]);
                assert(r@.topics_to_subscribe =~= seq![
                    topic(seq![self@.base_topic, d@, "+"@]),
                    topic(seq![self@.base_topic, d@, "$fw"@, "+"@]),
                    topic(seq![self@.base_topic, d@, "$stats"@, "+"@]),
                ]);
                assert(r@.topics_to_unsubscribe =~= Seq::<Seq<char>>::empty());
                Ok(r)
            },
        }
    }

    /// Keeps a retained value whose property is not known yet.
    fn keep_early_value(&mut self, key: &str, value: &str)
        ensures
            final(self)@ == (ControllerView {
                early_property_values: early_insert(old(self)@.early_property_values, key@, value@),
                ..old(self)@
            }),
    {
        let ghost before = self.early_property_values@;
        match find_key(&self.early_property_values, key) {
            Some(i) => {
                self.early_property_values.set(i, (key.to_owned(), value.to_owned()));
                assert(pair_views(self.early_property_values@) =~= pair_views(before).update(i as int, (key@, value@)));
            },
            None => {
                self.early_property_values.push((key.to_owned(), value.to_owned()));
                assert(pair_views(self.early_property_values@) =~= pair_views(before).push((key@, value@)));
            },
        }
    }

    /// A property value.
    fn take_value(&mut self, subtopic: &str, d: &str, n: &str, p: &str, payload: &str, retain: bool) -> (r: Result<PublishResponse, HandleError>)
        ensures
            outcome_of(r, final(self)@) == value_spec(old(self)@, subtopic@, d@, n@, p@, payload@, retain),
            r is Err ==> final(self)@ == old(self)@,
    {
        match self.property_index(d, n, p) {
            Ok((i, j, k)) => {
                let ghost before = self.devices@;
                let ghost nodes_before = self.devices@[i as int].nodes@;
                let ghost props_before = self.devices@[i as int].nodes@[j as int].properties@;
                let dev = &mut self.devices[i];
                let node = &mut dev.nodes[j];
                let prop = &mut node.properties[k];
                PropertyUpdate::Value(payload.to_owned()).apply(prop);
                let ev = Event::property_value(d, n, prop, !retain);
                proof {
                    let ps = self.devices@[i as int].nodes@[j as int].properties@;
                    assert(property_views(ps) =~= property_views(props_before).update(k as int, ps[k as int]@));
                    assert(node_views(self.devices@[i as int].nodes@) =~= node_views(nodes_before).update(j as int, self.devices@[i as int].nodes@[j as int]@));
                    assert(device_views(self.devices@) =~= device_views(before).update(i as int, self.devices@[i as int]@));
                }
                Ok(single_event(ev))
            },
            Err(e) => {
                if retain {
                    self.keep_early_value(subtopic, payload);
                    Ok(no_response())
                } else {
                    Err(e)
                }
            },
        }
    }

    /// A `$extensions` message.
    fn take_extensions(&mut self, d: &str, payload: &str) -> (r: Result<PublishResponse, HandleError>)
        ensures
            outcome_of(r, final(self)@) == extensions_arm_spec(old(self)@, d@, payload@),
            r is Err ==> final(self)@ == old(self)@,
    {
        match self.device_index(d) {
            Ok(_) => {},
            Err(e) => return Err(e),
        }
        match parse_extensions(payload) {
            Ok(exts) => self.update_device(d, DeviceUpdate::Extensions(exts)),
            Err(e) => Err(e),
        }
    }
}

/// The characters of each string slice.
pub open spec fn strs_view(v: Seq<&str>) -> Seq<Seq<char>> {
    v.map_values(|x: &str| x@)
}

/// The characters of each string.
pub open spec fn strings_view(v: Seq<String>) -> Seq<Seq<char>> {
    v.map_values(|x: String| x@)
}

/// A node just listed by its device: only its ID known.
pub open spec fn new_node_view(id: Seq<char>) -> NodeView {
    NodeView { id, name: None, node_type: None, properties: Seq::empty() }
}

/// Whether `id` is among `ids`.
pub open spec fn listed(ids: Seq<Seq<char>>, id: Seq<char>) -> bool {
    find_id(ids, id) >= 0
}

/// The nodes whose IDs are listed, in their order.
pub open spec fn kept_nodes(ns: Seq<NodeView>, ids: Seq<Seq<char>>) -> Seq<NodeView>
    decreases ns.len(),
{
    if ns.len() == 0 {
        Seq::empty()
    } else {
        let k = kept_nodes(ns.drop_last(), ids);
        if listed(ids, ns.last().id) {
            k.push(ns.last())
        } else {
            k
        }
    }
}

/// The topics of the given properties of node `n` of device `d`.
pub open spec fn property_topics(base: Seq<char>, d: Seq<char>, n: Seq<char>, ps: Seq<PropertyView>) -> Seq<Seq<char>> {
    ps.map_values(|p: PropertyView| topic(seq![base, d, n, p.id, "+"@]))
}

/// The topics to leave for the nodes that are not listed: for each, the node's topic and
/// then those of its properties.
pub open spec fn removed_node_topics(base: Seq<char>, d: Seq<char>, ns: Seq<NodeView>, ids: Seq<Seq<char>>) -> Seq<Seq<char>>
    decreases ns.len(),
{
    if ns.len() == 0 {
        Seq::empty()
    } else {
        let t = removed_node_topics(base, d, ns.drop_last(), ids);
        let n = ns.last();
        if listed(ids, n.id) {
            t
        } else {
            t + seq![topic(seq![base, d, n.id, "+"@])] + property_topics(base, d, n.id, n.properties)
        }
    }
}

/// Adds, in their order, the listed nodes that are not there yet, each with a subscription
/// to its topic.
pub open spec fn added_nodes(ns: Seq<NodeView>, subs: Seq<Seq<char>>, base: Seq<char>, d: Seq<char>, ids: Seq<Seq<char>>) -> (Seq<NodeView>, Seq<Seq<char>>)
    decreases ids.len(),
{
    if ids.len() == 0 {
        (ns, subs)
    } else {
        let (ns1, subs1) = added_nodes(ns, subs, base, d, ids.drop_last());
        let id = ids.last();
        if listed(node_ids(ns1), id) {
            (ns1, subs1)
        } else {
            (ns1.push(new_node_view(id)), subs1.push(topic(seq![base, d, id, "+"@])))
        }
    }
}

/// A `$nodes` message for a known device: the nodes not listed in the payload (split on ',')
/// are removed and their topics left, the listed ones not there yet are added and their topics
/// subscribed to, and an event for the device follows.
pub open spec fn nodes_spec(c: ControllerView, d: Seq<char>, payload: Seq<char>) -> PublishOutcome {
    match device_path(c, d) {
        Err(e) => Err(e),
        Ok(i) => {
            let ids = split_spec(payload, ',');
            let dv = c.devices[i];
            let (ns, subs) = added_nodes(kept_nodes(dv.nodes, ids), Seq::empty(), c.base_topic, d, ids);
            let dv2 = DeviceView { nodes: ns, ..dv };
            Ok((
                with_device(c, i, dv2),
                ResponseView {
                    events: seq![EventView::DeviceUpdated { device_id: dv2.id, has_required_attributes: device_complete(dv2) }],
                    topics_to_subscribe: subs,
                    topics_to_unsubscribe: removed_node_topics(c.base_topic, d, dv.nodes, ids),
                },
            ))
        },
    }
}

/// Appends the topics of the given properties of node `n` of device `d`.
fn push_property_topics(topics: &mut Vec<String>, base: &str, d: &str, n: &str, props: &Vec<Property>)
    ensures
        strings_view(final(topics)@) == strings_view(old(topics)@) + property_topics(base@, d@, n@, property_views(props@)),
{
    let ghost start = strings_view(topics@);
    let mut i: usize = 0;
    assert(property_topics(base@, d@, n@, property_views(props@.take(0))) =~= Seq::<Seq<char>>::empty());
    assert(start + Seq::<Seq<char>>::empty() =~= start);
    while i < props.len()
        invariant
            i <= props@.len(),
            start == strings_view(old(topics)@),
            strings_view(topics@) == start + property_topics(base@, d@, n@, property_views(props@.take(i as int))),
        decreases props@.len() - i,
    {
        let ghost before = strings_view(topics@);
        let t = topic5(base, d, n, props[i].id.as_str(), "+");
        topics.push(t);
        assert(strings_view(topics@) =~= before.push(t@));
        assert(property_topics(base@, d@, n@, property_views(props@.take(i + 1)))
            =~= property_topics(base@, d@, n@, property_views(props@.take(i as int))).push(t@));
        i = i + 1;
    }
    assert(props@.take(i as int) =~= props@);
}

/// Keeps the nodes whose IDs are listed, and appends the topics to leave for the others.
fn retain_nodes(nodes: Vec<Node>, ids: &Vec<&str>, base: &str, d: &str, unsub: &mut Vec<String>) -> (kept: Vec<Node>)
    ensures
        node_views(kept@) == kept_nodes(node_views(nodes@), strs_view(ids@)),
        strings_view(final(unsub)@) == strings_view(old(unsub)@) + removed_node_topics(base@, d@, node_views(nodes@), strs_view(ids@)),
{
    let ghost orig = nodes@;
    let ghost idv = strs_view(ids@);
    let ghost start = strings_view(unsub@);
    let mut rest = nodes;
    let mut kept: Vec<Node> = Vec::new();
    let ghost mut k: int = 0;
    assert(orig.take(0) =~= Seq::<Node>::empty());
    assert(node_views(orig.take(0)) =~= Seq::<NodeView>::empty());
    assert(node_views(kept@) =~= Seq::<NodeView>::empty());
    assert(start + Seq::<Seq<char>>::empty() =~= start);
    assert(rest@ =~= orig.subrange(0, orig.len() as int));
    while rest.len() > 0
        invariant
            0 <= k <= orig.len(),
            rest@ == orig.subrange(k, orig.len() as int),
            idv == strs_view(ids@),
            start == strings_view(old(unsub)@),
            node_views(kept@) == kept_nodes(node_views(orig.take(k)), idv),
            strings_view(unsub@) == start + removed_node_topics(base@, d@, node_views(orig.take(k)), idv),
        decreases rest@.len(),
    {
        let node = rest.remove(0);
        assert(node == orig[k]);
        let ghost prefix = node_views(orig.take(k));
        let ghost prefix1 = node_views(orig.take(k + 1));
        assert(prefix1.drop_last() =~= prefix);
        assert(prefix1.last() == node@);
        let ghost kept_before = node_views(kept@);
        let ghost unsub_before = strings_view(unsub@);
        let present = find_str(ids, node.id.as_str()).is_some();
        if present {
            kept.push(node);
            assert(node_views(kept@) =~= kept_before.push(node@));
        } else {
            let t = topic4(base, d, node.id.as_str(), "+");
            unsub.push(t);
            push_property_topics(unsub, base, d, node.id.as_str(), &node.properties);
            assert(strings_view(unsub@) =~= unsub_before + seq![t@] + property_topics(base@, d@, node@.id, node@.properties));
        }
        proof {
            k = k + 1;
        }
        assert(rest@ =~= orig.subrange(k, orig.len() as int));
    }
    assert(orig.take(k) =~= orig);
    kept
}

/// Adds the listed nodes that are not there yet, and gives the topics to subscribe to for them.
fn add_listed_nodes(kept: &mut Vec<Node>, ids: &Vec<&str>, base: &str, d: &str) -> (subs: Vec<String>)
    ensures
        (node_views(final(kept)@), strings_view(subs@)) == added_nodes(node_views(old(kept)@), Seq::empty(), base@, d@, strs_view(ids@)),
{
    let ghost idv = strs_view(ids@);
    let mut subs: Vec<String> = Vec::new();
    let mut m: usize = 0;
    assert(idv.take(0) =~= Seq::<Seq<char>>::empty());
    assert(strings_view(subs@) =~= Seq::<Seq<char>>::empty());
    while m < ids.len()
        invariant
            m <= ids@.len(),
            idv == strs_view(ids@),
            (node_views(kept@), strings_view(subs@)) == added_nodes(node_views(old(kept)@), Seq::empty(), base@, d@, idv.take(m as int)),
        decreases ids@.len() - m,
    {
        let id = ids[m];
        assert(idv.take(m + 1).drop_last() =~= idv.take(m as int));
        assert(idv.take(m + 1).last() == id@);
        let ghost kept_before = node_views(kept@);
        let ghost subs_before = strings_view(subs@);
        assert(node_ids(node_views(kept@)) =~= node_ids(kept_before));
        match find_node(kept, id) {
            Some(_) => {},
            None => {
                let node = Node::new(id);
                assert(node@.properties =~= Seq::<PropertyView>::empty());
                kept.push(node);
                let t = topic4(base, d, id, "+");
                subs.push(t);
                assert(node_views(kept@) =~= kept_before.push(new_node_view(id@)));
                assert(strings_view(subs@) =~= subs_before.push(t@));
            },
        }
        m = m + 1;
    }
    assert(idv.take(m as int) =~= idv);
    subs
}

/// The slices that splitting a payload on ',' gives.
fn split_list(payload: &str) -> (ids: Vec<&str>)
    ensures
        strs_view(ids@) == split_spec(payload@, ','),
{
    let ids = split_str(payload, ',');
    assert(strs_view(ids@) =~= split_spec(payload@, ','));
    ids
}

impl HomieController {
    /// A `$nodes` message.
    fn take_nodes(&mut self, d: &str, payload: &str) -> (r: Result<PublishResponse, HandleError>)
        ensures
            outcome_of(r, final(self)@) == nodes_spec(old(self)@, d@, payload@),
            r is Err ==> final(self)@ == old(self)@,
    {
        let ids = split_list(payload);
        let i = match self.device_index(d) {
            Ok(i) => i,
            Err(e) => return Err(e),
        };
        let base = self.base_topic.clone();
        let ghost before = self.devices@;
        let mut nodes: Vec<Node> = Vec::new();
        let dev = &mut self.devices[i];
        std::mem::swap(&mut dev.nodes, &mut nodes);
        let mut unsub: Vec<String> = Vec::new();
        let mut kept = retain_nodes(nodes, &ids, base.as_str(), d, &mut unsub);
        let subs = add_listed_nodes(&mut kept, &ids, base.as_str(), d);
        let dev = &mut self.devices[i];
        dev.nodes = kept;
        let ev = Event::device_updated(dev);
        proof {
            assert(device_views(self.devices@) =~= device_views(before).update(i as int, self.devices@[i as int]@));
        }
        let mut events: Vec<Event> = Vec::new();
        events.push(ev);
        let r = PublishResponse { events, topics_to_subscribe: subs, topics_to_unsubscribe: unsub };
        assert(r@.events =~= seq![ev@]);
        assert(strings_view(Seq::<String>::empty()) =~= Seq::<Seq<char>>::empty());
        assert(Seq::<Seq<char>>::empty() + removed_node_topics(base@, d@, node_views(nodes@), strs_view(ids@))
            =~= removed_node_topics(base@, d@, node_views(nodes@), strs_view(ids@)));
        Ok(r)
    }
}

/// A property just listed by its node: only its ID known, not settable, retained.
pub open spec fn new_property_view(id: Seq<char>) -> PropertyView {
    PropertyView {
        id,
        name: None,
        datatype: None,
        settable: false,
        retained: true,
        unit: None,
        format: None,
        value: None,
    }
}

/// The properties whose IDs are listed, in their order.
pub open spec fn kept_properties(ps: Seq<PropertyView>, ids: Seq<Seq<char>>) -> Seq<PropertyView>
    decreases ps.len(),
{
    if ps.len() == 0 {
        Seq::empty()
    } else {
        let k = kept_properties(ps.drop_last(), ids);
        if listed(ids, ps.last().id) {
            k.push(ps.last())
        } else {
            k
        }
    }
}

/// The topics to leave for the properties of node `n` that are not listed.
pub open spec fn removed_property_topics(base: Seq<char>, d: Seq<char>, n: Seq<char>, ps: Seq<PropertyView>, ids: Seq<Seq<char>>) -> Seq<Seq<char>>
    decreases ps.len(),
{
    if ps.len() == 0 {
        Seq::empty()
    } else {
        let t = removed_property_topics(base, d, n, ps.drop_last(), ids);
        if listed(ids, ps.last().id) {
            t
        } else {
            t.push(topic(seq![base, d, n, ps.last().id, "+"@]))
        }
    }
}

/// What adding the listed properties of a node builds up: the properties, the values kept
/// for properties not yet known, the events and the topics to subscribe to.
pub struct PropertiesAcc {
    pub properties: Seq<PropertyView>,
    pub early: Seq<(Seq<char>, Seq<char>)>,
    pub events: Seq<EventView>,
    pub subscribe: Seq<Seq<char>>,
}

/// Adds property `id` of node `n` if it is not there yet, subscribing to its topic; a value
/// kept for it under "d/n/id" becomes its value, with an event that says it is not fresh.
pub open spec fn added_property(acc: PropertiesAcc, base: Seq<char>, d: Seq<char>, n: Seq<char>, id: Seq<char>) -> PropertiesAcc {
    if listed(property_ids(acc.properties), id) {
        acc
    } else {
        let k = find_id(keys_of(acc.early), topic(seq![d, n, id]));
        let sub = acc.subscribe.push(topic(seq![base, d, n, id, "+"@]));
        if k >= 0 {
            let v = acc.early[k].1;
            PropertiesAcc {
                properties: acc.properties.push(PropertyView { value: Some(v), ..new_property_view(id) }),
                early: acc.early.remove(k),
                events: acc.events.push(EventView::PropertyValueChanged { device_id: d, node_id: n, property_id: id, value: v, fresh: false }),
                subscribe: sub,
            }
        } else {
            PropertiesAcc { properties: acc.properties.push(new_property_view(id)), subscribe: sub, ..acc }
        }
    }
}

/// Adds, in their order, the listed properties that are not there yet.
pub open spec fn added_properties(acc: PropertiesAcc, base: Seq<char>, d: Seq<char>, n: Seq<char>, ids: Seq<Seq<char>>) -> PropertiesAcc
    decreases ids.len(),
{
    if ids.len() == 0 {
        acc
    } else {
        added_property(added_properties(acc, base, d, n, ids.drop_last()), base, d, n, ids.last())
    }
}

/// A `$properties` message for a known node: the properties not listed in the payload (split
/// on ',') are removed and their topics left; then comes an event for the node; then the listed
/// properties not there yet are added, each taking a value kept for it, and their topics are
/// subscribed to.
pub open spec fn properties_spec(c: ControllerView, d: Seq<char>, n: Seq<char>, payload: Seq<char>) -> PublishOutcome {
    match node_path(c, d, n) {
        Err(e) => Err(e),
        Ok((i, j)) => {
            let ids = split_spec(payload, ',');
            let nv = c.devices[i].nodes[j];
            let kept = kept_properties(nv.properties, ids);
            let nv1 = NodeView { properties: kept, ..nv };
            let acc = added_properties(
                PropertiesAcc {
                    properties: kept,
                    early: c.early_property_values,
                    events: seq![EventView::NodeUpdated { device_id: d, node_id: nv1.id, has_required_attributes: node_complete(nv1) }],
                    subscribe: Seq::empty(),
                },
                c.base_topic,
                d,
                n,
                ids,
            );
            let nv2 = NodeView { properties: acc.properties, ..nv };
            Ok((
                ControllerView { early_property_values: acc.early, ..with_node(c, i, j, nv2) },
                ResponseView {
                    events: acc.events,
                    topics_to_subscribe: acc.subscribe,
                    topics_to_unsubscribe: removed_property_topics(c.base_topic, d, n, nv.properties, ids),
                },
            ))
        },
    }
}

/// Keeps the properties whose IDs are listed, and appends the topics to leave for the others.
fn retain_properties(props: Vec<Property>, ids: &Vec<&str>, base: &str, d: &str, n: &str, unsub: &mut Vec<String>) -> (kept: Vec<Property>)
    ensures
        property_views(kept@) == kept_properties(property_views(props@), strs_view(ids@)),
        strings_view(final(unsub)@) == strings_view(old(unsub)@) + removed_property_topics(base@, d@, n@, property_views(props@), strs_view(ids@)),
{
    let ghost orig = props@;
    let ghost idv = strs_view(ids@);
    let ghost start = strings_view(unsub@);
    let mut rest = props;
    let mut kept: Vec<Property> = Vec::new();
    let ghost mut k: int = 0;
    assert(orig.take(0) =~= Seq::<Property>::empty());
    assert(property_views(orig.take(0)) =~= Seq::<PropertyView>::empty());
    assert(property_views(kept@) =~= Seq::<PropertyView>::empty());
    assert(start + Seq::<Seq<char>>::empty() =~= start);
    assert(rest@ =~= orig.subrange(0, orig.len() as int));
    while rest.len() > 0
        invariant
            0 <= k <= orig.len(),
            rest@ == orig.subrange(k, orig.len() as int),
            idv == strs_view(ids@),
            start == strings_view(old(unsub)@),
            property_views(kept@) == kept_properties(property_views(orig.take(k)), idv),
            strings_view(unsub@) == start + removed_property_topics(base@, d@, n@, property_views(orig.take(k)), idv),
        decreases rest@.len(),
    {
        let prop = rest.remove(0);
        assert(prop == orig[k]);
        let ghost prefix = property_views(orig.take(k));
        let ghost prefix1 = property_views(orig.take(k + 1));
        assert(prefix1.drop_last() =~= prefix);
        assert(prefix1.last() == prop@);
        let ghost kept_before = property_views(kept@);
        let ghost unsub_before = strings_view(unsub@);
        let present = find_str(ids, prop.id.as_str()).is_some();
        if present {
            kept.push(prop);
            assert(property_views(kept@) =~= kept_before.push(prop@));
        } else {
            let t = topic5(base, d, n, prop.id.as_str(), "+");
            unsub.push(t);
            assert(strings_view(unsub@) =~= unsub_before.push(t@));
        }
        proof {
            k = k + 1;
        }
        assert(rest@ =~= orig.subrange(k, orig.len() as int));
    }
    assert(orig.take(k) =~= orig);
    kept
}

/// The accumulated state of adding listed properties, taken by its views.
pub open spec fn acc_view(ps: Seq<Property>, early: Seq<(String, String)>, events: Seq<Event>, subs: Seq<String>) -> PropertiesAcc {
    PropertiesAcc {
        properties: property_views(ps),
        early: pair_views(early),
        events: events.map_values(|e: Event| e@),
        subscribe: strings_view(subs),
    }
}

/// Adds property `id` of node `n` if it is not there yet; see `added_property`.
fn add_property_listed(
    kept: &mut Vec<Property>,
    early: &mut Vec<(String, String)>,
    events: &mut Vec<Event>,
    subs: &mut Vec<String>,
    base: &str,
    d: &str,
    n: &str,
    id: &str,
)
    ensures
        acc_view(final(kept)@, final(early)@, final(events)@, final(subs)@)
            == added_property(acc_view(old(kept)@, old(early)@, old(events)@, old(subs)@), base@, d@, n@, id@),
{
    let ghost acc = acc_view(kept@, early@, events@, subs@);
    match find_property(kept, id) {
        Some(_) => {},
        None => {
            let key = topic3(d, n, id);
            let mut prop = Property::new(id);
            let ghost ev0 = events@.map_values(|e: Event| e@);
            let ghost ps0 = property_views(kept@);
            let ghost es0 = pair_views(early@);
            match find_key(early, key.as_str()) {
                Some(k) => {
                    let (_, v) = early.remove(k);
                    assert(pair_views(early@) =~= es0.remove(k as int));
                    let ev = Event::PropertyValueChanged {
                        device_id: d.to_owned(),
                        node_id: n.to_owned(),
                        property_id: id.to_owned(),
                        value: v.clone(),
                        fresh: false,
                    };
                    events.push(ev);
                    assert(events@.map_values(|e: Event| e@) =~= ev0.push(ev@));
                    prop.value = Some(v);
                },
                None => {},
            }
            kept.push(prop);
            assert(property_views(kept@) =~= ps0.push(prop@));
            let ghost subs0 = strings_view(subs@);
            let t = topic5(base, d, n, id, "+");
            subs.push(t);
            assert(strings_view(subs@) =~= subs0.push(t@));
        },
    }
}

/// Adds the listed properties that are not there yet; see `added_properties`.
fn add_listed_properties(
    kept: &mut Vec<Property>,
    early: &mut Vec<(String, String)>,
    events: &mut Vec<Event>,
    ids: &Vec<&str>,
    base: &str,
    d: &str,
    n: &str,
) -> (subs: Vec<String>)
    ensures
        acc_view(final(kept)@, final(early)@, final(events)@, subs@)
            == added_properties(acc_view(old(kept)@, old(early)@, old(events)@, Seq::empty()), base@, d@, n@, strs_view(ids@)),
{
    let ghost idv = strs_view(ids@);
    let mut subs: Vec<String> = Vec::new();
    let mut m: usize = 0;
    assert(idv.take(0) =~= Seq::<Seq<char>>::empty());
    while m < ids.len()
        invariant
            m <= ids@.len(),
            idv == strs_view(ids@),
            acc_view(kept@, early@, events@, subs@)
                == added_properties(acc_view(old(kept)@, old(early)@, old(events)@, Seq::empty()), base@, d@, n@, idv.take(m as int)),
        decreases ids@.len() - m,
    {
        assert(idv.take(m + 1).drop_last() =~= idv.take(m as int));
        assert(idv.take(m + 1).last() == ids@[m as int]@);
        add_property_listed(kept, early, events, &mut subs, base, d, n, ids[m]);
        m = m + 1;
    }
    assert(idv.take(m as int) =~= idv);
    subs
}

impl HomieController {
    /// A `$properties` message.
    fn take_properties(&mut self, d: &str, n: &str, payload: &str) -> (r: Result<PublishResponse, HandleError>)
        ensures
            outcome_of(r, final(self)@) == properties_spec(old(self)@, d@, n@, payload@),
            r is Err ==> final(self)@ == old(self)@,
    {
        let ids = split_list(payload);
        let ghost c = self@;
        let ghost idv = strs_view(ids@);
        let (i, j) = match self.node_index(d, n) {
            Ok(ij) => ij,
            Err(e) => return Err(e),
        };
        let ghost nv = c.devices[i as int].nodes[j as int];
        assert(nv == self.devices@[i as int].nodes@[j as int]@);
        let base = self.base_topic.clone();
        let ghost before = self.devices@;
        let ghost nodes_before = self.devices@[i as int].nodes@;
        let mut props: Vec<Property> = Vec::new();
        let dev = &mut self.devices[i];
        let node = &mut dev.nodes[j];
        std::mem::swap(&mut node.properties, &mut props);
        assert(property_views(props@) == nv.properties);
        let mut unsub: Vec<String> = Vec::new();
        let mut kept = retain_properties(props, &ids, base.as_str(), d, n, &mut unsub);
        let ghost kept_view = property_views(kept@);
        assert(kept_view == kept_properties(nv.properties, idv));
        let mut early: Vec<(String, String)> = Vec::new();
        std::mem::swap(&mut self.early_property_values, &mut early);
        assert(pair_views(early@) == c.early_property_values);
        let mut events: Vec<Event> = Vec::new();
        let dev = &mut self.devices[i];
        let node = &mut dev.nodes[j];
        std::mem::swap(&mut node.properties, &mut kept);
        let ghost nv1 = NodeView { properties: kept_view, ..nv };
        assert(node@.id == nv.id);
        assert(node@ == nv1);
        let ev = Event::node_updated(d, node);
        std::mem::swap(&mut node.properties, &mut kept);
        events.push(ev);
        let ghost acc0 = PropertiesAcc {
            properties: kept_view,
            early: c.early_property_values,
            events: seq![EventView::NodeUpdated { device_id: d@, node_id: nv1.id, has_required_attributes: node_complete(nv1) }],
            subscribe: Seq::empty(),
        };
        assert(events@.map_values(|e: Event| e@) =~= acc0.events);
        assert(strings_view(Seq::<String>::empty()) =~= Seq::<Seq<char>>::empty());
        assert(acc_view(kept@, early@, events@, Seq::empty()) == acc0);
        let subs = add_listed_properties(&mut kept, &mut early, &mut events, &ids, base.as_str(), d, n);
        let ghost acc = added_properties(acc0, c.base_topic, d@, n@, idv);
        assert(property_views(kept@) == acc.properties);
        let dev = &mut self.devices[i];
        let node = &mut dev.nodes[j];
        node.properties = kept;
        std::mem::swap(&mut self.early_property_values, &mut early);
        proof {
            let nv2 = NodeView { properties: acc.properties, ..nv };
            assert(self.devices@[i as int].nodes@[j as int]@ == nv2);
            assert(node_views(self.devices@[i as int].nodes@) =~= node_views(nodes_before).update(j as int, nv2));
            assert(device_views(self.devices@) =~= device_views(before).update(i as int, self.devices@[i as int]@));
            assert(self@.devices == with_node(c, i as int, j as int, nv2).devices);
            assert(self@.early_property_values == acc.early);
        }
        let r = PublishResponse { events, topics_to_subscribe: subs, topics_to_unsubscribe: unsub };
        assert(Seq::<Seq<char>>::empty() + removed_property_topics(base@, d@, n@, nv.properties, idv)
            =~= removed_property_topics(base@, d@, n@, nv.properties, idv));
        assert(r@.events == acc.events);
        assert(r@.topics_to_subscribe == acc.subscribe);
        Ok(r)
    }
}

/// A message on a topic of two levels under the base topic: device `d`, attribute `a`.
/// Attributes that are not handled, `$stats` among them, are ignored.
pub open spec fn two_levels_spec(c: ControllerView, d: Seq<char>, a: Seq<char>, payload: Seq<char>) -> PublishOutcome {
    if a == "$homie"@ {
        homie_spec(c, d, payload)
    } else if a == "$name"@ {
        device_update_spec(c, d, DeviceUpdateView::Name(payload))
    } else if a == "$state"@ {
        match State::spec_from_str(payload) {
            None => Err(HandleErrorView::InvalidState(payload)),
            Some(st) => device_update_spec(c, d, DeviceUpdateView::State(st)),
        }
    } else if a == "$implementation"@ {
        device_update_spec(c, d, DeviceUpdateView::Implementation(payload))
    } else if a == "$extensions"@ {
        extensions_arm_spec(c, d, payload)
    } else if a == "$localip"@ {
        device_update_spec(c, d, DeviceUpdateView::LocalIp(payload))
    } else if a == "$mac"@ {
        device_update_spec(c, d, DeviceUpdateView::Mac(payload))
    } else if a == "$nodes"@ {
        nodes_spec(c, d, payload)
    } else {
        respond(c, Seq::empty())
    }
}

/// An unsigned integer statistic of device `d`.
pub open spec fn unsigned_stat_spec(c: ControllerView, d: Seq<char>, payload: Seq<char>, u: spec_fn(u64) -> DeviceUpdateView) -> PublishOutcome {
    match parse_u64_spec(payload) {
        None => Err(HandleErrorView::InvalidInteger(payload)),
        Some(v) => device_update_spec(c, d, u(v)),
    }
}

/// A signed integer statistic of device `d`.
pub open spec fn signed_stat_spec(c: ControllerView, d: Seq<char>, payload: Seq<char>, u: spec_fn(i64) -> DeviceUpdateView) -> PublishOutcome {
    match parse_i64_spec(payload) {
        None => Err(HandleErrorView::InvalidInteger(payload)),
        Some(v) => device_update_spec(c, d, u(v)),
    }
}

/// A decimal statistic of device `d`, kept as the text of the number.
pub open spec fn decimal_stat_spec(c: ControllerView, d: Seq<char>, payload: Seq<char>, u: spec_fn(Seq<char>) -> DeviceUpdateView) -> PublishOutcome {
    if float_syntax(payload) {
        device_update_spec(c, d, u(payload))
    } else {
        Err(HandleErrorView::InvalidFloat(payload))
    }
}

/// Whether `s` names a statistic that the controller keeps.
pub open spec fn known_stat(s: Seq<char>) -> bool {
    s == "interval"@ || s == "uptime"@ || s == "signal"@ || s == "cputemp"@ || s == "cpuload"@
        || s == "battery"@ || s == "freeheap"@ || s == "supply"@
}

/// A `$stats/s` message, for a statistic `s` that the controller keeps.
pub open spec fn stat_spec(c: ControllerView, d: Seq<char>, s: Seq<char>, payload: Seq<char>) -> PublishOutcome {
    if s == "interval"@ {
        unsigned_stat_spec(c, d, payload, |v: u64| DeviceUpdateView::StatsInterval(v))
    } else if s == "uptime"@ {
        unsigned_stat_spec(c, d, payload, |v: u64| DeviceUpdateView::StatsUptime(v))
    } else if s == "signal"@ {
        signed_stat_spec(c, d, payload, |v: i64| DeviceUpdateView::StatsSignal(v))
    } else if s == "cputemp"@ {
        decimal_stat_spec(c, d, payload, |v: Seq<char>| DeviceUpdateView::StatsCputemp(v))
    } else if s == "cpuload"@ {
        signed_stat_spec(c, d, payload, |v: i64| DeviceUpdateView::StatsCpuload(v))
    } else if s == "battery"@ {
        signed_stat_spec(c, d, payload, |v: i64| DeviceUpdateView::StatsBattery(v))
    } else if s == "freeheap"@ {
        unsigned_stat_spec(c, d, payload, |v: u64| DeviceUpdateView::StatsFreeheap(v))
    } else {
        decimal_stat_spec(c, d, payload, |v: Seq<char>| DeviceUpdateView::StatsSupply(v))
    }
}

/// A message on a topic of three levels under the base topic, `d/x/y`: a firmware attribute
/// or a statistic of device `d`, an attribute of node `x`, or else, where no level starts
/// with '$', the value of property `y`. Anything else is ignored.
pub open spec fn three_levels_spec(
    c: ControllerView,
    subtopic: Seq<char>,
    d: Seq<char>,
    x: Seq<char>,
    y: Seq<char>,
    payload: Seq<char>,
    retain: bool,
) -> PublishOutcome {
    if x == "$fw"@ && y == "name"@ {
        device_update_spec(c, d, DeviceUpdateView::FirmwareName(payload))
    } else if x == "$fw"@ && y == "version"@ {
        device_update_spec(c, d, DeviceUpdateView::FirmwareVersion(payload))
    } else if x == "$stats"@ && known_stat(y) {
        stat_spec(c, d, y, payload)
    } else if y == "$name"@ {
        node_update_spec(c, d, x, NodeUpdateView::Name(payload))
    } else if y == "$type"@ {
        node_update_spec(c, d, x, NodeUpdateView::Type(payload))
    } else if y == "$properties"@ {
        properties_spec(c, d, x, payload)
    } else if !starts_with(d, '$') && !starts_with(x, '$') && !starts_with(y, '$') {
        value_spec(c, subtopic, d, x, y, payload, retain)
    } else {
        respond(c, Seq::empty())
    }
}

/// A message on a topic of four levels under the base topic, `d/n/p/a`: attribute `a` of
/// property `p`. Anything else, a `set` message among them, is ignored.
pub open spec fn four_levels_spec(c: ControllerView, d: Seq<char>, n: Seq<char>, p: Seq<char>, a: Seq<char>, payload: Seq<char>) -> PublishOutcome {
    if a == "$name"@ {
        property_update_spec(c, d, n, p, PropertyUpdateView::Name(payload))
    } else if a == "$datatype"@ {
        match Datatype::spec_from_str(payload) {
            None => Err(HandleErrorView::InvalidDatatype(payload)),
            Some(dt) => property_update_spec(c, d, n, p, PropertyUpdateView::Datatype(dt)),
        }
    } else if a == "$unit"@ {
        property_update_spec(c, d, n, p, PropertyUpdateView::Unit(payload))
    } else if a == "$format"@ {
        property_update_spec(c, d, n, p, PropertyUpdateView::Format(payload))
    } else if a == "$settable"@ {
        match <bool as Value>::spec_parse(payload) {
            None => Err(HandleErrorView::InvalidBoolean(payload)),
            Some(b) => property_update_spec(c, d, n, p, PropertyUpdateView::Settable(b)),
        }
    } else if a == "$retained"@ {
        match <bool as Value>::spec_parse(payload) {
            None => Err(HandleErrorView::InvalidBoolean(payload)),
            Some(b) => property_update_spec(c, d, n, p, PropertyUpdateView::Retained(b)),
        }
    } else {
        respond(c, Seq::empty())
    }
}

/// A message on a subtopic of the base topic, by the number of its levels; topics of other
/// depths are ignored.
pub open spec fn subtopic_spec(c: ControllerView, subtopic: Seq<char>, payload: Seq<char>, retain: bool) -> PublishOutcome {
    let parts = split_spec(subtopic, '/');
    if parts.len() == 2 {
        two_levels_spec(c, parts[0], parts[1], payload)
    } else if parts.len() == 3 {
        three_levels_spec(c, subtopic, parts[0], parts[1], parts[2], payload, retain)
    } else if parts.len() == 4 {
        four_levels_spec(c, parts[0], parts[1], parts[2], parts[3], payload)
    } else {
        respond(c, Seq::empty())
    }
}

/// A message with a text payload: its topic must lie under the base topic.
pub open spec fn publish_text_spec(c: ControllerView, t: Seq<char>, payload: Seq<char>, retain: bool) -> PublishOutcome {
    let prefix = base_prefix(c.base_topic);
    if prefix.len() <= t.len() && t.take(prefix.len() as int) == prefix {
        subtopic_spec(c, t.skip(prefix.len() as int), payload, retain)
    } else {
        Err(HandleErrorView::UnexpectedTopic(t))
    }
}

/// A message from the broker: its payload must be valid UTF-8.
pub open spec fn publish_spec(c: ControllerView, t: Seq<char>, payload: Seq<u8>, retain: bool) -> PublishOutcome {
    if valid_utf8(payload) {
        publish_text_spec(c, t, decode_utf8(payload), retain)
    } else {
        Err(HandleErrorView::InvalidUtf8)
    }
}

/// Whether a string starts with '$'.
fn starts_with_dollar(s: &str) -> (b: bool)
    ensures
        b == starts_with(s@, '$'),
{
    s.unicode_len() > 0 && s.get_char(0) == '$'
}

impl HomieController {
    /// A message on a topic of two levels: see `two_levels_spec`.
    fn two_levels(&mut self, d: &str, a: &str, payload: &str) -> (r: Result<PublishResponse, HandleError>)
        ensures
            outcome_of(r, final(self)@) == two_levels_spec(old(self)@, d@, a@, payload@),
            r is Err ==> final(self)@ == old(self)@,
    {
        if str_eq(a, "$homie") {
            self.discover_device(d, payload)
        } else if str_eq(a, "$name") {
            self.update_device(d, DeviceUpdate::Name(payload.to_owned()))
        } else if str_eq(a, "$state") {
            match State::from_text(payload) {
                Ok(st) => self.update_device(d, DeviceUpdate::State(st)),
                Err(_) => Err(HandleError::InvalidState(payload.to_owned())),
            }
        } else if str_eq(a, "$implementation") {
            self.update_device(d, DeviceUpdate::Implementation(payload.to_owned()))
        } else if str_eq(a, "$extensions") {
            self.take_extensions(d, payload)
        } else if str_eq(a, "$localip") {
            self.update_device(d, DeviceUpdate::LocalIp(payload.to_owned()))
        } else if str_eq(a, "$mac") {
            self.update_device(d, DeviceUpdate::Mac(payload.to_owned()))
        } else if str_eq(a, "$nodes") {
            self.take_nodes(d, payload)
        } else {
            Ok(no_response())
        }
    }

    /// A statistic that the controller keeps: see `stat_spec`.
    fn take_stat(&mut self, d: &str, s: &str, payload: &str) -> (r: Result<PublishResponse, HandleError>)
        requires
            known_stat(s@),
        ensures
            outcome_of(r, final(self)@) == stat_spec(old(self)@, d@, s@, payload@),
            r is Err ==> final(self)@ == old(self)@,
    {
        if str_eq(s, "interval") {
            match parse_u64(payload) {
                None => Err(HandleError::InvalidInteger(payload.to_owned())),
                Some(v) => self.update_device(d, DeviceUpdate::StatsInterval(v)),
            }
        } else if str_eq(s, "uptime") {
            match parse_u64(payload) {
                None => Err(HandleError::InvalidInteger(payload.to_owned())),
                Some(v) => self.update_device(d, DeviceUpdate::StatsUptime(v)),
            }
        } else if str_eq(s, "signal") {
            match parse_i64(payload) {
                None => Err(HandleError::InvalidInteger(payload.to_owned())),
                Some(v) => self.update_device(d, DeviceUpdate::StatsSignal(v)),
            }
        } else if str_eq(s, "cputemp") {
            if is_float_text(payload) {
                self.update_device(d, DeviceUpdate::StatsCputemp(payload.to_owned()))
            } else {
                Err(HandleError::InvalidFloat(payload.to_owned()))
            }
        } else if str_eq(s, "cpuload") {
            match parse_i64(payload) {
                None => Err(HandleError::InvalidInteger(payload.to_owned())),
                Some(v) => self.update_device(d, DeviceUpdate::StatsCpuload(v)),
            }
        } else if str_eq(s, "battery") {
            match parse_i64(payload) {
                None => Err(HandleError::InvalidInteger(payload.to_owned())),
                Some(v) => self.update_device(d, DeviceUpdate::StatsBattery(v)),
            }
        } else if str_eq(s, "freeheap") {
            match parse_u64(payload) {
                None => Err(HandleError::InvalidInteger(payload.to_owned())),
                Some(v) => self.update_device(d, DeviceUpdate::StatsFreeheap(v)),
            }
        } else if is_float_text(payload) {
            self.update_device(d, DeviceUpdate::StatsSupply(payload.to_owned()))
        } else {
            Err(HandleError::InvalidFloat(payload.to_owned()))
        }
    }

    /// Whether `s` names a statistic that the controller keeps.
    fn is_known_stat(s: &str) -> (b: bool)
        ensures
            b == known_stat(s@),
    {
        str_eq(s, "interval") || str_eq(s, "uptime") || str_eq(s, "signal") || str_eq(s, "cputemp")
            || str_eq(s, "cpuload") || str_eq(s, "battery") || str_eq(s, "freeheap") || str_eq(s, "supply")
    }

    /// A message on a topic of three levels: see `three_levels_spec`.
    fn three_levels(&mut self, subtopic: &str, d: &str, x: &str, y: &str, payload: &str, retain: bool) -> (r: Result<PublishResponse, HandleError>)
        ensures
            outcome_of(r, final(self)@) == three_levels_spec(old(self)@, subtopic@, d@, x@, y@, payload@, retain),
            r is Err ==> final(self)@ == old(self)@,
    {
        if str_eq(x, "$fw") && str_eq(y, "name") {
            self.update_device(d, DeviceUpdate::FirmwareName(payload.to_owned()))
        } else if str_eq(x, "$fw") && str_eq(y, "version") {
            self.update_device(d, DeviceUpdate::FirmwareVersion(payload.to_owned()))
        } else if str_eq(x, "$stats") && Self::is_known_stat(y) {
            self.take_stat(d, y, payload)
        } else if str_eq(y, "$name") {
            self.update_node(d, x, NodeUpdate::Name(payload.to_owned()))
        } else if str_eq(y, "$type") {
            self.update_node(d, x, NodeUpdate::Type(payload.to_owned()))
        } else if str_eq(y, "$properties") {
            self.take_properties(d, x, payload)
        } else if !starts_with_dollar(d) && !starts_with_dollar(x) && !starts_with_dollar(y) {
            self.take_value(subtopic, d, x, y, payload, retain)
        } else {
            Ok(no_response())
        }
    }

    /// A message on a topic of four levels: see `four_levels_spec`.
    fn four_levels(&mut self, d: &str, n: &str, p: &str, a: &str, payload: &str) -> (r: Result<PublishResponse, HandleError>)
        ensures
            outcome_of(r, final(self)@) == four_levels_spec(old(self)@, d@, n@, p@, a@, payload@),
            r is Err ==> final(self)@ == old(self)@,
    {
        if str_eq(a, "$name") {
            self.update_property(d, n, p, PropertyUpdate::Name(payload.to_owned()))
        } else if str_eq(a, "$datatype") {
            match Datatype::from_text(payload) {
                Ok(dt) => self.update_property(d, n, p, PropertyUpdate::Datatype(dt)),
                Err(_) => Err(HandleError::InvalidDatatype(payload.to_owned())),
            }
        } else if str_eq(a, "$unit") {
            self.update_property(d, n, p, PropertyUpdate::Unit(payload.to_owned()))
        } else if str_eq(a, "$format") {
            self.update_property(d, n, p, PropertyUpdate::Format(payload.to_owned()))
        } else if str_eq(a, "$settable") {
            match parse_bool(payload) {
                Some(b) => self.update_property(d, n, p, PropertyUpdate::Settable(b)),
                None => Err(HandleError::InvalidBoolean(payload.to_owned())),
            }
        } else if str_eq(a, "$retained") {
            match parse_bool(payload) {
                Some(b) => self.update_property(d, n, p, PropertyUpdate::Retained(b)),
                None => Err(HandleError::InvalidBoolean(payload.to_owned())),
            }
        } else {
            Ok(no_response())
        }
    }

    /// Handles a message with a text payload from the broker, as `handle_publish` does once
    /// the payload is decoded.
    pub fn handle_publish_text(&mut self, t: &str, payload: &str, retain: bool) -> (r: Result<PublishResponse, HandleError>)
        ensures
            outcome_of(r, final(self)@) == publish_text_spec(old(self)@, t@, payload@, retain),
            r is Err ==> final(self)@ == old(self)@,
    {
        let sub = match strip_base(t, self.base_topic.as_str()) {
            Some(sub) => sub,
            None => return Err(HandleError::UnexpectedTopic(t.to_owned())),
        };
        let parts = split_str(sub, '/');
        if parts.len() == 2 {
            self.two_levels(parts[0], parts[1], payload)
        } else if parts.len() == 3 {
            self.three_levels(sub, parts[0], parts[1], parts[2], payload, retain)
        } else if parts.len() == 4 {
            self.four_levels(parts[0], parts[1], parts[2], parts[3], payload)
        } else {
            Ok(no_response())
        }
    }

    /// Handles a message from the broker: updates the model of the devices, and gives the
    /// events for the application and the topics to subscribe to and unsubscribe from. A
    /// message that is refused leaves the model as it was.
    pub fn handle_publish(&mut self, t: &str, payload: &[u8], retain: bool) -> (r: Result<PublishResponse, HandleError>)
        ensures
            outcome_of(r, final(self)@) == publish_spec(old(self)@, t@, payload@, retain),
            r is Err ==> final(self)@ == old(self)@,
    {
        match utf8_text(payload) {
            None => Err(HandleError::InvalidUtf8),
            Some(text) => self.handle_publish_text(t, text, retain),
        }
    }
}

impl HomieController {
    /// A controller for the devices under the given base topic, with nothing discovered yet.
    pub fn new(base_topic: &str) -> (c: HomieController)
        ensures
            c@ == (ControllerView { base_topic: base_topic@, devices: Seq::empty(), early_property_values: Seq::empty() }),
    {
        let c = HomieController { base_topic: base_topic.to_owned(), devices: Vec::new(), early_property_values: Vec::new() };
        assert(device_views(c.devices@) =~= Seq::<DeviceView>::empty());
        assert(pair_views(c.early_property_values@) =~= Seq::<(Seq<char>, Seq<char>)>::empty());
        c
    }

    /// The base topic under which the controller looks for devices.
    pub fn base_topic(&self) -> (t: &str)
        ensures
            t@ == self@.base_topic,
    {
        self.base_topic.as_str()
    }

    /// The devices discovered so far.
    pub fn devices(&self) -> (ds: &Vec<Device>)
        ensures
            device_views(ds@) == self@.devices,
    {
        &self.devices
    }

    /// A snapshot of the devices discovered so far: a copy of its own, so that messages handled
    /// later change the controller's devices but never the snapshot, and a later snapshot gives
    /// the devices as they are then.
    pub fn devices_snapshot(&self) -> (ds: Vec<Device>)
        ensures
            device_views(ds@) == self@.devices,
    {
        let mut ds: Vec<Device> = Vec::new();
        let mut i: usize = 0;
        while i < self.devices.len()
            invariant
                i <= self.devices@.len(),
                ds@.len() == i,
                forall|k: int| 0 <= k < i ==> #[trigger] ds@[k]@ == self.devices@[k]@,
            decreases self.devices@.len() - i,
        {
            ds.push(self.devices[i].copy());
            i = i + 1;
        }
        assert(device_views(ds@) =~= device_views(self.devices@));
        ds
    }

    /// Starts discovering devices afresh, as on each connection to the broker: forgets the
    /// devices known so far, so that their topics are subscribed to again as they are
    /// rediscovered, and gives the topic to subscribe to for discovery.
    pub fn start(&mut self) -> (t: String)
        ensures
            final(self)@ == (ControllerView { devices: Seq::empty(), ..old(self)@ }),
            t@ == topic(seq![old(self)@.base_topic, "+"@, "$homie"@]),
    {
        self.devices = Vec::new();
        assert(device_views(self.devices@) =~= Seq::<DeviceView>::empty());
        topic3(self.base_topic.as_str(), "+", "$homie")
    }

    /// The message that asks a device to set one of its properties to `value`: its topic and
    /// its payload.
    pub fn set<T: Value>(&self, device_id: &str, node_id: &str, property_id: &str, value: &T) -> (m: (String, String))
        ensures
            m.0@ == topic(seq![self@.base_topic, device_id@, node_id@, property_id@, "set"@]),
            m.1@ == T::spec_to_string(value@),
    {
        (topic5(self.base_topic.as_str(), device_id, node_id, property_id, "set"), value.to_value_string())
    }
}

} // verus!
