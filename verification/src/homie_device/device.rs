//! The device's side of the MQTT conversation: the lifecycle of a Homie device and the messages
//! that announce it, its nodes and their properties.

use super::types::{Node, Property, PropertyView};
use crate::homie_controller::types::Datatype;
use crate::text::{
    base_prefix, dec_digits, join_spec, join_strs, push_u64, split_spec, split_str, str_eq, strip_base, topic, topic2, topic3,
    topic4, utf8_text,
};
use vstd::prelude::*;
use vstd::string::StrSliceExecFns;
use vstd::utf8::{decode_utf8, valid_utf8};

verus! {

/// The version of the Homie convention that devices implement.
pub const HOMIE_VERSION: &'static str = "4.0";

/// The name of this implementation of the Homie convention.
pub const HOMIE_IMPLEMENTATION: &'static str = "homie-rs";

/// The legacy statistics extension, which every device supports.
pub const STATS_EXTENSION_ID: &'static str = "org.homie.legacy-stats:0.1.1:[4.x]";

/// The legacy firmware extension, which devices with a firmware name and version support.
pub const FIRMWARE_EXTENSION_ID: &'static str = "org.homie.legacy-firmware:0.1.1:[4.x]";

/// The interval at which statistics are sent, in seconds.
pub const STATS_INTERVAL_SECS: u64 = 60;

/// The state of a Homie device in the device lifecycle.
#[derive(Clone, Copy, Debug, Eq, PartialEq, Structural)]
pub enum State {
    /// Connected to the MQTT broker but not yet ready to operate.
    Init,
    /// Connected and operational.
    Ready,
    /// Cleanly disconnected from the MQTT broker.
    Disconnected,
    /// Sleeping.
    Sleeping,
    /// Uncleanly disconnected from the MQTT broker: a network issue, a power failure or some
    /// other unexpected failure.
    Lost,
    /// Connected, but something is wrong and it may require human intervention.
    Alert,
}

impl State {
    pub open spec fn spec_as_str(self) -> Seq<char> {
        match self {
            State::Init => "init"@,
            State::Ready => "ready"@,
            State::Disconnected => "disconnected"@,
            State::Sleeping => "sleeping"@,
            State::Lost => "lost"@,
            State::Alert => "alert"@,
        }
    }

    /// The state as it is published in `$state`.
    pub fn as_str(&self) -> (s: &'static str)
        ensures
            s@ == self.spec_as_str(),
    {
        match self {
            State::Init => "init",
            State::Ready => "ready",
            State::Disconnected => "disconnected",
            State::Sleeping => "sleeping",
            State::Lost => "lost",
            State::Alert => "alert",
        }
    }
}

/// A message from the device to the MQTT broker.
#[derive(Clone, Debug, Eq, PartialEq)]
pub enum Message {
    /// Publish the payload, retained, on the topic.
    Publish { topic: String, payload: String },
    /// Subscribe to the topic.
    Subscribe { topic: String },
    /// Unsubscribe from the topic.
    Unsubscribe { topic: String },
}

/// A message with its strings taken by their characters.
pub enum MessageView {
    Publish { topic: Seq<char>, payload: Seq<char> },
    Subscribe { topic: Seq<char> },
    Unsubscribe { topic: Seq<char> },
}

impl View for Message {
    type V = MessageView;

    open spec fn view(&self) -> MessageView {
        match self {
            Message::Publish { topic, payload } => MessageView::Publish { topic: topic@, payload: payload@ },
            Message::Subscribe { topic } => MessageView::Subscribe { topic: topic@ },
            Message::Unsubscribe { topic } => MessageView::Unsubscribe { topic: topic@ },
        }
    }
}

/// The views of a sequence of messages.
pub open spec fn message_views(ms: Seq<Message>) -> Seq<MessageView> {
    ms.map_values(|m: Message| m@)
}

/// A node with its strings taken by their characters.
pub struct NodeView {
    pub id: Seq<char>,
    pub name: Seq<char>,
    pub node_type: Seq<char>,
    pub properties: Seq<PropertyView>,
}

impl View for Node {
    type V = NodeView;

    open spec fn view(&self) -> NodeView {
        NodeView {
            id: self.id@,
            name: self.name@,
            node_type: self.node_type@,
            properties: self.properties@.map_values(|p: Property| p@),
        }
    }
}

/// Publishing `payload` on subtopic `levels` of the device.
pub open spec fn publish_at(base: Seq<char>, levels: Seq<Seq<char>>, payload: Seq<char>) -> MessageView {
    MessageView::Publish { topic: topic(seq![base] + levels), payload }
}

/// "true" or "false".
pub open spec fn bool_str(b: bool) -> Seq<char> {
    if b { "true"@ } else { "false"@ }
}

/// The messages that describe property `p` of node `n`: its name, datatype and whether it is
/// settable, then its unit and format where it has them; a settable property's `set` topic is
/// subscribed to.
pub open spec fn property_messages(base: Seq<char>, n: Seq<char>, p: PropertyView) -> Seq<MessageView> {
    seq![
        publish_at(base, seq![n, p.id, "$name"@], p.name),
        publish_at(base, seq![n, p.id, "$datatype"@], p.datatype.spec_as_str()),
        publish_at(base, seq![n, p.id, "$settable"@], bool_str(p.settable)),
    ] + (match p.unit {
        Some(u) => seq![publish_at(base, seq![n, p.id, "$unit"@], u)],
        None => Seq::empty(),
    }) + (match p.format {
        Some(f) => seq![publish_at(base, seq![n, p.id, "$format"@], f)],
        None => Seq::empty(),
    }) + (if p.settable {
        seq![MessageView::Subscribe { topic: topic(seq![base, n, p.id, "set"@]) }]
    } else {
        Seq::empty()
    })
}

/// The messages that describe the given properties of node `n`, one after the other.
pub open spec fn properties_messages(base: Seq<char>, n: Seq<char>, ps: Seq<PropertyView>) -> Seq<MessageView>
    decreases ps.len(),
{
    if ps.len() == 0 {
        Seq::empty()
    } else {
        properties_messages(base, n, ps.drop_last()) + property_messages(base, n, ps.last())
    }
}

/// The IDs of the given properties.
pub open spec fn property_ids_of(ps: Seq<PropertyView>) -> Seq<Seq<char>> {
    ps.map_values(|p: PropertyView| p.id)
}

/// The messages that describe a node: its name and type, its properties, and the list of their
/// IDs.
pub open spec fn node_messages(base: Seq<char>, n: NodeView) -> Seq<MessageView> {
    seq![
        publish_at(base, seq![n.id, "$name"@], n.name),
        publish_at(base, seq![n.id, "$type"@], n.node_type),
    ] + properties_messages(base, n.id, n.properties) + seq![
        publish_at(base, seq![n.id, "$properties"@], join_spec(property_ids_of(n.properties), ',')),
    ]
}

/// The messages that withdraw a node: unsubscribing from the `set` topic of each settable
/// property.
pub open spec fn unpublish_messages(base: Seq<char>, n: Seq<char>, ps: Seq<PropertyView>) -> Seq<MessageView>
    decreases ps.len(),
{
    if ps.len() == 0 {
        Seq::empty()
    } else {
        unpublish_messages(base, n, ps.drop_last()) + (if ps.last().settable {
            seq![MessageView::Unsubscribe { topic: topic(seq![base, n, ps.last().id, "set"@]) }]
        } else {
            Seq::empty()
        })
    }
}

/// Publishes messages under a device's base topic.
#[derive(Clone, Debug)]
pub struct DevicePublisher {
    /// The base topic of the device, including the Homie base topic.
    pub device_base: String,
}

impl DevicePublisher {
    /// A publisher for the device with the given base topic.
    pub fn new(device_base: &str) -> (p: DevicePublisher)
        ensures
            p.device_base@ == device_base@,
    {
        DevicePublisher { device_base: device_base.to_owned() }
    }

    /// Publishing `payload`, retained, on `subtopic` of the device.
    pub fn publish_retained(&self, subtopic: &str, payload: &str) -> (m: Message)
        ensures
            m@ == (MessageView::Publish { topic: topic(seq![self.device_base@, subtopic@]), payload: payload@ }),
    {
        Message::Publish { topic: topic2(self.device_base.as_str(), subtopic), payload: payload.to_owned() }
    }

    /// Publishing a new value for property `property_id` of node `node_id`.
    pub fn publish_value(&self, node_id: &str, property_id: &str, value: &str) -> (m: Message)
        ensures
            m@ == publish_at(self.device_base@, seq![node_id@, property_id@], value@),
    {
        let m = Message::Publish { topic: topic3(self.device_base.as_str(), node_id, property_id), payload: value.to_owned() };
        assert(seq![self.device_base@] + seq![node_id@, property_id@] =~= seq![self.device_base@, node_id@, property_id@]);
        m
    }

    /// Appends publishing `payload` on subtopic `a/b` of the device.
    fn push2(&self, out: &mut Vec<Message>, a: &str, b: &str, payload: &str)
        ensures
            message_views(final(out)@) == message_views(old(out)@).push(publish_at(self.device_base@, seq![a@, b@], payload@)),
    {
        let ghost before = message_views(out@);
        let m = Message::Publish { topic: topic3(self.device_base.as_str(), a, b), payload: payload.to_owned() };
        out.push(m);
        assert(seq![self.device_base@] + seq![a@, b@] =~= seq![self.device_base@, a@, b@]);
        assert(message_views(out@) =~= before.push(m@));
    }

    /// Appends publishing `payload` on subtopic `a/b/c` of the device.
    fn push3(&self, out: &mut Vec<Message>, a: &str, b: &str, c: &str, payload: &str)
        ensures
            message_views(final(out)@) == message_views(old(out)@).push(publish_at(self.device_base@, seq![a@, b@, c@], payload@)),
    {
        let ghost before = message_views(out@);
        let m = Message::Publish { topic: topic4(self.device_base.as_str(), a, b, c), payload: payload.to_owned() };
        out.push(m);
        assert(seq![self.device_base@] + seq![a@, b@, c@] =~= seq![self.device_base@, a@, b@, c@]);
        assert(message_views(out@) =~= before.push(m@));
    }

    /// Appends the messages that describe property `p` of node `n`.
    fn push_property(&self, out: &mut Vec<Message>, n: &str, p: &Property)
        ensures
            message_views(final(out)@) == message_views(old(out)@) + property_messages(self.device_base@, n@, p@),
    {
        let ghost start = message_views(out@);
        let ghost base = self.device_base@;
        self.push3(out, n, p.id.as_str(), "$name", p.name.as_str());
        self.push3(out, n, p.id.as_str(), "$datatype", p.datatype.as_str());
        self.push3(out, n, p.id.as_str(), "$settable", if p.settable { "true" } else { "false" });
        let ghost mid = message_views(out@);
        assert(mid =~= start + seq![
            publish_at(base, seq![n@, p@.id, "$name"@], p@.name),
            publish_at(base, seq![n@, p@.id, "$datatype"@], p@.datatype.spec_as_str()),
            publish_at(base, seq![n@, p@.id, "$settable"@], bool_str(p@.settable)),
        ]);
        let ghost unit_part: Seq<MessageView> = match p@.unit {
            Some(u) => seq![publish_at(base, seq![n@, p@.id, "$unit"@], u)],
            None => Seq::empty(),
        };
        if let Some(unit) = &p.unit {
            self.push3(out, n, p.id.as_str(), "$unit", unit.as_str());
        }
        assert(message_views(out@) =~= mid + unit_part);
        let ghost mid2 = message_views(out@);
        let ghost format_part: Seq<MessageView> = match p@.format {
            Some(f) => seq![publish_at(base, seq![n@, p@.id, "$format"@], f)],
            None => Seq::empty(),
        };
        if let Some(format) = &p.format {
            self.push3(out, n, p.id.as_str(), "$format", format.as_str());
        }
        assert(message_views(out@) =~= mid2 + format_part);
        let ghost mid3 = message_views(out@);
        let ghost set_part: Seq<MessageView> = if p@.settable {
            seq![MessageView::Subscribe { topic: topic(seq![base, n@, p@.id, "set"@]) }]
        } else {
            Seq::empty()
        };
        if p.settable {
            let m = Message::Subscribe { topic: topic4(self.device_base.as_str(), n, p.id.as_str(), "set") };
            out.push(m);
        }
        assert(message_views(out@) =~= mid3 + set_part);
        assert(property_messages(base, n@, p@) =~= seq![
            publish_at(base, seq![n@, p@.id, "$name"@], p@.name),
            publish_at(base, seq![n@, p@.id, "$datatype"@], p@.datatype.spec_as_str()),
            publish_at(base, seq![n@, p@.id, "$settable"@], bool_str(p@.settable)),
        ] + unit_part + format_part + set_part);
        assert(message_views(out@) =~= start + property_messages(base, n@, p@));
    }

    /// The messages that describe a node and its properties.
    pub fn publish_node(&self, node: &Node) -> (ms: Vec<Message>)
        ensures
            message_views(ms@) == node_messages(self.device_base@, node@),
    {
        let ghost base = self.device_base@;
        let ghost ps = node@.properties;
        let mut out: Vec<Message> = Vec::new();
        self.push2(&mut out, node.id.as_str(), "$name", node.name.as_str());
        self.push2(&mut out, node.id.as_str(), "$type", node.node_type.as_str());
        let ghost head = message_views(out@);
        let mut ids: Vec<&str> = Vec::new();
        let mut i: usize = 0;
        assert(ps.take(0) =~= Seq::<PropertyView>::empty());
        assert(head + Seq::<MessageView>::empty() =~= head);
        while i < node.properties.len()
            invariant
                i <= node.properties@.len(),
                ps == node@.properties,
                base == self.device_base@,
                head == seq![
                    publish_at(base, seq![node@.id, "$name"@], node@.name),
                    publish_at(base, seq![node@.id, "$type"@], node@.node_type),
                ],
                message_views(out@) == head + properties_messages(base, node@.id, ps.take(i as int)),
                ids@.map_values(|s: &str| s@) == property_ids_of(ps.take(i as int)),
            decreases node.properties@.len() - i,
        {
            let p = &node.properties[i];
            let ghost before_ids = ids@.map_values(|s: &str| s@);
            ids.push(p.id.as_str());
            let ghost before = message_views(out@);
            self.push_property(&mut out, node.id.as_str(), p);
            assert(ps.take(i + 1).drop_last() =~= ps.take(i as int));
            assert(ps.take(i + 1).last() == p@);
            assert(message_views(out@) =~= head + properties_messages(base, node@.id, ps.take(i + 1)));
            assert(ids@.map_values(|s: &str| s@) =~= before_ids.push(p@.id));
            assert(property_ids_of(ps.take(i + 1)) =~= property_ids_of(ps.take(i as int)).push(p@.id));
            i = i + 1;
        }
        assert(ps.take(i as int) =~= ps);
        let list = join_strs(ids.as_slice(), ',');
        self.push2(&mut out, node.id.as_str(), "$properties", list.as_str());
        assert(message_views(out@) =~= node_messages(base, node@));
        out
    }

    /// The messages that withdraw a node: unsubscribing from the `set` topics of its settable
    /// properties.
    pub fn unpublish_node(&self, node: &Node) -> (ms: Vec<Message>)
        ensures
            message_views(ms@) == unpublish_messages(self.device_base@, node@.id, node@.properties),
    {
        let ghost ps = node@.properties;
        let mut out: Vec<Message> = Vec::new();
        let mut i: usize = 0;
        assert(ps.take(0) =~= Seq::<PropertyView>::empty());
        assert(message_views(out@) =~= Seq::<MessageView>::empty());
        while i < node.properties.len()
            invariant
                i <= node.properties@.len(),
                ps == node@.properties,
                message_views(out@) == unpublish_messages(self.device_base@, node@.id, ps.take(i as int)),
            decreases node.properties@.len() - i,
        {
            let p = &node.properties[i];
            let ghost before = message_views(out@);
            assert(ps.take(i + 1).drop_last() =~= ps.take(i as int));
            assert(ps.take(i + 1).last() == p@);
            if p.settable {
                let m = Message::Unsubscribe { topic: topic4(self.device_base.as_str(), node.id.as_str(), p.id.as_str(), "set") };
                out.push(m);
                assert(message_views(out@) =~= before.push(m@));
            } else {
                assert(before + Seq::<MessageView>::empty() =~= before);
            }
            i = i + 1;
        }
        assert(ps.take(i as int) =~= ps);
        out
    }
}

/// The state of a Homie device between operations: what it has announced, and where it is in
/// its lifecycle.
#[derive(Debug)]
pub struct DeviceState {
    publisher: DevicePublisher,
    device_name: String,
    nodes: Vec<Node>,
    state: State,
    extension_ids: String,
}

/// A device's state with its strings taken by their characters.
pub struct DeviceStateView {
    pub device_base: Seq<char>,
    pub device_name: Seq<char>,
    pub nodes: Seq<NodeView>,
    pub state: State,
    pub extension_ids: Seq<char>,
}

impl View for DeviceState {
    type V = DeviceStateView;

    closed spec fn view(&self) -> DeviceStateView {
        DeviceStateView {
            device_base: self.publisher.device_base@,
            device_name: self.device_name@,
            nodes: self.nodes@.map_values(|n: Node| n@),
            state: self.state,
            extension_ids: self.extension_ids@,
        }
    }
}

/// The IDs of the given nodes.
pub open spec fn node_ids_of(ns: Seq<NodeView>) -> Seq<Seq<char>> {
    ns.map_values(|n: NodeView| n.id)
}

/// Whether no two nodes have the same ID.
pub open spec fn node_ids_distinct(ns: Seq<NodeView>) -> bool {
    forall|a: int, b: int| 0 <= a < ns.len() && 0 <= b < ns.len() && a != b ==> ns[a].id != ns[b].id
}

/// Publishing the list of the device's node IDs.
pub open spec fn nodes_message(s: DeviceStateView) -> MessageView {
    publish_at(s.device_base, seq!["$nodes"@], join_spec(node_ids_of(s.nodes), ','))
}

/// Publishing the device's state.
pub open spec fn state_message(s: DeviceStateView) -> MessageView {
    publish_at(s.device_base, seq!["$state"@], s.state.spec_as_str())
}

/// The messages that announce the device: its Homie version, extensions, implementation and
/// name.
pub open spec fn announce_messages(s: DeviceStateView) -> Seq<MessageView> {
    seq![
        publish_at(s.device_base, seq!["$homie"@], HOMIE_VERSION@),
        publish_at(s.device_base, seq!["$extensions"@], s.extension_ids),
        publish_at(s.device_base, seq!["$implementation"@], HOMIE_IMPLEMENTATION@),
        publish_at(s.device_base, seq!["$name"@], s.device_name),
    ]
}

/// The messages that describe the given nodes, one after the other.
pub open spec fn nodes_messages(base: Seq<char>, ns: Seq<NodeView>) -> Seq<MessageView>
    decreases ns.len(),
{
    if ns.len() == 0 {
        Seq::empty()
    } else {
        nodes_messages(base, ns.drop_last()) + node_messages(base, ns.last())
    }
}

/// The index of the first node with the given ID.
pub open spec fn node_index(ns: Seq<NodeView>, id: Seq<char>) -> int {
    choose|i: int| 0 <= i < ns.len() && ns[i].id == id && forall|j: int| 0 <= j < i ==> ns[j].id != id
}

impl DeviceState {
    /// A device under the given base topic, with the given name and extensions, that has
    /// announced nothing yet and has no nodes.
    pub fn new(device_base: &str, device_name: &str, extension_ids: &[&str]) -> (d: DeviceState)
        ensures
            d@ == (DeviceStateView {
                device_base: device_base@,
                device_name: device_name@,
                nodes: Seq::empty(),
                state: State::Disconnected,
                extension_ids: join_spec(extension_ids@.map_values(|e: &str| e@), ','),
            }),
    {
        let d = DeviceState {
            publisher: DevicePublisher::new(device_base),
            device_name: device_name.to_owned(),
            nodes: Vec::new(),
            state: State::Disconnected,
            extension_ids: join_strs(extension_ids, ','),
        };
        assert(d@.nodes =~= Seq::<NodeView>::empty());
        d
    }

    /// The publisher for the device's messages.
    pub fn publisher(&self) -> (p: &DevicePublisher)
        ensures
            p.device_base@ == self@.device_base,
    {
        &self.publisher
    }

    /// The name of the device.
    pub fn device_name(&self) -> (n: &str)
        ensures
            n@ == self@.device_name,
    {
        self.device_name.as_str()
    }

    /// The current state of the device.
    pub fn state(&self) -> (s: State)
        ensures
            s == self@.state,
    {
        self.state
    }

    /// The nodes of the device.
    pub fn nodes(&self) -> (ns: &Vec<Node>)
        ensures
            ns@.map_values(|n: Node| n@) == self@.nodes,
    {
        &self.nodes
    }

    /// Publishing the list of the device's node IDs.
    pub fn publish_nodes(&self) -> (m: Message)
        ensures
            m@ == nodes_message(self@),
    {
        let mut ids: Vec<&str> = Vec::new();
        let mut i: usize = 0;
        while i < self.nodes.len()
            invariant
                i <= self.nodes@.len(),
                ids@.map_values(|s: &str| s@) == node_ids_of(self@.nodes).take(i as int),
            decreases self.nodes@.len() - i,
        {
            let ghost before = ids@.map_values(|s: &str| s@);
            ids.push(self.nodes[i].id.as_str());
            assert(ids@.map_values(|s: &str| s@) =~= before.push(self.nodes@[i as int].id@));
            assert(node_ids_of(self@.nodes).take(i + 1) =~= node_ids_of(self@.nodes).take(i as int).push(self.nodes@[i as int].id@));
            i = i + 1;
        }
        assert(node_ids_of(self@.nodes).take(i as int) =~= node_ids_of(self@.nodes));
        let list = join_strs(ids.as_slice(), ',');
        let m = self.publisher.publish_retained("$nodes", list.as_str());
        assert(seq![self@.device_base] + seq!["$nodes"@] =~= seq![self@.device_base, "$nodes"@]);
        m
    }

    /// Publishing the current state.
    pub fn send_state(&self) -> (m: Message)
        ensures
            m@ == state_message(self@),
    {
        let m = self.publisher.publish_retained("$state", self.state.as_str());
        assert(seq![self@.device_base] + seq!["$state"@] =~= seq![self@.device_base, "$state"@]);
        m
    }

    /// Sets the state, and publishes it.
    pub fn set_state(&mut self, state: State) -> (m: Message)
        ensures
            final(self)@ == (DeviceStateView { state, ..old(self)@ }),
            m@ == state_message(final(self)@),
    {
        self.state = state;
        self.send_state()
    }

    /// Appends the messages that announce the device.
    fn push_announce(&self, out: &mut Vec<Message>)
        ensures
            message_views(final(out)@) == message_views(old(out)@) + announce_messages(self@),
    {
        let ghost start = message_views(out@);
        let ghost base = self@.device_base;
        out.push(self.publisher.publish_retained("$homie", HOMIE_VERSION));
        out.push(self.publisher.publish_retained("$extensions", self.extension_ids.as_str()));
        out.push(self.publisher.publish_retained("$implementation", HOMIE_IMPLEMENTATION));
        out.push(self.publisher.publish_retained("$name", self.device_name.as_str()));
        assert(seq![base] + seq!["$homie"@] =~= seq![base, "$homie"@]);
        assert(seq![base] + seq!["$extensions"@] =~= seq![base, "$extensions"@]);
        assert(seq![base] + seq!["$implementation"@] =~= seq![base, "$implementation"@]);
        assert(seq![base] + seq!["$name"@] =~= seq![base, "$name"@]);
        assert(message_views(out@) =~= start + announce_messages(self@));
    }

    /// Announces the device and makes its state init. The device must be disconnected.
    pub fn start(&mut self) -> (ms: Vec<Message>)
        requires
            old(self)@.state == State::Disconnected,
        ensures
            final(self)@ == (DeviceStateView { state: State::Init, ..old(self)@ }),
            message_views(ms@) == announce_messages(old(self)@).push(state_message(final(self)@)),
    {
        let mut out: Vec<Message> = Vec::new();
        assert(message_views(out@) =~= Seq::<MessageView>::empty());
        self.push_announce(&mut out);
        let ghost mid = message_views(out@);
        let m = self.set_state(State::Init);
        out.push(m);
        assert(message_views(out@) =~= mid.push(m@));
        assert(Seq::<MessageView>::empty() + announce_messages(old(self)@) =~= announce_messages(old(self)@));
        out
    }

    /// The messages that describe the given nodes.
    fn push_nodes(&self, out: &mut Vec<Message>)
        ensures
            message_views(final(out)@) == message_views(old(out)@) + nodes_messages(self@.device_base, self@.nodes),
    {
        let ghost start = message_views(out@);
        let ghost ns = self@.nodes;
        let mut i: usize = 0;
        assert(ns.take(0) =~= Seq::<NodeView>::empty());
        assert(start + Seq::<MessageView>::empty() =~= start);
        while i < self.nodes.len()
            invariant
                i <= self.nodes@.len(),
                ns == self@.nodes,
                start == message_views(old(out)@),
                message_views(out@) == start + nodes_messages(self@.device_base, ns.take(i as int)),
            decreases self.nodes@.len() - i,
        {
            let ghost before = message_views(out@);
            let mut ms = self.publisher.publish_node(&self.nodes[i]);
            let ghost msv = message_views(ms@);
            let ghost outv = out@;
            out.append(&mut ms);
            assert(message_views(out@) =~= message_views(outv) + msv);
            assert(ns.take(i + 1).drop_last() =~= ns.take(i as int));
            assert(ns.take(i + 1).last() == self.nodes@[i as int]@);
            assert(message_views(out@) =~= start + nodes_messages(self@.device_base, ns.take(i + 1)));
            i = i + 1;
        }
        assert(ns.take(i as int) =~= ns);
    }
}

impl DeviceState {
    /// Everything the device has announced, again, as after reconnecting: its nodes, the list
    /// of them, the device's announcement and its state.
    pub fn republish_all(&self) -> (ms: Vec<Message>)
        ensures
            message_views(ms@) == nodes_messages(self@.device_base, self@.nodes).push(nodes_message(self@))
                + announce_messages(self@).push(state_message(self@)),
    {
        let mut out: Vec<Message> = Vec::new();
        assert(message_views(out@) =~= Seq::<MessageView>::empty());
        self.push_nodes(&mut out);
        let ghost a = message_views(out@);
        let m = self.publish_nodes();
        out.push(m);
        let ghost b = message_views(out@);
        assert(b =~= a.push(m@));
        self.push_announce(&mut out);
        let ghost c = message_views(out@);
        let m2 = self.send_state();
        out.push(m2);
        assert(message_views(out@) =~= c.push(m2@));
        assert(Seq::<MessageView>::empty() + nodes_messages(self@.device_base, self@.nodes) =~= nodes_messages(self@.device_base, self@.nodes));
        assert(message_views(out@) =~= nodes_messages(self@.device_base, self@.nodes).push(nodes_message(self@))
            + announce_messages(self@).push(state_message(self@)));
        out
    }

    /// Whether the device has a node with the given ID.
    pub fn has_node(&self, node_id: &str) -> (b: bool)
        ensures
            b == exists|i: int| 0 <= i < self@.nodes.len() && #[trigger] self@.nodes[i].id == node_id@,
    {
        let mut i: usize = 0;
        while i < self.nodes.len()
            invariant
                i <= self.nodes@.len(),
                forall|j: int| 0 <= j < i ==> #[trigger] self@.nodes[j].id != node_id@,
            decreases self.nodes@.len() - i,
        {
            if str_eq(self.nodes[i].id.as_str(), node_id) {
                assert(self@.nodes[i as int].id == node_id@);
                return true;
            }
            i = i + 1;
        }
        false
    }

    /// Adds a node, and gives the messages that describe it and the new list of nodes. The
    /// device must not have a node with the same ID already.
    pub fn add_node(&mut self, node: Node) -> (ms: Vec<Message>)
        requires
            forall|i: int| 0 <= i < old(self)@.nodes.len() ==> #[trigger] old(self)@.nodes[i].id != node@.id,
        ensures
            final(self)@ == (DeviceStateView { nodes: old(self)@.nodes.push(node@), ..old(self)@ }),
            node_ids_distinct(old(self)@.nodes) ==> node_ids_distinct(final(self)@.nodes),
            message_views(ms@) == node_messages(old(self)@.device_base, node@).push(nodes_message(final(self)@)),
    {
        let mut out = self.publisher.publish_node(&node);
        let ghost nv = node@;
        let ghost before = self@.nodes;
        self.nodes.push(node);
        assert(self@.nodes =~= before.push(nv));
        let ghost a = message_views(out@);
        let m = self.publish_nodes();
        out.push(m);
        assert(message_views(out@) =~= a.push(m@));
        out
    }

    /// Removes the node with the given ID, and gives the messages that withdraw it and the new
    /// list of nodes. The device must have such a node.
    pub fn remove_node(&mut self, node_id: &str) -> (ms: Vec<Message>)
        requires
            exists|i: int| 0 <= i < old(self)@.nodes.len() && #[trigger] old(self)@.nodes[i].id == node_id@,
        ensures
            ({
                let i = node_index(old(self)@.nodes, node_id@);
                &&& 0 <= i < old(self)@.nodes.len()
                &&& old(self)@.nodes[i].id == node_id@
                &&& final(self)@ == (DeviceStateView { nodes: old(self)@.nodes.remove(i), ..old(self)@ })
                &&& message_views(ms@) == unpublish_messages(old(self)@.device_base, node_id@, old(self)@.nodes[i].properties)
                    .push(nodes_message(final(self)@))
            }),
            node_ids_distinct(old(self)@.nodes) ==> node_ids_distinct(final(self)@.nodes),
    {
        let ghost before = self@.nodes;
        let mut i: usize = 0;
        let mut found = false;
        while i < self.nodes.len() && !found
            invariant
                i <= self.nodes@.len(),
                before == self@.nodes,
                exists|k: int| 0 <= k < before.len() && #[trigger] before[k].id == node_id@,
                forall|j: int| 0 <= j < i ==> #[trigger] before[j].id != node_id@,
                found ==> i < before.len() && before[i as int].id == node_id@,
            decreases self.nodes@.len() - i + (if found { 0int } else { 1int }),
        {
            if str_eq(self.nodes[i].id.as_str(), node_id) {
                assert(before[i as int].id == node_id@);
                found = true;
            } else {
                i = i + 1;
            }
        }
        proof {
            if !found {
                let k = choose|k: int| 0 <= k < before.len() && #[trigger] before[k].id == node_id@;
                assert(before[k].id != node_id@);
            }
        }
        proof {
            let k = node_index(before, node_id@);
            assert(0 <= i < before.len() && before[i as int].id == node_id@ && forall|j: int| 0 <= j < i ==> before[j].id != node_id@);
            assert(0 <= k < before.len() && before[k].id == node_id@ && forall|j: int| 0 <= j < k ==> before[j].id != node_id@);
            if k < i {
                assert(before[k].id != node_id@);
            }
            if k > i {
                assert(before[i as int].id != node_id@);
            }
        }
        let mut out = self.publisher.unpublish_node(&self.nodes[i]);
        self.nodes.remove(i);
        assert(self@.nodes =~= before.remove(i as int));
        let ghost a = message_views(out@);
        let m = self.publish_nodes();
        out.push(m);
        assert(message_views(out@) =~= a.push(m@));
        out
    }
}

impl DeviceState {
    /// Makes the state ready, to begin normal operation or to return to it after sleeping or an
    /// alert. The device must be in its init, sleeping or alert state.
    pub fn ready(&mut self) -> (m: Message)
        requires
            old(self)@.state == State::Init || old(self)@.state == State::Sleeping || old(self)@.state == State::Alert,
        ensures
            final(self)@ == (DeviceStateView { state: State::Ready, ..old(self)@ }),
            m@ == state_message(final(self)@),
    {
        self.set_state(State::Ready)
    }

    /// Makes the state sleeping. The device must be ready.
    pub fn sleep(&mut self) -> (m: Message)
        requires
            old(self)@.state == State::Ready,
        ensures
            final(self)@ == (DeviceStateView { state: State::Sleeping, ..old(self)@ }),
            m@ == state_message(final(self)@),
    {
        self.set_state(State::Sleeping)
    }

    /// Makes the state alert, to say that something is wrong and manual intervention may be
    /// needed. The device must be ready.
    pub fn alert(&mut self) -> (m: Message)
        requires
            old(self)@.state == State::Ready,
        ensures
            final(self)@ == (DeviceStateView { state: State::Alert, ..old(self)@ }),
            m@ == state_message(final(self)@),
    {
        self.set_state(State::Alert)
    }

    /// Makes the state disconnected, before disconnecting cleanly from the broker.
    pub fn disconnect(&mut self) -> (m: Message)
        ensures
            final(self)@ == (DeviceStateView { state: State::Disconnected, ..old(self)@ }),
            m@ == state_message(final(self)@),
    {
        self.set_state(State::Disconnected)
    }

    /// Publishing a new value of property `property_id` of node `node_id`.
    pub fn publish_value(&self, node_id: &str, property_id: &str, value: &str) -> (m: Message)
        ensures
            m@ == publish_at(self@.device_base, seq![node_id@, property_id@], value@),
    {
        self.publisher.publish_value(node_id, property_id, value)
    }
}

/// The extensions that a device supports: the legacy statistics, and also the legacy firmware
/// where a firmware name and version are set.
pub fn extension_ids(with_firmware: bool) -> (ids: Vec<&'static str>)
    ensures
        ids@.map_values(|e: &str| e@) == (if with_firmware {
            seq![STATS_EXTENSION_ID@, FIRMWARE_EXTENSION_ID@]
        } else {
            seq![STATS_EXTENSION_ID@]
        }),
{
    let mut ids: Vec<&'static str> = Vec::new();
    ids.push(STATS_EXTENSION_ID);
    if with_firmware {
        ids.push(FIRMWARE_EXTENSION_ID);
        assert(ids@.map_values(|e: &str| e@) =~= seq![STATS_EXTENSION_ID@, FIRMWARE_EXTENSION_ID@]);
    } else {
        assert(ids@.map_values(|e: &str| e@) =~= seq![STATS_EXTENSION_ID@]);
    }
    ids
}

/// The device's last will, which the broker publishes if the device goes away uncleanly: the
/// state lost.
pub fn last_will(device_base: &str) -> (m: Message)
    ensures
        m@ == (MessageView::Publish { topic: topic(seq![device_base@, "$state"@]), payload: State::Lost.spec_as_str() }),
{
    DevicePublisher::new(device_base).publish_retained("$state", State::Lost.as_str())
}

/// The statistics interval, as the legacy statistics extension announces it, in seconds.
pub fn stats_interval_message(p: &DevicePublisher) -> (m: Message)
    ensures
        m@ == (MessageView::Publish { topic: topic(seq![p.device_base@, "$stats/interval"@]), payload: dec_digits(STATS_INTERVAL_SECS as nat) }),
{
    let mut v = String::new();
    push_u64(&mut v, STATS_INTERVAL_SECS);
    p.publish_retained("$stats/interval", v.as_str())
}

/// The time since the device started, in seconds, as the legacy statistics extension sends it.
pub fn stats_uptime_message(p: &DevicePublisher, uptime_secs: u64) -> (m: Message)
    ensures
        m@ == (MessageView::Publish { topic: topic(seq![p.device_base@, "$stats/uptime"@]), payload: dec_digits(uptime_secs as nat) }),
{
    let mut v = String::new();
    push_u64(&mut v, uptime_secs);
    p.publish_retained("$stats/uptime", v.as_str())
}

/// The messages of the legacy firmware extension: the device's local IP address, its MAC
/// address, and its firmware's name and version.
pub fn firmware_messages(p: &DevicePublisher, local_ip: &str, mac: &str, name: &str, version: &str) -> (ms: Vec<Message>)
    ensures
        message_views(ms@) == seq![
            MessageView::Publish { topic: topic(seq![p.device_base@, "$localip"@]), payload: local_ip@ },
            MessageView::Publish { topic: topic(seq![p.device_base@, "$mac"@]), payload: mac@ },
            MessageView::Publish { topic: topic(seq![p.device_base@, "$fw/name"@]), payload: name@ },
            MessageView::Publish { topic: topic(seq![p.device_base@, "$fw/version"@]), payload: version@ },
        ],
{
    let mut ms: Vec<Message> = Vec::new();
    ms.push(p.publish_retained("$localip", local_ip));
    ms.push(p.publish_retained("$mac", mac));
    ms.push(p.publish_retained("$fw/name", name));
    ms.push(p.publish_retained("$fw/version", version));
    assert(message_views(ms@) =~= seq![
        MessageView::Publish { topic: topic(seq![p.device_base@, "$localip"@]), payload: local_ip@ },
        MessageView::Publish { topic: topic(seq![p.device_base@, "$mac"@]), payload: mac@ },
        MessageView::Publish { topic: topic(seq![p.device_base@, "$fw/name"@]), payload: name@ },
        MessageView::Publish { topic: topic(seq![p.device_base@, "$fw/version"@]), payload: version@ },
    ]);
    ms
}

/// What a message that the device receives asks of it.
#[derive(Clone, Debug, Eq, PartialEq)]
pub enum Incoming {
    /// To set property `property_id` of node `node_id` to `value`.
    SetProperty { node_id: String, property_id: String, value: String },
    /// Nothing that the device handles.
    Ignored,
    /// The topic is not under the device's base topic.
    Unexpected,
}

/// An `Incoming` with its strings taken by their characters.
pub enum IncomingView {
    SetProperty { node_id: Seq<char>, property_id: Seq<char>, value: Seq<char> },
    Ignored,
    Unexpected,
}

impl View for Incoming {
    type V = IncomingView;

    open spec fn view(&self) -> IncomingView {
        match self {
            Incoming::SetProperty { node_id, property_id, value } =>
                IncomingView::SetProperty { node_id: node_id@, property_id: property_id@, value: value@ },
            Incoming::Ignored => IncomingView::Ignored,
            Incoming::Unexpected => IncomingView::Unexpected,
        }
    }
}

/// What a message on topic `t` asks of the device under `base`: under the base topic, a topic
/// "node/property/set" with a text payload is a request to set that property to the payload.
pub open spec fn incoming_spec(base: Seq<char>, t: Seq<char>, payload: Seq<u8>) -> IncomingView {
    let prefix = base_prefix(base);
    if !(prefix.len() <= t.len() && t.take(prefix.len() as int) == prefix) {
        IncomingView::Unexpected
    } else {
        let parts = split_spec(t.skip(prefix.len() as int), '/');
        if parts.len() == 3 && parts[2] == "set"@ && valid_utf8(payload) {
            IncomingView::SetProperty { node_id: parts[0], property_id: parts[1], value: decode_utf8(payload) }
        } else {
            IncomingView::Ignored
        }
    }
}

/// What a message that the device receives asks of it.
pub fn incoming_publish(device_base: &str, t: &str, payload: &[u8]) -> (r: Incoming)
    ensures
        r@ == incoming_spec(device_base@, t@, payload@),
{
    match strip_base(t, device_base) {
        None => Incoming::Unexpected,
        Some(rest) => {
            let parts = split_str(rest, '/');
            if parts.len() == 3 && str_eq(parts[2], "set") {
                match utf8_text(payload) {
                    Some(value) => Incoming::SetProperty {
                        node_id: parts[0].to_owned(),
                        property_id: parts[1].to_owned(),
                        value: value.to_owned(),
                    },
                    None => Incoming::Ignored,
                }
            } else {
                Incoming::Ignored
            }
        },
    }
}

/// The kinds of failure of polling the connection to the broker that the device tells apart.
#[derive(Clone, Copy, Debug, Eq, PartialEq, Structural)]
pub enum PollFailure {
    /// Reading or writing the connection failed.
    Io,
    /// The broker did not answer a ping in time.
    AwaitPingResp,
    /// Any other failure.
    Other,
}

/// What the device's connection task does after polling failed.
#[derive(Clone, Copy, Debug, Eq, PartialEq, Structural)]
pub enum PollAction {
    /// Stop, successfully: the device asked to disconnect.
    Finish,
    /// Wait for the reconnect interval, then poll again.
    Reconnect,
    /// Poll again at once.
    Continue,
    /// Stop with the error.
    Fail,
}

/// What the device's connection task does after polling failed: it finishes if the device
/// asked to disconnect; otherwise it waits and reconnects after an I/O failure, carries on
/// after a missed ping, and fails on anything else.
pub fn after_poll_failure(disconnect_requested: bool, failure: PollFailure) -> (a: PollAction)
    ensures
        a == (if disconnect_requested {
            PollAction::Finish
        } else {
            match failure {
                PollFailure::Io => PollAction::Reconnect,
                PollFailure::AwaitPingResp => PollAction::Continue,
                PollFailure::Other => PollAction::Fail,
            }
        }),
{
    if disconnect_requested {
        PollAction::Finish
    } else {
        match failure {
            PollFailure::Io => PollAction::Reconnect,
            PollFailure::AwaitPingResp => PollAction::Continue,
            PollFailure::Other => PollAction::Fail,
        }
    }
}

/// Removing a node just added gives back the nodes there were before.
pub proof fn lemma_remove_undoes_add(ns: Seq<NodeView>, n: NodeView)
    requires
        forall|i: int| 0 <= i < ns.len() ==> #[trigger] ns[i].id != n.id,
    ensures
        node_index(ns.push(n), n.id) == ns.len(),
        ns.push(n).remove(ns.len() as int) == ns,
{
    let s = ns.push(n);
    let k = node_index(s, n.id);
    assert(s[ns.len() as int].id == n.id);
    assert(forall|j: int| 0 <= j < ns.len() ==> s[j].id != n.id);
    assert(0 <= k < s.len() && s[k].id == n.id && forall|j: int| 0 <= j < k ==> s[j].id != n.id);
    if k < ns.len() {
        assert(s[k] == ns[k]);
    }
    if k > ns.len() {
    }
    assert(s.remove(ns.len() as int) =~= ns);
}

/// Where a node with the given ID is, `node_index` gives the first.
pub proof fn lemma_node_index(ns: Seq<NodeView>, id: Seq<char>, w: int)
    requires
        0 <= w < ns.len(),
        ns[w].id == id,
    ensures
        0 <= node_index(ns, id) < ns.len(),
        ns[node_index(ns, id)].id == id,
        forall|j: int| 0 <= j < node_index(ns, id) ==> ns[j].id != id,
    decreases w,
{
    if exists|j: int| 0 <= j < w && ns[j].id == id {
        let j = choose|j: int| 0 <= j < w && ns[j].id == id;
        lemma_node_index(ns, id, j);
    } else {
        assert(0 <= w < ns.len() && ns[w].id == id && forall|j: int| 0 <= j < w ==> ns[j].id != id);
    }
}

/// The outcome of two tasks that give nothing: success if both succeeded, else the error.
pub fn simplify_unit_pair<E>(m: Result<((), ()), E>) -> (r: Result<(), E>)
    ensures
        match m {
            Ok(_) => r is Ok,
            Err(e) => r == Err::<(), E>(e),
        },
{
    match m {
        Ok(((), ())) => Ok(()),
        Err(e) => Err(e),
    }
}

} // verus!
