//! The bridge's bookkeeping of Mijia sensors: which are known, how each is connected, and what
//! each Bluetooth event or periodic check means for them and for the Homie device that
//! publishes their readings. Times are milliseconds on the program's monotonic clock.

use crate::bluez::ids::DeviceId;
use crate::bluez::macaddress::MacAddress;
use crate::homie_controller::types::Datatype;
use crate::homie_device::device::{
    message_views, node_ids_of, node_index, node_messages, nodes_message, publish_at, unpublish_messages, DeviceState,
    DeviceStateView, Message, MessageView, NodeView, State,
};
use crate::homie_device::types::{Node, Property, PropertyView};
use crate::text::{dec_digits, push_char, push_u64, str_eq};
use vstd::prelude::*;
use vstd::string::StrSliceExecFns;

verus! {

/// The property of a sensor's node that holds its temperature.
pub const PROPERTY_ID_TEMPERATURE: &'static str = "temperature";
/// The property of a sensor's node that holds its relative humidity.
pub const PROPERTY_ID_HUMIDITY: &'static str = "humidity";
/// The property of a sensor's node that holds its battery level.
pub const PROPERTY_ID_BATTERY: &'static str = "battery";

/// How long a sensor may send nothing before it is reconnected.
pub const UPDATE_TIMEOUT_MS: i64 = 60_000;
/// How long an attempt to connect to a sensor keeps others from trying.
pub const SENSOR_CONNECT_RESERVATION_TIMEOUT_MS: i64 = 300_000;
/// How long before the bridge starts to look for sensors the first time, counted back: the
/// readings of a new sensor count as last sent this long before it was found.
pub const NEVER_SENT_MS: i64 = 3_600_000;

/// How the bridge is connected to a sensor.
#[derive(Clone, Debug, Eq, PartialEq)]
pub enum ConnectionStatus {
    /// Not yet tried. It may be connected from an earlier run of the program.
    Unknown,
    /// Connecting; nothing else tries until the reservation expires.
    Connecting { reserved_until: i64 },
    /// Disconnected by the bridge, because connecting failed or the sensor went quiet.
    Disconnected,
    /// Reported disconnected. Such reports can come out of order, so the sensor may in fact
    /// be connected.
    MarkedDisconnected,
    /// Connected, with notifications of readings started, through the given device.
    Connected { id: DeviceId },
}

/// A connection status with the device's object path taken by its characters.
pub enum StatusView {
    Unknown,
    Connecting { reserved_until: i64 },
    Disconnected,
    MarkedDisconnected,
    Connected { id: Seq<char> },
}

impl View for ConnectionStatus {
    type V = StatusView;

    open spec fn view(&self) -> StatusView {
        match self {
            ConnectionStatus::Unknown => StatusView::Unknown,
            ConnectionStatus::Connecting { reserved_until } => StatusView::Connecting { reserved_until: *reserved_until },
            ConnectionStatus::Disconnected => StatusView::Disconnected,
            ConnectionStatus::MarkedDisconnected => StatusView::MarkedDisconnected,
            ConnectionStatus::Connected { id } => StatusView::Connected { id: id.object_path@ },
        }
    }
}

/// A sensor that the bridge knows of.
#[derive(Clone, Debug)]
pub struct Sensor {
    pub mac_address: MacAddress,
    pub name: String,
    /// When the last reading came.
    pub last_update_timestamp: i64,
    /// When the last reading was sent on; earlier than the last one that came where readings
    /// come faster than the least update period.
    pub last_sent_timestamp: i64,
    pub connection_status: ConnectionStatus,
    /// The devices through which the sensor can be reached, one per Bluetooth adapter.
    pub ids: Vec<DeviceId>,
}

/// A sensor with its strings taken by their characters.
pub struct SensorView {
    pub mac_address: Seq<char>,
    pub name: Seq<char>,
    pub last_update_timestamp: i64,
    pub last_sent_timestamp: i64,
    pub connection_status: StatusView,
    pub ids: Seq<Seq<char>>,
}

impl View for Sensor {
    type V = SensorView;

    open spec fn view(&self) -> SensorView {
        SensorView {
            mac_address: self.mac_address@,
            name: self.name@,
            last_update_timestamp: self.last_update_timestamp,
            last_sent_timestamp: self.last_sent_timestamp,
            connection_status: self.connection_status@,
            ids: self.ids@.map_values(|d: DeviceId| d.object_path@),
        }
    }
}

/// The string without its ':'.
pub open spec fn without_colons(s: Seq<char>) -> Seq<char>
    decreases s.len(),
{
    if s.len() == 0 {
        Seq::empty()
    } else if s.last() == ':' {
        without_colons(s.drop_last())
    } else {
        without_colons(s.drop_last()).push(s.last())
    }
}

/// The ID of a sensor's node: its MAC address without the ':'.
pub open spec fn node_id_of(mac: Seq<char>) -> Seq<char> {
    without_colons(mac)
}

/// The node that publishes a sensor's readings: its temperature in degrees Celsius, its
/// relative humidity and its battery level in percent.
pub open spec fn sensor_node(mac: Seq<char>, name: Seq<char>) -> NodeView {
    NodeView {
        id: node_id_of(mac),
        name,
        node_type: "Mijia sensor"@,
        properties: seq![
            PropertyView {
                id: PROPERTY_ID_TEMPERATURE@,
                name: "Temperature"@,
                datatype: Datatype::Float,
                settable: false,
                retained: true,
                unit: Some("ºC"@),
                format: None,
            },
            PropertyView {
                id: PROPERTY_ID_HUMIDITY@,
                name: "Humidity"@,
                datatype: Datatype::Integer,
                settable: false,
                retained: true,
                unit: Some("%"@),
                format: None,
            },
            PropertyView {
                id: PROPERTY_ID_BATTERY@,
                name: "Battery level"@,
                datatype: Datatype::Integer,
                settable: false,
                retained: true,
                unit: Some("%"@),
                format: None,
            },
        ],
    }
}

/// A MAC address without its ':'.
pub fn node_id_for(mac: &MacAddress) -> (id: String)
    ensures
        id@ == node_id_of(mac@),
{
    let s = mac.as_str();
    let n = s.unicode_len();
    let mut id = String::new();
    let mut i: usize = 0;
    while i < n
        invariant
            n == s@.len(),
            s@ == mac@,
            i <= n,
            id@ == without_colons(s@.take(i as int)),
        decreases n - i,
    {
        let c = s.get_char(i);
        assert(s@.take(i + 1).drop_last() =~= s@.take(i as int));
        assert(s@.take(i + 1).last() == c);
        if c != ':' {
            push_char(&mut id, c);
        }
        i = i + 1;
    }
    assert(s@.take(n as int) =~= s@);
    id
}

impl Sensor {
    /// A sensor found through the given device, named as the names say, or by its MAC address
    /// where they do not name it. Its readings count as last sent long ago.
    pub fn new(mac_address: MacAddress, name: Option<String>, id: DeviceId, now: i64) -> (s: Sensor)
        requires
            now >= i64::MIN + NEVER_SENT_MS,
        ensures
            s@ == (SensorView {
                mac_address: mac_address@,
                name: match name {
                    Some(n) => n@,
                    None => mac_address@,
                },
                last_update_timestamp: now,
                last_sent_timestamp: (now - NEVER_SENT_MS) as i64,
                connection_status: StatusView::Unknown,
                ids: seq![id.object_path@],
            }),
    {
        let name = match name {
            Some(n) => n,
            None => mac_address.to_string(),
        };
        let mut ids: Vec<DeviceId> = Vec::new();
        ids.push(id);
        let s = Sensor {
            mac_address,
            name,
            last_update_timestamp: now,
            last_sent_timestamp: now - NEVER_SENT_MS,
            connection_status: ConnectionStatus::Unknown,
            ids,
        };
        assert(s@.ids =~= seq![s.ids@[0].object_path@]);
        s
    }

    /// The ID of the sensor's node: its MAC address without the ':'.
    pub fn node_id(&self) -> (id: String)
        ensures
            id@ == node_id_of(self@.mac_address),
    {
        node_id_for(&self.mac_address)
    }

    /// The node that publishes the sensor's readings.
    pub fn as_node(&self) -> (n: Node)
        ensures
            n@ == sensor_node(self@.mac_address, self@.name),
    {
        let mut properties: Vec<Property> = Vec::new();
        properties.push(Property::make(PROPERTY_ID_TEMPERATURE, "Temperature", Datatype::Float, false, true, Some("ºC"), None));
        properties.push(Property::make(PROPERTY_ID_HUMIDITY, "Humidity", Datatype::Integer, false, true, Some("%"), None));
        properties.push(Property::make(PROPERTY_ID_BATTERY, "Battery level", Datatype::Integer, false, true, Some("%"), None));
        let node = Node::new(self.node_id().as_str(), self.name.as_str(), "Mijia sensor", properties);
        assert(node@.properties =~= sensor_node(self@.mac_address, self@.name).properties);
        node
    }
}


/// The node IDs of the given sensors.
pub open spec fn sensor_node_ids(ss: Seq<SensorView>) -> Seq<Seq<char>> {
    ss.map_values(|s: SensorView| node_id_of(s.mac_address))
}

/// Whether no ID occurs twice.
pub open spec fn distinct(ids: Seq<Seq<char>>) -> bool {
    forall|a: int, b: int| 0 <= a < ids.len() && 0 <= b < ids.len() && a != b ==> ids[a] != ids[b]
}

/// The sensors, the Homie device that publishes them, and the least time between readings sent
/// for one sensor.
#[derive(Debug)]
pub struct SensorState {
    sensors: Vec<Sensor>,
    homie: DeviceState,
    min_update_period_ms: i64,
}

/// The sensors' state taken by its views.
pub struct SensorStateView {
    pub sensors: Seq<SensorView>,
    pub homie: DeviceStateView,
    pub min_update_period_ms: i64,
}

impl View for SensorState {
    type V = SensorStateView;

    closed spec fn view(&self) -> SensorStateView {
        SensorStateView {
            sensors: self.sensors@.map_values(|s: Sensor| s@),
            homie: self.homie@,
            min_update_period_ms: self.min_update_period_ms,
        }
    }
}

/// Whether the sensors and the Homie device agree: sensors have different node IDs, and so
/// have the device's nodes; a sensor is connected exactly when the device has its node; and
/// every node of the device is a sensor's.
pub open spec fn sensors_wf(v: SensorStateView) -> bool {
    &&& distinct(sensor_node_ids(v.sensors))
    &&& distinct(node_ids_of(v.homie.nodes))
    &&& forall|i: int| 0 <= i < v.sensors.len() ==>
        ((#[trigger] v.sensors[i].connection_status is Connected) <==> node_ids_of(v.homie.nodes).contains(node_id_of(v.sensors[i].mac_address)))
    &&& forall|k: int| 0 <= k < v.homie.nodes.len() ==> sensor_node_ids(v.sensors).contains(#[trigger] v.homie.nodes[k].id)
}

/// The index of the first sensor reachable through the device `id`, or -1 if there is none.
pub open spec fn sensor_with_id(ss: Seq<SensorView>, id: Seq<char>) -> int
    decreases ss.len(),
{
    if ss.len() == 0 {
        -1
    } else {
        let k = sensor_with_id(ss.drop_last(), id);
        if k >= 0 {
            k
        } else if ss.last().ids.contains(id) {
            ss.len() - 1
        } else {
            -1
        }
    }
}

/// `sensor_with_id` gives the first sensor reachable through the device, or -1.
proof fn lemma_sensor_with_id(ss: Seq<SensorView>, id: Seq<char>)
    ensures
        -1 <= sensor_with_id(ss, id) < ss.len(),
        sensor_with_id(ss, id) >= 0 ==> ss[sensor_with_id(ss, id)].ids.contains(id),
        forall|j: int| 0 <= j < sensor_with_id(ss, id) ==> !(#[trigger] ss[j]).ids.contains(id),
        sensor_with_id(ss, id) == -1 ==> forall|j: int| 0 <= j < ss.len() ==> !(#[trigger] ss[j]).ids.contains(id),
    decreases ss.len(),
{
    if ss.len() > 0 {
        let t = ss.drop_last();
        lemma_sensor_with_id(t, id);
        assert forall|j: int| 0 <= j < t.len() implies t[j] == ss[j] by {}
    }
}

/// Where the first sensor is known, `sensor_with_id` gives it.
proof fn lemma_sensor_with_id_at(ss: Seq<SensorView>, id: Seq<char>, i: int)
    requires
        0 <= i <= ss.len(),
        forall|j: int| 0 <= j < i ==> !(#[trigger] ss[j]).ids.contains(id),
        i < ss.len() ==> ss[i].ids.contains(id),
    ensures
        sensor_with_id(ss, id) == (if i < ss.len() { i } else { -1 }),
{
    lemma_sensor_with_id(ss, id);
    let k = sensor_with_id(ss, id);
    if k >= 0 && k < i {
        assert(!ss[k].ids.contains(id));
    }
    if i < ss.len() && k > i {
        assert(!ss[i].ids.contains(id));
    }
    if i < ss.len() && k == -1 {
        assert(!ss[i].ids.contains(id));
    }
}

/// Whether the sensor can be reached through the device.
fn reachable_through(s: &Sensor, id: &DeviceId) -> (b: bool)
    ensures
        b == s@.ids.contains(id.object_path@),
{
    let mut k: usize = 0;
    while k < s.ids.len()
        invariant
            k <= s.ids@.len(),
            forall|j: int| 0 <= j < k ==> s@.ids[j] != id.object_path@,
        decreases s.ids@.len() - k,
    {
        if str_eq(s.ids[k].object_path.as_str(), id.object_path.as_str()) {
            assert(s@.ids[k as int] == id.object_path@);
            return true;
        }
        k = k + 1;
    }
    false
}

/// The first sensor reachable through the device.
fn find_sensor(sensors: &Vec<Sensor>, id: &DeviceId) -> (r: Option<usize>)
    ensures
        match r {
            Some(i) => i < sensors@.len() && i as int == sensor_with_id(sensors@.map_values(|s: Sensor| s@), id.object_path@),
            None => sensor_with_id(sensors@.map_values(|s: Sensor| s@), id.object_path@) == -1,
        },
{
    let ghost ss = sensors@.map_values(|s: Sensor| s@);
    let mut i: usize = 0;
    while i < sensors.len()
        invariant
            i <= sensors@.len(),
            ss == sensors@.map_values(|s: Sensor| s@),
            forall|j: int| 0 <= j < i ==> !(#[trigger] ss[j]).ids.contains(id.object_path@),
        decreases sensors@.len() - i,
    {
        if reachable_through(&sensors[i], id) {
            proof { lemma_sensor_with_id_at(ss, id.object_path@, i as int); }
            return Some(i);
        }
        i = i + 1;
    }
    proof { lemma_sensor_with_id_at(ss, id.object_path@, i as int); }
    None
}

/// A copy of a device identifier.
fn copy_id(id: &DeviceId) -> (r: DeviceId)
    ensures
        r.object_path@ == id.object_path@,
{
    DeviceId::new(id.object_path.as_str())
}

/// The decimal digits of a number.
fn decimal(n: u64) -> (s: String)
    ensures
        s@ == dec_digits(n as nat),
{
    let mut s = String::new();
    push_u64(&mut s, n);
    assert(s@ =~= dec_digits(n as nat));
    s
}

/// The sensor with a new connection status.
pub open spec fn with_status(s: SensorView, st: StatusView) -> SensorView {
    SensorView { connection_status: st, ..s }
}

/// Whether a reading at `now` is sent on, given when the last one was.
pub open spec fn due(now: i64, last_sent: i64, min_update_period_ms: i64) -> bool {
    now > last_sent + min_update_period_ms
}

/// The messages that send a sensor's readings.
pub open spec fn readings_messages(base: Seq<char>, node: Seq<char>, temperature: Seq<char>, humidity: u8, battery: u16) -> Seq<MessageView> {
    seq![
        publish_at(base, seq![node, PROPERTY_ID_TEMPERATURE@], temperature),
        publish_at(base, seq![node, PROPERTY_ID_HUMIDITY@], dec_digits(humidity as nat)),
        publish_at(base, seq![node, PROPERTY_ID_BATTERY@], dec_digits(battery as nat)),
    ]
}


/// The state after sensor `i` connects through device `x`: its status says so, and the Homie
/// device has its node.
pub open spec fn connected_view(v: SensorStateView, i: int, x: Seq<char>) -> SensorStateView {
    let s = v.sensors[i];
    SensorStateView {
        sensors: v.sensors.update(i, with_status(s, StatusView::Connected { id: x })),
        homie: DeviceStateView { nodes: v.homie.nodes.push(sensor_node(s.mac_address, s.name)), ..v.homie },
        ..v
    }
}

/// The state after sensor `i` is no longer taken as connected: it has status `st`, and the
/// Homie device no longer has its node.
pub open spec fn detached_view(v: SensorStateView, i: int, st: StatusView) -> SensorStateView {
    let s = v.sensors[i];
    SensorStateView {
        sensors: v.sensors.update(i, with_status(s, st)),
        homie: DeviceStateView {
            nodes: v.homie.nodes.remove(node_index(v.homie.nodes, node_id_of(s.mac_address))),
            ..v.homie
        },
        ..v
    }
}

/// Connecting a sensor that was not connected keeps the sensors and the device in agreement;
/// the device did not have its node.
proof fn lemma_connect_wf(v: SensorStateView, i: int, x: Seq<char>)
    requires
        sensors_wf(v),
        0 <= i < v.sensors.len(),
        !(v.sensors[i].connection_status is Connected),
    ensures
        forall|k: int| 0 <= k < v.homie.nodes.len() ==> #[trigger] v.homie.nodes[k].id != node_id_of(v.sensors[i].mac_address),
        sensors_wf(connected_view(v, i, x)),
{
    let s = v.sensors[i];
    let nid = node_id_of(s.mac_address);
    let v2 = connected_view(v, i, x);
    let ids = node_ids_of(v.homie.nodes);
    assert(!ids.contains(nid));
    assert forall|k: int| 0 <= k < v.homie.nodes.len() implies #[trigger] v.homie.nodes[k].id != nid by {
        assert(ids[k] == v.homie.nodes[k].id);
    }
    assert(sensor_node_ids(v2.sensors) =~= sensor_node_ids(v.sensors));
    let ids2 = node_ids_of(v2.homie.nodes);
    assert(ids2 =~= ids.push(nid));
    assert forall|a: int, b: int| 0 <= a < ids2.len() && 0 <= b < ids2.len() && a != b implies ids2[a] != ids2[b] by {
        if a == ids.len() {
            assert(ids[b] != nid);
        } else if b == ids.len() {
            assert(ids[a] != nid);
        } else {
            assert(ids2[a] == ids[a] && ids2[b] == ids[b]);
        }
    }
    assert forall|j: int| 0 <= j < v2.sensors.len() implies
        ((#[trigger] v2.sensors[j].connection_status is Connected) <==> ids2.contains(node_id_of(v2.sensors[j].mac_address))) by {
        if j == i {
            assert(ids2[ids.len() as int] == nid);
        } else {
            let nj = node_id_of(v.sensors[j].mac_address);
            assert(sensor_node_ids(v.sensors)[j] == nj);
            assert(sensor_node_ids(v.sensors)[i] == nid);
            assert(nj != nid);
            if ids2.contains(nj) {
                let a = choose|a: int| 0 <= a < ids2.len() && ids2[a] == nj;
                assert(a < ids.len());
                assert(ids[a] == nj);
            }
            if ids.contains(nj) {
                let a = choose|a: int| 0 <= a < ids.len() && ids[a] == nj;
                assert(ids2[a] == nj);
            }
        }
    }
    assert forall|k: int| 0 <= k < v2.homie.nodes.len() implies sensor_node_ids(v2.sensors).contains(#[trigger] v2.homie.nodes[k].id) by {
        if k == v.homie.nodes.len() {
            assert(sensor_node_ids(v.sensors)[i] == nid);
        } else {
            assert(v2.homie.nodes[k] == v.homie.nodes[k]);
        }
    }
}

/// Removing the entry at `k` keeps IDs distinct, and an ID other than the removed one is
/// still there exactly when it was.
proof fn lemma_remove_ids(ids: Seq<Seq<char>>, k: int)
    requires
        distinct(ids),
        0 <= k < ids.len(),
    ensures
        distinct(ids.remove(k)),
        !ids.remove(k).contains(ids[k]),
        forall|x: Seq<char>| x != ids[k] ==> (ids.remove(k).contains(x) <==> ids.contains(x)),
{
    let r = ids.remove(k);
    assert forall|a: int, b: int| 0 <= a < r.len() && 0 <= b < r.len() && a != b implies r[a] != r[b] by {
        let a1 = if a < k { a } else { a + 1 };
        let b1 = if b < k { b } else { b + 1 };
        assert(r[a] == ids[a1]);
        assert(r[b] == ids[b1]);
    }
    if r.contains(ids[k]) {
        let a = choose|a: int| 0 <= a < r.len() && r[a] == ids[k];
        let a1 = if a < k { a } else { a + 1 };
        assert(ids[a1] == ids[k]);
    }
    assert forall|x: Seq<char>| x != ids[k] implies (r.contains(x) <==> ids.contains(x)) by {
        if r.contains(x) {
            let a = choose|a: int| 0 <= a < r.len() && r[a] == x;
            let a1 = if a < k { a } else { a + 1 };
            assert(ids[a1] == x);
        }
        if ids.contains(x) {
            let a = choose|a: int| 0 <= a < ids.len() && ids[a] == x;
            assert(a != k);
            let a2 = if a < k { a } else { a - 1 };
            assert(r[a2] == x);
        }
    }
}

/// Detaching a connected sensor keeps the sensors and the device in agreement; the device had
/// its node.
proof fn lemma_detach_wf(v: SensorStateView, i: int, st: StatusView)
    requires
        sensors_wf(v),
        0 <= i < v.sensors.len(),
        v.sensors[i].connection_status is Connected,
        !(st is Connected),
    ensures
        exists|k: int| 0 <= k < v.homie.nodes.len() && #[trigger] v.homie.nodes[k].id == node_id_of(v.sensors[i].mac_address),
        sensors_wf(detached_view(v, i, st)),
{
    let s = v.sensors[i];
    let nid = node_id_of(s.mac_address);
    let ids = node_ids_of(v.homie.nodes);
    assert(ids.contains(nid));
    let w = choose|w: int| 0 <= w < ids.len() && ids[w] == nid;
    assert(v.homie.nodes[w].id == nid);
    crate::homie_device::device::lemma_node_index(v.homie.nodes, nid, w);
    let k = node_index(v.homie.nodes, nid);
    let v2 = detached_view(v, i, st);
    assert(sensor_node_ids(v2.sensors) =~= sensor_node_ids(v.sensors));
    let ids2 = node_ids_of(v2.homie.nodes);
    assert(ids2 =~= ids.remove(k));
    assert(ids[k] == nid);
    lemma_remove_ids(ids, k);
    assert forall|j: int| 0 <= j < v2.sensors.len() implies
        ((#[trigger] v2.sensors[j].connection_status is Connected) <==> ids2.contains(node_id_of(v2.sensors[j].mac_address))) by {
        if j != i {
            let nj = node_id_of(v.sensors[j].mac_address);
            assert(sensor_node_ids(v.sensors)[j] == nj);
            assert(sensor_node_ids(v.sensors)[i] == nid);
            assert(v2.sensors[j] == v.sensors[j]);
        }
    }
    assert forall|m: int| 0 <= m < v2.homie.nodes.len() implies sensor_node_ids(v2.sensors).contains(#[trigger] v2.homie.nodes[m].id) by {
        let m1 = if m < k { m } else { m + 1 };
        assert(v2.homie.nodes[m] == v.homie.nodes[m1]);
    }
}

/// Changing a sensor without changing its MAC address or whether it is connected keeps the
/// sensors and the device in agreement.
proof fn lemma_touch_wf(v: SensorStateView, i: int, s2: SensorView)
    requires
        sensors_wf(v),
        0 <= i < v.sensors.len(),
        s2.mac_address == v.sensors[i].mac_address,
        (s2.connection_status is Connected) == (v.sensors[i].connection_status is Connected),
    ensures
        sensors_wf(SensorStateView { sensors: v.sensors.update(i, s2), ..v }),
{
    let v2 = SensorStateView { sensors: v.sensors.update(i, s2), ..v };
    assert(sensor_node_ids(v2.sensors) =~= sensor_node_ids(v.sensors));
    assert forall|j: int| 0 <= j < v2.sensors.len() implies
        ((#[trigger] v2.sensors[j].connection_status is Connected) <==> node_ids_of(v2.homie.nodes).contains(node_id_of(v2.sensors[j].mac_address))) by {
        if j != i {
            assert(v2.sensors[j] == v.sensors[j]);
        }
    }
}


/// What readings that came through device `id` at `now` do: the sensor reachable through it
/// takes the time of the reading, and sends the readings on if the least update period has
/// passed since it last did; a sensor not taken as connected or connecting is taken as
/// connected through that device, and its node is added. Readings through a device of no known
/// sensor do nothing.
pub open spec fn readings_spec(v: SensorStateView, id: Seq<char>, now: i64, temperature: Seq<char>, humidity: u8, battery: u16) -> (SensorStateView, Seq<MessageView>) {
    let i = sensor_with_id(v.sensors, id);
    if i < 0 {
        (v, Seq::empty())
    } else {
        let s = v.sensors[i];
        let send = due(now, s.last_sent_timestamp, v.min_update_period_ms);
        let s1 = SensorView {
            last_update_timestamp: now,
            last_sent_timestamp: if send { now } else { s.last_sent_timestamp },
            ..s
        };
        let ms1 = if send {
            readings_messages(v.homie.device_base, node_id_of(s.mac_address), temperature, humidity, battery)
        } else {
            Seq::empty()
        };
        let v1 = SensorStateView { sensors: v.sensors.update(i, s1), ..v };
        match s.connection_status {
            StatusView::Connected { .. } => (v1, ms1),
            StatusView::Connecting { .. } => (v1, ms1),
            _ => {
                let v2 = connected_view(v1, i, id);
                (v2, ms1 + node_messages(v.homie.device_base, sensor_node(s.mac_address, s.name)).push(nodes_message(v2.homie)))
            },
        }
    }
}

/// What a report that device `id` disconnected does: the sensor reachable through it, if it is
/// taken as connected through that very device, is marked disconnected and its node removed.
/// Anything else does nothing.
pub open spec fn disconnected_spec(v: SensorStateView, id: Seq<char>) -> (SensorStateView, Seq<MessageView>) {
    let i = sensor_with_id(v.sensors, id);
    if i < 0 {
        (v, Seq::empty())
    } else {
        let s = v.sensors[i];
        match s.connection_status {
            StatusView::Connected { id: cid } => if cid == id {
                let v2 = detached_view(v, i, StatusView::MarkedDisconnected);
                (
                    v2,
                    unpublish_messages(
                        v.homie.device_base,
                        node_id_of(s.mac_address),
                        v.homie.nodes[node_index(v.homie.nodes, node_id_of(s.mac_address))].properties,
                    ).push(nodes_message(v2.homie)),
                )
            } else {
                (v, Seq::empty())
            },
            _ => (v, Seq::empty()),
        }
    }
}

/// Readings through a device come from the sensor reachable through it, which takes their
/// time. A sensor already connected or connecting keeps its status and the Homie device keeps
/// its nodes; any other sensor is taken as connected through that device, its node is added
/// to the Homie device, and the last message publishes the new list of nodes.
pub proof fn lemma_readings_connect(v: SensorStateView, id: Seq<char>, now: i64, temperature: Seq<char>, humidity: u8, battery: u16)
    requires
        sensor_with_id(v.sensors, id) >= 0,
    ensures
        ({
            let i = sensor_with_id(v.sensors, id);
            let s = v.sensors[i];
            let (w, ms) = readings_spec(v, id, now, temperature, humidity, battery);
            &&& w.sensors.len() == v.sensors.len()
            &&& w.sensors[i].last_update_timestamp == now
            &&& w.sensors[i].mac_address == s.mac_address
            &&& (s.connection_status is Connected || s.connection_status is Connecting) ==> {
                &&& w.sensors[i].connection_status == s.connection_status
                &&& w.homie == v.homie
            }
            &&& !(s.connection_status is Connected || s.connection_status is Connecting) ==> {
                &&& w.sensors[i].connection_status == (StatusView::Connected { id })
                &&& node_ids_of(w.homie.nodes).contains(node_id_of(s.mac_address))
                &&& ms.len() > 0 && ms.last() == nodes_message(w.homie)
            }
        }),
{
    lemma_sensor_with_id(v.sensors, id);
    let i = sensor_with_id(v.sensors, id);
    let s = v.sensors[i];
    let (w, ms) = readings_spec(v, id, now, temperature, humidity, battery);
    if !(s.connection_status is Connected || s.connection_status is Connecting) {
        let nodes = w.homie.nodes;
        assert(nodes.last().id == node_id_of(s.mac_address));
        assert(node_ids_of(nodes)[nodes.len() - 1] == node_id_of(s.mac_address));
    }
}

impl SensorState {
    /// The sensors of a Homie device that has no nodes yet, sending readings for one sensor at
    /// most once in the given period.
    pub fn new(homie: DeviceState, min_update_period_ms: i64) -> (st: SensorState)
        requires
            homie@.nodes.len() == 0,
        ensures
            st@ == (SensorStateView { sensors: Seq::empty(), homie: homie@, min_update_period_ms }),
            sensors_wf(st@),
    {
        let st = SensorState { sensors: Vec::new(), homie, min_update_period_ms };
        assert(st@.sensors =~= Seq::<SensorView>::empty());
        assert(sensor_node_ids(st@.sensors) =~= Seq::<Seq<char>>::empty());
        assert(node_ids_of(st@.homie.nodes) =~= Seq::<Seq<char>>::empty());
        st
    }

    /// The sensors known.
    pub fn sensors(&self) -> (ss: &Vec<Sensor>)
        ensures
            ss@.map_values(|s: Sensor| s@) == self@.sensors,
    {
        &self.sensors
    }

    /// The Homie device that publishes the sensors.
    pub fn homie(&self) -> (h: &DeviceState)
        ensures
            h@ == self@.homie,
    {
        &self.homie
    }

    /// Makes the Homie device ready. It must be in its init, sleeping or alert state.
    pub fn ready(&mut self) -> (m: Message)
        requires
            sensors_wf(old(self)@),
            old(self)@.homie.state == State::Init || old(self)@.homie.state == State::Sleeping || old(self)@.homie.state == State::Alert,
        ensures
            sensors_wf(final(self)@),
            final(self)@ == (SensorStateView { homie: DeviceStateView { state: State::Ready, ..old(self)@.homie }, ..old(self)@ }),
            m@ == crate::homie_device::device::state_message(final(self)@.homie),
    {
        self.homie.ready()
    }

    /// Readings that came through device `id` at `now`: see `readings_spec`. The temperature
    /// comes as the text to publish.
    pub fn readings(&mut self, id: &DeviceId, now: i64, temperature: &str, humidity: u8, battery_percent: u16) -> (ms: Vec<Message>)
        requires
            sensors_wf(old(self)@),
        ensures
            sensors_wf(final(self)@),
            (final(self)@, message_views(ms@)) == readings_spec(old(self)@, id.object_path@, now, temperature@, humidity, battery_percent),
    {
        let ghost v = self@;
        let i = match find_sensor(&self.sensors, id) {
            None => {
                assert(message_views(Seq::<Message>::empty()) =~= Seq::<MessageView>::empty());
                return Vec::new();
            },
            Some(i) => i,
        };
        assert(self.sensors@[i as int]@ == v.sensors[i as int]);
        let mut out: Vec<Message> = Vec::new();
        let send = (now as i128) > (self.sensors[i].last_sent_timestamp as i128) + (self.min_update_period_ms as i128);
        let node_id = self.sensors[i].node_id();
        if send {
            out.push(self.homie.publish_value(node_id.as_str(), PROPERTY_ID_TEMPERATURE, temperature));
            out.push(self.homie.publish_value(node_id.as_str(), PROPERTY_ID_HUMIDITY, decimal(humidity as u64).as_str()));
            out.push(self.homie.publish_value(node_id.as_str(), PROPERTY_ID_BATTERY, decimal(battery_percent as u64).as_str()));
        }
        let ghost ms1 = message_views(out@);
        assert(ms1 =~= (if due(now, v.sensors[i as int].last_sent_timestamp, v.min_update_period_ms) {
            readings_messages(v.homie.device_base, node_id_of(v.sensors[i as int].mac_address), temperature@, humidity, battery_percent)
        } else {
            Seq::<MessageView>::empty()
        }));
        let ghost before = self.sensors@;
        let sensor = &mut self.sensors[i];
        sensor.last_update_timestamp = now;
        if send {
            sensor.last_sent_timestamp = now;
        }
        let ghost s1 = SensorView {
            last_update_timestamp: now,
            last_sent_timestamp: if send { now } else { v.sensors[i as int].last_sent_timestamp },
            ..v.sensors[i as int]
        };
        assert(self@.sensors =~= v.sensors.update(i as int, s1));
        let ghost v1 = SensorStateView { sensors: v.sensors.update(i as int, s1), ..v };
        proof { lemma_touch_wf(v, i as int, s1); }
        let settled = match &self.sensors[i].connection_status {
            ConnectionStatus::Connected { .. } => true,
            ConnectionStatus::Connecting { .. } => true,
            _ => false,
        };
        if !settled {
            proof { lemma_connect_wf(v1, i as int, id.object_path@); }
            let node = self.sensors[i].as_node();
            let mut ms = self.homie.add_node(node);
            let ghost msv = message_views(ms@);
            let ghost outv = out@;
            out.append(&mut ms);
            assert(message_views(out@) =~= message_views(outv) + msv);
            let sensor = &mut self.sensors[i];
            sensor.connection_status = ConnectionStatus::Connected { id: copy_id(id) };
            assert(self@.sensors =~= connected_view(v1, i as int, id.object_path@).sensors);
            assert(self@.homie == connected_view(v1, i as int, id.object_path@).homie);
        }
        out
    }

    /// A report that device `id` disconnected: see `disconnected_spec`.
    pub fn disconnected(&mut self, id: &DeviceId) -> (ms: Vec<Message>)
        requires
            sensors_wf(old(self)@),
        ensures
            sensors_wf(final(self)@),
            (final(self)@, message_views(ms@)) == disconnected_spec(old(self)@, id.object_path@),
    {
        let ghost v = self@;
        assert(message_views(Seq::<Message>::empty()) =~= Seq::<MessageView>::empty());
        let i = match find_sensor(&self.sensors, id) {
            None => return Vec::new(),
            Some(i) => i,
        };
        assert(self.sensors@[i as int]@ == v.sensors[i as int]);
        let same = match &self.sensors[i].connection_status {
            ConnectionStatus::Connected { id: cid } => str_eq(cid.object_path.as_str(), id.object_path.as_str()),
            _ => false,
        };
        if !same {
            return Vec::new();
        }
        self.detach(i, ConnectionStatus::MarkedDisconnected)
    }
}



impl SensorState {
    /// Takes connected sensor `i` as no longer connected, with the given status, and removes
    /// its node.
    fn detach(&mut self, i: usize, status: ConnectionStatus) -> (ms: Vec<Message>)
        requires
            sensors_wf(old(self)@),
            i < old(self)@.sensors.len(),
            old(self)@.sensors[i as int].connection_status is Connected,
            !(status@ is Connected),
        ensures
            sensors_wf(final(self)@),
            final(self)@ == detached_view(old(self)@, i as int, status@),
            message_views(ms@) == unpublish_messages(
                old(self)@.homie.device_base,
                node_id_of(old(self)@.sensors[i as int].mac_address),
                old(self)@.homie.nodes[node_index(old(self)@.homie.nodes, node_id_of(old(self)@.sensors[i as int].mac_address))].properties,
            ).push(nodes_message(final(self)@.homie)),
    {
        let ghost v = self@;
        assert(self.sensors@[i as int]@ == v.sensors[i as int]);
        proof { lemma_detach_wf(v, i as int, status@); }
        let node_id = self.sensors[i].node_id();
        let ms = self.homie.remove_node(node_id.as_str());
        let sensor = &mut self.sensors[i];
        sensor.connection_status = status;
        assert(self@.sensors =~= detached_view(v, i as int, status@).sensors);
        assert(self@.homie == detached_view(v, i as int, status@).homie);
        ms
    }
}

/// What the bridge does next about a sensor.
#[derive(Clone, Copy, Debug, Eq, PartialEq, Structural)]
pub enum SensorAction {
    /// Nothing: another attempt to connect is under way.
    Wait,
    /// Try to connect to it.
    Connect,
    /// See whether it has gone quiet.
    CheckStale,
}

/// What the bridge does next about a sensor with the given status at `now`: it waits while a
/// reservation to connect holds, checks a connected sensor for staleness, and otherwise tries
/// to connect.
pub open spec fn action_spec(st: StatusView, now: i64) -> SensorAction {
    match st {
        StatusView::Connecting { reserved_until } => if reserved_until > now { SensorAction::Wait } else { SensorAction::Connect },
        StatusView::Connected { .. } => SensorAction::CheckStale,
        _ => SensorAction::Connect,
    }
}

/// The name that the names give to a MAC address: the first one listed for it.
pub open spec fn name_for(names: Seq<(Seq<char>, Seq<char>)>, mac: Seq<char>) -> Option<Seq<char>>
    decreases names.len(),
{
    if names.len() == 0 {
        None
    } else {
        match name_for(names.drop_last(), mac) {
            Some(n) => Some(n),
            None => if names.last().0 == mac { Some(names.last().1) } else { None },
        }
    }
}

/// The index of the first sensor whose node ID is `nid`, or -1.
pub open spec fn sensor_with_node_id(ss: Seq<SensorView>, nid: Seq<char>) -> int {
    crate::homie_controller::controller::find_id(sensor_node_ids(ss), nid)
}

/// What finding a sensor through device `id` at `now` does: a sensor that the names do not
/// name is ignored; one already known gets the device as another way to reach it; a new one
/// is added, named as the names say, not yet tried.
pub open spec fn discovered_spec(v: SensorStateView, mac: Seq<char>, id: Seq<char>, name: Option<Seq<char>>, now: i64) -> SensorStateView {
    match name {
        None => v,
        Some(n) => {
            let k = sensor_with_node_id(v.sensors, node_id_of(mac));
            if k >= 0 {
                if v.sensors[k].ids.contains(id) {
                    v
                } else {
                    SensorStateView { sensors: v.sensors.update(k, SensorView { ids: v.sensors[k].ids.push(id), ..v.sensors[k] }), ..v }
                }
            } else {
                SensorStateView {
                    sensors: v.sensors.push(SensorView {
                        mac_address: mac,
                        name: n,
                        last_update_timestamp: now,
                        last_sent_timestamp: (now - NEVER_SENT_MS) as i64,
                        connection_status: StatusView::Unknown,
                        ids: seq![id],
                    }),
                    ..v
                }
            }
        },
    }
}

/// The names taken by their views.
pub open spec fn names_view(names: Seq<(MacAddress, String)>) -> Seq<(Seq<char>, Seq<char>)> {
    names.map_values(|e: (MacAddress, String)| (e.0@, e.1@))
}

/// The name that the names give to a MAC address.
fn lookup_name(names: &Vec<(MacAddress, String)>, mac: &MacAddress) -> (r: Option<String>)
    ensures
        crate::text::opt_view(r) == name_for(names_view(names@), mac@),
{
    let ghost nv = names_view(names@);
    let mut i: usize = 0;
    assert(nv.take(0) =~= Seq::<(Seq<char>, Seq<char>)>::empty());
    while i < names.len()
        invariant
            i <= names@.len(),
            nv == names_view(names@),
            name_for(nv.take(i as int), mac@) is None,
        decreases names@.len() - i,
    {
        assert(nv.take(i + 1).drop_last() =~= nv.take(i as int));
        if str_eq(names[i].0.as_str(), mac.as_str()) {
            proof { lemma_name_for_prefix(nv, i + 1); }
            return Some(names[i].1.clone());
        }
        i = i + 1;
    }
    assert(nv.take(i as int) =~= nv);
    None
}

/// Whether a sensor is still to be named: the names give no name to its MAC address.
pub fn should_include_sensor(mac: &MacAddress, names: &Vec<(MacAddress, String)>) -> (b: bool)
    ensures
        b == name_for(names_view(names@), mac@) is None,
{
    lookup_name(names, mac).is_none()
}

/// The name found in a prefix of the names is the name.
proof fn lemma_name_for_prefix(names: Seq<(Seq<char>, Seq<char>)>, j: int)
    requires
        0 <= j <= names.len(),
    ensures
        name_for(names.take(j), names[j - 1].0) is Some && 0 < j ==> name_for(names, names[j - 1].0) == name_for(names.take(j), names[j - 1].0),
    decreases names.len(),
{
    if j < names.len() && j > 0 {
        let t = names.drop_last();
        assert(t.take(j) =~= names.take(j));
        assert(t[j - 1] == names[j - 1]);
        lemma_name_for_prefix(t, j);
    } else if j == names.len() {
        assert(names.take(j) =~= names);
    }
}

impl SensorState {
    /// What the bridge does next about sensor `i` at `now`: see `action_spec`.
    pub fn action(&self, i: usize, now: i64) -> (a: SensorAction)
        requires
            i < self@.sensors.len(),
        ensures
            a == action_spec(self@.sensors[i as int].connection_status, now),
    {
        assert(self.sensors@[i as int]@ == self@.sensors[i as int]);
        match &self.sensors[i].connection_status {
            ConnectionStatus::Connecting { reserved_until } => if *reserved_until > now { SensorAction::Wait } else { SensorAction::Connect },
            ConnectionStatus::Connected { .. } => SensorAction::CheckStale,
            _ => SensorAction::Connect,
        }
    }

    /// Whether it is time to look for more sensors: the time for the next scan has passed and
    /// fewer sensors are known than are named.
    pub fn scan_due(&self, now: i64, next_scan_due: i64, names: usize) -> (b: bool)
        ensures
            b == (now > next_scan_due && self@.sensors.len() < names),
    {
        now > next_scan_due && self.sensors.len() < names
    }

    /// Checks whether connected sensor `i` has gone quiet at `now`: if nothing came from it
    /// for longer than the update timeout, it is taken as disconnected, its node removed, and
    /// the device through which it was connected is given, to disconnect from.
    pub fn check_stale(&mut self, i: usize, now: i64) -> (r: (Vec<Message>, Option<DeviceId>))
        requires
            sensors_wf(old(self)@),
            i < old(self)@.sensors.len(),
            old(self)@.sensors[i as int].connection_status is Connected,
        ensures
            sensors_wf(final(self)@),
            ({
                let v = old(self)@;
                let s = v.sensors[i as int];
                if now - s.last_update_timestamp > UPDATE_TIMEOUT_MS {
                    let v2 = detached_view(v, i as int, StatusView::Disconnected);
                    &&& final(self)@ == v2
                    &&& message_views(r.0@) == unpublish_messages(
                        v.homie.device_base,
                        node_id_of(s.mac_address),
                        v.homie.nodes[node_index(v.homie.nodes, node_id_of(s.mac_address))].properties,
                    ).push(nodes_message(v2.homie))
                    &&& r.1 matches Some(d) && s.connection_status == (StatusView::Connected { id: d.object_path@ })
                } else {
                    &&& final(self)@ == v
                    &&& r.0@.len() == 0
                    &&& r.1 is None
                }
            }),
    {
        let ghost v = self@;
        assert(self.sensors@[i as int]@ == v.sensors[i as int]);
        if (now as i128) - (self.sensors[i].last_update_timestamp as i128) <= (UPDATE_TIMEOUT_MS as i128) {
            return (Vec::new(), None);
        }
        let id = match &self.sensors[i].connection_status {
            ConnectionStatus::Connected { id } => copy_id(id),
            _ => DeviceId::new(""),
        };
        let ms = self.detach(i, ConnectionStatus::Disconnected);
        (ms, Some(id))
    }

    /// Starts connecting to sensor `i`, which is not connected, at `now`: it is reserved for
    /// a while, and the devices through which to try are given.
    pub fn begin_connect(&mut self, i: usize, now: i64) -> (ids: Vec<DeviceId>)
        requires
            sensors_wf(old(self)@),
            i < old(self)@.sensors.len(),
            !(old(self)@.sensors[i as int].connection_status is Connected),
            now <= i64::MAX - SENSOR_CONNECT_RESERVATION_TIMEOUT_MS,
        ensures
            sensors_wf(final(self)@),
            final(self)@ == (SensorStateView {
                sensors: old(self)@.sensors.update(
                    i as int,
                    with_status(
                        old(self)@.sensors[i as int],
                        StatusView::Connecting { reserved_until: (now + SENSOR_CONNECT_RESERVATION_TIMEOUT_MS) as i64 },
                    ),
                ),
                ..old(self)@
            }),
            ids@.map_values(|d: DeviceId| d.object_path@) == old(self)@.sensors[i as int].ids,
    {
        let ghost v = self@;
        assert(self.sensors@[i as int]@ == v.sensors[i as int]);
        let mut ids: Vec<DeviceId> = Vec::new();
        let mut k: usize = 0;
        while k < self.sensors[i].ids.len()
            invariant
                i < self.sensors@.len(),
                k <= self.sensors@[i as int].ids@.len(),
                ids@.map_values(|d: DeviceId| d.object_path@) == self.sensors@[i as int]@.ids.take(k as int),
            decreases self.sensors@[i as int].ids@.len() - k,
        {
            let ghost before = ids@.map_values(|d: DeviceId| d.object_path@);
            ids.push(copy_id(&self.sensors[i].ids[k]));
            assert(ids@.map_values(|d: DeviceId| d.object_path@) =~= before.push(self.sensors@[i as int].ids@[k as int].object_path@));
            assert(self.sensors@[i as int]@.ids.take(k + 1) =~= self.sensors@[i as int]@.ids.take(k as int).push(self.sensors@[i as int].ids@[k as int].object_path@));
            k = k + 1;
        }
        assert(self.sensors@[i as int]@.ids.take(k as int) =~= self.sensors@[i as int]@.ids);
        let ghost s2 = with_status(v.sensors[i as int], StatusView::Connecting { reserved_until: (now + SENSOR_CONNECT_RESERVATION_TIMEOUT_MS) as i64 });
        proof { lemma_touch_wf(v, i as int, s2); }
        let sensor = &mut self.sensors[i];
        sensor.connection_status = ConnectionStatus::Connecting { reserved_until: now + SENSOR_CONNECT_RESERVATION_TIMEOUT_MS };
        assert(self@.sensors =~= v.sensors.update(i as int, s2));
        ids
    }

    /// Finishes connecting to sensor `i`, which is not connected, at `now`: connected through
    /// the device given, it is taken as connected, its node is added, and it counts as heard
    /// from now; where no device could be connected, it is disconnected.
    pub fn end_connect(&mut self, i: usize, result: Option<DeviceId>, now: i64) -> (ms: Vec<Message>)
        requires
            sensors_wf(old(self)@),
            i < old(self)@.sensors.len(),
            !(old(self)@.sensors[i as int].connection_status is Connected),
            result matches Some(d) ==> old(self)@.sensors[i as int].ids.contains(d.object_path@),
        ensures
            sensors_wf(final(self)@),
            ({
                let v = old(self)@;
                let s = v.sensors[i as int];
                match result {
                    Some(d) => {
                        let v1 = connected_view(v, i as int, d.object_path@);
                        &&& final(self)@ == (SensorStateView {
                            sensors: v1.sensors.update(i as int, SensorView { last_update_timestamp: now, ..v1.sensors[i as int] }),
                            ..v1
                        })
                        &&& message_views(ms@) == node_messages(v.homie.device_base, sensor_node(s.mac_address, s.name)).push(nodes_message(v1.homie))
                    },
                    None => {
                        &&& final(self)@ == (SensorStateView { sensors: v.sensors.update(i as int, with_status(s, StatusView::Disconnected)), ..v })
                        &&& ms@.len() == 0
                    },
                }
            }),
    {
        let ghost v = self@;
        assert(self.sensors@[i as int]@ == v.sensors[i as int]);
        match result {
            Some(d) => {
                proof { lemma_connect_wf(v, i as int, d.object_path@); }
                let node = self.sensors[i].as_node();
                let ms = self.homie.add_node(node);
                let sensor = &mut self.sensors[i];
                sensor.connection_status = ConnectionStatus::Connected { id: d };
                sensor.last_update_timestamp = now;
                proof {
                    let w = connected_view(v, i as int, result->0.object_path@);
                    assert(self@.sensors =~= w.sensors.update(i as int, SensorView { last_update_timestamp: now, ..w.sensors[i as int] }));
                    lemma_touch_wf(w, i as int, SensorView { last_update_timestamp: now, ..w.sensors[i as int] });
                }
                ms
            },
            None => {
                let ghost s2 = with_status(v.sensors[i as int], StatusView::Disconnected);
                proof { lemma_touch_wf(v, i as int, s2); }
                let sensor = &mut self.sensors[i];
                sensor.connection_status = ConnectionStatus::Disconnected;
                assert(self@.sensors =~= v.sensors.update(i as int, s2));
                Vec::new()
            },
        }
    }

    /// A sensor found through device `id` at `now`: see `discovered_spec`.
    pub fn discovered(&mut self, mac: MacAddress, id: DeviceId, names: &Vec<(MacAddress, String)>, now: i64)
        requires
            sensors_wf(old(self)@),
            now >= i64::MIN + NEVER_SENT_MS,
        ensures
            sensors_wf(final(self)@),
            final(self)@ == discovered_spec(old(self)@, mac@, id.object_path@, name_for(names_view(names@), mac@), now),
    {
        let ghost v = self@;
        let name = match lookup_name(names, &mac) {
            None => return,
            Some(n) => n,
        };
        let nid = node_id_for(&mac);
        let ghost ids = sensor_node_ids(v.sensors);
        let mut k: usize = 0;
        let mut found = false;
        while k < self.sensors.len() && !found
            invariant
                self@ == v,
                ids == sensor_node_ids(v.sensors),
                k <= self.sensors@.len(),
                forall|j: int| 0 <= j < k ==> ids[j] != nid@,
                found ==> k < self.sensors@.len() && ids[k as int] == nid@,
            decreases self.sensors@.len() - k + (if found { 0int } else { 1int }),
        {
            let other = self.sensors[k].node_id();
            assert(self.sensors@[k as int]@ == v.sensors[k as int]);
            if str_eq(other.as_str(), nid.as_str()) {
                found = true;
            } else {
                k = k + 1;
            }
        }
        proof {
            crate::homie_controller::controller::lemma_find_id_at(ids, nid@, if found { k as int } else { ids.len() as int });
        }
        if found {
            assert(self.sensors@[k as int]@ == v.sensors[k as int]);
            if reachable_through(&self.sensors[k], &id) {
                return;
            }
            let ghost s2 = SensorView { ids: v.sensors[k as int].ids.push(id.object_path@), ..v.sensors[k as int] };
            proof { lemma_touch_wf(v, k as int, s2); }
            let sensor = &mut self.sensors[k];
            let ghost before = sensor.ids@;
            sensor.ids.push(id);
            assert(sensor@.ids =~= before.map_values(|d: DeviceId| d.object_path@).push(s2.ids.last()));
            assert(self@.sensors =~= v.sensors.update(k as int, s2));
        } else {
            let sensor = Sensor::new(mac, Some(name), id, now);
            let ghost sv = sensor@;
            self.sensors.push(sensor);
            assert(self@.sensors =~= v.sensors.push(sv));
            proof { lemma_insert_wf(v, sv); }
        }
    }
}

/// Adding a sensor whose node ID no sensor has, not yet tried, keeps the sensors and the device
/// in agreement.
proof fn lemma_insert_wf(v: SensorStateView, s: SensorView)
    requires
        sensors_wf(v),
        crate::homie_controller::controller::find_id(sensor_node_ids(v.sensors), node_id_of(s.mac_address)) == -1,
        s.connection_status is Unknown,
    ensures
        sensors_wf(SensorStateView { sensors: v.sensors.push(s), ..v }),
{
    let nid = node_id_of(s.mac_address);
    let ids = sensor_node_ids(v.sensors);
    crate::homie_controller::controller::lemma_find_id(ids, nid);
    let v2 = SensorStateView { sensors: v.sensors.push(s), ..v };
    let ids2 = sensor_node_ids(v2.sensors);
    assert(ids2 =~= ids.push(nid));
    assert forall|a: int, b: int| 0 <= a < ids2.len() && 0 <= b < ids2.len() && a != b implies ids2[a] != ids2[b] by {
        if a == ids.len() {
            assert(ids[b] != nid);
        } else if b == ids.len() {
            assert(ids[a] != nid);
        } else {
            assert(ids2[a] == ids[a] && ids2[b] == ids[b]);
        }
    }
    let hs = node_ids_of(v.homie.nodes);
    if hs.contains(nid) {
        let m = choose|m: int| 0 <= m < hs.len() && hs[m] == nid;
        assert(v.homie.nodes[m].id == nid);
        assert(ids.contains(v.homie.nodes[m].id));
    }
    assert forall|j: int| 0 <= j < v2.sensors.len() implies
        ((#[trigger] v2.sensors[j].connection_status is Connected) <==> node_ids_of(v2.homie.nodes).contains(node_id_of(v2.sensors[j].mac_address))) by {
        if j < v.sensors.len() {
            assert(v2.sensors[j] == v.sensors[j]);
        }
    }
    assert forall|m: int| 0 <= m < v2.homie.nodes.len() implies ids2.contains(#[trigger] v2.homie.nodes[m].id) by {
        assert(ids.contains(v.homie.nodes[m].id));
        let a = choose|a: int| 0 <= a < ids.len() && ids[a] == v.homie.nodes[m].id;
        assert(ids2[a] == ids[a]);
    }
}

} // verus!
