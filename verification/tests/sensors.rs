use mijia_homie::bluez::ids::DeviceId;
use mijia_homie::bluez::macaddress::MacAddress;
use mijia_homie::homie_device::device::{DeviceState, Message, State};
use mijia_homie::sensors::{should_include_sensor, node_id_for, ConnectionStatus, Sensor, SensorAction, SensorState};

fn mac(s: &str) -> MacAddress {
    MacAddress::from_text(s).unwrap()
}

fn id(path: &str) -> DeviceId {
    DeviceId::new(path)
}

fn publish(topic: &str, payload: &str) -> Message {
    Message::Publish { topic: topic.to_owned(), payload: payload.to_owned() }
}

fn names() -> Vec<(MacAddress, String)> {
    vec![(mac("A4:C1:38:00:00:01"), "Kitchen".to_owned()), (mac("A4:C1:38:00:00:02"), "Bedroom".to_owned())]
}

fn state() -> SensorState {
    let mut homie = DeviceState::new("homie/mijia-bridge", "Mijia bridge", &[]);
    homie.start();
    let mut st = SensorState::new(homie, 0);
    st.ready();
    st
}

#[test]
fn node_id_drops_colons() {
    assert_eq!(node_id_for(&mac("a4:c1:38:12:34:56")), "A4C138123456");
    let sensor = Sensor::new(mac("A4:C1:38:12:34:56"), None, id("/org/bluez/hci0/dev_A4_C1_38_12_34_56"), 0);
    assert_eq!(sensor.name, "A4:C1:38:12:34:56");
    assert_eq!(sensor.node_id(), "A4C138123456");
    let node = sensor.as_node();
    assert_eq!(node.id, "A4C138123456");
    assert_eq!(node.node_type, "Mijia sensor");
    let ids: Vec<&str> = node.properties.iter().map(|p| p.id.as_str()).collect();
    assert_eq!(ids, vec!["temperature", "humidity", "battery"]);
}

#[test]
fn discovery_adds_only_named_sensors() {
    let mut st = state();
    st.discovered(mac("A4:C1:38:00:00:01"), id("/org/bluez/hci0/dev_1"), &names(), 1000);
    st.discovered(mac("A4:C1:38:00:00:09"), id("/org/bluez/hci0/dev_9"), &names(), 1000);
    st.discovered(mac("A4:C1:38:00:00:01"), id("/org/bluez/hci1/dev_1"), &names(), 1000);
    st.discovered(mac("A4:C1:38:00:00:01"), id("/org/bluez/hci1/dev_1"), &names(), 1000);
    assert_eq!(st.sensors().len(), 1);
    assert_eq!(st.sensors()[0].name, "Kitchen");
    assert_eq!(st.sensors()[0].ids.len(), 2);
    assert_eq!(st.sensors()[0].connection_status, ConnectionStatus::Unknown);
    assert!(st.scan_due(20_000, 15_000, 2));
    assert!(!st.scan_due(10_000, 15_000, 2));
    assert!(!st.scan_due(20_000, 15_000, 1));
}

#[test]
fn connecting_publishes_the_node() {
    let mut st = state();
    st.discovered(mac("A4:C1:38:00:00:01"), id("/org/bluez/hci0/dev_1"), &names(), 1000);
    assert_eq!(st.action(0, 1000), SensorAction::Connect);
    let ids = st.begin_connect(0, 1000);
    assert_eq!(ids, vec![id("/org/bluez/hci0/dev_1")]);
    assert_eq!(st.action(0, 2000), SensorAction::Wait);
    assert_eq!(st.action(0, 1000 + 300_001), SensorAction::Connect);
    let ms = st.end_connect(0, Some(id("/org/bluez/hci0/dev_1")), 5000);
    assert_eq!(ms.first(), Some(&publish("homie/mijia-bridge/A4C138000001/$name", "Kitchen")));
    assert_eq!(ms.last(), Some(&publish("homie/mijia-bridge/$nodes", "A4C138000001")));
    assert_eq!(st.sensors()[0].connection_status, ConnectionStatus::Connected { id: id("/org/bluez/hci0/dev_1") });
    assert_eq!(st.sensors()[0].last_update_timestamp, 5000);
    assert_eq!(st.action(0, 6000), SensorAction::CheckStale);
    assert_eq!(st.homie().state(), State::Ready);

    // A failed attempt leaves the sensor disconnected.
    st.discovered(mac("A4:C1:38:00:00:02"), id("/org/bluez/hci0/dev_2"), &names(), 1000);
    st.begin_connect(1, 7000);
    assert_eq!(st.end_connect(1, None, 8000), vec![]);
    assert_eq!(st.sensors()[1].connection_status, ConnectionStatus::Disconnected);
}

#[test]
fn readings_are_sent_and_reconnect() {
    let mut homie = DeviceState::new("homie/mijia-bridge", "Mijia bridge", &[]);
    homie.start();
    let mut st = SensorState::new(homie, 10_000);
    st.discovered(mac("A4:C1:38:00:00:01"), id("/org/bluez/hci0/dev_1"), &names(), 0);

    // From an unknown device: nothing.
    assert_eq!(st.readings(&id("/org/bluez/hci0/dev_9"), 100, "21.50", 45, 90), vec![]);

    // The first readings are sent, and the sensor is taken as connected.
    let ms = st.readings(&id("/org/bluez/hci0/dev_1"), 100, "21.50", 45, 90);
    assert_eq!(
        &ms[..3],
        &[
            publish("homie/mijia-bridge/A4C138000001/temperature", "21.50"),
            publish("homie/mijia-bridge/A4C138000001/humidity", "45"),
            publish("homie/mijia-bridge/A4C138000001/battery", "90"),
        ]
    );
    assert_eq!(ms.last(), Some(&publish("homie/mijia-bridge/$nodes", "A4C138000001")));
    assert!(matches!(st.sensors()[0].connection_status, ConnectionStatus::Connected { .. }));

    // Readings within the least update period are not sent.
    assert_eq!(st.readings(&id("/org/bluez/hci0/dev_1"), 5_000, "21.60", 46, 90), vec![]);
    assert_eq!(st.sensors()[0].last_update_timestamp, 5_000);
    assert_eq!(st.readings(&id("/org/bluez/hci0/dev_1"), 10_101, "21.70", 47, 89).len(), 3);

    // A disconnection through another device is not taken; through the connected one it is.
    assert_eq!(st.disconnected(&id("/org/bluez/hci1/dev_1")), vec![]);
    assert_eq!(st.disconnected(&id("/org/bluez/hci0/dev_1")), vec![publish("homie/mijia-bridge/$nodes", "")]);
    assert_eq!(st.sensors()[0].connection_status, ConnectionStatus::MarkedDisconnected);
    assert_eq!(st.disconnected(&id("/org/bluez/hci0/dev_1")), vec![]);
}

#[test]
fn stale_sensors_are_disconnected() {
    let mut st = state();
    st.discovered(mac("A4:C1:38:00:00:01"), id("/org/bluez/hci0/dev_1"), &names(), 0);
    st.begin_connect(0, 0);
    st.end_connect(0, Some(id("/org/bluez/hci0/dev_1")), 1_000);
    let (ms, dev) = st.check_stale(0, 61_000);
    assert!(ms.is_empty());
    assert_eq!(dev, None);
    let (ms, dev) = st.check_stale(0, 61_001);
    assert_eq!(ms, vec![publish("homie/mijia-bridge/$nodes", "")]);
    assert_eq!(dev, Some(id("/org/bluez/hci0/dev_1")));
    assert_eq!(st.sensors()[0].connection_status, ConnectionStatus::Disconnected);
    assert!(st.homie().nodes().is_empty());
}

#[test]
fn sensors_without_names_are_included() {
    let named = mac("A4:C1:38:00:00:01");
    let unnamed = mac("A4:C1:38:00:00:02");
    let names = vec![(named.clone(), "Kitchen".to_owned())];
    assert!(!should_include_sensor(&named, &names));
    assert!(should_include_sensor(&unnamed, &names));
    assert!(should_include_sensor(&named, &Vec::new()));
}
