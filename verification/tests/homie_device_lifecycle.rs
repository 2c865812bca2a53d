use mijia_homie::homie_device::device::{
    after_poll_failure, extension_ids, firmware_messages, incoming_publish, last_will, stats_interval_message,
    stats_uptime_message, DevicePublisher, DeviceState, Incoming, Message, PollAction, PollFailure, State,
    FIRMWARE_EXTENSION_ID, STATS_EXTENSION_ID,
};
use mijia_homie::homie_device::{Datatype, Node, Property};

fn make_test_device() -> DeviceState {
    DeviceState::new("homie/test-device", "Test device", &[])
}

fn publish(topic: &str, payload: &str) -> Message {
    Message::Publish { topic: topic.to_owned(), payload: payload.to_owned() }
}

#[test]
fn start_succeeds_with_no_nodes() {
    let mut device = make_test_device();
    let messages = device.start();
    assert_eq!(
        messages,
        vec![
            publish("homie/test-device/$homie", "4.0"),
            publish("homie/test-device/$extensions", ""),
            publish("homie/test-device/$implementation", "homie-rs"),
            publish("homie/test-device/$name", "Test device"),
            publish("homie/test-device/$state", "init"),
        ]
    );
    assert_eq!(device.state(), State::Init);
    assert_eq!(device.ready(), publish("homie/test-device/$state", "ready"));
    assert_eq!(device.state(), State::Ready);
}

#[test]
fn sleep_then_ready_again_succeeds() {
    let mut device = make_test_device();
    device.start();
    device.ready();
    assert_eq!(device.sleep(), publish("homie/test-device/$state", "sleeping"));
    assert_eq!(device.ready(), publish("homie/test-device/$state", "ready"));
    assert_eq!(device.state(), State::Ready);
}

#[test]
fn alert_then_ready_again_succeeds() {
    let mut device = make_test_device();
    device.start();
    device.ready();
    assert_eq!(device.alert(), publish("homie/test-device/$state", "alert"));
    assert_eq!(device.ready(), publish("homie/test-device/$state", "ready"));
    assert_eq!(device.state(), State::Ready);
}

#[test]
fn disconnect_succeeds_before_ready() {
    let mut device = make_test_device();
    device.start();
    assert_eq!(device.disconnect(), publish("homie/test-device/$state", "disconnected"));
    assert_eq!(device.state(), State::Disconnected);
}

#[test]
fn disconnect_succeeds_after_ready() {
    let mut device = make_test_device();
    device.start();
    device.ready();
    assert_eq!(device.disconnect(), publish("homie/test-device/$state", "disconnected"));
    assert_eq!(device.state(), State::Disconnected);
}

#[test]
fn minimal_build_succeeds() {
    let ids = extension_ids(false);
    assert_eq!(ids, vec![STATS_EXTENSION_ID]);
    let device = DeviceState::new("homie/test-device", "Test device", &ids);
    assert_eq!(device.device_name(), "Test device");
    assert_eq!(device.publisher().device_base, "homie/test-device");
    assert_eq!(
        last_will("homie/test-device"),
        publish("homie/test-device/$state", "lost")
    );
}

#[test]
fn set_firmware_build_succeeds() {
    let ids = extension_ids(true);
    assert_eq!(ids, vec![STATS_EXTENSION_ID, FIRMWARE_EXTENSION_ID]);
    let mut device = DeviceState::new("homie/test-device", "Test device", &ids);
    assert_eq!(
        device.start()[1],
        publish(
            "homie/test-device/$extensions",
            "org.homie.legacy-stats:0.1.1:[4.x],org.homie.legacy-firmware:0.1.1:[4.x]"
        )
    );
    let publisher = DevicePublisher::new("homie/test-device");
    assert_eq!(
        firmware_messages(&publisher, "192.168.1.2", "AA:BB:CC:DD:EE:FF", "firmware_name", "firmware_version"),
        vec![
            publish("homie/test-device/$localip", "192.168.1.2"),
            publish("homie/test-device/$mac", "AA:BB:CC:DD:EE:FF"),
            publish("homie/test-device/$fw/name", "firmware_name"),
            publish("homie/test-device/$fw/version", "firmware_version"),
        ]
    );
}

#[test]
fn add_node_succeeds_before_and_after_start() {
    let mut device = make_test_device();
    let messages = device.add_node(Node::new("id", "Name", "type", vec![]));
    assert_eq!(
        messages,
        vec![
            publish("homie/test-device/id/$name", "Name"),
            publish("homie/test-device/id/$type", "type"),
            publish("homie/test-device/id/$properties", ""),
            publish("homie/test-device/$nodes", "id"),
        ]
    );
    device.start();
    device.ready();
    let messages = device.add_node(Node::new("id2", "Name 2", "type2", vec![]));
    assert_eq!(messages.last(), Some(&publish("homie/test-device/$nodes", "id,id2")));
    assert_eq!(device.nodes().len(), 2);
}

#[test]
fn add_node_succeeds_after_remove() {
    let mut device = make_test_device();
    device.add_node(Node::new("id", "Name", "type", vec![]));
    assert!(device.has_node("id"));
    assert_eq!(device.remove_node("id"), vec![publish("homie/test-device/$nodes", "")]);
    assert!(!device.has_node("id"));
    device.add_node(Node::new("id", "Name", "type", vec![]));
    assert!(device.has_node("id"));
}

#[test]
fn publish_node_describes_properties() {
    let mut device = make_test_device();
    let node = Node::new(
        "node",
        "Node",
        "sensor",
        vec![
            Property::integer("count", "Count", true, true, Some("#"), Some(0..10)),
            Property::boolean("on", "On", false, true, None),
        ],
    );
    let messages = device.add_node(node);
    assert_eq!(
        messages,
        vec![
            publish("homie/test-device/node/$name", "Node"),
            publish("homie/test-device/node/$type", "sensor"),
            publish("homie/test-device/node/count/$name", "Count"),
            publish("homie/test-device/node/count/$datatype", "integer"),
            publish("homie/test-device/node/count/$settable", "true"),
            publish("homie/test-device/node/count/$unit", "#"),
            publish("homie/test-device/node/count/$format", "0:10"),
            Message::Subscribe { topic: "homie/test-device/node/count/set".to_owned() },
            publish("homie/test-device/node/on/$name", "On"),
            publish("homie/test-device/node/on/$datatype", "boolean"),
            publish("homie/test-device/node/on/$settable", "false"),
            publish("homie/test-device/node/$properties", "count,on"),
            publish("homie/test-device/$nodes", "node"),
        ]
    );
    assert_eq!(
        device.remove_node("node"),
        vec![
            Message::Unsubscribe { topic: "homie/test-device/node/count/set".to_owned() },
            publish("homie/test-device/$nodes", ""),
        ]
    );
    assert_eq!(device.publish_value("node", "count", "3"), publish("homie/test-device/node/count", "3"));
    let _ = Datatype::Integer;
}

#[test]
fn republish_all_after_reconnecting() {
    let mut device = make_test_device();
    device.add_node(Node::new("id", "Name", "type", vec![]));
    device.start();
    let messages = device.republish_all();
    assert_eq!(
        messages,
        vec![
            publish("homie/test-device/id/$name", "Name"),
            publish("homie/test-device/id/$type", "type"),
            publish("homie/test-device/id/$properties", ""),
            publish("homie/test-device/$nodes", "id"),
            publish("homie/test-device/$homie", "4.0"),
            publish("homie/test-device/$extensions", ""),
            publish("homie/test-device/$implementation", "homie-rs"),
            publish("homie/test-device/$name", "Test device"),
            publish("homie/test-device/$state", "init"),
        ]
    );
}

#[test]
fn incoming_set_requests() {
    assert_eq!(
        incoming_publish("homie/dev", "homie/dev/node/prop/set", b"42"),
        Incoming::SetProperty { node_id: "node".to_owned(), property_id: "prop".to_owned(), value: "42".to_owned() }
    );
    assert_eq!(incoming_publish("homie/dev", "homie/dev/node/prop", b"42"), Incoming::Ignored);
    assert_eq!(incoming_publish("homie/dev", "homie/dev/node/prop/set", &[0xff]), Incoming::Ignored);
    assert_eq!(incoming_publish("homie/dev", "homie/other/node/prop/set", b"1"), Incoming::Unexpected);
}

#[test]
fn stats_and_poll_failures() {
    let publisher = DevicePublisher::new("homie/dev");
    assert_eq!(stats_interval_message(&publisher), publish("homie/dev/$stats/interval", "60"));
    assert_eq!(stats_uptime_message(&publisher, 3725), publish("homie/dev/$stats/uptime", "3725"));
    assert_eq!(after_poll_failure(true, PollFailure::Other), PollAction::Finish);
    assert_eq!(after_poll_failure(false, PollFailure::Io), PollAction::Reconnect);
    assert_eq!(after_poll_failure(false, PollFailure::AwaitPingResp), PollAction::Continue);
    assert_eq!(after_poll_failure(false, PollFailure::Other), PollAction::Fail);
}
