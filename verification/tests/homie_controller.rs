use mijia_homie::homie_controller::controller::{Event, HandleError, HomieController, PublishResponse};
use mijia_homie::homie_controller::types::{Datatype, Device, Node, Property, State};
use mijia_homie::text::is_float_text;

fn make_test_controller() -> HomieController {
    HomieController::new("base_topic")
}

/// Connecting starts discovery: the subscription topic and the event.
fn connect(controller: &mut HomieController) -> (String, Vec<Event>) {
    (controller.start(), vec![Event::Connected])
}

fn publish_response(
    controller: &mut HomieController,
    topic: &str,
    payload: &str,
    retain: bool,
) -> Result<PublishResponse, HandleError> {
    controller.handle_publish(topic, payload.as_bytes(), retain)
}

fn publish(controller: &mut HomieController, topic: &str, payload: &str) -> Result<Vec<Event>, HandleError> {
    publish_response(controller, topic, payload, false).map(|r| r.events)
}

fn publish_retained(controller: &mut HomieController, topic: &str, payload: &str) -> Result<Vec<Event>, HandleError> {
    publish_response(controller, topic, payload, true).map(|r| r.events)
}

fn device<'a>(controller: &'a HomieController, id: &str) -> Option<&'a Device> {
    controller.devices().iter().find(|d| d.id == id)
}

fn expect_subscriptions(response: &PublishResponse, topics: &[&str]) {
    assert_eq!(response.topics_to_subscribe.len(), topics.len());
    for topic in topics {
        assert!(response.topics_to_subscribe.iter().any(|t| t == topic));
    }
}

#[test]
fn subscribes_to_things() {
    let mut controller = make_test_controller();

    // Connecting should start discovering.
    let (topic, _) = connect(&mut controller);
    assert_eq!(topic, "base_topic/+/$homie");

    // Discover a new device.
    let r = publish_response(&mut controller, "base_topic/device_id/$homie", "4.0", false).unwrap();
    expect_subscriptions(
        &r,
        &["base_topic/device_id/+", "base_topic/device_id/$fw/+", "base_topic/device_id/$stats/+"],
    );

    // Discover a node on the device.
    let r = publish_response(&mut controller, "base_topic/device_id/$nodes", "node_id", false).unwrap();
    expect_subscriptions(&r, &["base_topic/device_id/node_id/+"]);

    // Discover a property on the node.
    let r = publish_response(&mut controller, "base_topic/device_id/node_id/$properties", "property_id", false).unwrap();
    expect_subscriptions(&r, &["base_topic/device_id/node_id/property_id/+"]);
    assert!(r.topics_to_unsubscribe.is_empty());
}

#[test]
fn retained_payloads_before_properties() {
    let mut controller = make_test_controller();
    connect(&mut controller);

    publish_retained(&mut controller, "base_topic/device_id/$homie", "4.0").unwrap();
    publish_retained(&mut controller, "base_topic/device_id/$nodes", "node_id,second_node").unwrap();

    // Get the property payload before $properties.
    assert_eq!(
        publish_retained(&mut controller, "base_topic/device_id/node_id/property_id", "HELLO WORLD").unwrap(),
        vec![]
    );
    // Discover the property after its payload.
    assert_eq!(
        publish_retained(&mut controller, "base_topic/device_id/node_id/$properties", "property_id").unwrap(),
        vec![
            Event::NodeUpdated {
                device_id: "device_id".to_owned(),
                node_id: "node_id".to_owned(),
                has_required_attributes: false
            },
            Event::PropertyValueChanged {
                device_id: "device_id".to_owned(),
                node_id: "node_id".to_owned(),
                property_id: "property_id".to_owned(),
                value: "HELLO WORLD".to_owned(),
                fresh: false
            },
        ]
    );

    publish_retained(&mut controller, "base_topic/device_id/second_node/property_id", "hello again").unwrap();
    publish_retained(&mut controller, "base_topic/device_id/second_node/$properties", "property_id").unwrap();

    let d = device(&controller, "device_id").unwrap();
    assert_eq!(
        d.node("node_id").unwrap().property("property_id").unwrap().value.as_deref(),
        Some("HELLO WORLD")
    );
    assert_eq!(
        d.node("second_node").unwrap().property("property_id").unwrap().value.as_deref(),
        Some("hello again")
    );
}

#[test]
fn emits_appropriate_events() {
    let mut controller = make_test_controller();

    // Start discovering.
    assert_eq!(connect(&mut controller).1, vec![Event::Connected]);

    // Discover a new device.
    assert_eq!(
        publish(&mut controller, "base_topic/device_id/$homie", "4.0").unwrap(),
        vec![Event::DeviceUpdated { device_id: "device_id".to_owned(), has_required_attributes: false }]
    );
    assert_eq!(
        publish(&mut controller, "base_topic/device_id/$name", "Device name").unwrap(),
        vec![Event::DeviceUpdated { device_id: "device_id".to_owned(), has_required_attributes: false }]
    );
    assert_eq!(
        publish(&mut controller, "base_topic/device_id/$state", "ready").unwrap(),
        vec![Event::DeviceUpdated { device_id: "device_id".to_owned(), has_required_attributes: true }]
    );
    let mut expected_device = Device::new("device_id", "4.0");
    expected_device.state = State::Ready;
    expected_device.name = Some("Device name".to_owned());
    assert_eq!(device(&controller, "device_id").unwrap().to_owned(), expected_device);

    // A node on the device.
    assert_eq!(
        publish(&mut controller, "base_topic/device_id/$nodes", "node_id").unwrap(),
        vec![Event::DeviceUpdated { device_id: "device_id".to_owned(), has_required_attributes: false }]
    );
    assert_eq!(
        publish(&mut controller, "base_topic/device_id/node_id/$name", "Node name").unwrap(),
        vec![Event::NodeUpdated {
            device_id: "device_id".to_owned(),
            node_id: "node_id".to_owned(),
            has_required_attributes: false
        }]
    );
    assert_eq!(
        publish(&mut controller, "base_topic/device_id/node_id/$type", "Node type").unwrap(),
        vec![Event::NodeUpdated {
            device_id: "device_id".to_owned(),
            node_id: "node_id".to_owned(),
            has_required_attributes: false
        }]
    );

    // A property on the node.
    assert_eq!(
        publish(&mut controller, "base_topic/device_id/node_id/$properties", "property_id").unwrap(),
        vec![Event::NodeUpdated {
            device_id: "device_id".to_owned(),
            node_id: "node_id".to_owned(),
            has_required_attributes: false
        }]
    );
    assert_eq!(
        publish(&mut controller, "base_topic/device_id/node_id/property_id/$name", "Property name").unwrap(),
        vec![Event::PropertyUpdated {
            device_id: "device_id".to_owned(),
            node_id: "node_id".to_owned(),
            property_id: "property_id".to_owned(),
            has_required_attributes: false
        }]
    );
    assert_eq!(
        publish(&mut controller, "base_topic/device_id/node_id/property_id/$datatype", "integer").unwrap(),
        vec![Event::PropertyUpdated {
            device_id: "device_id".to_owned(),
            node_id: "node_id".to_owned(),
            property_id: "property_id".to_owned(),
            has_required_attributes: true
        }]
    );
}

#[test]
fn constructs_device_tree() {
    let mut controller = make_test_controller();

    connect(&mut controller);
    publish(&mut controller, "base_topic/device_id/$homie", "4.0").unwrap();
    publish(&mut controller, "base_topic/device_id/$name", "Device name").unwrap();
    publish(&mut controller, "base_topic/device_id/$state", "ready").unwrap();
    publish(&mut controller, "base_topic/device_id/$nodes", "node_id").unwrap();
    publish(&mut controller, "base_topic/device_id/node_id/$name", "Node name").unwrap();
    publish(&mut controller, "base_topic/device_id/node_id/$type", "Node type").unwrap();
    publish(&mut controller, "base_topic/device_id/node_id/$properties", "property_id").unwrap();
    publish(&mut controller, "base_topic/device_id/node_id/property_id/$name", "Property name").unwrap();
    publish(&mut controller, "base_topic/device_id/node_id/property_id/$datatype", "integer").unwrap();

    let expected_property = Property {
        name: Some("Property name".to_owned()),
        datatype: Some(Datatype::Integer),
        ..Property::new("property_id")
    };
    let expected_node = Node {
        name: Some("Node name".to_owned()),
        node_type: Some("Node type".to_owned()),
        properties: vec![expected_property],
        ..Node::new("node_id")
    };
    let expected_device = Device {
        name: Some("Device name".to_owned()),
        state: State::Ready,
        nodes: vec![expected_node],
        ..Device::new("device_id", "4.0")
    };

    assert_eq!(device(&controller, "device_id").unwrap().to_owned(), expected_device);
}

#[test]
fn refused_messages_leave_devices_unchanged() {
    let mut controller = make_test_controller();
    connect(&mut controller);
    publish(&mut controller, "base_topic/device_id/$homie", "4.0").unwrap();
    let before = controller.devices().clone();

    assert_eq!(
        publish(&mut controller, "other_topic/device_id/$name", "x"),
        Err(HandleError::UnexpectedTopic("other_topic/device_id/$name".to_owned()))
    );
    assert_eq!(
        publish(&mut controller, "base_topic/unknown/$name", "x"),
        Err(HandleError::UnknownDevice("unknown".to_owned()))
    );
    assert_eq!(
        publish(&mut controller, "base_topic/device_id/$state", "dancing"),
        Err(HandleError::InvalidState("dancing".to_owned()))
    );
    assert_eq!(
        publish(&mut controller, "base_topic/device_id/$extensions", "a:0:[4.x],bad"),
        Err(HandleError::InvalidExtension("bad".to_owned()))
    );
    assert_eq!(
        publish(&mut controller, "base_topic/device_id/$stats/uptime", "-5"),
        Err(HandleError::InvalidInteger("-5".to_owned()))
    );
    assert_eq!(
        publish(&mut controller, "base_topic/device_id/$stats/cputemp", "4x"),
        Err(HandleError::InvalidFloat("4x".to_owned()))
    );
    assert_eq!(
        publish(&mut controller, "base_topic/device_id/node/$name", "x"),
        Err(HandleError::UnknownNode("device_id".to_owned(), "node".to_owned()))
    );
    assert_eq!(
        publish(&mut controller, "base_topic/device_id/node/prop", "x"),
        Err(HandleError::UnknownNode("device_id".to_owned(), "node".to_owned()))
    );
    assert_eq!(
        controller.handle_publish("base_topic/device_id/$name", &[0xff, 0xfe], false).map(|r| r.events),
        Err(HandleError::InvalidUtf8)
    );
    assert_eq!(controller.devices(), &before);

    publish(&mut controller, "base_topic/device_id/$nodes", "node").unwrap();
    publish(&mut controller, "base_topic/device_id/node/$properties", "prop").unwrap();
    assert_eq!(
        publish(&mut controller, "base_topic/device_id/node/prop/$datatype", "decimal"),
        Err(HandleError::InvalidDatatype("decimal".to_owned()))
    );
    assert_eq!(
        publish(&mut controller, "base_topic/device_id/node/prop/$settable", "yes"),
        Err(HandleError::InvalidBoolean("yes".to_owned()))
    );
    assert_eq!(
        publish(&mut controller, "base_topic/device_id/node/other/$name", "x"),
        Err(HandleError::UnknownProperty("device_id".to_owned(), "node".to_owned(), "other".to_owned()))
    );
}

#[test]
fn device_attributes_and_stats() {
    let mut controller = make_test_controller();
    connect(&mut controller);
    publish(&mut controller, "base_topic/d/$homie", "3.0").unwrap();
    publish(&mut controller, "base_topic/d/$implementation", "impl").unwrap();
    publish(&mut controller, "base_topic/d/$localip", "192.168.1.2").unwrap();
    publish(&mut controller, "base_topic/d/$mac", "AA:BB").unwrap();
    publish(&mut controller, "base_topic/d/$fw/name", "fw").unwrap();
    publish(&mut controller, "base_topic/d/$fw/version", "1.2").unwrap();
    publish(&mut controller, "base_topic/d/$extensions", "org.homie.legacy-stats:0.1.1:[4.x]").unwrap();
    publish(&mut controller, "base_topic/d/$stats/interval", "60").unwrap();
    publish(&mut controller, "base_topic/d/$stats/uptime", "3600").unwrap();
    publish(&mut controller, "base_topic/d/$stats/signal", "-70").unwrap();
    publish(&mut controller, "base_topic/d/$stats/cputemp", "48.5").unwrap();
    publish(&mut controller, "base_topic/d/$stats/cpuload", "12").unwrap();
    publish(&mut controller, "base_topic/d/$stats/battery", "+80").unwrap();
    publish(&mut controller, "base_topic/d/$stats/freeheap", "1024").unwrap();
    publish(&mut controller, "base_topic/d/$stats/supply", "3.3E0").unwrap();
    // Ignored without error.
    assert_eq!(publish(&mut controller, "base_topic/d/$stats", "uptime,signal").unwrap(), vec![]);
    assert_eq!(publish(&mut controller, "base_topic/d/$stats/other", "1").unwrap(), vec![]);
    assert_eq!(publish(&mut controller, "base_topic/d/n/p/set", "1").unwrap(), vec![]);
    assert_eq!(publish(&mut controller, "base_topic/d/a/b/c/e", "1").unwrap(), vec![]);
    assert_eq!(publish(&mut controller, "base_topic/d", "1").unwrap(), vec![]);
    // A known device is not discovered again.
    assert_eq!(publish(&mut controller, "base_topic/d/$homie", "4.0").unwrap(), vec![]);

    let d = device(&controller, "d").unwrap();
    assert_eq!(d.homie_version, "3.0");
    assert_eq!(d.implementation.as_deref(), Some("impl"));
    assert_eq!(d.local_ip.as_deref(), Some("192.168.1.2"));
    assert_eq!(d.mac.as_deref(), Some("AA:BB"));
    assert_eq!(d.firmware_name.as_deref(), Some("fw"));
    assert_eq!(d.firmware_version.as_deref(), Some("1.2"));
    assert_eq!(d.extensions.len(), 1);
    assert_eq!(d.extensions[0].id, "org.homie.legacy-stats");
    assert_eq!(d.stats_interval, Some(60));
    assert_eq!(d.stats_uptime, Some(3600));
    assert_eq!(d.stats_signal, Some(-70));
    assert_eq!(d.stats_cputemp.as_deref(), Some("48.5"));
    assert_eq!(d.stats_cpuload, Some(12));
    assert_eq!(d.stats_battery, Some(80));
    assert_eq!(d.stats_freeheap, Some(1024));
    assert_eq!(d.stats_supply.as_deref(), Some("3.3E0"));
}

#[test]
fn nodes_and_properties_removed_are_unsubscribed() {
    let mut controller = make_test_controller();
    connect(&mut controller);
    publish(&mut controller, "base_topic/d/$homie", "4.0").unwrap();
    publish(&mut controller, "base_topic/d/$nodes", "a,b").unwrap();
    publish(&mut controller, "base_topic/d/a/$properties", "x,y").unwrap();
    publish(&mut controller, "base_topic/d/b/$properties", "z").unwrap();

    let r = publish_response(&mut controller, "base_topic/d/a/$properties", "y,w", false).unwrap();
    assert_eq!(r.topics_to_unsubscribe, vec!["base_topic/d/a/x/+".to_owned()]);
    assert_eq!(r.topics_to_subscribe, vec!["base_topic/d/a/w/+".to_owned()]);

    let r = publish_response(&mut controller, "base_topic/d/$nodes", "a,c,c", false).unwrap();
    assert_eq!(r.topics_to_unsubscribe, vec!["base_topic/d/b/+".to_owned(), "base_topic/d/b/z/+".to_owned()]);
    assert_eq!(r.topics_to_subscribe, vec!["base_topic/d/c/+".to_owned()]);
    let d = device(&controller, "d").unwrap();
    let ids: Vec<&str> = d.nodes.iter().map(|n| n.id.as_str()).collect();
    assert_eq!(ids, vec!["a", "c"]);
    let props: Vec<&str> = d.node("a").unwrap().properties.iter().map(|p| p.id.as_str()).collect();
    assert_eq!(props, vec!["y", "w"]);
}

#[test]
fn property_values_are_fresh_unless_retained() {
    let mut controller = make_test_controller();
    connect(&mut controller);
    publish(&mut controller, "base_topic/d/$homie", "4.0").unwrap();
    publish(&mut controller, "base_topic/d/$nodes", "n").unwrap();
    publish(&mut controller, "base_topic/d/n/$properties", "p").unwrap();
    assert_eq!(
        publish(&mut controller, "base_topic/d/n/p", "42").unwrap(),
        vec![Event::PropertyValueChanged {
            device_id: "d".to_owned(),
            node_id: "n".to_owned(),
            property_id: "p".to_owned(),
            value: "42".to_owned(),
            fresh: true
        }]
    );
    assert_eq!(
        publish_retained(&mut controller, "base_topic/d/n/p", "43").unwrap(),
        vec![Event::PropertyValueChanged {
            device_id: "d".to_owned(),
            node_id: "n".to_owned(),
            property_id: "p".to_owned(),
            value: "43".to_owned(),
            fresh: false
        }]
    );
    publish(&mut controller, "base_topic/d/n/p/$unit", "°C").unwrap();
    publish(&mut controller, "base_topic/d/n/p/$format", "0:100").unwrap();
    publish(&mut controller, "base_topic/d/n/p/$settable", "true").unwrap();
    publish(&mut controller, "base_topic/d/n/p/$retained", "false").unwrap();
    let p = device(&controller, "d").unwrap().node("n").unwrap().property("p").unwrap().clone();
    assert_eq!(p.value.as_deref(), Some("43"));
    assert_eq!(p.unit.as_deref(), Some("°C"));
    assert_eq!(p.format.as_deref(), Some("0:100"));
    assert!(p.settable);
    assert!(!p.retained);
    assert_eq!(p.value::<i64>(), Ok(43));
}

#[test]
fn start_forgets_devices_and_set_builds_message() {
    let mut controller = make_test_controller();
    connect(&mut controller);
    publish(&mut controller, "base_topic/d/$homie", "4.0").unwrap();
    assert_eq!(controller.devices().len(), 1);
    assert_eq!(controller.start(), "base_topic/+/$homie");
    assert!(controller.devices().is_empty());
    assert_eq!(controller.base_topic(), "base_topic");
    assert_eq!(
        controller.set("d", "n", "p", &42i64),
        ("base_topic/d/n/p/set".to_owned(), "42".to_owned())
    );
    assert_eq!(
        controller.set("d", "n", "p", &true),
        ("base_topic/d/n/p/set".to_owned(), "true".to_owned())
    );
}

#[test]
fn float_syntax_of_stats() {
    for ok in ["1", "1.", ".5", "+1.5e-3", "-2E10", "inf", "-Infinity", "NaN", "007"] {
        assert!(is_float_text(ok), "{}", ok);
    }
    for bad in ["", ".", "e5", "1e", "1.2.3", "1e+", " 1", "infinit", "0x10", "1_000"] {
        assert!(!is_float_text(bad), "{}", bad);
    }
}

#[test]
fn devices_snapshot_is_kept() {
    let mut controller = HomieController::new("homie");
    controller.handle_publish("homie/dev/$homie", b"4.0", true).unwrap();
    let before = controller.devices_snapshot();
    assert_eq!(before.len(), 1);
    assert_eq!(before[0].name, None);
    controller.handle_publish("homie/dev/$name", b"Device name", true).unwrap();
    controller.handle_publish("homie/other/$homie", b"4.0", true).unwrap();
    // The snapshot taken before keeps the devices as they were.
    assert_eq!(before.len(), 1);
    assert_eq!(before[0].name, None);
    // A new snapshot gives the devices as they are now.
    let after = controller.devices_snapshot();
    assert_eq!(after.len(), 2);
    assert_eq!(after[0].name.as_deref(), Some("Device name"));
    assert_eq!(&after, controller.devices());
}
