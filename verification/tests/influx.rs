use mijia_homie::homie_controller::{Datatype, Device, HomieController, Node, Property, State};
use mijia_homie::influx::{
    influx_value_for_homie_property, point_for_property, point_for_property_value, InfluxPoint, InfluxValue,
};

fn property(datatype: Datatype, value: &str) -> Property {
    Property {
        id: "property_id".to_owned(),
        name: None,
        datatype: Some(datatype),
        settable: false,
        retained: true,
        unit: None,
        format: None,
        value: Some(value.to_owned()),
    }
}

fn device(name: Option<&str>, nodes: Vec<Node>) -> Device {
    Device {
        id: "device_id".to_owned(),
        homie_version: "4.0".to_owned(),
        name: name.map(|n| n.to_owned()),
        state: State::Unknown,
        implementation: None,
        nodes,
        extensions: Vec::default(),
        local_ip: None,
        mac: None,
        firmware_name: None,
        firmware_version: None,
        stats_interval: None,
        stats_uptime: None,
        stats_signal: None,
        stats_cputemp: None,
        stats_cpuload: None,
        stats_battery: None,
        stats_freeheap: None,
        stats_supply: None,
    }
}

fn point(measurement: &str, timestamp: i64, tags: &[(&str, &str)], fields: Vec<(&str, InfluxValue)>) -> InfluxPoint {
    InfluxPoint {
        measurement: measurement.to_owned(),
        timestamp,
        tags: tags.iter().map(|(k, v)| (k.to_string(), v.to_string())).collect(),
        fields: fields.into_iter().map(|(k, v)| (k.to_owned(), v)).collect(),
    }
}

/// Points are equal when their measurement, time, tags and fields are, in any order.
fn assert_same_point(actual: &InfluxPoint, expected: &InfluxPoint) {
    assert_eq!(actual.measurement, expected.measurement);
    assert_eq!(actual.timestamp, expected.timestamp);
    let mut a = actual.tags.clone();
    let mut e = expected.tags.clone();
    a.sort();
    e.sort();
    assert_eq!(a, e);
    assert_eq!(actual.fields.len(), expected.fields.len());
    for field in &expected.fields {
        assert!(actual.fields.contains(field), "missing field {:?}", field);
    }
}

#[test]
fn influx_value_for_integer() {
    let property = property(Datatype::Integer, "42");
    assert_eq!(influx_value_for_homie_property(&property).unwrap(), InfluxValue::Integer(42));
}

#[test]
fn influx_value_for_float() {
    let property = property(Datatype::Float, "42.3");
    match influx_value_for_homie_property(&property).unwrap() {
        InfluxValue::Float(f) => assert_eq!(f.as_str().parse::<f64>().unwrap(), 42.3),
        other => panic!("expected a float, got {:?}", other),
    }
}

#[test]
fn influx_value_for_boolean() {
    let property = property(Datatype::Boolean, "true");
    assert_eq!(influx_value_for_homie_property(&property).unwrap(), InfluxValue::Boolean(true));
}

#[test]
fn influx_value_for_string() {
    let property = property(Datatype::String, "abc");
    assert_eq!(influx_value_for_homie_property(&property).unwrap(), InfluxValue::String("abc".to_owned()));
}

#[test]
fn influx_value_for_enum() {
    let property = property(Datatype::Enum, "abc");
    assert_eq!(influx_value_for_homie_property(&property).unwrap(), InfluxValue::String("abc".to_owned()));
}

#[test]
fn influx_value_for_color() {
    let property = property(Datatype::Color, "12,34,56");
    assert_eq!(
        influx_value_for_homie_property(&property).unwrap(),
        InfluxValue::String("12,34,56".to_owned())
    );
}

#[test]
fn point_for_minimal_property() {
    let property = property(Datatype::Integer, "42");
    let node = Node { id: "node_id".to_owned(), name: None, node_type: None, properties: vec![property.clone()] };
    let device = device(None, vec![node.clone()]);
    let timestamp_millis = 123456789;
    let point_made = point_for_property_value(&device, &node, &property, timestamp_millis).unwrap();
    assert_same_point(
        &point_made,
        &point(
            "integer",
            timestamp_millis,
            &[("device_id", "device_id"), ("node_id", "node_id"), ("property_id", "property_id")],
            vec![("value", InfluxValue::Integer(42))],
        ),
    );
}

#[test]
fn point_for_full_property() {
    let mut property = property(Datatype::Integer, "42");
    property.name = Some("Property name".to_owned());
    let node = Node {
        id: "node_id".to_owned(),
        name: Some("Node name".to_owned()),
        node_type: Some("node type".to_owned()),
        properties: vec![property.clone()],
    };
    let device = device(Some("Device name"), vec![node.clone()]);
    let timestamp_millis = 123456789;
    let point_made = point_for_property_value(&device, &node, &property, timestamp_millis).unwrap();
    assert_same_point(
        &point_made,
        &point(
            "integer",
            timestamp_millis,
            &[
                ("device_id", "device_id"),
                ("node_id", "node_id"),
                ("property_id", "property_id"),
                ("node_type", "node type"),
                ("device_name", "Device name"),
                ("node_name", "Node name"),
                ("property_name", "Property name"),
            ],
            vec![("value", InfluxValue::Integer(42))],
        ),
    );
}

#[test]
fn point_for_boolean_property() {
    let property = property(Datatype::Boolean, "true");
    let node = Node { id: "node_id".to_owned(), name: None, node_type: None, properties: vec![property.clone()] };
    let device = device(None, vec![node.clone()]);
    let timestamp_millis = 123456789;
    let point_made = point_for_property_value(&device, &node, &property, timestamp_millis).unwrap();
    assert_same_point(
        &point_made,
        &point(
            "boolean",
            timestamp_millis,
            &[("device_id", "device_id"), ("node_id", "node_id"), ("property_id", "property_id")],
            vec![("value", InfluxValue::Boolean(true)), ("value_int", InfluxValue::Integer(1))],
        ),
    );
}

#[test]
fn point_for_false_boolean_and_unit() {
    let mut property = property(Datatype::Boolean, "false");
    property.unit = Some("°C".to_owned());
    let node = Node { id: "node_id".to_owned(), name: None, node_type: None, properties: vec![property.clone()] };
    let device = device(None, vec![node.clone()]);
    let point_made = point_for_property_value(&device, &node, &property, -5).unwrap();
    assert_eq!(
        point_made,
        point(
            "boolean",
            -5,
            &[("device_id", "device_id"), ("node_id", "node_id"), ("property_id", "property_id"), ("unit", "°C")],
            vec![("value", InfluxValue::Boolean(false)), ("value_int", InfluxValue::Integer(0))],
        )
    );
}

#[test]
fn no_point_without_datatype_or_parsable_value() {
    let mut p = property(Datatype::Integer, "4.2");
    let node = Node { id: "node_id".to_owned(), name: None, node_type: None, properties: vec![p.clone()] };
    let device = device(None, vec![node.clone()]);
    assert_eq!(influx_value_for_homie_property(&p), None);
    assert_eq!(point_for_property_value(&device, &node, &p, 0), None);
    p.datatype = None;
    p.value = Some("42".to_owned());
    assert_eq!(influx_value_for_homie_property(&p), None);
    assert_eq!(point_for_property_value(&device, &node, &p, 0), None);
    p.datatype = Some(Datatype::Float);
    p.value = Some("1e".to_owned());
    assert_eq!(influx_value_for_homie_property(&p), None);
    p.value = None;
    assert_eq!(influx_value_for_homie_property(&p), None);
}

#[test]
fn point_for_property_known_to_controller() {
    let mut controller = HomieController::new("homie");
    for (topic, payload) in [
        ("homie/dev/$homie", "4.0"),
        ("homie/dev/$name", "Device name"),
        ("homie/dev/$nodes", "node"),
        ("homie/dev/node/$properties", "temp"),
        ("homie/dev/node/temp/$datatype", "float"),
        ("homie/dev/node/temp", "21.5"),
    ] {
        controller.handle_publish(topic, payload.as_bytes(), true).unwrap();
    }
    let point_made = point_for_property(&controller, "dev", "node", "temp", 1000).unwrap();
    assert_eq!(point_made.measurement, "float");
    assert_eq!(point_made.timestamp, 1000);
    assert!(point_made.tags.contains(&("device_name".to_owned(), "Device name".to_owned())));
    assert!(point_made.tags.contains(&("property_id".to_owned(), "temp".to_owned())));
    match &point_made.fields[..] {
        [(key, InfluxValue::Float(f))] => {
            assert_eq!(key, "value");
            assert_eq!(f.as_str(), "21.5");
        }
        other => panic!("unexpected fields {:?}", other),
    }
    assert_eq!(point_for_property(&controller, "dev", "node", "other", 1000), None);
    assert_eq!(point_for_property(&controller, "dev", "other", "temp", 1000), None);
    assert_eq!(point_for_property(&controller, "other", "node", "temp", 1000), None);
}
