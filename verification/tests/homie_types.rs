use mijia_homie::homie_controller::types::{Datatype, Device, Extension, Node, ParseExtensionError, ParseStateError, Property, State};
use mijia_homie::homie_controller::values::{ColorFormat, ColorHsv, ColorRgb, EnumValue, FloatValue, ParseColorError, Value, ValueError};

#[test]
fn extension_parse_succeeds() {
    let legacy_stats: Extension = "org.homie.legacy-stats:0.1.1:[4.x]".parse().unwrap();
    assert_eq!(legacy_stats.id, "org.homie.legacy-stats");
    assert_eq!(legacy_stats.version, "0.1.1");
    assert_eq!(legacy_stats.homie_versions, &["4.x"]);

    let meta: Extension = "eu.epnw.meta:1.1.0:[3.0.1;4.x]".parse().unwrap();
    assert_eq!(meta.id, "eu.epnw.meta");
    assert_eq!(meta.version, "1.1.0");
    assert_eq!(meta.homie_versions, &["3.0.1", "4.x"]);

    let minimal: Extension = "a:0:[]".parse().unwrap();
    assert_eq!(minimal.id, "a");
    assert_eq!(minimal.version, "0");
    assert_eq!(minimal.homie_versions, &[""]);
}

#[test]
fn extension_parse_fails() {
    assert_eq!("".parse::<Extension>(), Err(ParseExtensionError("".to_owned())));
    assert_eq!(
        "test.blah:1.2.3".parse::<Extension>(),
        Err(ParseExtensionError("test.blah:1.2.3".to_owned()))
    );
    assert_eq!(
        "test.blah:1.2.3:4.x".parse::<Extension>(),
        Err(ParseExtensionError("test.blah:1.2.3:4.x".to_owned()))
    );
}

#[test]
fn property_integer_parse() {
    let mut property = Property::new("property_id");

    // With no known value, parsing fails.
    assert_eq!(property.value::<i64>(), Err(ValueError::Unknown));

    // With an invalid value, parsing also fails.
    property.value = Some("-".to_owned());
    assert_eq!(
        property.value::<i64>(),
        Err(ValueError::ParseFailed {
            value: "-".to_owned(),
            datatype: Datatype::Integer,
        })
    );

    // With a valid value but unknown datatype, parsing succeeds.
    property.value = Some("42".to_owned());
    assert_eq!(property.value(), Ok(42));

    // With the correct datatype, parsing still succeeds.
    property.datatype = Some(Datatype::Integer);
    assert_eq!(property.value(), Ok(42));

    // Negative values can be parsed.
    property.value = Some("-66".to_owned());
    assert_eq!(property.value(), Ok(-66));

    // With the wrong datatype, parsing fails.
    property.datatype = Some(Datatype::Float);
    assert_eq!(
        property.value::<i64>(),
        Err(ValueError::WrongDatatype {
            actual: Datatype::Float,
            expected: Datatype::Integer,
        })
    );
}

#[test]
fn property_float_parse() {
    let mut property = Property::new("property_id");

    // With no known value, parsing fails.
    assert_eq!(property.value::<FloatValue>(), Err(ValueError::Unknown));

    // With an invalid value, parsing also fails.
    property.value = Some("-".to_owned());
    assert_eq!(
        property.value::<FloatValue>(),
        Err(ValueError::ParseFailed {
            value: "-".to_owned(),
            datatype: Datatype::Float,
        })
    );

    // With a valid value but unknown datatype, parsing succeeds.
    property.value = Some("42.36".to_owned());
    let value: f64 = property.value::<FloatValue>().unwrap().as_str().parse().unwrap();
    assert_eq!(value, 42.36);

    // With the correct datatype, parsing still succeeds.
    property.datatype = Some(Datatype::Float);
    let value: f64 = property.value::<FloatValue>().unwrap().as_str().parse().unwrap();
    assert_eq!(value, 42.36);

    // With the wrong datatype, parsing fails.
    property.datatype = Some(Datatype::Integer);
    assert_eq!(
        property.value::<FloatValue>(),
        Err(ValueError::WrongDatatype {
            actual: Datatype::Integer,
            expected: Datatype::Float,
        })
    );
}

#[test]
fn float_value_syntax() {
    for text in ["1", "-1.5", "+.5", "5.", "1e10", "2.5E-3", "inf", "-Infinity", "NaN"] {
        let value = FloatValue::from_text(text).unwrap();
        assert_eq!(value.as_str(), text);
        assert!(text.parse::<f64>().is_ok());
        assert_eq!(FloatValue::parse_value(text), Some(value.clone()));
        assert_eq!(value.to_value_string(), text);
    }
    for text in ["", "-", ".", "1e", "e5", "1.2.3", "0x10", " 1", "infinit", "1_000"] {
        assert_eq!(FloatValue::from_text(text), None);
        assert!(text.parse::<f64>().is_err());
    }
    assert_eq!(FloatValue::datatype(), Datatype::Float);
}

#[test]
fn property_color_parse() {
    let mut property = Property::new("property_id");

    // With no known value, parsing fails.
    assert_eq!(property.value::<ColorRgb>(), Err(ValueError::Unknown));
    assert_eq!(property.value::<ColorHsv>(), Err(ValueError::Unknown));

    // With an invalid value, parsing also fails.
    property.value = Some("".to_owned());
    assert_eq!(
        property.value::<ColorRgb>(),
        Err(ValueError::ParseFailed {
            value: "".to_owned(),
            datatype: Datatype::Color,
        })
    );

    // With a valid value but unknown datatype, parsing succeeds as either kind of colour.
    property.value = Some("12,34,56".to_owned());
    assert_eq!(property.value(), Ok(ColorRgb { r: 12, g: 34, b: 56 }));
    assert_eq!(property.value(), Ok(ColorHsv { h: 12, s: 34, v: 56 }));

    // With the correct datatype and no format, parsing succeeds as either kind of colour.
    property.datatype = Some(Datatype::Color);
    assert_eq!(property.value(), Ok(ColorRgb { r: 12, g: 34, b: 56 }));
    assert_eq!(property.value(), Ok(ColorHsv { h: 12, s: 34, v: 56 }));

    // With a format set, parsing succeeds only as the correct kind of colour.
    property.format = Some("rgb".to_owned());
    assert_eq!(property.value(), Ok(ColorRgb { r: 12, g: 34, b: 56 }));
    assert_eq!(
        property.value::<ColorHsv>(),
        Err(ValueError::WrongFormat {
            format: "rgb".to_owned()
        })
    );

    // With the wrong datatype, parsing fails.
    property.datatype = Some(Datatype::Integer);
    assert_eq!(
        property.value::<ColorRgb>(),
        Err(ValueError::WrongDatatype {
            actual: Datatype::Integer,
            expected: Datatype::Color,
        })
    );
    assert_eq!(
        property.value::<ColorHsv>(),
        Err(ValueError::WrongDatatype {
            actual: Datatype::Integer,
            expected: Datatype::Color,
        })
    );
}

#[test]
fn property_enum_parse() {
    let mut property = Property::new("property_id");

    // With no known value, parsing fails.
    assert_eq!(property.value::<EnumValue>(), Err(ValueError::Unknown));

    // With an invalid value, parsing also fails.
    property.value = Some("".to_owned());
    assert_eq!(
        property.value::<EnumValue>(),
        Err(ValueError::ParseFailed {
            value: "".to_owned(),
            datatype: Datatype::Enum,
        })
    );

    // With a valid value but unknown datatype, parsing succeeds.
    property.value = Some("anything".to_owned());
    assert_eq!(property.value(), Ok(EnumValue::new("anything")));

    // With the correct datatype, parsing still succeeds.
    property.datatype = Some(Datatype::Enum);
    assert_eq!(property.value(), Ok(EnumValue::new("anything")));

    // With the wrong datatype, parsing fails.
    property.datatype = Some(Datatype::String);
    assert_eq!(
        property.value::<EnumValue>(),
        Err(ValueError::WrongDatatype {
            actual: Datatype::String,
            expected: Datatype::Enum,
        })
    );
}

#[test]
fn property_boolean_and_string_parse() {
    let mut property = Property::new("property_id");
    property.value = Some("true".to_owned());
    assert_eq!(property.value(), Ok(true));
    property.value = Some("True".to_owned());
    assert_eq!(
        property.value::<bool>(),
        Err(ValueError::ParseFailed { value: "True".to_owned(), datatype: Datatype::Boolean })
    );
    assert_eq!(property.value(), Ok("True".to_owned()));
    property.value = Some("+9223372036854775807".to_owned());
    assert_eq!(property.value(), Ok(i64::MAX));
    property.value = Some("-9223372036854775808".to_owned());
    assert_eq!(property.value(), Ok(i64::MIN));
    property.value = Some("9223372036854775808".to_owned());
    assert!(property.value::<i64>().is_err());
}

#[test]
fn property_color_format() {
    let mut property = Property::new("property_id");

    // With no known format or datatype, format parsing fails.
    assert_eq!(property.color_format(), Err(ValueError::Unknown));

    // Parsing an invalid format fails.
    property.format = Some("".to_owned());
    assert_eq!(
        property.color_format(),
        Err(ValueError::WrongFormat {
            format: "".to_owned()
        })
    );

    // Parsing valid formats works even if datatype is unknown.
    property.format = Some("rgb".to_owned());
    assert_eq!(property.color_format(), Ok(ColorFormat::Rgb));
    property.format = Some("hsv".to_owned());
    assert_eq!(property.color_format(), Ok(ColorFormat::Hsv));

    // With the wrong datatype, parsing fails.
    property.datatype = Some(Datatype::Integer);
    assert_eq!(
        property.color_format(),
        Err(ValueError::WrongDatatype {
            actual: Datatype::Integer,
            expected: Datatype::Color
        })
    );

    // With the correct datatype, parsing works.
    property.datatype = Some(Datatype::Color);
    assert_eq!(property.color_format(), Ok(ColorFormat::Hsv));
}

#[test]
fn property_enum_format() {
    let mut property = Property::new("property_id");

    // With no known format or datatype, format parsing fails.
    assert_eq!(property.enum_values(), Err(ValueError::Unknown));

    // An empty format string is invalid.
    property.format = Some("".to_owned());
    assert_eq!(
        property.enum_values(),
        Err(ValueError::WrongFormat {
            format: "".to_owned()
        })
    );

    // A single value is valid.
    property.format = Some("one".to_owned());
    assert_eq!(property.enum_values(), Ok(vec!["one"]));

    // Several values are parsed correctly.
    property.format = Some("one,two,three".to_owned());
    assert_eq!(property.enum_values(), Ok(vec!["one", "two", "three"]));

    // With the correct datatype, parsing works.
    property.datatype = Some(Datatype::Enum);
    assert_eq!(property.enum_values(), Ok(vec!["one", "two", "three"]));

    // With the wrong datatype, parsing fails.
    property.datatype = Some(Datatype::Color);
    assert_eq!(
        property.enum_values(),
        Err(ValueError::WrongDatatype {
            actual: Datatype::Color,
            expected: Datatype::Enum
        })
    );
}

#[test]
fn property_integer_range_format() {
    let mut property = Property::new("property_id");

    assert_eq!(property.range::<i64>(), Err(ValueError::Unknown));

    property.format = Some("".to_owned());
    assert_eq!(
        property.range::<i64>(),
        Err(ValueError::WrongFormat {
            format: "".to_owned()
        })
    );

    property.format = Some("1:10".to_owned());
    assert_eq!(property.range(), Ok(1..=10));

    property.format = Some("3.6:4.2".to_owned());
    assert_eq!(
        property.range::<i64>(),
        Err(ValueError::WrongFormat {
            format: "3.6:4.2".to_owned()
        })
    );

    property.format = Some("-5:-2:3".to_owned());
    assert_eq!(
        property.range::<i64>(),
        Err(ValueError::WrongFormat { format: "-5:-2:3".to_owned() })
    );

    property.datatype = Some(Datatype::Integer);
    property.format = Some("1:10".to_owned());
    assert_eq!(property.range(), Ok(1..=10));

    property.datatype = Some(Datatype::Float);
    assert_eq!(
        property.range::<i64>(),
        Err(ValueError::WrongDatatype {
            actual: Datatype::Float,
            expected: Datatype::Integer
        })
    );
}

#[test]
fn property_has_required_attributes() {
    let mut property = Property::new("property_id");
    assert_eq!(property.has_required_attributes(), false);

    property.name = Some("Property name".to_owned());
    assert_eq!(property.has_required_attributes(), false);

    property.datatype = Some(Datatype::Integer);
    assert_eq!(property.has_required_attributes(), true);
}

/// Construct a minimal `Property` with all the required attributes.
fn property_with_required_attributes() -> Property {
    let mut property = Property::new("property_id");
    property.name = Some("Property name".to_owned());
    property.datatype = Some(Datatype::Integer);
    property
}

#[test]
fn node_has_required_attributes() {
    let mut node = Node::new("node_id");
    assert_eq!(node.has_required_attributes(), false);

    node.name = Some("Node name".to_owned());
    assert_eq!(node.has_required_attributes(), false);

    node.node_type = Some("Node type".to_owned());
    assert_eq!(node.has_required_attributes(), false);

    node.add_property(property_with_required_attributes());
    assert_eq!(node.has_required_attributes(), true);

    node.add_property(Property::new("property_without_required_attributes"));
    assert_eq!(node.has_required_attributes(), false);
}

fn node_with_required_attributes() -> Node {
    let mut node = Node::new("node_id");
    node.name = Some("Node name".to_owned());
    node.node_type = Some("Node type".to_owned());
    node.add_property(property_with_required_attributes());
    node
}

#[test]
fn device_has_required_attributes() {
    let mut device = Device::new("device_id", "123");
    assert_eq!(device.has_required_attributes(), false);

    device.name = Some("Device name".to_owned());
    assert_eq!(device.has_required_attributes(), false);

    device.state = State::Init;
    assert_eq!(device.has_required_attributes(), true);

    device.add_node(node_with_required_attributes());
    assert_eq!(device.has_required_attributes(), true);

    device.add_node(Node::new("node_without_required_attributes"));
    assert_eq!(device.has_required_attributes(), false);
}

#[test]
fn device_add_node_replaces_same_id() {
    let mut device = Device::new("device_id", "4.0");
    device.add_node(Node::new("node_id"));
    device.add_node(node_with_required_attributes());
    assert_eq!(device.nodes.len(), 1);
    assert_eq!(device.node("node_id"), Some(&node_with_required_attributes()));
    assert_eq!(device.node("other"), None);
}

#[test]
fn node_add_property_replaces_same_id() {
    let mut node = Node::new("node_id");
    node.add_property(Property::new("a"));
    node.add_property(property_with_required_attributes());
    node.add_property(Property::new("property_id"));
    assert_eq!(node.properties.len(), 2);
    assert_eq!(node.property("property_id").unwrap().name, None);
    assert!(node.property("missing").is_none());
}

#[test]
fn state_and_datatype_names() {
    for state in [State::Init, State::Ready, State::Disconnected, State::Sleeping, State::Lost, State::Alert] {
        assert_eq!(state.as_str().parse::<State>(), Ok(state));
    }
    assert_eq!("unknown".parse::<State>(), Err(ParseStateError("unknown".to_owned())));
    for datatype in [Datatype::Integer, Datatype::Float, Datatype::Boolean, Datatype::String, Datatype::Enum, Datatype::Color] {
        assert_eq!(datatype.as_str().parse::<Datatype>(), Ok(datatype));
    }
    assert!("Integer".parse::<Datatype>().is_err());
}

#[test]
fn color_rgb_to_from_string() {
    let color = ColorRgb::new(111, 222, 42);
    assert_eq!(color.to_string().parse(), Ok(color));
}

#[test]
fn color_hsv_to_from_string() {
    let color = ColorHsv::new(231, 88, 77);
    assert_eq!(color.to_string().parse(), Ok(color));
}

#[test]
fn color_rgb_parse_invalid() {
    assert_eq!("".parse::<ColorRgb>(), Err(ParseColorError()));
    assert_eq!("1,2".parse::<ColorRgb>(), Err(ParseColorError()));
    assert_eq!("1,2,3,4".parse::<ColorRgb>(), Err(ParseColorError()));
    assert_eq!("1,2,256".parse::<ColorRgb>(), Err(ParseColorError()));
    assert_eq!("1,256,3".parse::<ColorRgb>(), Err(ParseColorError()));
    assert_eq!("256,2,3".parse::<ColorRgb>(), Err(ParseColorError()));
    assert_eq!("1,-2,3".parse::<ColorRgb>(), Err(ParseColorError()));
}

#[test]
fn color_hsv_parse_invalid() {
    assert_eq!("".parse::<ColorHsv>(), Err(ParseColorError()));
    assert_eq!("1,2".parse::<ColorHsv>(), Err(ParseColorError()));
    assert_eq!("1,2,3,4".parse::<ColorHsv>(), Err(ParseColorError()));
    assert_eq!("1,2,101".parse::<ColorHsv>(), Err(ParseColorError()));
    assert_eq!("1,101,3".parse::<ColorHsv>(), Err(ParseColorError()));
    assert_eq!("361,2,3".parse::<ColorHsv>(), Err(ParseColorError()));
    assert_eq!("1,-2,3".parse::<ColorHsv>(), Err(ParseColorError()));
}

#[test]
fn value_strings_roundtrip() {
    assert_eq!((-42i64).to_value_string(), "-42");
    assert_eq!(ColorRgb::new(0, 1, 255).to_value_string(), "0,1,255");
    assert_eq!("+7,08,9".parse::<ColorRgb>(), Ok(ColorRgb::new(7, 8, 9)));
    assert_eq!(EnumValue::new("on").to_value_string(), "on");
    assert_eq!(<i64 as Value>::datatype(), Datatype::Integer);
}

/// The bounds of a floating-point range, as numbers.
fn float_bounds(r: std::ops::RangeInclusive<FloatValue>) -> (f64, f64) {
    (r.start().as_str().parse().unwrap(), r.end().as_str().parse().unwrap())
}

#[test]
fn property_numeric_format() {
    let mut property = Property::new("property_id");

    // With no known format or datatype, format parsing fails.
    assert_eq!(property.range::<i64>(), Err(ValueError::Unknown));
    assert_eq!(property.range::<FloatValue>(), Err(ValueError::Unknown));

    // An empty format string is invalid.
    property.format = Some("".to_owned());
    assert_eq!(
        property.range::<i64>(),
        Err(ValueError::WrongFormat {
            format: "".to_owned()
        })
    );
    assert_eq!(
        property.range::<FloatValue>(),
        Err(ValueError::WrongFormat {
            format: "".to_owned()
        })
    );

    // A valid range is parsed correctly.
    property.format = Some("1:10".to_owned());
    assert_eq!(property.range(), Ok(1..=10));
    assert_eq!(float_bounds(property.range::<FloatValue>().unwrap()), (1.0, 10.0));

    // A range with a decimal point must be a float.
    property.format = Some("3.6:4.2".to_owned());
    assert_eq!(float_bounds(property.range::<FloatValue>().unwrap()), (3.6, 4.2));
    assert_eq!(
        property.range::<i64>(),
        Err(ValueError::WrongFormat {
            format: "3.6:4.2".to_owned()
        })
    );

    // With the correct datatype, parsing works.
    property.datatype = Some(Datatype::Integer);
    property.format = Some("1:10".to_owned());
    assert_eq!(property.range(), Ok(1..=10));

    // For the wrong datatype, parsing fails.
    assert_eq!(
        property.range::<FloatValue>(),
        Err(ValueError::WrongDatatype {
            actual: Datatype::Integer,
            expected: Datatype::Float
        })
    );
}
