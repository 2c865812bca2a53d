use mijia_homie::homie_controller::FloatValue;
use mijia_homie::homie_device::device::simplify_unit_pair;
use mijia_homie::homie_device::{ColorFormat, Datatype, Node, Property};

#[test]
fn color_property_format() {
    assert_eq!(
        Property::color("id", "name", false, true, None, ColorFormat::Rgb).format,
        Some("rgb".to_string())
    );
    assert_eq!(
        Property::color("id", "name", false, true, None, ColorFormat::Hsv).format,
        Some("hsv".to_string())
    );
}

#[test]
fn integer_property_format() {
    assert_eq!(Property::integer("id", "name", false, true, None, None).format, None);
    assert_eq!(
        Property::integer("id", "name", false, true, None, Some(-2..5)).format,
        Some("-2:5".to_string())
    );
}

#[test]
fn enum_property_format() {
    assert_eq!(
        Property::enumeration("id", "name", false, true, None, &["ab", "cd"]).format,
        Some("ab,cd".to_string())
    );
}

#[test]
fn property_constructors() {
    let p = Property::new("id", "name", Datatype::Float, true, false, Some("°C"), Some("0:100"));
    assert_eq!(p.datatype, Datatype::Float);
    assert!(p.settable);
    assert!(!p.retained);
    assert_eq!(p.unit.as_deref(), Some("°C"));
    assert_eq!(p.format.as_deref(), Some("0:100"));
    assert_eq!(Property::boolean("b", "B", true, true, None).datatype, Datatype::Boolean);
    assert_eq!(Property::string("s", "S", false, true, Some("x")).format, None);
    let node = Node::new("node", "Node", "type", vec![p.clone()]);
    assert_eq!(node.properties, vec![p]);
    assert_eq!(node.node_type, "type");
}

#[test]
fn unit_pair_outcome() {
    assert_eq!(simplify_unit_pair::<String>(Ok(((), ()))), Ok(()));
    assert_eq!(simplify_unit_pair(Err::<((), ()), _>("failed".to_owned())), Err("failed".to_owned()));
}

/// A float as decimal text, as `f64` prints it.
fn float_text(x: f64) -> FloatValue {
    FloatValue::from_text(&x.to_string()).unwrap()
}

#[test]
fn float_property_format() {
    assert_eq!(
        Property::float("id", "name", false, true, None, None).format,
        None
    );
    assert_eq!(
        Property::float("id", "name", false, true, None, Some(float_text(-2.3)..float_text(5.0))).format,
        Some("-2.3:5".to_string())
    );
}
