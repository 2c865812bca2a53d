//! The points that the InfluxDB writer stores for fresh values of Homie properties: one point per
//! value, measured under the property's datatype and tagged with the IDs and names of the device,
//! node and property.

use crate::homie_controller::controller::{
    device_ids, device_views, find_device, find_id, find_node, find_property, node_ids, node_views,
    property_ids, property_views, ControllerView,
};
use crate::homie_controller::types::{Datatype, Device, DeviceView, Node, NodeView, Property, PropertyView};
use crate::homie_controller::values::{parse_bool, FloatValue, Value};
use crate::homie_controller::HomieController;
use crate::text::{float_syntax, parse_i64, parse_i64_spec};
use vstd::prelude::*;

verus! {

/// The value of a field of an InfluxDB point.
#[derive(Clone, Debug, Eq, PartialEq)]
pub enum InfluxValue {
    /// A string field.
    String(String),
    /// A signed integer field.
    Integer(i64),
    /// A floating-point field, as the decimal text of the number.
    Float(FloatValue),
    /// A boolean field.
    Boolean(bool),
}

/// A field value with its strings taken by their characters.
pub enum InfluxValueView {
    String(Seq<char>),
    Integer(i64),
    Float(Seq<char>),
    Boolean(bool),
}

impl View for InfluxValue {
    type V = InfluxValueView;

    open spec fn view(&self) -> InfluxValueView {
        match self {
            InfluxValue::String(s) => InfluxValueView::String(s@),
            InfluxValue::Integer(i) => InfluxValueView::Integer(*i),
            InfluxValue::Float(f) => InfluxValueView::Float(f@),
            InfluxValue::Boolean(b) => InfluxValueView::Boolean(*b),
        }
    }
}

/// A point to write to InfluxDB: a measurement, a time in milliseconds since the Unix epoch,
/// tags and fields. No two tags and no two fields have the same key; their order carries no
/// meaning.
#[derive(Clone, Debug, Eq, PartialEq)]
pub struct InfluxPoint {
    pub measurement: String,
    pub timestamp: i64,
    pub tags: Vec<(String, String)>,
    pub fields: Vec<(String, InfluxValue)>,
}

/// A point with its strings taken by their characters.
pub struct PointView {
    pub measurement: Seq<char>,
    pub timestamp: i64,
    pub tags: Seq<(Seq<char>, Seq<char>)>,
    pub fields: Seq<(Seq<char>, InfluxValueView)>,
}

/// The views of a sequence of tags.
pub open spec fn tag_views(ts: Seq<(String, String)>) -> Seq<(Seq<char>, Seq<char>)> {
    ts.map_values(|t: (String, String)| (t.0@, t.1@))
}

/// The views of a sequence of fields.
pub open spec fn field_views(fs: Seq<(String, InfluxValue)>) -> Seq<(Seq<char>, InfluxValueView)> {
    fs.map_values(|f: (String, InfluxValue)| (f.0@, f.1@))
}

impl View for InfluxPoint {
    type V = PointView;

    open spec fn view(&self) -> PointView {
        PointView {
            measurement: self.measurement@,
            timestamp: self.timestamp,
            tags: tag_views(self.tags@),
            fields: field_views(self.fields@),
        }
    }
}

/// The InfluxDB value of a property: read according to its datatype, which must be known. An
/// integer, floating-point or boolean property whose value does not parse as its datatype has
/// none; any other property is stored as its string value.
pub open spec fn influx_value_spec(p: PropertyView) -> Option<InfluxValueView> {
    match (p.datatype, p.value) {
        (None, _) => None,
        (_, None) => None,
        (Some(Datatype::Integer), Some(v)) => match parse_i64_spec(v) {
            Some(i) => Some(InfluxValueView::Integer(i)),
            None => None,
        },
        (Some(Datatype::Float), Some(v)) => if float_syntax(v) {
            Some(InfluxValueView::Float(v))
        } else {
            None
        },
        (Some(Datatype::Boolean), Some(v)) => match <bool as Value>::spec_parse(v) {
            Some(b) => Some(InfluxValueView::Boolean(b)),
            None => None,
        },
        (Some(_), Some(v)) => Some(InfluxValueView::String(v)),
    }
}

/// Converts the value of a property to an InfluxDB field value of the type that its datatype
/// calls for, if its datatype is known and its value parses.
pub fn influx_value_for_homie_property(property: &Property) -> (r: Option<InfluxValue>)
    ensures
        match r {
            Some(v) => influx_value_spec(property@) == Some(v@),
            None => influx_value_spec(property@) is None,
        },
{
    let datatype = match property.datatype {
        Some(d) => d,
        None => return None,
    };
    let value = match &property.value {
        Some(v) => v.as_str(),
        None => return None,
    };
    match datatype {
        Datatype::Integer => match parse_i64(value) {
            Some(i) => Some(InfluxValue::Integer(i)),
            None => None,
        },
        Datatype::Float => match FloatValue::from_text(value) {
            Some(f) => Some(InfluxValue::Float(f)),
            None => None,
        },
        Datatype::Boolean => match parse_bool(value) {
            Some(b) => Some(InfluxValue::Boolean(b)),
            None => None,
        },
        _ => Some(InfluxValue::String(value.to_owned())),
    }
}

/// A tag for an optional attribute: none where the attribute is not known.
pub open spec fn optional_tag(key: Seq<char>, value: Option<Seq<char>>) -> Seq<(Seq<char>, Seq<char>)> {
    match value {
        Some(v) => seq![(key, v)],
        None => Seq::empty(),
    }
}

/// The tags of the point for a property value: the IDs of the device, node and property, then
/// the names of the device, node and property, the unit and the node type, where known.
pub open spec fn point_tags(d: DeviceView, n: NodeView, p: PropertyView) -> Seq<(Seq<char>, Seq<char>)> {
    seq![("device_id"@, d.id), ("node_id"@, n.id), ("property_id"@, p.id)]
        + optional_tag("device_name"@, d.name)
        + optional_tag("node_name"@, n.name)
        + optional_tag("property_name"@, p.name)
        + optional_tag("unit"@, p.unit)
        + optional_tag("node_type"@, n.node_type)
}

/// The fields of the point for a property value: the value, and for a boolean also the value
/// as 1 or 0, which charting tools that cannot show booleans can use.
pub open spec fn point_fields(v: InfluxValueView) -> Seq<(Seq<char>, InfluxValueView)> {
    match v {
        InfluxValueView::Boolean(b) => seq![
            ("value"@, v),
            ("value_int"@, InfluxValueView::Integer(if b { 1 } else { 0 })),
        ],
        _ => seq![("value"@, v)],
    }
}

/// The point for the current value of a property, at the given time: none where the property
/// has no InfluxDB value. It is measured under the name of the property's datatype.
pub open spec fn point_spec(d: DeviceView, n: NodeView, p: PropertyView, timestamp: i64) -> Option<PointView> {
    match (p.datatype, influx_value_spec(p)) {
        (Some(dt), Some(v)) => Some(PointView {
            measurement: dt.spec_as_str(),
            timestamp,
            tags: point_tags(d, n, p),
            fields: point_fields(v),
        }),
        _ => None,
    }
}

/// Adds a tag for an optional attribute, where it is known.
fn push_optional_tag(tags: &mut Vec<(String, String)>, key: &str, value: &Option<String>)
    ensures
        tag_views(final(tags)@) == tag_views(old(tags)@) + optional_tag(key@, crate::text::opt_view(*value)),
{
    match value {
        Some(v) => {
            let ghost before = tags@;
            tags.push((key.to_owned(), v.clone()));
            assert(tag_views(tags@) =~= tag_views(before) + optional_tag(key@, crate::text::opt_view(*value)));
        },
        None => {
            assert(tag_views(tags@) =~= tag_views(tags@) + optional_tag(key@, crate::text::opt_view(*value)));
        },
    }
}

/// Constructs the InfluxDB point for the current value of the given property of the given node
/// of the given device, at the given time in milliseconds since the Unix epoch. There is none
/// where the datatype of the property is unknown or its value does not parse.
pub fn point_for_property_value(device: &Device, node: &Node, property: &Property, timestamp: i64) -> (r: Option<InfluxPoint>)
    ensures
        match r {
            Some(pt) => point_spec(device@, node@, property@, timestamp) == Some(pt@),
            None => point_spec(device@, node@, property@, timestamp) is None,
        },
{
    let datatype = match property.datatype {
        Some(d) => d,
        None => return None,
    };
    let value = match influx_value_for_homie_property(property) {
        Some(v) => v,
        None => return None,
    };
    let mut tags: Vec<(String, String)> = Vec::new();
    tags.push(("device_id".to_owned(), device.id.clone()));
    tags.push(("node_id".to_owned(), node.id.clone()));
    tags.push(("property_id".to_owned(), property.id.clone()));
    proof {
        reveal_strlit("device_id");
        reveal_strlit("node_id");
        reveal_strlit("property_id");
        assert(tag_views(tags@) =~= seq![("device_id"@, device@.id), ("node_id"@, node@.id), ("property_id"@, property@.id)]);
    }
    push_optional_tag(&mut tags, "device_name", &device.name);
    push_optional_tag(&mut tags, "node_name", &node.name);
    push_optional_tag(&mut tags, "property_name", &property.name);
    push_optional_tag(&mut tags, "unit", &property.unit);
    push_optional_tag(&mut tags, "node_type", &node.node_type);
    let mut fields: Vec<(String, InfluxValue)> = Vec::new();
    let flag = match &value {
        InfluxValue::Boolean(b) => Some(*b),
        _ => None,
    };
    fields.push(("value".to_owned(), value));
    if let Some(b) = flag {
        fields.push(("value_int".to_owned(), InfluxValue::Integer(if b { 1 } else { 0 })));
    }
    let ghost v = influx_value_spec(property@)->0;
    assert(field_views(fields@) =~= point_fields(v));
    let pt = InfluxPoint { measurement: datatype.as_str().to_owned(), timestamp, tags, fields };
    assert(pt@.tags == point_tags(device@, node@, property@));
    Some(pt)
}

/// The point for the current value of the property with the given IDs that the controller
/// knows of, at the given time: none where the controller knows no such property, or the
/// property has no InfluxDB value. Where IDs repeat, the first device, node and property with
/// each ID are taken.
pub open spec fn point_for_ids_spec(c: ControllerView, device_id: Seq<char>, node_id: Seq<char>, property_id: Seq<char>, timestamp: i64) -> Option<PointView> {
    let di = find_id(device_ids(c.devices), device_id);
    if di < 0 {
        None
    } else {
        let d = c.devices[di];
        let ni = find_id(node_ids(d.nodes), node_id);
        if ni < 0 {
            None
        } else {
            let n = d.nodes[ni];
            let pi = find_id(property_ids(n.properties), property_id);
            if pi < 0 {
                None
            } else {
                point_spec(d, n, n.properties[pi], timestamp)
            }
        }
    }
}

/// Constructs the InfluxDB point for the current value of the property with the given IDs, as
/// the controller knows it, at the given time in milliseconds since the Unix epoch.
pub fn point_for_property(controller: &HomieController, device_id: &str, node_id: &str, property_id: &str, timestamp: i64) -> (r: Option<InfluxPoint>)
    ensures
        match r {
            Some(pt) => point_for_ids_spec(controller@, device_id@, node_id@, property_id@, timestamp) == Some(pt@),
            None => point_for_ids_spec(controller@, device_id@, node_id@, property_id@, timestamp) is None,
        },
{
    let devices = controller.devices();
    let di = match find_device(devices, device_id) {
        Some(i) => i,
        None => return None,
    };
    let device = &devices[di];
    assert(device_views(devices@)[di as int] == device@);
    let ni = match find_node(&device.nodes, node_id) {
        Some(i) => i,
        None => {
            assert(node_views(device.nodes@) == device@.nodes);
            return None;
        },
    };
    let node = &device.nodes[ni];
    assert(node_views(device.nodes@) == device@.nodes);
    assert(node_views(device.nodes@)[ni as int] == node@);
    let pi = match find_property(&node.properties, property_id) {
        Some(i) => i,
        None => {
            assert(property_views(node.properties@) == node@.properties);
            return None;
        },
    };
    let property = &node.properties[pi];
    assert(property_views(node.properties@) == node@.properties);
    assert(property_views(node.properties@)[pi as int] == property@);
    point_for_property_value(device, node, property, timestamp)
}

} // verus!
