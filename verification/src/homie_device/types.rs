//! Nodes and properties as a Homie device declares them.

use crate::homie_controller::types::Datatype;
use crate::homie_controller::values::{ColorFormat, FloatValue};
use crate::text::{int_str, join_spec, opt_view, push_i64};
use vstd::prelude::*;
use vstd::string::StringExecFns;

verus! {

/// A property of a Homie node, as the device declares it.
#[derive(Clone, Debug, Eq, PartialEq)]
pub struct Property {
    /// The subtopic ID of the property, unique per node.
    pub id: String,
    /// The human-readable name of the property.
    pub name: String,
    /// The data type of the property.
    pub datatype: Datatype,
    /// Whether the property can be set by the controller.
    pub settable: bool,
    /// Whether the property value is retained by the MQTT broker.
    pub retained: bool,
    /// The unit of the property, if any.
    pub unit: Option<String>,
    /// The format of the property, if any.
    pub format: Option<String>,
}

/// A property with its strings taken by their characters.
pub struct PropertyView {
    pub id: Seq<char>,
    pub name: Seq<char>,
    pub datatype: Datatype,
    pub settable: bool,
    pub retained: bool,
    pub unit: Option<Seq<char>>,
    pub format: Option<Seq<char>>,
}

impl View for Property {
    type V = PropertyView;

    open spec fn view(&self) -> PropertyView {
        PropertyView {
            id: self.id@,
            name: self.name@,
            datatype: self.datatype,
            settable: self.settable,
            retained: self.retained,
            unit: opt_view(self.unit),
            format: opt_view(self.format),
        }
    }
}

/// An optional string slice taken by its characters.
pub open spec fn opt_str_view(o: Option<&str>) -> Option<Seq<char>> {
    match o {
        Some(s) => Some(s@),
        None => None,
    }
}

fn owned_opt(o: Option<&str>) -> (r: Option<String>)
    ensures
        opt_view(r) == opt_str_view(o),
{
    match o {
        Some(s) => Some(s.to_owned()),
        None => None,
    }
}

/// The format of an integer property with the given range: "start:end".
pub open spec fn range_format(start: i64, end: i64) -> Seq<char> {
    int_str(start as int) + ":"@ + int_str(end as int)
}

impl Property {
    /// A new property with the given attributes.
    pub fn make(
        id: &str,
        name: &str,
        datatype: Datatype,
        settable: bool,
        retained: bool,
        unit: Option<&str>,
        format: Option<String>,
    ) -> (p: Property)
        ensures
            p@ == (PropertyView {
                id: id@,
                name: name@,
                datatype,
                settable,
                retained,
                unit: opt_str_view(unit),
                format: opt_view(format),
            }),
    {
        Property {
            id: id.to_owned(),
            name: name.to_owned(),
            datatype,
            settable,
            retained,
            unit: owned_opt(unit),
            format,
        }
    }

    /// A new property with any datatype; the format is not checked.
    pub fn new(
        id: &str,
        name: &str,
        datatype: Datatype,
        settable: bool,
        retained: bool,
        unit: Option<&str>,
        format: Option<&str>,
    ) -> (p: Property)
        ensures
            p@ == (PropertyView {
                id: id@,
                name: name@,
                datatype,
                settable,
                retained,
                unit: opt_str_view(unit),
                format: opt_str_view(format),
            }),
    {
        Property::make(id, name, datatype, settable, retained, unit, owned_opt(format))
    }

    /// A new integer property, whose format is its range "start:end" when one is given.
    pub fn integer(
        id: &str,
        name: &str,
        settable: bool,
        retained: bool,
        unit: Option<&str>,
        format: Option<std::ops::Range<i64>>,
    ) -> (p: Property)
        ensures
            p@ == (PropertyView {
                id: id@,
                name: name@,
                datatype: Datatype::Integer,
                settable,
                retained,
                unit: opt_str_view(unit),
                format: match format {
                    Some(r) => Some(range_format(r.start, r.end)),
                    None => None,
                },
            }),
    {
        let format = match format {
            Some(r) => {
                let mut s = String::new();
                push_i64(&mut s, r.start);
                s.append(":");
                push_i64(&mut s, r.end);
                Some(s)
            },
            None => None,
        };
        Property::make(id, name, Datatype::Integer, settable, retained, unit, format)
    }

    /// A new floating-point property, whose format is its range "start:end" when one is given,
    /// each bound written as its decimal text.
    pub fn float(
        id: &str,
        name: &str,
        settable: bool,
        retained: bool,
        unit: Option<&str>,
        format: Option<std::ops::Range<FloatValue>>,
    ) -> (p: Property)
        ensures
            p@ == (PropertyView {
                id: id@,
                name: name@,
                datatype: Datatype::Float,
                settable,
                retained,
                unit: opt_str_view(unit),
                format: match format {
                    Some(r) => Some(r.start@ + ":"@ + r.end@),
                    None => None,
                },
            }),
    {
        let format = match &format {
            Some(r) => {
                let mut s = String::new();
                s.append(r.start.as_str());
                s.append(":");
                s.append(r.end.as_str());
                Some(s)
            },
            None => None,
        };
        Property::make(id, name, Datatype::Float, settable, retained, unit, format)
    }

    /// A new boolean property.
    pub fn boolean(id: &str, name: &str, settable: bool, retained: bool, unit: Option<&str>) -> (p: Property)
        ensures
            p@ == (PropertyView {
                id: id@,
                name: name@,
                datatype: Datatype::Boolean,
                settable,
                retained,
                unit: opt_str_view(unit),
                format: None,
            }),
    {
        Property::make(id, name, Datatype::Boolean, settable, retained, unit, None)
    }

    /// A new string property.
    pub fn string(id: &str, name: &str, settable: bool, retained: bool, unit: Option<&str>) -> (p: Property)
        ensures
            p@ == (PropertyView {
                id: id@,
                name: name@,
                datatype: Datatype::String,
                settable,
                retained,
                unit: opt_str_view(unit),
                format: None,
            }),
    {
        Property::make(id, name, Datatype::String, settable, retained, unit, None)
    }

    /// A new enum property, whose format is its possible values separated by ','.
    pub fn enumeration(
        id: &str,
        name: &str,
        settable: bool,
        retained: bool,
        unit: Option<&str>,
        format: &[&str],
    ) -> (p: Property)
        ensures
            p@ == (PropertyView {
                id: id@,
                name: name@,
                datatype: Datatype::Enum,
                settable,
                retained,
                unit: opt_str_view(unit),
                format: Some(join_spec(format@.map_values(|v: &str| v@), ',')),
            }),
    {
        let joined = crate::text::join_strs(format, ',');
        Property::make(id, name, Datatype::Enum, settable, retained, unit, Some(joined))
    }

    /// A new colour property, whose format is the colour format.
    pub fn color(
        id: &str,
        name: &str,
        settable: bool,
        retained: bool,
        unit: Option<&str>,
        format: ColorFormat,
    ) -> (p: Property)
        ensures
            p@ == (PropertyView {
                id: id@,
                name: name@,
                datatype: Datatype::Color,
                settable,
                retained,
                unit: opt_str_view(unit),
                format: Some(format.spec_as_str()),
            }),
    {
        Property::make(id, name, Datatype::Color, settable, retained, unit, Some(format.to_string()))
    }
}

/// A node of a Homie device, as the device declares it.
#[derive(Clone, Debug, Eq, PartialEq)]
pub struct Node {
    /// The subtopic ID of the node, unique per device.
    pub id: String,
    /// The human-readable name of the node.
    pub name: String,
    /// The type of the node.
    pub node_type: String,
    /// The properties of the node. There should be at least one.
    pub properties: Vec<Property>,
}

impl Node {
    /// A new node with the given attributes and properties.
    pub fn new(id: &str, name: &str, node_type: &str, properties: Vec<Property>) -> (n: Node)
        ensures
            n.id@ == id@,
            n.name@ == name@,
            n.node_type@ == node_type@,
            n.properties == properties,
    {
        Node { id: id.to_owned(), name: name.to_owned(), node_type: node_type.to_owned(), properties }
    }
}

} // verus!
