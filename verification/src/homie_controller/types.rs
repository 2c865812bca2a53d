//! The model of Homie devices, nodes and properties as the controller discovers them.

use super::values::{valid_for, valid_for_spec, ColorFormat, EnumValue, Value, ValueError, ValueErrorView};
use crate::text::{opt_view, split_spec, split_str, splitn2_spec, splitn2_str, str_eq};
use vstd::prelude::*;

verus! {

/// The state of a Homie device according to the Homie device lifecycle.
#[derive(Clone, Copy, Debug, Eq, PartialEq, Structural)]
pub enum State {
    /// Not yet known, because device discovery is still underway.
    Unknown,
    /// Connected to the MQTT broker but not yet ready to operate.
    Init,
    /// Connected and operational.
    Ready,
    /// Cleanly disconnected from the MQTT broker.
    Disconnected,
    /// Sleeping.
    Sleeping,
    /// Uncleanly disconnected from the MQTT broker.
    Lost,
    /// Connected, but something is wrong and it may require human intervention.
    Alert,
}

impl State {
    pub open spec fn spec_as_str(self) -> Seq<char> {
        match self {
            State::Unknown => "unknown"@,
            State::Init => "init"@,
            State::Ready => "ready"@,
            State::Disconnected => "disconnected"@,
            State::Sleeping => "sleeping"@,
            State::Lost => "lost"@,
            State::Alert => "alert"@,
        }
    }

    /// The state as it is written in the `$state` attribute.
    pub fn as_str(&self) -> (s: &'static str)
        ensures
            s@ == self.spec_as_str(),
    {
        match self {
            State::Unknown => "unknown",
            State::Init => "init",
            State::Ready => "ready",
            State::Disconnected => "disconnected",
            State::Sleeping => "sleeping",
            State::Lost => "lost",
            State::Alert => "alert",
        }
    }

    /// The state that a `$state` payload names, if any; "unknown" is never sent by a device.
    pub open spec fn spec_from_str(s: Seq<char>) -> Option<State> {
        if s == "init"@ {
            Some(State::Init)
        } else if s == "ready"@ {
            Some(State::Ready)
        } else if s == "disconnected"@ {
            Some(State::Disconnected)
        } else if s == "sleeping"@ {
            Some(State::Sleeping)
        } else if s == "lost"@ {
            Some(State::Lost)
        } else if s == "alert"@ {
            Some(State::Alert)
        } else {
            None
        }
    }

    /// Parses a `$state` payload.
    pub fn from_text(s: &str) -> (r: Result<State, ParseStateError>)
        ensures
            match r {
                Ok(st) => Self::spec_from_str(s@) == Some(st),
                Err(e) => Self::spec_from_str(s@) is None && e.0@ == s@,
            },
    {
        if str_eq(s, "init") {
            Ok(State::Init)
        } else if str_eq(s, "ready") {
            Ok(State::Ready)
        } else if str_eq(s, "disconnected") {
            Ok(State::Disconnected)
        } else if str_eq(s, "sleeping") {
            Ok(State::Sleeping)
        } else if str_eq(s, "lost") {
            Ok(State::Lost)
        } else if str_eq(s, "alert") {
            Ok(State::Alert)
        } else {
            Err(ParseStateError(s.to_owned()))
        }
    }
}

impl std::str::FromStr for State {
    type Err = ParseStateError;

    fn from_str(s: &str) -> (r: Result<State, ParseStateError>)
        ensures
            match r {
                Ok(st) => State::spec_from_str(s@) == Some(st),
                Err(e) => State::spec_from_str(s@) is None && e.0@ == s@,
            },
    {
        State::from_text(s)
    }
}

/// The error for a string that is not a valid Homie device lifecycle state.
#[derive(Clone, Debug, Eq, PartialEq)]
pub struct ParseStateError(pub String);

/// The data type of a Homie property.
#[derive(Clone, Copy, Debug, Eq, PartialEq, Structural)]
pub enum Datatype {
    Integer,
    Float,
    Boolean,
    String,
    Enum,
    Color,
}

impl Datatype {
    pub open spec fn spec_as_str(self) -> Seq<char> {
        match self {
            Datatype::Integer => "integer"@,
            Datatype::Float => "float"@,
            Datatype::Boolean => "boolean"@,
            Datatype::String => "string"@,
            Datatype::Enum => "enum"@,
            Datatype::Color => "color"@,
        }
    }

    /// The datatype as it is written in the `$datatype` attribute.
    pub fn as_str(&self) -> (s: &'static str)
        ensures
            s@ == self.spec_as_str(),
    {
        match self {
            Datatype::Integer => "integer",
            Datatype::Float => "float",
            Datatype::Boolean => "boolean",
            Datatype::String => "string",
            Datatype::Enum => "enum",
            Datatype::Color => "color",
        }
    }

    /// The datatype that a `$datatype` payload names, if any.
    pub open spec fn spec_from_str(s: Seq<char>) -> Option<Datatype> {
        if s == "integer"@ {
            Some(Datatype::Integer)
        } else if s == "float"@ {
            Some(Datatype::Float)
        } else if s == "boolean"@ {
            Some(Datatype::Boolean)
        } else if s == "string"@ {
            Some(Datatype::String)
        } else if s == "enum"@ {
            Some(Datatype::Enum)
        } else if s == "color"@ {
            Some(Datatype::Color)
        } else {
            None
        }
    }

    /// Parses a `$datatype` payload.
    pub fn from_text(s: &str) -> (r: Result<Datatype, ParseDatatypeError>)
        ensures
            match r {
                Ok(d) => Self::spec_from_str(s@) == Some(d),
                Err(e) => Self::spec_from_str(s@) is None && e.0@ == s@,
            },
    {
        if str_eq(s, "integer") {
            Ok(Datatype::Integer)
        } else if str_eq(s, "float") {
            Ok(Datatype::Float)
        } else if str_eq(s, "boolean") {
            Ok(Datatype::Boolean)
        } else if str_eq(s, "string") {
            Ok(Datatype::String)
        } else if str_eq(s, "enum") {
            Ok(Datatype::Enum)
        } else if str_eq(s, "color") {
            Ok(Datatype::Color)
        } else {
            Err(ParseDatatypeError(s.to_owned()))
        }
    }
}

impl std::str::FromStr for Datatype {
    type Err = ParseDatatypeError;

    fn from_str(s: &str) -> (r: Result<Datatype, ParseDatatypeError>)
        ensures
            match r {
                Ok(d) => Datatype::spec_from_str(s@) == Some(d),
                Err(e) => Datatype::spec_from_str(s@) is None && e.0@ == s@,
            },
    {
        Datatype::from_text(s)
    }
}

/// The error for a string that is not a valid Homie `$datatype`.
#[derive(Clone, Debug, Eq, PartialEq)]
pub struct ParseDatatypeError(pub String);

/// A property of a Homie node. The `id`, `name` and `datatype` are required, but might not be
/// known as soon as the property is discovered; the other attributes are optional.
#[derive(Clone, Debug, Eq, PartialEq)]
pub struct Property {
    /// The subtopic ID of the property, unique per node.
    pub id: String,
    /// The human-readable name of the property.
    pub name: Option<String>,
    /// The data type of the property.
    pub datatype: Option<Datatype>,
    /// Whether the property can be set by the controller. False by default.
    pub settable: bool,
    /// Whether the property value is retained by the MQTT broker. True by default.
    pub retained: bool,
    /// The unit of the property, if any.
    pub unit: Option<String>,
    /// The format of the property, if any.
    pub format: Option<String>,
    /// The current value of the property, if known.
    pub value: Option<String>,
}

/// A property with its strings taken by their characters.
pub struct PropertyView {
    pub id: Seq<char>,
    pub name: Option<Seq<char>>,
    pub datatype: Option<Datatype>,
    pub settable: bool,
    pub retained: bool,
    pub unit: Option<Seq<char>>,
    pub format: Option<Seq<char>>,
    pub value: Option<Seq<char>>,
}

impl View for Property {
    type V = PropertyView;

    open spec fn view(&self) -> PropertyView {
        PropertyView {
            id: self.id@,
            name: opt_view(self.name),
            datatype: self.datatype,
            settable: self.settable,
            retained: self.retained,
            unit: opt_view(self.unit),
            format: opt_view(self.format),
            value: opt_view(self.value),
        }
    }
}

/// What reading the value of a property as type `T` gives.
pub open spec fn value_spec<T: Value>(p: PropertyView) -> Result<T::V, ValueErrorView> {
    match valid_for_spec::<T>(p.datatype, p.format) {
        Some(e) => Err(e),
        None => match p.value {
            None => Err(ValueErrorView::Unknown),
            Some(v) => match T::spec_parse(v) {
                Some(x) => Ok(x),
                None => Err(ValueErrorView::ParseFailed { value: v, datatype: T::spec_datatype() }),
            },
        },
    }
}

/// What reading the colour format of a property gives.
pub open spec fn color_format_spec(p: PropertyView) -> Result<ColorFormat, ValueErrorView> {
    match p.datatype {
        Some(actual) if actual != super::types::Datatype::Color =>
            Err(ValueErrorView::WrongDatatype { expected: super::types::Datatype::Color, actual }),
        _ => match p.format {
            None => Err(ValueErrorView::Unknown),
            Some(f) => match ColorFormat::spec_from_str(f) {
                Some(c) => Ok(c),
                None => Err(ValueErrorView::WrongFormat { format: f }),
            },
        },
    }
}

/// What reading the possible values of an enum property gives: its format split on ','.
pub open spec fn enum_values_spec(p: PropertyView) -> Result<Seq<Seq<char>>, ValueErrorView> {
    match valid_for_spec::<EnumValue>(p.datatype, p.format) {
        Some(e) => Err(e),
        None => match p.format {
            None => Err(ValueErrorView::Unknown),
            Some(f) => if f.len() == 0 {
                Err(ValueErrorView::WrongFormat { format: f })
            } else {
                Ok(split_spec(f, ','))
            },
        },
    }
}

/// What reading the range of a numeric property as type `T` gives: its format is "start:end",
/// both parsing as `T`.
pub open spec fn range_spec<T: Value>(p: PropertyView) -> Result<(T::V, T::V), ValueErrorView> {
    match valid_for_spec::<T>(p.datatype, p.format) {
        Some(e) => Err(e),
        None => match p.format {
            None => Err(ValueErrorView::Unknown),
            Some(f) => {
                let parts = splitn2_spec(f, ':');
                if parts.len() == 2 && T::spec_parse(parts[0]) is Some && T::spec_parse(parts[1]) is Some {
                    Ok((T::spec_parse(parts[0])->0, T::spec_parse(parts[1])->0))
                } else {
                    Err(ValueErrorView::WrongFormat { format: f })
                }
            },
        },
    }
}

impl Property {
    /// A new property with the given ID and no other attributes known: not settable, retained.
    pub fn new(id: &str) -> (p: Property)
        ensures
            p@ == (PropertyView {
                id: id@,
                name: None,
                datatype: None,
                settable: false,
                retained: true,
                unit: None,
                format: None,
                value: None,
            }),
    {
        Property {
            id: id.to_owned(),
            name: None,
            datatype: None,
            settable: false,
            retained: true,
            unit: None,
            format: None,
            value: None,
        }
    }

    /// Whether the required attributes of the property (name and datatype) are known.
    pub open spec fn spec_has_required_attributes(self) -> bool {
        self.name is Some && self.datatype is Some
    }

    /// Whether the required attributes of the property (name and datatype) are known.
    pub fn has_required_attributes(&self) -> (b: bool)
        ensures
            b == self.spec_has_required_attributes(),
    {
        self.name.is_some() && self.datatype.is_some()
    }

    /// The value of the property as type `T`: an error if the datatype or format are known
    /// and do not fit `T`, if the value is unknown, or if it does not parse.
    pub fn value<T: Value>(&self) -> (r: Result<T, ValueError>)
        ensures
            match r {
                Ok(v) => value_spec::<T>(self@) == Ok::<T::V, ValueErrorView>(v@),
                Err(e) => value_spec::<T>(self@) == Err::<T::V, ValueErrorView>(e@),
            },
    {
        match valid_for::<T>(self.datatype, &self.format) {
            Ok(()) => {},
            Err(e) => return Err(e),
        }
        match &self.value {
            None => Err(ValueError::Unknown),
            Some(value) => match T::parse_value(value.as_str()) {
                Some(v) => Ok(v),
                None => Err(ValueError::ParseFailed { value: value.clone(), datatype: T::datatype() }),
            },
        }
    }

    /// The colour format of a colour property: an error if the datatype is known and is not
    /// colour, if the format is unknown, or if it is neither "rgb" nor "hsv".
    pub fn color_format(&self) -> (r: Result<ColorFormat, ValueError>)
        ensures
            match r {
                Ok(c) => color_format_spec(self@) == Ok::<ColorFormat, ValueErrorView>(c),
                Err(e) => color_format_spec(self@) == Err::<ColorFormat, ValueErrorView>(e@),
            },
    {
        if let Some(actual) = self.datatype {
            if actual != Datatype::Color {
                return Err(ValueError::WrongDatatype { expected: Datatype::Color, actual });
            }
        }
        match &self.format {
            None => Err(ValueError::Unknown),
            Some(format) => ColorFormat::from_text(format.as_str()),
        }
    }

    /// The possible values of an enum property: its format split on ','. An error if the
    /// datatype is known and is not enum, or if the format is unknown or empty.
    pub fn enum_values(&self) -> (r: Result<Vec<&str>, ValueError>)
        ensures
            match r {
                Ok(v) => enum_values_spec(self@) is Ok && v@.len() == enum_values_spec(self@)->Ok_0.len()
                    && forall|i: int| 0 <= i < v@.len() ==> #[trigger] v@[i]@ == enum_values_spec(self@)->Ok_0[i],
                Err(e) => enum_values_spec(self@) == Err::<Seq<Seq<char>>, ValueErrorView>(e@),
            },
    {
        match valid_for::<EnumValue>(self.datatype, &self.format) {
            Ok(()) => {},
            Err(e) => return Err(e),
        }
        match &self.format {
            None => Err(ValueError::Unknown),
            Some(format) => {
                if format.as_str().is_empty() {
                    Err(ValueError::WrongFormat { format: format.clone() })
                } else {
                    Ok(split_str(format.as_str(), ','))
                }
            },
        }
    }

    /// The range of a numeric property, from its format "start:end". An error if the datatype
    /// is known and does not fit `T`, if the format is unknown, or if it is not two values of
    /// `T` separated by ':'.
    pub fn range<T: Value>(&self) -> (r: Result<std::ops::RangeInclusive<T>, ValueError>)
        ensures
            match r {
                Ok(rg) => range_spec::<T>(self@) == Ok::<(T::V, T::V), ValueErrorView>((rg@.start@, rg@.end@)) && !rg@.exhausted,
                Err(e) => range_spec::<T>(self@) == Err::<(T::V, T::V), ValueErrorView>(e@),
            },
    {
        match valid_for::<T>(self.datatype, &self.format) {
            Ok(()) => {},
            Err(e) => return Err(e),
        }
        match &self.format {
            None => Err(ValueError::Unknown),
            Some(format) => {
                let parts = splitn2_str(format.as_str(), ':');
                if parts.len() == 2 {
                    match (T::parse_value(parts[0]), T::parse_value(parts[1])) {
                        (Some(start), Some(end)) => Ok(std::ops::RangeInclusive::new(start, end)),
                        _ => Err(ValueError::WrongFormat { format: format.clone() }),
                    }
                } else {
                    Err(ValueError::WrongFormat { format: format.clone() })
                }
            },
        }
    }
}

/// A node of a Homie device. All attributes are required, but might not be known as soon as
/// the node is discovered.
#[derive(Clone, Debug, Eq, PartialEq)]
pub struct Node {
    /// The subtopic ID of the node, unique per device.
    pub id: String,
    /// The human-readable name of the node.
    pub name: Option<String>,
    /// The type of the node.
    pub node_type: Option<String>,
    /// The properties of the node, each with a different ID.
    pub properties: Vec<Property>,
}

/// Whether no two properties have the same ID.
pub open spec fn property_ids_unique(ps: Seq<Property>) -> bool {
    forall|i: int, j: int| 0 <= i < ps.len() && 0 <= j < ps.len() && i != j ==> ps[i].id@ != ps[j].id@
}

/// The properties as a map from ID to property.
pub open spec fn property_map(ps: Seq<Property>) -> Map<Seq<char>, PropertyView>
    decreases ps.len(),
{
    if ps.len() == 0 {
        Map::empty()
    } else {
        property_map(ps.drop_last()).insert(ps.last().id@, ps.last()@)
    }
}

/// A node with its strings taken by their characters.
pub struct NodeView {
    pub id: Seq<char>,
    pub name: Option<Seq<char>>,
    pub node_type: Option<Seq<char>>,
    pub properties: Seq<PropertyView>,
}

impl View for Node {
    type V = NodeView;

    open spec fn view(&self) -> NodeView {
        NodeView {
            id: self.id@,
            name: opt_view(self.name),
            node_type: opt_view(self.node_type),
            properties: self.properties@.map_values(|p: Property| p@),
        }
    }
}

/// Whether the required attributes of a property are known.
pub open spec fn property_complete(p: PropertyView) -> bool {
    p.name is Some && p.datatype is Some
}

/// Whether the required attributes of a node and of all its properties are known, and it has
/// at least one property.
pub open spec fn node_complete(n: NodeView) -> bool {
    &&& n.name is Some
    &&& n.node_type is Some
    &&& n.properties.len() > 0
    &&& forall|i: int| 0 <= i < n.properties.len() ==> property_complete(#[trigger] n.properties[i])
}

impl Node {
    /// A new node with the given ID and no other attributes or properties known.
    pub fn new(id: &str) -> (n: Node)
        ensures
            n.id@ == id@,
            n.name is None,
            n.node_type is None,
            n.properties@.len() == 0,
    {
        Node { id: id.to_owned(), name: None, node_type: None, properties: Vec::new() }
    }

    /// The property with the given ID, if any.
    pub fn property(&self, id: &str) -> (r: Option<&Property>)
        ensures
            match r {
                Some(p) => exists|i: int| 0 <= i < self.properties@.len() && self.properties@[i] == *p && p.id@ == id@,
                None => forall|i: int| 0 <= i < self.properties@.len() ==> self.properties@[i].id@ != id@,
            },
    {
        let mut i: usize = 0;
        while i < self.properties.len()
            invariant
                i <= self.properties@.len(),
                forall|j: int| 0 <= j < i ==> self.properties@[j].id@ != id@,
            decreases self.properties@.len() - i,
        {
            if str_eq(self.properties[i].id.as_str(), id) {
                return Some(&self.properties[i]);
            }
            i = i + 1;
        }
        None
    }

    /// Adds the given property to the node, replacing any with the same ID.
    pub fn add_property(&mut self, property: Property)
        requires
            property_ids_unique(old(self).properties@),
        ensures
            property_ids_unique(final(self).properties@),
            final(self).id == old(self).id,
            final(self).name == old(self).name,
            final(self).node_type == old(self).node_type,
            property_map(final(self).properties@) == property_map(old(self).properties@).insert(property.id@, property@),
    {
        let mut i: usize = 0;
        while i < self.properties.len()
            invariant
                i <= self.properties@.len(),
                self.properties@ == old(self).properties@,
                self.id == old(self).id,
                self.name == old(self).name,
                self.node_type == old(self).node_type,
                property_ids_unique(self.properties@),
                forall|j: int| 0 <= j < i ==> self.properties@[j].id@ != property.id@,
            decreases self.properties@.len() - i,
        {
            if str_eq(self.properties[i].id.as_str(), property.id.as_str()) {
                let ghost old_ps = self.properties@;
                self.properties.set(i, property);
                proof { lemma_property_map_update(old_ps, i as int, property); }
                return;
            }
            i = i + 1;
        }
        let ghost old_ps = self.properties@;
        self.properties.push(property);
        assert(self.properties@.drop_last() =~= old_ps);
    }

    /// Whether the required attributes of the node (name and type) are known, it has at least
    /// one property, and the required attributes of all its properties are known.
    pub open spec fn spec_has_required_attributes(self) -> bool {
        &&& self.name is Some
        &&& self.node_type is Some
        &&& self.properties@.len() > 0
        &&& forall|i: int| 0 <= i < self.properties@.len() ==> (#[trigger] self.properties@[i]).spec_has_required_attributes()
    }

    /// Whether the required attributes of the node and of all its properties are known.
    pub fn has_required_attributes(&self) -> (b: bool)
        ensures
            b == self.spec_has_required_attributes(),
            b == node_complete(self@),
    {
        proof {
            assert forall|i: int| 0 <= i < self.properties@.len() implies
                (#[trigger] self.properties@[i]).spec_has_required_attributes() == property_complete(self@.properties[i]) by {}
        }
        if self.name.is_none() || self.node_type.is_none() || self.properties.len() == 0 {
            return false;
        }
        let mut i: usize = 0;
        while i < self.properties.len()
            invariant
                i <= self.properties@.len(),
                self.name is Some,
                self.node_type is Some,
                self.properties@.len() > 0,
                forall|j: int| 0 <= j < i ==> (#[trigger] self.properties@[j]).spec_has_required_attributes(),
            decreases self.properties@.len() - i,
        {
            if !self.properties[i].has_required_attributes() {
                assert(self@.properties[i as int] == self.properties@[i as int]@);
                return false;
            }
            i = i + 1;
        }
        assert forall|j: int| 0 <= j < self@.properties.len() implies property_complete(#[trigger] self@.properties[j]) by {
            assert(self@.properties[j] == self.properties@[j]@);
            assert(self.properties@[j].spec_has_required_attributes());
        }
        true
    }
}

/// Replacing the property at `i` with one of the same ID keeps the IDs unique and updates the
/// map at that ID.
proof fn lemma_property_map_update(ps: Seq<Property>, i: int, p: Property)
    requires
        property_ids_unique(ps),
        0 <= i < ps.len(),
        ps[i].id@ == p.id@,
    ensures
        property_ids_unique(ps.update(i, p)),
        property_map(ps.update(i, p)) == property_map(ps).insert(p.id@, p@),
    decreases ps.len(),
{
    let q = ps.update(i, p);
    if i == ps.len() - 1 {
        assert(q.drop_last() =~= ps.drop_last());
        assert(property_map(q) =~= property_map(ps).insert(p.id@, p@));
    } else {
        let t = ps.drop_last();
        assert(property_ids_unique(t));
        lemma_property_map_update(t, i, p);
        assert(q.drop_last() =~= t.update(i, p));
        assert(ps.last().id@ != p.id@);
        assert(property_map(q) =~= property_map(ps).insert(p.id@, p@));
    }
}

/// Whether no two nodes have the same ID.
pub open spec fn node_ids_unique(ns: Seq<Node>) -> bool {
    forall|i: int, j: int| 0 <= i < ns.len() && 0 <= j < ns.len() && i != j ==> ns[i].id@ != ns[j].id@
}

/// The nodes as a map from ID to node.
pub open spec fn node_map(ns: Seq<Node>) -> Map<Seq<char>, NodeView>
    decreases ns.len(),
{
    if ns.len() == 0 {
        Map::empty()
    } else {
        node_map(ns.drop_last()).insert(ns.last().id@, ns.last()@)
    }
}

/// Replacing the node at `i` with one of the same ID keeps the IDs unique and updates the map
/// at that ID.
proof fn lemma_node_map_update(ns: Seq<Node>, i: int, n: Node)
    requires
        node_ids_unique(ns),
        0 <= i < ns.len(),
        ns[i].id@ == n.id@,
    ensures
        node_ids_unique(ns.update(i, n)),
        node_map(ns.update(i, n)) == node_map(ns).insert(n.id@, n@),
    decreases ns.len(),
{
    let q = ns.update(i, n);
    if i == ns.len() - 1 {
        assert(q.drop_last() =~= ns.drop_last());
        assert(node_map(q) =~= node_map(ns).insert(n.id@, n@));
    } else {
        let t = ns.drop_last();
        assert(node_ids_unique(t));
        lemma_node_map_update(t, i, n);
        assert(q.drop_last() =~= t.update(i, n));
        assert(ns.last().id@ != n.id@);
        assert(node_map(q) =~= node_map(ns).insert(n.id@, n@));
    }
}

/// A Homie extension supported by a device.
#[derive(Clone, Debug, Eq, PartialEq)]
pub struct Extension {
    /// The identifier of the extension.
    pub id: String,
    /// The version of the extension.
    pub version: String,
    /// The versions of the Homie convention which the extension supports.
    pub homie_versions: Vec<String>,
}

/// The error for a string that is not a valid extension.
#[derive(Clone, Debug, Eq, PartialEq)]
pub struct ParseExtensionError(pub String);

/// What parsing an extension gives: "id:version:[v1;v2;...]", exactly three parts separated
/// by ':', the last in square brackets holding the Homie versions separated by ';'.
pub open spec fn extension_spec(s: Seq<char>) -> Option<(Seq<char>, Seq<char>, Seq<Seq<char>>)> {
    let parts = split_spec(s, ':');
    if parts.len() == 3 && parts[2].len() >= 2 && parts[2][0] == '[' && parts[2].last() == ']' {
        Some((parts[0], parts[1], split_spec(parts[2].subrange(1, parts[2].len() - 1), ';')))
    } else {
        None
    }
}

impl Extension {
    /// Parses an extension, as in a device's `$extensions` attribute.
    pub fn from_text(s: &str) -> (r: Result<Extension, ParseExtensionError>)
        ensures
            match r {
                Ok(e) => extension_spec(s@) matches Some((id, version, vs)) && e.id@ == id && e.version@ == version
                    && e.homie_versions@.len() == vs.len()
                    && forall|i: int| 0 <= i < vs.len() ==> #[trigger] e.homie_versions@[i]@ == vs[i],
                Err(err) => extension_spec(s@) is None && err.0@ == s@,
            },
    {
        let parts = split_str(s, ':');
        if parts.len() == 3 {
            let last = parts[2];
            let n = crate::text::StrLen::char_len(last);
            if n >= 2 && last.get_char(0) == '[' && last.get_char(n - 1) == ']' {
                let inner = last.substring_char(1, n - 1);
                let versions = split_str(inner, ';');
                let mut homie_versions: Vec<String> = Vec::new();
                let mut i: usize = 0;
                while i < versions.len()
                    invariant
                        i <= versions@.len(),
                        homie_versions@.len() == i,
                        forall|j: int| 0 <= j < i ==> #[trigger] homie_versions@[j]@ == versions@[j]@,
                    decreases versions@.len() - i,
                {
                    homie_versions.push(versions[i].to_owned());
                    i = i + 1;
                }
                return Ok(Extension { id: parts[0].to_owned(), version: parts[1].to_owned(), homie_versions });
            }
        }
        Err(ParseExtensionError(s.to_owned()))
    }
}

impl std::str::FromStr for Extension {
    type Err = ParseExtensionError;

    fn from_str(s: &str) -> (r: Result<Extension, ParseExtensionError>)
        ensures
            match r {
                Ok(e) => extension_spec(s@) matches Some((id, version, vs)) && e.id@ == id && e.version@ == version
                    && e.homie_versions@.len() == vs.len()
                    && forall|i: int| 0 <= i < vs.len() ==> #[trigger] e.homie_versions@[i]@ == vs[i],
                Err(err) => extension_spec(s@) is None && err.0@ == s@,
            },
    {
        Extension::from_text(s)
    }
}

/// An extension with its strings taken by their characters.
pub struct ExtensionView {
    pub id: Seq<char>,
    pub version: Seq<char>,
    pub homie_versions: Seq<Seq<char>>,
}

impl View for Extension {
    type V = ExtensionView;

    open spec fn view(&self) -> ExtensionView {
        ExtensionView {
            id: self.id@,
            version: self.version@,
            homie_versions: self.homie_versions@.map_values(|v: String| v@),
        }
    }
}

/// A Homie device which has been discovered. The `id`, `homie_version`, `name` and `state`
/// are required, but might not be known as soon as the device is discovered. Statistics that
/// are floating-point numbers are kept as the text that the device sent.
#[derive(Clone, Debug, Eq, PartialEq)]
pub struct Device {
    /// The subtopic ID of the device, unique per Homie base topic.
    pub id: String,
    /// The version of the Homie convention which the device implements.
    pub homie_version: String,
    /// The human-readable name of the device.
    pub name: Option<String>,
    /// The current state of the device.
    pub state: State,
    /// An identifier for the Homie implementation which the device uses.
    pub implementation: Option<String>,
    /// The nodes of the device, each with a different ID.
    pub nodes: Vec<Node>,
    /// The Homie extensions implemented by the device.
    pub extensions: Vec<Extension>,
    /// The IP address of the device on the local network.
    pub local_ip: Option<String>,
    /// The MAC address of the device's network interface.
    pub mac: Option<String>,
    /// The name of the firmware running on the device.
    pub firmware_name: Option<String>,
    /// The version of the firmware running on the device.
    pub firmware_version: Option<String>,
    /// The interval at which the device refreshes its stats, in seconds.
    pub stats_interval: Option<u64>,
    /// The time since the device booted, in seconds.
    pub stats_uptime: Option<u64>,
    /// The device's signal strength in %.
    pub stats_signal: Option<i64>,
    /// The device's CPU temperature in °C, as the decimal number the device sent.
    pub stats_cputemp: Option<String>,
    /// The device's CPU load in %.
    pub stats_cpuload: Option<i64>,
    /// The device's battery level in %.
    pub stats_battery: Option<i64>,
    /// The device's free heap space in bytes.
    pub stats_freeheap: Option<u64>,
    /// The device's power supply voltage in volts, as the decimal number the device sent.
    pub stats_supply: Option<String>,
}

/// A device with its strings taken by their characters.
pub struct DeviceView {
    pub id: Seq<char>,
    pub homie_version: Seq<char>,
    pub name: Option<Seq<char>>,
    pub state: State,
    pub implementation: Option<Seq<char>>,
    pub nodes: Seq<NodeView>,
    pub extensions: Seq<ExtensionView>,
    pub local_ip: Option<Seq<char>>,
    pub mac: Option<Seq<char>>,
    pub firmware_name: Option<Seq<char>>,
    pub firmware_version: Option<Seq<char>>,
    pub stats_interval: Option<u64>,
    pub stats_uptime: Option<u64>,
    pub stats_signal: Option<i64>,
    pub stats_cputemp: Option<Seq<char>>,
    pub stats_cpuload: Option<i64>,
    pub stats_battery: Option<i64>,
    pub stats_freeheap: Option<u64>,
    pub stats_supply: Option<Seq<char>>,
}

impl View for Device {
    type V = DeviceView;

    open spec fn view(&self) -> DeviceView {
        DeviceView {
            id: self.id@,
            homie_version: self.homie_version@,
            name: opt_view(self.name),
            state: self.state,
            implementation: opt_view(self.implementation),
            nodes: self.nodes@.map_values(|n: Node| n@),
            extensions: self.extensions@.map_values(|e: Extension| e@),
            local_ip: opt_view(self.local_ip),
            mac: opt_view(self.mac),
            firmware_name: opt_view(self.firmware_name),
            firmware_version: opt_view(self.firmware_version),
            stats_interval: self.stats_interval,
            stats_uptime: self.stats_uptime,
            stats_signal: self.stats_signal,
            stats_cputemp: opt_view(self.stats_cputemp),
            stats_cpuload: self.stats_cpuload,
            stats_battery: self.stats_battery,
            stats_freeheap: self.stats_freeheap,
            stats_supply: opt_view(self.stats_supply),
        }
    }
}

/// A newly discovered device: only its ID and Homie version known, in the unknown state.
pub open spec fn new_device_view(id: Seq<char>, homie_version: Seq<char>) -> DeviceView {
    DeviceView {
        id,
        homie_version,
        name: None,
        state: State::Unknown,
        implementation: None,
        nodes: Seq::empty(),
        extensions: Seq::empty(),
        local_ip: None,
        mac: None,
        firmware_name: None,
        firmware_version: None,
        stats_interval: None,
        stats_uptime: None,
        stats_signal: None,
        stats_cputemp: None,
        stats_cpuload: None,
        stats_battery: None,
        stats_freeheap: None,
        stats_supply: None,
    }
}

/// Whether the required attributes of a device (name and a known state) and of all its nodes
/// and their properties are known.
pub open spec fn device_complete(d: DeviceView) -> bool {
    &&& d.name is Some
    &&& d.state != State::Unknown
    &&& forall|i: int| 0 <= i < d.nodes.len() ==> node_complete(#[trigger] d.nodes[i])
}

impl Device {
    /// A new device with the given ID and Homie version, and nothing else known yet.
    pub fn new(id: &str, homie_version: &str) -> (d: Device)
        ensures
            d@ == new_device_view(id@, homie_version@),
    {
        let d = Device {
            id: id.to_owned(),
            homie_version: homie_version.to_owned(),
            name: None,
            state: State::Unknown,
            implementation: None,
            nodes: Vec::new(),
            extensions: Vec::new(),
            local_ip: None,
            mac: None,
            firmware_name: None,
            firmware_version: None,
            stats_interval: None,
            stats_uptime: None,
            stats_signal: None,
            stats_cputemp: None,
            stats_cpuload: None,
            stats_battery: None,
            stats_freeheap: None,
            stats_supply: None,
        };
        assert(d@.nodes =~= Seq::<NodeView>::empty());
        assert(d@.extensions =~= Seq::<ExtensionView>::empty());
        d
    }

    /// Whether the required attributes of the device and of all its nodes and their
    /// properties are known.
    pub fn has_required_attributes(&self) -> (b: bool)
        ensures
            b == device_complete(self@),
    {
        if self.name.is_none() || self.state == State::Unknown {
            return false;
        }
        let mut i: usize = 0;
        while i < self.nodes.len()
            invariant
                i <= self.nodes@.len(),
                self.name is Some,
                self.state != State::Unknown,
                forall|j: int| 0 <= j < i ==> node_complete(#[trigger] self@.nodes[j]),
            decreases self.nodes@.len() - i,
        {
            let c = self.nodes[i].has_required_attributes();
            assert(self@.nodes[i as int] == self.nodes@[i as int]@);
            if !c {
                return false;
            }
            i = i + 1;
        }
        true
    }

    /// Adds the given node to the device, replacing any with the same ID.
    pub fn add_node(&mut self, node: Node)
        requires
            node_ids_unique(old(self).nodes@),
        ensures
            node_ids_unique(final(self).nodes@),
            final(self).id == old(self).id,
            final(self).name == old(self).name,
            final(self).state == old(self).state,
            node_map(final(self).nodes@) == node_map(old(self).nodes@).insert(node.id@, node@),
    {
        let mut i: usize = 0;
        while i < self.nodes.len()
            invariant
                i <= self.nodes@.len(),
                self.nodes@ == old(self).nodes@,
                self.id == old(self).id,
                self.name == old(self).name,
                self.state == old(self).state,
                node_ids_unique(self.nodes@),
                forall|j: int| 0 <= j < i ==> self.nodes@[j].id@ != node.id@,
            decreases self.nodes@.len() - i,
        {
            if str_eq(self.nodes[i].id.as_str(), node.id.as_str()) {
                let ghost old_ns = self.nodes@;
                self.nodes.set(i, node);
                proof { lemma_node_map_update(old_ns, i as int, node); }
                return;
            }
            i = i + 1;
        }
        let ghost old_ns = self.nodes@;
        self.nodes.push(node);
        assert(self.nodes@.drop_last() =~= old_ns);
    }

    /// The node with the given ID, if any.
    pub fn node(&self, id: &str) -> (r: Option<&Node>)
        ensures
            match r {
                Some(n) => exists|i: int| 0 <= i < self.nodes@.len() && self.nodes@[i] == *n && n.id@ == id@,
                None => forall|i: int| 0 <= i < self.nodes@.len() ==> self.nodes@[i].id@ != id@,
            },
    {
        let mut i: usize = 0;
        while i < self.nodes.len()
            invariant
                i <= self.nodes@.len(),
                forall|j: int| 0 <= j < i ==> self.nodes@[j].id@ != id@,
            decreases self.nodes@.len() - i,
        {
            if str_eq(self.nodes[i].id.as_str(), id) {
                return Some(&self.nodes[i]);
            }
            i = i + 1;
        }
        None
    }
}

/// A copy of an optional string.
fn copy_opt(o: &Option<String>) -> (r: Option<String>)
    ensures
        opt_view(r) == opt_view(*o),
{
    match o {
        Some(x) => Some(x.clone()),
        None => None,
    }
}

/// A copy of a list of strings.
fn copy_strings(v: &Vec<String>) -> (r: Vec<String>)
    ensures
        r@.map_values(|x: String| x@) == v@.map_values(|x: String| x@),
{
    let mut r: Vec<String> = Vec::new();
    let mut i: usize = 0;
    while i < v.len()
        invariant
            i <= v@.len(),
            r@.len() == i,
                forall|k: int| 0 <= k < i ==> #[trigger] r@[k]@ == v@[k]@,
        decreases v@.len() - i,
    {
        r.push(v[i].clone());
        i = i + 1;
    }
    assert(r@.map_values(|x: String| x@) =~= v@.map_values(|x: String| x@));
    r
}

impl Property {
    /// A copy of the property.
    pub fn copy(&self) -> (p: Property)
        ensures
            p@ == self@,
    {
        Property {
            id: self.id.clone(),
            name: copy_opt(&self.name),
            datatype: self.datatype,
            settable: self.settable,
            retained: self.retained,
            unit: copy_opt(&self.unit),
            format: copy_opt(&self.format),
            value: copy_opt(&self.value),
        }
    }
}

impl Node {
    /// A copy of the node, with copies of its properties.
    pub fn copy(&self) -> (n: Node)
        ensures
            n@ == self@,
    {
        let mut properties: Vec<Property> = Vec::new();
        let mut i: usize = 0;
        while i < self.properties.len()
            invariant
                i <= self.properties@.len(),
                properties@.len() == i,
                forall|k: int| 0 <= k < i ==> #[trigger] properties@[k]@ == self.properties@[k]@,
            decreases self.properties@.len() - i,
        {
            properties.push(self.properties[i].copy());
            i = i + 1;
        }
        assert(properties@.map_values(|p: Property| p@) =~= self.properties@.map_values(|p: Property| p@));
        Node { id: self.id.clone(), name: copy_opt(&self.name), node_type: copy_opt(&self.node_type), properties }
    }
}

impl Extension {
    /// A copy of the extension.
    pub fn copy(&self) -> (e: Extension)
        ensures
            e@ == self@,
    {
        Extension { id: self.id.clone(), version: self.version.clone(), homie_versions: copy_strings(&self.homie_versions) }
    }
}

impl Device {
    /// A copy of the device, with copies of its nodes and extensions.
    pub fn copy(&self) -> (d: Device)
        ensures
            d@ == self@,
    {
        let mut nodes: Vec<Node> = Vec::new();
        let mut i: usize = 0;
        while i < self.nodes.len()
            invariant
                i <= self.nodes@.len(),
                nodes@.len() == i,
                forall|k: int| 0 <= k < i ==> #[trigger] nodes@[k]@ == self.nodes@[k]@,
            decreases self.nodes@.len() - i,
        {
            nodes.push(self.nodes[i].copy());
            i = i + 1;
        }
        assert(nodes@.map_values(|n: Node| n@) =~= self.nodes@.map_values(|n: Node| n@));
        let mut extensions: Vec<Extension> = Vec::new();
        let mut j: usize = 0;
        while j < self.extensions.len()
            invariant
                j <= self.extensions@.len(),
                extensions@.len() == j,
                forall|k: int| 0 <= k < j ==> #[trigger] extensions@[k]@ == self.extensions@[k]@,
            decreases self.extensions@.len() - j,
        {
            extensions.push(self.extensions[j].copy());
            j = j + 1;
        }
        assert(extensions@.map_values(|e: Extension| e@) =~= self.extensions@.map_values(|e: Extension| e@));
        Device {
            id: self.id.clone(),
            homie_version: self.homie_version.clone(),
            name: copy_opt(&self.name),
            state: self.state,
            implementation: copy_opt(&self.implementation),
            nodes,
            extensions,
            local_ip: copy_opt(&self.local_ip),
            mac: copy_opt(&self.mac),
            firmware_name: copy_opt(&self.firmware_name),
            firmware_version: copy_opt(&self.firmware_version),
            stats_interval: self.stats_interval,
            stats_uptime: self.stats_uptime,
            stats_signal: self.stats_signal,
            stats_cputemp: copy_opt(&self.stats_cputemp),
            stats_cpuload: self.stats_cpuload,
            stats_battery: self.stats_battery,
            stats_freeheap: self.stats_freeheap,
            stats_supply: copy_opt(&self.stats_supply),
        }
    }
}

} // verus!
