//! What the Rainbow HAT shows of the sensors that a Homie controller has discovered: which nodes
//! light its LEDs, which node and property are selected, what its four-character display says,
//! and how its buttons change the selection.

use crate::homie_controller::controller::{
    device_ids, device_views, find_device, find_id, find_node, find_property, lemma_find_id, node_ids, node_views, property_ids,
    property_views,
};
use crate::homie_controller::types::{Datatype, Device, DeviceView, NodeView, PropertyView, State};
use crate::text::{opt_view, str_eq};
use vstd::prelude::*;
use vstd::string::{StrSliceExecFns, StringSliceAdditionalSpecFns};

verus! {

/// The property that holds a sensor's temperature.
pub const TEMPERATURE_PROPERTY_ID: &'static str = "temperature";
/// The property that holds a sensor's relative humidity.
pub const HUMIDITY_PROPERTY_ID: &'static str = "humidity";
/// The number of RGB LEDs.
pub const PIXELS: usize = 7;

/// Whether a node has a temperature of datatype float and a humidity of datatype integer.
pub open spec fn node_shown(n: NodeView) -> bool {
    let ids = property_ids(n.properties);
    let t = find_id(ids, TEMPERATURE_PROPERTY_ID@);
    let h = find_id(ids, HUMIDITY_PROPERTY_ID@);
    &&& t >= 0
    &&& h >= 0
    &&& n.properties[t].datatype == Some(Datatype::Float)
    &&& n.properties[h].datatype == Some(Datatype::Integer)
}

/// The nodes of device `i` that are shown, as (device, node) indices, in their order.
pub open spec fn shown_nodes(i: int, ns: Seq<NodeView>) -> Seq<(int, int)>
    decreases ns.len(),
{
    if ns.len() == 0 {
        Seq::empty()
    } else {
        shown_nodes(i, ns.drop_last()) + if node_shown(ns.last()) { seq![(i, ns.len() - 1)] } else { Seq::empty() }
    }
}

/// The nodes shown: those with a temperature and a humidity on devices that are ready, as
/// (device, node) indices, in their order.
pub open spec fn found_nodes(ds: Seq<DeviceView>) -> Seq<(int, int)>
    decreases ds.len(),
{
    if ds.len() == 0 {
        Seq::empty()
    } else {
        found_nodes(ds.drop_last()) + if ds.last().state == State::Ready {
            shown_nodes(ds.len() - 1, ds.last().nodes)
        } else {
            Seq::empty()
        }
    }
}

/// The index pairs as integers.
pub open spec fn pairs_view(v: Seq<(usize, usize)>) -> Seq<(int, int)> {
    v.map_values(|p: (usize, usize)| (p.0 as int, p.1 as int))
}

/// Whether a node has a temperature of datatype float and a humidity of datatype integer.
fn is_shown(n: &crate::homie_controller::types::Node) -> (b: bool)
    ensures
        b == node_shown(n@),
{
    assert(property_views(n.properties@) == n@.properties);
    let t = find_property(&n.properties, TEMPERATURE_PROPERTY_ID);
    let h = find_property(&n.properties, HUMIDITY_PROPERTY_ID);
    match (t, h) {
        (Some(t), Some(h)) => {
            assert(n@.properties[t as int] == n.properties@[t as int]@);
            assert(n@.properties[h as int] == n.properties@[h as int]@);
            n.properties[t].datatype == Some(Datatype::Float) && n.properties[h].datatype == Some(Datatype::Integer)
        },
        _ => false,
    }
}

/// Finds the nodes shown: see `found_nodes`.
pub fn find_nodes(devices: &Vec<Device>) -> (r: Vec<(usize, usize)>)
    ensures
        pairs_view(r@) == found_nodes(device_views(devices@)),
        forall|k: int| 0 <= k < r@.len() ==> r@[k].0 < devices@.len() && r@[k].1 < devices@[r@[k].0 as int].nodes@.len(),
{
    let ghost ds = device_views(devices@);
    let mut r: Vec<(usize, usize)> = Vec::new();
    let mut i: usize = 0;
    assert(ds.take(0) =~= Seq::<DeviceView>::empty());
    assert(pairs_view(r@) =~= Seq::<(int, int)>::empty());
    while i < devices.len()
        invariant
            i <= devices@.len(),
            ds == device_views(devices@),
            pairs_view(r@) == found_nodes(ds.take(i as int)),
            forall|k: int| 0 <= k < r@.len() ==> r@[k].0 < devices@.len() && r@[k].1 < devices@[r@[k].0 as int].nodes@.len(),
        decreases devices@.len() - i,
    {
        let ghost before = pairs_view(r@);
        assert(ds.take(i + 1).drop_last() =~= ds.take(i as int));
        assert(ds.take(i + 1).last() == devices@[i as int]@);
        if devices[i].state == State::Ready {
            let nodes = &devices[i].nodes;
            let ghost ns = node_views(nodes@);
            assert(ns == devices@[i as int]@.nodes);
            let mut j: usize = 0;
            assert(ns.take(0) =~= Seq::<NodeView>::empty());
            assert(before + shown_nodes(i as int, ns.take(0)) =~= before);
            while j < nodes.len()
                invariant
                    i < devices@.len(),
                    nodes == &devices@[i as int].nodes,
                    j <= nodes@.len(),
                    ns == node_views(nodes@),
                    pairs_view(r@) == before + shown_nodes(i as int, ns.take(j as int)),
                    forall|k: int| 0 <= k < r@.len() ==> r@[k].0 < devices@.len() && r@[k].1 < devices@[r@[k].0 as int].nodes@.len(),
                decreases nodes@.len() - j,
            {
                let ghost b2 = pairs_view(r@);
                assert(ns.take(j + 1).drop_last() =~= ns.take(j as int));
                assert(ns.take(j + 1).last() == nodes@[j as int]@);
                if is_shown(&nodes[j]) {
                    r.push((i, j));
                    assert(pairs_view(r@) =~= b2.push((i as int, j as int)));
                    assert(shown_nodes(i as int, ns.take(j + 1)) =~= shown_nodes(i as int, ns.take(j as int)) + seq![(i as int, j as int)]);
                    assert(pairs_view(r@) =~= before + shown_nodes(i as int, ns.take(j + 1)));
                } else {
                    assert(shown_nodes(i as int, ns.take(j + 1)) =~= shown_nodes(i as int, ns.take(j as int)) + Seq::<(int, int)>::empty());
                    assert(pairs_view(r@) =~= before + shown_nodes(i as int, ns.take(j + 1)));
                }
                j = j + 1;
            }
            assert(ns.take(j as int) =~= ns);
        } else {
            assert(before + Seq::<(int, int)>::empty() =~= before);
        }
        i = i + 1;
    }
    assert(ds.take(i as int) =~= ds);
    r
}

/// What the four-character display says.
#[derive(Clone, Debug, Eq, PartialEq)]
pub enum DisplayText {
    /// The value of the selected property, with '%' after a humidity.
    Value { value: String, unit: Option<char> },
    /// The selected property has no value yet: "????".
    Unknown,
    /// The selected property is not there any more: "gone".
    Gone,
    /// Nothing is selected: blank.
    Blank,
}

/// A display text with its strings taken by their characters.
pub enum DisplayTextView {
    Value { value: Seq<char>, unit: Option<char> },
    Unknown,
    Gone,
    Blank,
}

impl View for DisplayText {
    type V = DisplayTextView;

    open spec fn view(&self) -> DisplayTextView {
        match self {
            DisplayText::Value { value, unit } => DisplayTextView::Value { value: value@, unit: *unit },
            DisplayText::Unknown => DisplayTextView::Unknown,
            DisplayText::Gone => DisplayTextView::Gone,
            DisplayText::Blank => DisplayTextView::Blank,
        }
    }
}

/// What the Rainbow HAT shows: for each LED, the (device, node) it shows and whether that node
/// is selected, or nothing; and the text of the display.
#[derive(Clone, Debug, Eq, PartialEq)]
pub struct Display {
    pub pixels: Vec<Option<(usize, usize, bool)>>,
    pub text: DisplayText,
}

/// The selection on the Rainbow HAT, and which buttons were down when last polled.
#[derive(Clone, Debug, Eq, PartialEq)]
pub struct UiState {
    pub selected_device_id: Option<String>,
    pub selected_node_id: Option<String>,
    pub selected_property_id: String,
    pub button_state: [bool; 3],
}

/// The property with the given path, if the devices have it: first matches by ID.
pub open spec fn property_at(ds: Seq<DeviceView>, d: Seq<char>, n: Seq<char>, p: Seq<char>) -> Option<PropertyView> {
    let i = find_id(device_ids(ds), d);
    if i < 0 {
        None
    } else {
        let j = find_id(node_ids(ds[i].nodes), n);
        if j < 0 {
            None
        } else {
            let k = find_id(property_ids(ds[i].nodes[j].properties), p);
            if k < 0 {
                None
            } else {
                Some(ds[i].nodes[j].properties[k])
            }
        }
    }
}

/// What the display says for a selection: the value of the selected property, with '%' after
/// a humidity; "????" if it has none; "gone" if the property is not there; blank if nothing
/// is selected.
pub open spec fn text_spec(ds: Seq<DeviceView>, d: Option<Seq<char>>, n: Option<Seq<char>>, p: Seq<char>) -> DisplayTextView {
    match (d, n) {
        (Some(d), Some(n)) => match property_at(ds, d, n, p) {
            Some(prop) => match prop.value {
                Some(v) => DisplayTextView::Value { value: v, unit: if p == HUMIDITY_PROPERTY_ID@ { Some('%') } else { None } },
                None => DisplayTextView::Unknown,
            },
            None => DisplayTextView::Gone,
        },
        _ => DisplayTextView::Blank,
    }
}

/// The property with the given path, if the devices have it.
fn get_property<'a>(devices: &'a Vec<Device>, d: &str, n: &str, p: &str) -> (r: Option<&'a crate::homie_controller::types::Property>)
    ensures
        match r {
            Some(prop) => property_at(device_views(devices@), d@, n@, p@) == Some(prop@),
            None => property_at(device_views(devices@), d@, n@, p@) is None,
        },
{
    let i = match find_device(devices, d) {
        Some(i) => i,
        None => return None,
    };
    assert(device_views(devices@)[i as int] == devices@[i as int]@);
    assert(node_views(devices@[i as int].nodes@) == devices@[i as int]@.nodes);
    let j = match find_node(&devices[i].nodes, n) {
        Some(j) => j,
        None => return None,
    };
    assert(devices@[i as int]@.nodes[j as int] == devices@[i as int].nodes@[j as int]@);
    assert(property_views(devices@[i as int].nodes@[j as int].properties@) == devices@[i as int]@.nodes[j as int].properties);
    let k = match find_property(&devices[i].nodes[j].properties, p) {
        Some(k) => k,
        None => return None,
    };
    assert(devices@[i as int]@.nodes[j as int].properties[k as int] == devices@[i as int].nodes@[j as int].properties@[k as int]@);
    Some(&devices[i].nodes[j].properties[k])
}

/// The node shown by the given LED, and whether it is the selected one.
pub open spec fn pixel_spec(ds: Seq<DeviceView>, nodes: Seq<(int, int)>, d: Option<Seq<char>>, n: Option<Seq<char>>, k: int) -> Option<(int, int, bool)> {
    if k < nodes.len() {
        let (i, j) = nodes[k];
        Some((i, j, d == Some(ds[i].id) && n == Some(ds[i].nodes[j].id)))
    } else {
        None
    }
}

/// The LEDs taken by their views.
pub open spec fn pixels_view(v: Seq<Option<(usize, usize, bool)>>) -> Seq<Option<(int, int, bool)>> {
    v.map_values(|p: Option<(usize, usize, bool)>| match p {
        Some((i, j, s)) => Some((i as int, j as int, s)),
        None => None,
    })
}

impl UiState {
    /// Nothing selected yet but the temperature, and no button down.
    pub fn new() -> (u: UiState)
        ensures
            u.selected_device_id is None,
            u.selected_node_id is None,
            u.selected_property_id@ == TEMPERATURE_PROPERTY_ID@,
            u.button_state@ == seq![false, false, false],
    {
        let u = UiState {
            selected_device_id: None,
            selected_node_id: None,
            selected_property_id: TEMPERATURE_PROPERTY_ID.to_owned(),
            button_state: [false, false, false],
        };
        assert(u.button_state@ =~= seq![false, false, false]);
        u
    }

    /// What to show for the devices: the first nodes shown on the LEDs, the selected one marked;
    /// the first node shown becomes selected if no node is; and the display says what
    /// `text_spec` gives for the selection.
    pub fn update_display(&mut self, devices: &Vec<Device>) -> (r: Display)
        ensures
            ({
                let ds = device_views(devices@);
                let nodes = found_nodes(ds);
                let d0 = opt_view(old(self).selected_device_id);
                let n0 = opt_view(old(self).selected_node_id);
                &&& r.pixels@.len() == PIXELS
                &&& forall|k: int| 0 <= k < PIXELS ==> #[trigger] pixels_view(r.pixels@)[k] == pixel_spec(ds, nodes, d0, n0, k)
                &&& final(self).selected_property_id == old(self).selected_property_id
                &&& final(self).button_state == old(self).button_state
                &&& if (d0 is None || n0 is None) && nodes.len() > 0 {
                    &&& opt_view(final(self).selected_device_id) == Some(ds[nodes[0].0].id)
                    &&& opt_view(final(self).selected_node_id) == Some(ds[nodes[0].0].nodes[nodes[0].1].id)
                } else {
                    &&& final(self).selected_device_id == old(self).selected_device_id
                    &&& final(self).selected_node_id == old(self).selected_node_id
                }
                &&& r.text@ == text_spec(ds, opt_view(final(self).selected_device_id), opt_view(final(self).selected_node_id), final(self).selected_property_id@)
            }),
    {
        let ghost ds = device_views(devices@);
        let nodes = find_nodes(devices);
        let mut pixels: Vec<Option<(usize, usize, bool)>> = Vec::new();
        let mut k: usize = 0;
        while k < PIXELS
            invariant
                k <= PIXELS,
                ds == device_views(devices@),
                pairs_view(nodes@) == found_nodes(ds),
                forall|m: int| 0 <= m < nodes@.len() ==> nodes@[m].0 < devices@.len() && nodes@[m].1 < devices@[nodes@[m].0 as int].nodes@.len(),
                pixels@.len() == k,
                forall|m: int| 0 <= m < k ==> #[trigger] pixels_view(pixels@)[m] == pixel_spec(ds, found_nodes(ds), opt_view(self.selected_device_id), opt_view(self.selected_node_id), m),
            decreases PIXELS - k,
        {
            let ghost before = pixels@;
            if k < nodes.len() {
                let (i, j) = nodes[k];
                assert(ds[i as int] == devices@[i as int]@);
                assert(ds[i as int].nodes[j as int] == devices@[i as int].nodes@[j as int]@);
                let selected = match (&self.selected_device_id, &self.selected_node_id) {
                    (Some(d), Some(n)) => str_eq(d.as_str(), devices[i].id.as_str()) && str_eq(n.as_str(), devices[i].nodes[j].id.as_str()),
                    _ => false,
                };
                pixels.push(Some((i, j, selected)));
            } else {
                pixels.push(None);
            }
            assert forall|m: int| 0 <= m < k + 1 implies #[trigger] pixels_view(pixels@)[m] == pixel_spec(ds, found_nodes(ds), opt_view(self.selected_device_id), opt_view(self.selected_node_id), m) by {
                if m < k {
                    assert(pixels@[m] == before[m]);
                    assert(pixels_view(before)[m] == pixel_spec(ds, found_nodes(ds), opt_view(self.selected_device_id), opt_view(self.selected_node_id), m));
                }
            }
            k = k + 1;
        }
        if (self.selected_device_id.is_none() || self.selected_node_id.is_none()) && nodes.len() > 0 {
            let (i, j) = nodes[0];
            assert(ds[i as int] == devices@[i as int]@);
            assert(ds[i as int].nodes[j as int] == devices@[i as int].nodes@[j as int]@);
            self.selected_device_id = Some(devices[i].id.clone());
            self.selected_node_id = Some(devices[i].nodes[j].id.clone());
        }
        let text = match (&self.selected_device_id, &self.selected_node_id) {
            (Some(d), Some(n)) => match get_property(devices, d.as_str(), n.as_str(), self.selected_property_id.as_str()) {
                Some(prop) => match &prop.value {
                    Some(v) => DisplayText::Value {
                        value: v.clone(),
                        unit: if str_eq(self.selected_property_id.as_str(), HUMIDITY_PROPERTY_ID) { Some('%') } else { None },
                    },
                    None => DisplayText::Unknown,
                },
                None => DisplayText::Gone,
            },
            _ => DisplayText::Blank,
        };
        Display { pixels, text }
    }
}


/// A selection: device, node and property.
pub type Selection = (Option<Seq<char>>, Option<Seq<char>>, Seq<char>);

/// The selection of a UI state.
pub open spec fn selection_of(u: UiState) -> Selection {
    (opt_view(u.selected_device_id), opt_view(u.selected_node_id), u.selected_property_id@)
}

/// The selection once the display is updated: the first node shown becomes selected if no
/// node is.
pub open spec fn displayed(ds: Seq<DeviceView>, sel: Selection) -> Selection {
    let nodes = found_nodes(ds);
    if (sel.0 is None || sel.1 is None) && nodes.len() > 0 {
        (Some(ds[nodes[0].0].id), Some(ds[nodes[0].0].nodes[nodes[0].1].id), sel.2)
    } else {
        sel
    }
}

/// The node IDs of the nodes shown.
pub open spec fn shown_node_ids(ds: Seq<DeviceView>, nodes: Seq<(int, int)>) -> Seq<Seq<char>> {
    nodes.map_values(|p: (int, int)| ds[p.0].nodes[p.1].id)
}

/// The selection after a button press: the first button selects the node shown after the
/// selected one, going round, or the first; the second switches between temperature and
/// humidity; the third does nothing.
pub open spec fn press(ds: Seq<DeviceView>, sel: Selection, button: int) -> Selection {
    if button == 0 {
        let nodes = found_nodes(ds);
        if nodes.len() == 0 {
            sel
        } else {
            let ids = shown_node_ids(ds, nodes);
            let next = match sel.1 {
                Some(n) => {
                    let c = find_id(ids, n);
                    if c >= 0 { (c + 1) % (ids.len() as int) } else { 0 }
                },
                None => 0,
            };
            (sel.0, Some(ids[next]), sel.2)
        }
    } else if button == 1 {
        (sel.0, sel.1, if sel.2 == TEMPERATURE_PROPERTY_ID@ { HUMIDITY_PROPERTY_ID@ } else if sel.2 == HUMIDITY_PROPERTY_ID@ {
            TEMPERATURE_PROPERTY_ID@
        } else {
            HUMIDITY_PROPERTY_ID@
        })
    } else {
        sel
    }
}

/// The selection after the buttons among the first `k` that have just gone down are handled in
/// turn, the display updated after each.
pub open spec fn presses(ds: Seq<DeviceView>, sel: Selection, old: Seq<bool>, new: Seq<bool>, k: int) -> Selection
    decreases k,
{
    if k <= 0 {
        sel
    } else {
        let s = presses(ds, sel, old, new, k - 1);
        if new[k - 1] && !old[k - 1] {
            displayed(ds, press(ds, s, k - 1))
        } else {
            s
        }
    }
}

/// The number of buttons among the first `k` that have just gone down.
pub open spec fn rising(old: Seq<bool>, new: Seq<bool>, k: int) -> nat
    decreases k,
{
    if k <= 0 {
        0
    } else {
        rising(old, new, k - 1) + if new[k - 1] && !old[k - 1] { 1nat } else { 0nat }
    }
}

/// Whether two strings are the same.
fn same_id(a: &str, b: &str) -> (r: bool)
    ensures
        r == (a@ == b@),
{
    str_eq(a, b)
}

impl UiState {
    /// Handles a press of button `button`, then updates the display: see `press`.
    pub fn button_pressed(&mut self, button: usize, devices: &Vec<Device>) -> (r: Display)
        ensures
            selection_of(*final(self)) == displayed(device_views(devices@), press(device_views(devices@), selection_of(*old(self)), button as int)),
            final(self).button_state == old(self).button_state,
    {
        let ghost ds = device_views(devices@);
        if button == 0 {
            let nodes = find_nodes(devices);
            if nodes.len() > 0 {
                let ghost ids = shown_node_ids(ds, pairs_view(nodes@));
                let mut next: usize = 0;
                if let Some(sel) = &self.selected_node_id {
                    let mut c: usize = 0;
                    let mut found = false;
                    while c < nodes.len() && !found
                        invariant
                            c <= nodes@.len(),
                            ids == shown_node_ids(ds, pairs_view(nodes@)),
                            ds == device_views(devices@),
                            forall|m: int| 0 <= m < nodes@.len() ==> nodes@[m].0 < devices@.len() && nodes@[m].1 < devices@[nodes@[m].0 as int].nodes@.len(),
                            forall|m: int| 0 <= m < c ==> ids[m] != sel@,
                            found ==> c < nodes@.len() && ids[c as int] == sel@,
                        decreases nodes@.len() - c + (if found { 0int } else { 1int }),
                    {
                        let (i, j) = nodes[c];
                        assert(ds[i as int] == devices@[i as int]@);
                        assert(ds[i as int].nodes[j as int] == devices@[i as int].nodes@[j as int]@);
                        assert(ids[c as int] == devices@[i as int].nodes@[j as int].id@);
                        if same_id(devices[i].nodes[j].id.as_str(), sel.as_str()) {
                            found = true;
                        } else {
                            c = c + 1;
                        }
                    }
                    proof { crate::homie_controller::controller::lemma_find_id_at(ids, sel@, if found { c as int } else { ids.len() as int }); }
                    if found {
                        next = (c + 1) % nodes.len();
                    }
                }
                let (i, j) = nodes[next];
                assert(ds[i as int] == devices@[i as int]@);
                assert(ds[i as int].nodes[j as int] == devices@[i as int].nodes@[j as int]@);
                self.selected_node_id = Some(devices[i].nodes[j].id.clone());
            }
        } else if button == 1 {
            let next = if str_eq(self.selected_property_id.as_str(), TEMPERATURE_PROPERTY_ID) {
                HUMIDITY_PROPERTY_ID
            } else if str_eq(self.selected_property_id.as_str(), HUMIDITY_PROPERTY_ID) {
                TEMPERATURE_PROPERTY_ID
            } else {
                HUMIDITY_PROPERTY_ID
            };
            self.selected_property_id = next.to_owned();
        }
        self.update_display(devices)
    }

    /// Handles the buttons that have just gone down, in order, and remembers which are down: see
    /// `presses`. Gives what to show after each press.
    pub fn update_button_state(&mut self, new_state: [bool; 3], devices: &Vec<Device>) -> (r: Vec<Display>)
        ensures
            selection_of(*final(self)) == presses(device_views(devices@), selection_of(*old(self)), old(self).button_state@, new_state@, 3),
            final(self).button_state == new_state,
            r@.len() == rising(old(self).button_state@, new_state@, 3),
    {
        let ghost ds = device_views(devices@);
        let ghost old_state = self.button_state@;
        let ghost sel0 = selection_of(*self);
        let mut shown: Vec<Display> = Vec::new();
        let mut i: usize = 0;
        while i < 3
            invariant
                i <= 3,
                ds == device_views(devices@),
                self.button_state@ == old_state,
                old_state.len() == 3,
                new_state@.len() == 3,
                selection_of(*self) == presses(ds, sel0, old_state, new_state@, i as int),
                shown@.len() == rising(old_state, new_state@, i as int),
            decreases 3 - i,
        {
            if new_state[i] && !self.button_state[i] {
                let d = self.button_pressed(i, devices);
                shown.push(d);
            }
            i = i + 1;
        }
        self.button_state = new_state;
        shown
    }
}

/// What to set on the four-character display.
#[derive(Clone, Copy, Debug, Eq, PartialEq)]
pub enum DisplayOp {
    /// Show character `c` at `position`, with its decimal point lit or not.
    Digit { position: usize, c: char, decimal: bool },
    /// Light the decimal point at `position`.
    Decimal { position: usize },
}

/// The digits of a number to show from `position` on, in a field `width` wide: each character
/// takes the next position, but for a '.', which lights the point of the position before, or
/// shows "0." if it comes first. Nothing is shown past the field.
pub open spec fn digit_ops(cs: Seq<char>, position: int, width: int) -> Seq<DisplayOp>
    decreases cs.len(),
{
    if cs.len() == 0 {
        Seq::empty()
    } else {
        let c = cs[0];
        let (ops, next) = if c == '.' {
            if position == 0 {
                (seq![DisplayOp::Digit { position: 0, c: '0', decimal: true }], 1int)
            } else {
                (seq![DisplayOp::Decimal { position: (position - 1) as usize }], position)
            }
        } else {
            (seq![DisplayOp::Digit { position: position as usize, c, decimal: false }], position + 1)
        };
        if next >= width {
            ops
        } else {
            ops + digit_ops(cs.drop_first(), next, width)
        }
    }
}

/// Blanks at the positions before `n`.
pub open spec fn blank_ops(n: int) -> Seq<DisplayOp>
    decreases n,
{
    if n <= 0 {
        Seq::empty()
    } else {
        blank_ops(n - 1).push(DisplayOp::Digit { position: (n - 1) as usize, c: ' ', decimal: false })
    }
}

/// What to show of a decimal number, right-aligned in the first three positions with a unit in
/// the fourth, or in all four without one: blanks to pad it, as many as the field is wider than
/// the number has bytes not counting a '.', then its digits, then the unit.
pub open spec fn decimal_ops(s: Seq<char>, bytes: int, unit: Option<char>) -> Seq<DisplayOp> {
    let width: int = if unit is Some { 3 } else { 4 };
    let len = if s.contains('.') && bytes > 0 { bytes - 1 } else { bytes };
    let padding = if width > len { width - len } else { 0 };
    let shown = blank_ops(padding) + digit_ops(s, padding, width);
    match unit {
        Some(u) => shown.push(DisplayOp::Digit { position: 3, c: u, decimal: false }),
        None => shown,
    }
}

/// What to show of a decimal number: see `decimal_ops`.
pub fn print_str_decimal(s: &str, unit: Option<char>) -> (ops: Vec<DisplayOp>)
    ensures
        ops@ == decimal_ops(s@, s.len() as int, unit),
{
    let width: usize = if unit.is_some() { 3 } else { 4 };
    let n = s.unicode_len();
    let mut has_dot = false;
    let mut k: usize = 0;
    while k < n
        invariant
            n == s@.len(),
            k <= n,
            has_dot <==> exists|m: int| 0 <= m < k && s@[m] == '.',
        decreases n - k,
    {
        if s.get_char(k) == '.' {
            has_dot = true;
        }
        k = k + 1;
    }
    assert(has_dot == s@.contains('.'));
    let bytes = s.len();
    let len = if has_dot && bytes > 0 { bytes - 1 } else { bytes };
    let padding: usize = if width > len { width - len } else { 0 };
    let mut ops: Vec<DisplayOp> = Vec::new();
    let mut p: usize = 0;
    assert(ops@ =~= blank_ops(0));
    while p < padding
        invariant
            p <= padding,
            padding <= width,
            width <= 4,
            ops@ == blank_ops(p as int),
        decreases padding - p,
    {
        ops.push(DisplayOp::Digit { position: p, c: ' ', decimal: false });
        p = p + 1;
    }
    let ghost head = ops@;
    let mut position: usize = padding;
    let mut i: usize = 0;
    let mut done = false;
    assert(s@.skip(0) =~= s@);
    while i < n && !done
        invariant
            n == s@.len(),
            i <= n,
            width == 3 || width == 4,
            padding <= width,
            position <= width + 1,
            !done ==> position <= width,
            head == blank_ops(padding as int),
            done ==> ops@ == head + digit_ops(s@, padding as int, width as int),
            !done ==> ops@ + digit_ops(s@.skip(i as int), position as int, width as int) == head + digit_ops(s@, padding as int, width as int),
        decreases n - i + (if done { 0int } else { 1int }),
    {
        let c = s.get_char(i);
        let ghost rest = s@.skip(i as int);
        let ghost pos0 = position as int;
        assert(rest[0] == c);
        assert(rest.drop_first() =~= s@.skip(i + 1));
        let ghost before = ops@;
        if c == '.' {
            if position == 0 {
                ops.push(DisplayOp::Digit { position: 0, c: '0', decimal: true });
                position = 1;
            } else {
                ops.push(DisplayOp::Decimal { position: position - 1 });
            }
        } else {
            ops.push(DisplayOp::Digit { position, c, decimal: false });
            position = position + 1;
        }
        let ghost op = ops@.last();
        assert(ops@ =~= before.push(op));
        i = i + 1;
        if position >= width {
            done = true;
            assert(digit_ops(rest, pos0, width as int) =~= seq![op]);
            assert(before.push(op) =~= before + seq![op]);
        } else {
            assert(digit_ops(rest, pos0, width as int) =~= seq![op] + digit_ops(s@.skip(i as int), position as int, width as int));
            assert(before.push(op) + digit_ops(s@.skip(i as int), position as int, width as int)
                =~= before + (seq![op] + digit_ops(s@.skip(i as int), position as int, width as int)));
        }
    }
    if !done {
        assert(s@.skip(i as int) =~= Seq::<char>::empty());
        assert(ops@ + Seq::<DisplayOp>::empty() =~= ops@);
    }
    let ghost body = ops@;
    if let Some(u) = unit {
        let op = DisplayOp::Digit { position: 3, c: u, decimal: false };
        ops.push(op);
        assert(ops@ =~= body.push(op));
    }
    ops
}

/// The colour of an LED for a node: red for the temperature, given as a level from 0 to 255;
/// green for the humidity in percent scaled to 255, as a byte; blue if the node is selected.
pub fn colour_for_node(temperature_level: u8, humidity: i64, selected: bool) -> (rgb: (u8, u8, u8))
    requires
        -36028797018963967 <= humidity <= 36028797018963967,
    ensures
        rgb == (temperature_level, (if humidity * 255 >= 0 { (humidity * 255) / 100 } else { -((-(humidity * 255)) / 100) }) as u8, if selected { 128u8 } else { 0u8 }),
{
    let scaled: i64 = humidity * 255 / 100;
    (temperature_level, scaled as u8, if selected { 128 } else { 0 })
}

} // verus!
