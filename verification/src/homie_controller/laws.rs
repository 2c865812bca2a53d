//! Laws of the controller: what every message keeps of the model.

use super::controller::{
    device_ids, device_path, device_update_spec, early_insert, extensions_spec, find_id, homie_spec, keys_of,
    kept_nodes, kept_properties, known_stat, lemma_find_id, listed, new_node_view, node_ids, node_path, node_update_spec,
    nodes_spec, properties_spec, property_ids, property_path, property_update_spec, publish_spec, stat_spec, three_levels_spec,
    updated_device, updated_node, updated_property, value_spec, with_device, with_node, with_property, added_nodes,
    added_properties, added_property, four_levels_spec, ControllerView, DeviceUpdateView, EventView, NodeUpdateView,
    PropertiesAcc, PropertyUpdateView,
};
use super::types::{DeviceView, NodeView, PropertyView};
use crate::text::{base_prefix, split_spec, topic};
use vstd::prelude::*;

verus! {

/// Whether no ID occurs twice.
pub open spec fn ids_unique(ids: Seq<Seq<char>>) -> bool {
    forall|a: int, b: int| 0 <= a < ids.len() && 0 <= b < ids.len() && a != b ==> ids[a] != ids[b]
}

/// Whether the properties of a node have different IDs.
pub open spec fn node_wf(n: NodeView) -> bool {
    ids_unique(property_ids(n.properties))
}

/// Whether the nodes of a device have different IDs, and so have the properties of each.
pub open spec fn device_wf(d: DeviceView) -> bool {
    &&& ids_unique(node_ids(d.nodes))
    &&& forall|j: int| 0 <= j < d.nodes.len() ==> node_wf(#[trigger] d.nodes[j])
}

/// Whether the model is keyed by IDs as the Homie convention has it: the devices have
/// different IDs, the nodes of each device and the properties of each node too, and each
/// subtopic has at most one value kept for later.
pub open spec fn controller_wf(c: ControllerView) -> bool {
    &&& ids_unique(device_ids(c.devices))
    &&& forall|i: int| 0 <= i < c.devices.len() ==> device_wf(#[trigger] c.devices[i])
    &&& ids_unique(keys_of(c.early_property_values))
}

/// Adding an ID that does not occur keeps the IDs unique.
proof fn lemma_unique_push(ids: Seq<Seq<char>>, x: Seq<char>)
    requires
        ids_unique(ids),
        find_id(ids, x) == -1,
    ensures
        ids_unique(ids.push(x)),
{
    lemma_find_id(ids, x);
    let s = ids.push(x);
    assert forall|a: int, b: int| 0 <= a < s.len() && 0 <= b < s.len() && a != b implies s[a] != s[b] by {
        if a == ids.len() {
            assert(ids[b] != x);
        } else if b == ids.len() {
            assert(ids[a] != x);
        } else {
            assert(ids[a] != ids[b]);
        }
    }
}

/// Removing an ID keeps the IDs unique.
proof fn lemma_unique_remove(ids: Seq<Seq<char>>, k: int)
    requires
        ids_unique(ids),
        0 <= k < ids.len(),
    ensures
        ids_unique(ids.remove(k)),
{
    let s = ids.remove(k);
    assert forall|a: int, b: int| 0 <= a < s.len() && 0 <= b < s.len() && a != b implies s[a] != s[b] by {
        let a1 = if a < k { a } else { a + 1 };
        let b1 = if b < k { b } else { b + 1 };
        assert(s[a] == ids[a1]);
        assert(s[b] == ids[b1]);
    }
}

/// Replacing the device at `i` by one with the same ID and well formed keeps the model well
/// formed.
proof fn lemma_with_device_wf(c: ControllerView, i: int, d: DeviceView)
    requires
        controller_wf(c),
        0 <= i < c.devices.len(),
        d.id == c.devices[i].id,
        device_wf(d),
    ensures
        controller_wf(with_device(c, i, d)),
{
    let c2 = with_device(c, i, d);
    assert(device_ids(c2.devices) =~= device_ids(c.devices));
    assert forall|k: int| 0 <= k < c2.devices.len() implies device_wf(#[trigger] c2.devices[k]) by {
        if k != i {
            assert(c2.devices[k] == c.devices[k]);
        }
    }
}

/// Replacing node `j` of device `i` by one with the same ID and well formed keeps the model
/// well formed.
proof fn lemma_with_node_wf(c: ControllerView, i: int, j: int, n: NodeView)
    requires
        controller_wf(c),
        0 <= i < c.devices.len(),
        0 <= j < c.devices[i].nodes.len(),
        n.id == c.devices[i].nodes[j].id,
        node_wf(n),
    ensures
        controller_wf(with_node(c, i, j, n)),
{
    let dv = c.devices[i];
    assert(device_wf(dv));
    let d2 = DeviceView { nodes: dv.nodes.update(j, n), ..dv };
    assert(node_ids(d2.nodes) =~= node_ids(dv.nodes));
    assert forall|k: int| 0 <= k < d2.nodes.len() implies node_wf(#[trigger] d2.nodes[k]) by {
        if k != j {
            assert(d2.nodes[k] == dv.nodes[k]);
        }
    }
    lemma_with_device_wf(c, i, d2);
}

/// Replacing property `k` of node `j` of device `i` by one with the same ID keeps the model
/// well formed.
proof fn lemma_with_property_wf(c: ControllerView, i: int, j: int, k: int, p: PropertyView)
    requires
        controller_wf(c),
        0 <= i < c.devices.len(),
        0 <= j < c.devices[i].nodes.len(),
        0 <= k < c.devices[i].nodes[j].properties.len(),
        p.id == c.devices[i].nodes[j].properties[k].id,
    ensures
        controller_wf(with_property(c, i, j, k, p)),
{
    let nv = c.devices[i].nodes[j];
    assert(device_wf(c.devices[i]));
    assert(node_wf(nv));
    let n2 = NodeView { properties: nv.properties.update(k, p), ..nv };
    assert(property_ids(n2.properties) =~= property_ids(nv.properties));
    lemma_with_node_wf(c, i, j, n2);
}

/// A path that is found lies within the model.
proof fn lemma_paths(c: ControllerView, d: Seq<char>, n: Seq<char>, p: Seq<char>)
    ensures
        device_path(c, d) matches Ok(i) ==> 0 <= i < c.devices.len() && c.devices[i].id == d,
        node_path(c, d, n) matches Ok((i, j)) ==> 0 <= i < c.devices.len() && 0 <= j < c.devices[i].nodes.len()
            && c.devices[i].nodes[j].id == n,
        property_path(c, d, n, p) matches Ok((i, j, k)) ==> 0 <= i < c.devices.len() && 0 <= j < c.devices[i].nodes.len()
            && 0 <= k < c.devices[i].nodes[j].properties.len() && c.devices[i].nodes[j].properties[k].id == p,
{
    lemma_find_id(device_ids(c.devices), d);
    if let Ok(i) = device_path(c, d) {
        lemma_find_id(node_ids(c.devices[i].nodes), n);
        if let Ok((i, j)) = node_path(c, d, n) {
            lemma_find_id(property_ids(c.devices[i].nodes[j].properties), p);
        }
    }
}

/// Changing an attribute of a device keeps the model well formed.
proof fn lemma_device_update_wf(c: ControllerView, d: Seq<char>, u: DeviceUpdateView)
    requires
        controller_wf(c),
        device_update_spec(c, d, u) is Ok,
    ensures
        controller_wf(device_update_spec(c, d, u)->Ok_0.0),
{
    lemma_paths(c, d, d, d);
    let i = device_path(c, d)->Ok_0;
    lemma_with_device_wf(c, i, updated_device(c.devices[i], u));
}

/// Changing an attribute of a node keeps the model well formed.
proof fn lemma_node_update_wf(c: ControllerView, d: Seq<char>, n: Seq<char>, u: NodeUpdateView)
    requires
        controller_wf(c),
        node_update_spec(c, d, n, u) is Ok,
    ensures
        controller_wf(node_update_spec(c, d, n, u)->Ok_0.0),
{
    lemma_paths(c, d, n, n);
    let (i, j) = node_path(c, d, n)->Ok_0;
    assert(device_wf(c.devices[i]));
    assert(node_wf(c.devices[i].nodes[j]));
    lemma_with_node_wf(c, i, j, updated_node(c.devices[i].nodes[j], u));
}

/// Changing an attribute of a property keeps the model well formed.
proof fn lemma_property_update_wf(c: ControllerView, d: Seq<char>, n: Seq<char>, p: Seq<char>, u: PropertyUpdateView)
    requires
        controller_wf(c),
        property_update_spec(c, d, n, p, u) is Ok,
    ensures
        controller_wf(property_update_spec(c, d, n, p, u)->Ok_0.0),
{
    lemma_paths(c, d, n, p);
    let (i, j, k) = property_path(c, d, n, p)->Ok_0;
    lemma_with_property_wf(c, i, j, k, updated_property(c.devices[i].nodes[j].properties[k], u));
}

/// A `$homie` message keeps the model well formed.
proof fn lemma_homie_wf(c: ControllerView, d: Seq<char>, payload: Seq<char>)
    requires
        controller_wf(c),
    ensures
        homie_spec(c, d, payload) is Ok,
        controller_wf(homie_spec(c, d, payload)->Ok_0.0),
{
    if find_id(device_ids(c.devices), d) < 0 {
        let nd = new_device_view_of(d, payload);
        let c2 = homie_spec(c, d, payload)->Ok_0.0;
        assert(device_ids(c2.devices) =~= device_ids(c.devices).push(d));
        lemma_unique_push(device_ids(c.devices), d);
        assert(node_ids(c2.devices.last().nodes) =~= Seq::<Seq<char>>::empty());
        assert forall|i: int| 0 <= i < c2.devices.len() implies device_wf(#[trigger] c2.devices[i]) by {
            if i < c.devices.len() {
                assert(c2.devices[i] == c.devices[i]);
            }
        }
    }
}

/// The model of a device just discovered.
spec fn new_device_view_of(d: Seq<char>, payload: Seq<char>) -> DeviceView {
    super::types::new_device_view(d, payload)
}

/// Keeping a value under a subtopic keeps the subtopics unique.
proof fn lemma_early_insert_unique(es: Seq<(Seq<char>, Seq<char>)>, k: Seq<char>, v: Seq<char>)
    requires
        ids_unique(keys_of(es)),
    ensures
        ids_unique(keys_of(early_insert(es, k, v))),
{
    lemma_find_id(keys_of(es), k);
    let i = find_id(keys_of(es), k);
    if i >= 0 {
        assert(keys_of(es.update(i, (k, v))) =~= keys_of(es));
    } else {
        assert(keys_of(es.push((k, v))) =~= keys_of(es).push(k));
        lemma_unique_push(keys_of(es), k);
    }
}

/// A property value keeps the model well formed.
proof fn lemma_value_wf(c: ControllerView, sub: Seq<char>, d: Seq<char>, n: Seq<char>, p: Seq<char>, payload: Seq<char>, retain: bool)
    requires
        controller_wf(c),
        value_spec(c, sub, d, n, p, payload, retain) is Ok,
    ensures
        controller_wf(value_spec(c, sub, d, n, p, payload, retain)->Ok_0.0),
{
    lemma_paths(c, d, n, p);
    match property_path(c, d, n, p) {
        Ok((i, j, k)) => {
            lemma_with_property_wf(c, i, j, k, updated_property(c.devices[i].nodes[j].properties[k], PropertyUpdateView::Value(payload)));
        },
        Err(_) => {
            lemma_early_insert_unique(c.early_property_values, sub, payload);
        },
    }
}

/// The nodes kept are nodes of the device, and keep different IDs.
proof fn lemma_kept_nodes(ns: Seq<NodeView>, ids: Seq<Seq<char>>)
    requires
        ids_unique(node_ids(ns)),
    ensures
        ids_unique(node_ids(kept_nodes(ns, ids))),
        forall|a: int| 0 <= a < kept_nodes(ns, ids).len() ==> ns.contains(#[trigger] kept_nodes(ns, ids)[a]),
    decreases ns.len(),
{
    if ns.len() > 0 {
        let t = ns.drop_last();
        assert(node_ids(t) =~= node_ids(ns).drop_last());
        assert(ids_unique(node_ids(t)));
        lemma_kept_nodes(t, ids);
        let k = kept_nodes(t, ids);
        let x = ns.last();
        assert forall|a: int| 0 <= a < k.len() implies #[trigger] ns.contains(k[a]) by {
            let w = choose|w: int| 0 <= w < t.len() && t[w] == k[a];
            assert(ns[w] == k[a]);
        }
        if listed(ids, x.id) {
            lemma_find_id(node_ids(k), x.id);
            if find_id(node_ids(k), x.id) >= 0 {
                let a = find_id(node_ids(k), x.id);
                let w = choose|w: int| 0 <= w < t.len() && t[w] == k[a];
                assert(node_ids(ns)[w] == node_ids(ns)[ns.len() - 1]);
            }
            assert(node_ids(k.push(x)) =~= node_ids(k).push(x.id));
            lemma_unique_push(node_ids(k), x.id);
            assert forall|a: int| 0 <= a < k.push(x).len() implies #[trigger] ns.contains(k.push(x)[a]) by {
                if a < k.len() {
                    assert(k.push(x)[a] == k[a]);
                } else {
                    assert(ns[ns.len() - 1] == x);
                }
            }
        }
    }
}

/// The properties kept keep different IDs.
proof fn lemma_kept_properties(ps: Seq<PropertyView>, ids: Seq<Seq<char>>)
    requires
        ids_unique(property_ids(ps)),
    ensures
        ids_unique(property_ids(kept_properties(ps, ids))),
        forall|a: int| 0 <= a < kept_properties(ps, ids).len() ==> ps.contains(#[trigger] kept_properties(ps, ids)[a]),
    decreases ps.len(),
{
    if ps.len() > 0 {
        let t = ps.drop_last();
        assert(property_ids(t) =~= property_ids(ps).drop_last());
        assert(ids_unique(property_ids(t)));
        lemma_kept_properties(t, ids);
        let k = kept_properties(t, ids);
        let x = ps.last();
        assert forall|a: int| 0 <= a < k.len() implies #[trigger] ps.contains(k[a]) by {
            let w = choose|w: int| 0 <= w < t.len() && t[w] == k[a];
            assert(ps[w] == k[a]);
        }
        if listed(ids, x.id) {
            lemma_find_id(property_ids(k), x.id);
            if find_id(property_ids(k), x.id) >= 0 {
                let a = find_id(property_ids(k), x.id);
                let w = choose|w: int| 0 <= w < t.len() && t[w] == k[a];
                assert(property_ids(ps)[w] == property_ids(ps)[ps.len() - 1]);
            }
            assert(property_ids(k.push(x)) =~= property_ids(k).push(x.id));
            lemma_unique_push(property_ids(k), x.id);
            assert forall|a: int| 0 <= a < k.push(x).len() implies #[trigger] ps.contains(k.push(x)[a]) by {
                if a < k.len() {
                    assert(k.push(x)[a] == k[a]);
                } else {
                    assert(ps[ps.len() - 1] == x);
                }
            }
        }
    }
}

/// Adding the listed nodes keeps the node IDs different, and every node added has no
/// properties.
proof fn lemma_added_nodes(ns: Seq<NodeView>, subs: Seq<Seq<char>>, base: Seq<char>, d: Seq<char>, ids: Seq<Seq<char>>)
    requires
        ids_unique(node_ids(ns)),
    ensures
        ids_unique(node_ids(added_nodes(ns, subs, base, d, ids).0)),
        forall|a: int| 0 <= a < added_nodes(ns, subs, base, d, ids).0.len() ==>
            ns.contains(#[trigger] added_nodes(ns, subs, base, d, ids).0[a])
            || added_nodes(ns, subs, base, d, ids).0[a].properties.len() == 0,
    decreases ids.len(),
{
    if ids.len() > 0 {
        lemma_added_nodes(ns, subs, base, d, ids.drop_last());
        let (ns1, subs1) = added_nodes(ns, subs, base, d, ids.drop_last());
        let id = ids.last();
        if !listed(node_ids(ns1), id) {
            assert(node_ids(ns1.push(new_node_view(id))) =~= node_ids(ns1).push(id));
            lemma_unique_push(node_ids(ns1), id);
            let r = ns1.push(new_node_view(id));
            assert forall|a: int| 0 <= a < r.len() implies ns.contains(#[trigger] r[a]) || r[a].properties.len() == 0 by {
                if a < ns1.len() {
                    assert(r[a] == ns1[a]);
                }
            }
        }
    }
}

/// A `$nodes` message keeps the model well formed.
proof fn lemma_nodes_wf(c: ControllerView, d: Seq<char>, payload: Seq<char>)
    requires
        controller_wf(c),
        nodes_spec(c, d, payload) is Ok,
    ensures
        controller_wf(nodes_spec(c, d, payload)->Ok_0.0),
{
    lemma_paths(c, d, d, d);
    let i = device_path(c, d)->Ok_0;
    let ids = split_spec(payload, ',');
    let dv = c.devices[i];
    assert(device_wf(dv));
    let kept = kept_nodes(dv.nodes, ids);
    lemma_kept_nodes(dv.nodes, ids);
    lemma_added_nodes(kept, Seq::empty(), c.base_topic, d, ids);
    let (ns, subs) = added_nodes(kept, Seq::empty(), c.base_topic, d, ids);
    let dv2 = DeviceView { nodes: ns, ..dv };
    assert forall|j: int| 0 <= j < ns.len() implies node_wf(#[trigger] ns[j]) by {
        if kept.contains(ns[j]) {
            let a = choose|a: int| 0 <= a < kept.len() && kept[a] == ns[j];
            assert(dv.nodes.contains(kept[a]));
            let w = choose|w: int| 0 <= w < dv.nodes.len() && dv.nodes[w] == kept[a];
            assert(node_wf(dv.nodes[w]));
        } else {
            assert(property_ids(ns[j].properties) =~= Seq::<Seq<char>>::empty());
        }
    }
    lemma_with_device_wf(c, i, dv2);
}

/// Adding the listed properties keeps the property IDs different, and the subtopics kept for
/// later too.
proof fn lemma_added_properties(acc: PropertiesAcc, base: Seq<char>, d: Seq<char>, n: Seq<char>, ids: Seq<Seq<char>>)
    requires
        ids_unique(property_ids(acc.properties)),
        ids_unique(keys_of(acc.early)),
    ensures
        ids_unique(property_ids(added_properties(acc, base, d, n, ids).properties)),
        ids_unique(keys_of(added_properties(acc, base, d, n, ids).early)),
    decreases ids.len(),
{
    if ids.len() > 0 {
        lemma_added_properties(acc, base, d, n, ids.drop_last());
        let a1 = added_properties(acc, base, d, n, ids.drop_last());
        let id = ids.last();
        if !listed(property_ids(a1.properties), id) {
            let k = find_id(keys_of(a1.early), topic(seq![d, n, id]));
            lemma_find_id(keys_of(a1.early), topic(seq![d, n, id]));
            let a2 = added_property(a1, base, d, n, id);
            assert(property_ids(a2.properties) =~= property_ids(a1.properties).push(id));
            lemma_unique_push(property_ids(a1.properties), id);
            if k >= 0 {
                assert(keys_of(a1.early.remove(k)) =~= keys_of(a1.early).remove(k));
                lemma_unique_remove(keys_of(a1.early), k);
            }
        }
    }
}

/// A `$properties` message keeps the model well formed.
proof fn lemma_properties_wf(c: ControllerView, d: Seq<char>, n: Seq<char>, payload: Seq<char>)
    requires
        controller_wf(c),
        properties_spec(c, d, n, payload) is Ok,
    ensures
        controller_wf(properties_spec(c, d, n, payload)->Ok_0.0),
{
    lemma_paths(c, d, n, n);
    let (i, j) = node_path(c, d, n)->Ok_0;
    let ids = split_spec(payload, ',');
    let nv = c.devices[i].nodes[j];
    assert(device_wf(c.devices[i]));
    assert(node_wf(nv));
    let kept = kept_properties(nv.properties, ids);
    lemma_kept_properties(nv.properties, ids);
    let nv1 = NodeView { properties: kept, ..nv };
    let acc0 = PropertiesAcc {
        properties: kept,
        early: c.early_property_values,
        events: seq![EventView::NodeUpdated { device_id: d, node_id: nv1.id, has_required_attributes: super::types::node_complete(nv1) }],
        subscribe: Seq::empty(),
    };
    lemma_added_properties(acc0, c.base_topic, d, n, ids);
    let acc = added_properties(acc0, c.base_topic, d, n, ids);
    let nv2 = NodeView { properties: acc.properties, ..nv };
    lemma_with_node_wf(c, i, j, nv2);
}

/// Every message that the controller takes in keeps its model keyed by IDs: devices,
/// the nodes of each device and the properties of each node have different IDs, and at
/// most one value is kept for each subtopic.
pub proof fn lemma_publish_keeps_ids_unique(c: ControllerView, t: Seq<char>, payload: Seq<u8>, retain: bool)
    requires
        controller_wf(c),
        publish_spec(c, t, payload, retain) is Ok,
    ensures
        controller_wf(publish_spec(c, t, payload, retain)->Ok_0.0),
{
    let text = vstd::utf8::decode_utf8(payload);
    let prefix = base_prefix(c.base_topic);
    let sub = t.skip(prefix.len() as int);
    let parts = split_spec(sub, '/');
    if parts.len() == 2 {
        let (dd, a) = (parts[0], parts[1]);
        if a == "$homie"@ {
            lemma_homie_wf(c, dd, text);
        } else if a == "$name"@ {
            lemma_device_update_wf(c, dd, DeviceUpdateView::Name(text));
        } else if a == "$state"@ {
            if let Some(st) = super::types::State::spec_from_str(text) {
                lemma_device_update_wf(c, dd, DeviceUpdateView::State(st));
            }
        } else if a == "$implementation"@ {
            lemma_device_update_wf(c, dd, DeviceUpdateView::Implementation(text));
        } else if a == "$extensions"@ {
            if let Ok(es) = extensions_spec(split_spec(text, ',')) {
                lemma_device_update_wf(c, dd, DeviceUpdateView::Extensions(es));
            }
        } else if a == "$localip"@ {
            lemma_device_update_wf(c, dd, DeviceUpdateView::LocalIp(text));
        } else if a == "$mac"@ {
            lemma_device_update_wf(c, dd, DeviceUpdateView::Mac(text));
        } else if a == "$nodes"@ {
            lemma_nodes_wf(c, dd, text);
        }
    } else if parts.len() == 3 {
        lemma_three_levels_wf(c, sub, parts[0], parts[1], parts[2], text, retain);
    } else if parts.len() == 4 {
        lemma_four_levels_wf(c, parts[0], parts[1], parts[2], parts[3], text);
    }
}

/// A message on a topic of three levels keeps the model well formed.
proof fn lemma_three_levels_wf(c: ControllerView, sub: Seq<char>, d: Seq<char>, x: Seq<char>, y: Seq<char>, payload: Seq<char>, retain: bool)
    requires
        controller_wf(c),
        three_levels_spec(c, sub, d, x, y, payload, retain) is Ok,
    ensures
        controller_wf(three_levels_spec(c, sub, d, x, y, payload, retain)->Ok_0.0),
{
    if x == "$fw"@ && y == "name"@ {
        lemma_device_update_wf(c, d, DeviceUpdateView::FirmwareName(payload));
    } else if x == "$fw"@ && y == "version"@ {
        lemma_device_update_wf(c, d, DeviceUpdateView::FirmwareVersion(payload));
    } else if x == "$stats"@ && known_stat(y) {
        lemma_stat_wf(c, d, y, payload);
    } else if y == "$name"@ {
        lemma_node_update_wf(c, d, x, NodeUpdateView::Name(payload));
    } else if y == "$type"@ {
        lemma_node_update_wf(c, d, x, NodeUpdateView::Type(payload));
    } else if y == "$properties"@ {
        lemma_properties_wf(c, d, x, payload);
    } else if !crate::text::starts_with(d, '$') && !crate::text::starts_with(x, '$') && !crate::text::starts_with(y, '$') {
        lemma_value_wf(c, sub, d, x, y, payload, retain);
    }
}

/// A statistic keeps the model well formed.
proof fn lemma_stat_wf(c: ControllerView, d: Seq<char>, s: Seq<char>, payload: Seq<char>)
    requires
        controller_wf(c),
        stat_spec(c, d, s, payload) is Ok,
    ensures
        controller_wf(stat_spec(c, d, s, payload)->Ok_0.0),
{
    if s == "interval"@ {
        lemma_device_update_wf(c, d, DeviceUpdateView::StatsInterval(crate::text::parse_u64_spec(payload)->0));
    } else if s == "uptime"@ {
        lemma_device_update_wf(c, d, DeviceUpdateView::StatsUptime(crate::text::parse_u64_spec(payload)->0));
    } else if s == "signal"@ {
        lemma_device_update_wf(c, d, DeviceUpdateView::StatsSignal(crate::text::parse_i64_spec(payload)->0));
    } else if s == "cputemp"@ {
        lemma_device_update_wf(c, d, DeviceUpdateView::StatsCputemp(payload));
    } else if s == "cpuload"@ {
        lemma_device_update_wf(c, d, DeviceUpdateView::StatsCpuload(crate::text::parse_i64_spec(payload)->0));
    } else if s == "battery"@ {
        lemma_device_update_wf(c, d, DeviceUpdateView::StatsBattery(crate::text::parse_i64_spec(payload)->0));
    } else if s == "freeheap"@ {
        lemma_device_update_wf(c, d, DeviceUpdateView::StatsFreeheap(crate::text::parse_u64_spec(payload)->0));
    } else {
        lemma_device_update_wf(c, d, DeviceUpdateView::StatsSupply(payload));
    }
}

/// A message on a topic of four levels keeps the model well formed.
proof fn lemma_four_levels_wf(c: ControllerView, d: Seq<char>, n: Seq<char>, p: Seq<char>, a: Seq<char>, payload: Seq<char>)
    requires
        controller_wf(c),
        four_levels_spec(c, d, n, p, a, payload) is Ok,
    ensures
        controller_wf(four_levels_spec(c, d, n, p, a, payload)->Ok_0.0),
{
    if a == "$name"@ {
        lemma_property_update_wf(c, d, n, p, PropertyUpdateView::Name(payload));
    } else if a == "$datatype"@ {
        if let Some(dt) = super::types::Datatype::spec_from_str(payload) {
            lemma_property_update_wf(c, d, n, p, PropertyUpdateView::Datatype(dt));
        }
    } else if a == "$unit"@ {
        lemma_property_update_wf(c, d, n, p, PropertyUpdateView::Unit(payload));
    } else if a == "$format"@ {
        lemma_property_update_wf(c, d, n, p, PropertyUpdateView::Format(payload));
    } else if a == "$settable"@ {
        if let Some(b) = <bool as super::values::Value>::spec_parse(payload) {
            lemma_property_update_wf(c, d, n, p, PropertyUpdateView::Settable(b));
        }
    } else if a == "$retained"@ {
        if let Some(b) = <bool as super::values::Value>::spec_parse(payload) {
            lemma_property_update_wf(c, d, n, p, PropertyUpdateView::Retained(b));
        }
    }
}

/// A controller that has just been made is keyed by IDs, and so is one that starts afresh.
pub proof fn lemma_fresh_controller_ids_unique(c: ControllerView)
    requires
        ids_unique(keys_of(c.early_property_values)),
    ensures
        controller_wf(ControllerView { devices: Seq::empty(), ..c }),
{
    assert(device_ids(Seq::<DeviceView>::empty()) =~= Seq::<Seq<char>>::empty());
}

/// The subtopic under which a value is kept for property `p` of node `n` of device `d`
/// names that property alone.
proof fn lemma_key_injective(d: Seq<char>, n: Seq<char>, a: Seq<char>, b: Seq<char>)
    ensures
        topic(seq![d, n, a]) == topic(seq![d, n, b]) ==> a == b,
{
    let sa = seq![d, n, a];
    let sb = seq![d, n, b];
    assert(sa.drop_last() =~= seq![d, n]);
    assert(sb.drop_last() =~= seq![d, n]);
    assert(seq![d, n].drop_last() =~= seq![d]);
    let pre = crate::text::join_spec(seq![d, n], '/') + seq!['/'];
    assert(topic(sa) == pre + a);
    assert(topic(sb) == pre + b);
    if topic(sa) == topic(sb) {
        assert(a =~= (pre + a).skip(pre.len() as int));
        assert(b =~= (pre + b).skip(pre.len() as int));
    }
}

/// Property `p` is there with value `v`.
pub open spec fn has_value(ps: Seq<PropertyView>, p: Seq<char>, v: Seq<char>) -> bool {
    exists|k: int| 0 <= k < ps.len() && #[trigger] ps[k].id == p && ps[k].value == Some(v)
}

/// A property that is there with a value is listed.
proof fn lemma_has_value_listed(ps: Seq<PropertyView>, p: Seq<char>, v: Seq<char>)
    ensures
        has_value(ps, p, v) ==> listed(property_ids(ps), p),
{
    lemma_find_id(property_ids(ps), p);
    if has_value(ps, p, v) {
        let w = choose|w: int| 0 <= w < ps.len() && #[trigger] ps[w].id == p && ps[w].value == Some(v);
        assert(property_ids(ps)[w] == p);
    }
}

/// Property `p` is not there, and `v` is kept for it.
pub open spec fn kept_for(acc: PropertiesAcc, d: Seq<char>, n: Seq<char>, p: Seq<char>, v: Seq<char>) -> bool {
    &&& !listed(property_ids(acc.properties), p)
    &&& exists|e: int| 0 <= e < acc.early.len() && #[trigger] acc.early[e] == (topic(seq![d, n, p]), v)
}

/// Adding listed properties: a property that has a value keeps it, and a property that is
/// listed and has a value kept for it takes that value.
proof fn lemma_added_takes_kept(acc: PropertiesAcc, base: Seq<char>, d: Seq<char>, n: Seq<char>, ids: Seq<Seq<char>>, p: Seq<char>, v: Seq<char>)
    requires
        ids_unique(keys_of(acc.early)),
        has_value(acc.properties, p, v) || kept_for(acc, d, n, p, v),
    ensures
        (has_value(acc.properties, p, v) || listed(ids, p)) ==> has_value(added_properties(acc, base, d, n, ids).properties, p, v),
        (!has_value(acc.properties, p, v) && !listed(ids, p)) ==> kept_for(added_properties(acc, base, d, n, ids), d, n, p, v),
        ids_unique(keys_of(added_properties(acc, base, d, n, ids).early)),
    decreases ids.len(),
{
    if ids.len() > 0 {
        let ids1 = ids.drop_last();
        lemma_added_takes_kept(acc, base, d, n, ids1, p, v);
        let r1 = added_properties(acc, base, d, n, ids1);
        let id = ids.last();
        let r = added_property(r1, base, d, n, id);
        assert(r == added_properties(acc, base, d, n, ids));
        let key = topic(seq![d, n, id]);
        let k = find_id(keys_of(r1.early), key);
        lemma_find_id(keys_of(r1.early), key);
        lemma_has_value_listed(r1.properties, p, v);
        lemma_has_value_listed(acc.properties, p, v);
        assert(listed(ids, p) == (listed(ids1, p) || id == p));
        if !listed(property_ids(r1.properties), id) {
            assert(property_ids(r.properties) =~= property_ids(r1.properties).push(id));
            if k >= 0 {
                assert(keys_of(r1.early.remove(k)) =~= keys_of(r1.early).remove(k));
                lemma_unique_remove(keys_of(r1.early), k);
            }
            if has_value(r1.properties, p, v) {
                let w = choose|w: int| 0 <= w < r1.properties.len() && #[trigger] r1.properties[w].id == p && r1.properties[w].value == Some(v);
                assert(r.properties[w] == r1.properties[w]);
            } else if kept_for(r1, d, n, p, v) {
                let e = choose|e: int| 0 <= e < r1.early.len() && #[trigger] r1.early[e] == (topic(seq![d, n, p]), v);
                if id == p {
                    assert(keys_of(r1.early)[e] == key);
                    assert(k == e) by {
                        if k < e {
                        } else if k > e {
                            assert(keys_of(r1.early)[e] != key);
                        }
                    }
                    let last = r.properties.len() - 1;
                    assert(r.properties[last].id == p && r.properties[last].value == Some(v));
                } else {
                    lemma_key_injective(d, n, id, p);
                    lemma_find_id(property_ids(r1.properties), p);
                    assert(!listed(property_ids(r.properties), p)) by {
                        lemma_find_id(property_ids(r.properties), p);
                        if listed(property_ids(r.properties), p) {
                            let w = find_id(property_ids(r.properties), p);
                            if w < r1.properties.len() {
                                assert(property_ids(r1.properties)[w] == p);
                            }
                        }
                    }
                    if k >= 0 {
                        assert(keys_of(r1.early)[k] == key);
                        assert(k != e);
                        let e2 = if e < k { e } else { e - 1 };
                        assert(r.early[e2] == r1.early[e]);
                    } else {
                        assert(r.early[e] == r1.early[e]);
                    }
                }
            }
        } else {
            if !has_value(r1.properties, p, v) && kept_for(r1, d, n, p, v) {
                assert(id != p);
            }
        }
    }
}

/// A value that the broker delivered retained for a property before its node listed the
/// property is the property's value as soon as the node's `$properties` lists it.
pub proof fn lemma_early_value_taken(c: ControllerView, d: Seq<char>, n: Seq<char>, p: Seq<char>, v: Seq<char>, payload: Seq<char>)
    requires
        controller_wf(c),
        node_path(c, d, n) is Ok,
        !listed(property_ids(c.devices[node_path(c, d, n)->Ok_0.0].nodes[node_path(c, d, n)->Ok_0.1].properties), p),
        listed(split_spec(payload, ','), p),
        exists|e: int| 0 <= e < c.early_property_values.len()
            && #[trigger] c.early_property_values[e] == (topic(seq![d, n, p]), v),
    ensures
        properties_spec(c, d, n, payload) is Ok,
        has_value(
            properties_spec(c, d, n, payload)->Ok_0.0.devices[node_path(c, d, n)->Ok_0.0].nodes[node_path(c, d, n)->Ok_0.1].properties,
            p,
            v,
        ),
{
    lemma_paths(c, d, n, n);
    let (i, j) = node_path(c, d, n)->Ok_0;
    let ids = split_spec(payload, ',');
    let nv = c.devices[i].nodes[j];
    assert(device_wf(c.devices[i]));
    assert(node_wf(nv));
    let kept = kept_properties(nv.properties, ids);
    lemma_kept_properties(nv.properties, ids);
    let nv1 = NodeView { properties: kept, ..nv };
    let acc0 = PropertiesAcc {
        properties: kept,
        early: c.early_property_values,
        events: seq![EventView::NodeUpdated { device_id: d, node_id: nv1.id, has_required_attributes: super::types::node_complete(nv1) }],
        subscribe: Seq::empty(),
    };
    lemma_find_id(property_ids(nv.properties), p);
    lemma_find_id(property_ids(kept), p);
    if listed(property_ids(kept), p) {
        let w = find_id(property_ids(kept), p);
        assert(nv.properties.contains(kept[w]));
        let z = choose|z: int| 0 <= z < nv.properties.len() && nv.properties[z] == kept[w];
        assert(property_ids(nv.properties)[z] == p);
        assert(false);
    }
    if has_value(kept, p, v) {
        let w = choose|w: int| 0 <= w < kept.len() && #[trigger] kept[w].id == p && kept[w].value == Some(v);
        assert(property_ids(kept)[w] == p);
        assert(false);
    }
    assert(!listed(property_ids(nv.properties), p));
    assert(!listed(property_ids(kept), p));
    let e = choose|e: int| 0 <= e < c.early_property_values.len()
        && #[trigger] c.early_property_values[e] == (topic(seq![d, n, p]), v);
    assert(acc0.early[e] == (topic(seq![d, n, p]), v));
    assert(kept_for(acc0, d, n, p, v));
    lemma_added_takes_kept(acc0, c.base_topic, d, n, ids, p, v);
}

/// A `$settable` or `$retained` message about a known property whose payload is "true" or
/// "false" sets that attribute of the property to the boolean that the payload spells, and
/// leaves the rest of the property as it was.
pub proof fn lemma_boolean_attributes(c: ControllerView, d: Seq<char>, n: Seq<char>, p: Seq<char>, payload: Seq<char>)
    requires
        property_path(c, d, n, p) is Ok,
        payload == "true"@ || payload == "false"@,
    ensures
        ({
            let (i, j, k) = property_path(c, d, n, p)->Ok_0;
            let old_p = c.devices[i].nodes[j].properties[k];
            &&& four_levels_spec(c, d, n, p, "$retained"@, payload) matches Ok((c2, _))
                && c2.devices[i].nodes[j].properties[k] == (PropertyView { retained: payload == "true"@, ..old_p })
            &&& four_levels_spec(c, d, n, p, "$settable"@, payload) matches Ok((c3, _))
                && c3.devices[i].nodes[j].properties[k] == (PropertyView { settable: payload == "true"@, ..old_p })
        }),
{
    reveal_strlit("true");
    reveal_strlit("false");
    reveal_strlit("$name");
    reveal_strlit("$datatype");
    reveal_strlit("$unit");
    reveal_strlit("$format");
    reveal_strlit("$settable");
    reveal_strlit("$retained");
    assert("true"@ != "false"@) by { assert("true"@.len() != "false"@.len()); }
    assert("$retained"@ != "$name"@) by { assert("$retained"@.len() != "$name"@.len()); }
    assert("$retained"@ != "$unit"@) by { assert("$retained"@.len() != "$unit"@.len()); }
    assert("$retained"@ != "$format"@) by { assert("$retained"@.len() != "$format"@.len()); }
    assert("$retained"@ != "$datatype"@) by { assert("$retained"@[1] != "$datatype"@[1]); }
    assert("$retained"@ != "$settable"@) by { assert("$retained"@[1] != "$settable"@[1]); }
    assert("$settable"@ != "$name"@) by { assert("$settable"@.len() != "$name"@.len()); }
    assert("$settable"@ != "$unit"@) by { assert("$settable"@.len() != "$unit"@.len()); }
    assert("$settable"@ != "$format"@) by { assert("$settable"@.len() != "$format"@.len()); }
    assert("$settable"@ != "$datatype"@) by { assert("$settable"@[1] != "$datatype"@[1]); }
    let (i, j, k) = property_path(c, d, n, p)->Ok_0;
    lemma_find_id(device_ids(c.devices), d);
    assert(0 <= i < c.devices.len());
    lemma_find_id(node_ids(c.devices[i].nodes), n);
    assert(0 <= j < c.devices[i].nodes.len());
    lemma_find_id(property_ids(c.devices[i].nodes[j].properties), p);
    assert(0 <= k < c.devices[i].nodes[j].properties.len());
    let b = payload == "true"@;
    assert(<bool as super::values::Value>::spec_parse(payload) == Some(b));
    let old_p = c.devices[i].nodes[j].properties[k];
    let pr = updated_property(old_p, PropertyUpdateView::Retained(b));
    assert(with_property(c, i, j, k, pr).devices[i].nodes[j].properties[k] == pr);
    let ps = updated_property(old_p, PropertyUpdateView::Settable(b));
    assert(with_property(c, i, j, k, ps).devices[i].nodes[j].properties[k] == ps);
}

/// A `$name`, `$unit` or `$format` message about a known property sets that attribute of the
/// property to the payload, and leaves the rest of the property as it was.
pub proof fn lemma_text_attributes(c: ControllerView, d: Seq<char>, n: Seq<char>, p: Seq<char>, payload: Seq<char>)
    requires
        property_path(c, d, n, p) is Ok,
    ensures
        ({
            let (i, j, k) = property_path(c, d, n, p)->Ok_0;
            let old_p = c.devices[i].nodes[j].properties[k];
            &&& four_levels_spec(c, d, n, p, "$name"@, payload) matches Ok((c2, _))
                && c2.devices[i].nodes[j].properties[k] == (PropertyView { name: Some(payload), ..old_p })
            &&& four_levels_spec(c, d, n, p, "$unit"@, payload) matches Ok((c3, _))
                && c3.devices[i].nodes[j].properties[k] == (PropertyView { unit: Some(payload), ..old_p })
            &&& four_levels_spec(c, d, n, p, "$format"@, payload) matches Ok((c4, _))
                && c4.devices[i].nodes[j].properties[k] == (PropertyView { format: Some(payload), ..old_p })
        }),
{
    reveal_strlit("$name");
    reveal_strlit("$datatype");
    reveal_strlit("$unit");
    reveal_strlit("$format");
    assert("$unit"@ != "$name"@) by { assert("$unit"@[1] != "$name"@[1]); }
    assert("$unit"@ != "$datatype"@) by { assert("$unit"@.len() != "$datatype"@.len()); }
    assert("$format"@ != "$name"@) by { assert("$format"@.len() != "$name"@.len()); }
    assert("$format"@ != "$datatype"@) by { assert("$format"@.len() != "$datatype"@.len()); }
    assert("$format"@ != "$unit"@) by { assert("$format"@.len() != "$unit"@.len()); }
    let (i, j, k) = property_path(c, d, n, p)->Ok_0;
    lemma_find_id(device_ids(c.devices), d);
    lemma_find_id(node_ids(c.devices[i].nodes), n);
    lemma_find_id(property_ids(c.devices[i].nodes[j].properties), p);
    let old_p = c.devices[i].nodes[j].properties[k];
    let a = updated_property(old_p, PropertyUpdateView::Name(payload));
    assert(with_property(c, i, j, k, a).devices[i].nodes[j].properties[k] == a);
    let b = updated_property(old_p, PropertyUpdateView::Unit(payload));
    assert(with_property(c, i, j, k, b).devices[i].nodes[j].properties[k] == b);
    let f = updated_property(old_p, PropertyUpdateView::Format(payload));
    assert(with_property(c, i, j, k, f).devices[i].nodes[j].properties[k] == f);
}

} // verus!
