use mijia_homie::homie_controller::types::{Datatype, Device, Node, Property, State};
use mijia_homie::ui::{colour_for_node, find_nodes, print_str_decimal, DisplayOp, DisplayText, UiState};

fn sensor_node(id: &str, temperature: Option<&str>, humidity: Option<&str>) -> Node {
    let mut node = Node::new(id);
    let mut t = Property::new("temperature");
    t.datatype = Some(Datatype::Float);
    t.value = temperature.map(|v| v.to_owned());
    let mut h = Property::new("humidity");
    h.datatype = Some(Datatype::Integer);
    h.value = humidity.map(|v| v.to_owned());
    node.add_property(t);
    node.add_property(h);
    node
}

fn devices() -> Vec<Device> {
    let mut ready = Device::new("bridge", "4.0");
    ready.state = State::Ready;
    ready.add_node(sensor_node("kitchen", Some("21.5"), Some("40")));
    ready.add_node(Node::new("other"));
    ready.add_node(sensor_node("bedroom", None, Some("55")));
    let mut sleeping = Device::new("sleepy", "4.0");
    sleeping.state = State::Sleeping;
    sleeping.add_node(sensor_node("attic", Some("30"), Some("20")));
    vec![ready, sleeping]
}

fn digit(position: usize, c: char, decimal: bool) -> DisplayOp {
    DisplayOp::Digit { position, c, decimal }
}

#[test]
fn finds_temperature_and_humidity_nodes_on_ready_devices() {
    assert_eq!(find_nodes(&devices()), vec![(0, 0), (0, 2)]);
}

#[test]
fn display_selects_first_node_and_shows_value() {
    let devices = devices();
    let mut ui = UiState::new();
    let display = ui.update_display(&devices);
    assert_eq!(display.pixels.len(), 7);
    assert_eq!(display.pixels[0], Some((0, 0, false)));
    assert_eq!(display.pixels[1], Some((0, 2, false)));
    assert_eq!(display.pixels[2], None);
    assert_eq!(ui.selected_device_id.as_deref(), Some("bridge"));
    assert_eq!(ui.selected_node_id.as_deref(), Some("kitchen"));
    assert_eq!(display.text, DisplayText::Value { value: "21.5".to_owned(), unit: None });

    let display = ui.update_display(&devices);
    assert_eq!(display.pixels[0], Some((0, 0, true)));
}

#[test]
fn buttons_change_selection() {
    let devices = devices();
    let mut ui = UiState::new();
    ui.update_display(&devices);

    // Button A selects the next node, going round.
    let shown = ui.update_button_state([true, false, false], &devices);
    assert_eq!(shown.len(), 1);
    assert_eq!(ui.selected_node_id.as_deref(), Some("bedroom"));
    assert_eq!(shown[0].text, DisplayText::Unknown);
    // Held down: no new press.
    assert!(ui.update_button_state([true, false, false], &devices).is_empty());
    ui.update_button_state([false, false, false], &devices);
    ui.update_button_state([true, false, false], &devices);
    assert_eq!(ui.selected_node_id.as_deref(), Some("kitchen"));

    // Button B switches to humidity, shown with a unit.
    let shown = ui.update_button_state([true, true, false], &devices);
    assert_eq!(ui.selected_property_id, "humidity");
    assert_eq!(shown[0].text, DisplayText::Value { value: "40".to_owned(), unit: Some('%') });
    ui.button_pressed(1, &devices);
    assert_eq!(ui.selected_property_id, "temperature");

    // A node that went away.
    ui.selected_node_id = Some("gone".to_owned());
    assert_eq!(ui.update_display(&devices).text, DisplayText::Gone);
    // Nothing to select.
    let mut empty = UiState::new();
    assert_eq!(empty.update_display(&vec![]).text, DisplayText::Blank);
}

#[test]
fn decimal_numbers_are_right_aligned() {
    assert_eq!(
        print_str_decimal("21.5", None),
        vec![digit(0, ' ', false), digit(1, '2', false), digit(2, '1', false), DisplayOp::Decimal { position: 2 }, digit(3, '5', false)]
    );
    assert_eq!(
        print_str_decimal("40", Some('%')),
        vec![digit(0, ' ', false), digit(1, '4', false), digit(2, '0', false), digit(3, '%', false)]
    );
    assert_eq!(
        print_str_decimal(".5", None),
        vec![digit(0, ' ', false), digit(1, ' ', false), digit(2, ' ', false), DisplayOp::Decimal { position: 2 }, digit(3, '5', false)]
    );
    assert_eq!(
        print_str_decimal("123456", None),
        vec![digit(0, '1', false), digit(1, '2', false), digit(2, '3', false), digit(3, '4', false)]
    );
    assert_eq!(print_str_decimal(".", None)[4], DisplayOp::Decimal { position: 3 });
}

#[test]
fn colours_follow_readings() {
    assert_eq!(colour_for_node(127, 40, false), (127, 102, 0));
    assert_eq!(colour_for_node(0, 100, true), (0, 255, 128));
    assert_eq!(colour_for_node(0, -10, false), (0, 231, 0));
}
