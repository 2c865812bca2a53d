use mijia_homie::bluez::macaddress::MacAddress;
use mijia_homie::config::homie_influx::{mappings_of, Mapping, MappingsConfig, NoMappings};
use mijia_homie::config::{applehat, homie_influx, mijia_homie as mijia};

#[test]
fn config_defaults() {
    let a = applehat::Config::default();
    assert_eq!(a.mqtt.host, "test.mosquitto.org");
    assert_eq!(a.mqtt.port, 1883);
    assert_eq!(a.mqtt.client_name, "applehat");
    assert_eq!(a.mqtt.reconnect_interval_secs, 5);
    assert_eq!(a.homie.prefix, "homie");

    let m = mijia::Config::default();
    assert_eq!(m.homie.device_id, "mijia-bridge");
    assert_eq!(m.homie.device_name, "Mijia bridge");
    assert_eq!(m.homie.sensor_names_filename, "sensor-names.toml");
    assert_eq!(m.homie.min_update_period_secs, 0);
    assert_eq!(m.mqtt.client_name, None);
    assert_eq!(mijia::device_base(&m.homie), "homie/mijia-bridge");

    let h = homie_influx::Config::default();
    assert_eq!(h.mqtt.client_prefix, "homie-influx");
    assert_eq!(h.homie.mappings_filename, "mappings.toml");
    assert_eq!(h.influxdb.url, "http://localhost:8086");
}

#[test]
fn mqtt_settings_follow_config() {
    let mut m = mijia::MqttConfig::default();
    let s = mijia::mqtt_settings(&m, "bridge");
    assert_eq!(s.client_id, "bridge");
    assert_eq!(s.keep_alive_secs, 5);
    assert_eq!(s.credentials, None);
    m.client_name = Some("client".to_owned());
    m.username = Some("user".to_owned());
    assert_eq!(mijia::mqtt_settings(&m, "bridge").credentials, None);
    m.password = Some("pass".to_owned());
    let s = mijia::mqtt_settings(&m, "bridge");
    assert_eq!(s.client_id, "client");
    assert_eq!(s.credentials, Some(("user".to_owned(), "pass".to_owned())));

    let h = homie_influx::MqttConfig::default();
    let s = homie_influx::mqtt_settings(&h, "homie");
    assert_eq!(s.client_id, "homie-influx-homie");
    assert!(!s.clean_session);

    let a = applehat::MqttConfig::default();
    assert_eq!(applehat::mqtt_settings(&a).client_id, "applehat");
}

#[test]
fn mappings_need_at_least_one() {
    assert_eq!(mappings_of(MappingsConfig { mappings: vec![] }), Err(NoMappings));
    let one = Mapping { homie_prefix: "homie".to_owned(), influxdb_database: "db".to_owned() };
    assert_eq!(mappings_of(MappingsConfig { mappings: vec![one.clone()] }), Ok(vec![one]));
}

#[test]
fn sensor_name_line_format() {
    let mac: MacAddress = "a4:c1:38:12:34:56".parse().unwrap();
    assert_eq!(mijia::sensor_name_line(&mac, "Living room"), "\"A4:C1:38:12:34:56\" = \"Living room\"\n");
    assert_eq!(mijia::sensor_name_line(&mac, "failed"), "\"A4:C1:38:12:34:56\" = \"failed\"\n");
}
