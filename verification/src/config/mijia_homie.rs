//! Settings of the bridge that publishes Mijia sensor readings as a Homie device.

use super::{credentials, credentials_spec, credentials_view, MqttSettings, KEEP_ALIVE_SECS};
use crate::bluez::macaddress::MacAddress;
use crate::text::opt_view;
use vstd::string::StringExecFns;
use vstd::prelude::*;

verus! {

/// How to connect to the MQTT broker.
#[derive(Clone, Debug, Eq, PartialEq)]
pub struct MqttConfig {
    pub host: String,
    pub port: u16,
    pub use_tls: bool,
    pub username: Option<String>,
    pub password: Option<String>,
    /// The client name; the device ID where it is not given.
    pub client_name: Option<String>,
}

impl Default for MqttConfig {
    fn default() -> (c: MqttConfig)
        ensures
            c.host@ == "test.mosquitto.org"@,
            c.port == 1883,
            !c.use_tls,
            c.username is None,
            c.password is None,
            c.client_name is None,
    {
        MqttConfig {
            host: "test.mosquitto.org".to_owned(),
            port: 1883,
            use_tls: false,
            username: None,
            password: None,
            client_name: None,
        }
    }
}

/// The Homie device that the bridge is.
#[derive(Clone, Debug, Eq, PartialEq)]
pub struct HomieConfig {
    pub device_id: String,
    pub device_name: String,
    /// The Homie base topic.
    pub prefix: String,
    /// The file that names the sensors by their MAC addresses.
    pub sensor_names_filename: String,
    /// The least time between consecutive readings sent for one sensor, in seconds.
    pub min_update_period_secs: u64,
}

impl Default for HomieConfig {
    fn default() -> (c: HomieConfig)
        ensures
            c.device_id@ == "mijia-bridge"@,
            c.device_name@ == "Mijia bridge"@,
            c.prefix@ == "homie"@,
            c.sensor_names_filename@ == "sensor-names.toml"@,
            c.min_update_period_secs == 0,
    {
        HomieConfig {
            device_id: "mijia-bridge".to_owned(),
            device_name: "Mijia bridge".to_owned(),
            prefix: "homie".to_owned(),
            sensor_names_filename: "sensor-names.toml".to_owned(),
            min_update_period_secs: 0,
        }
    }
}

/// All the settings.
#[derive(Clone, Debug, Default, Eq, PartialEq)]
pub struct Config {
    pub mqtt: MqttConfig,
    pub homie: HomieConfig,
}

/// How to connect to the broker: as the configured client, or as the device where no client
/// name is configured, with the configured credentials where both are given, pinging after a
/// few seconds of inactivity.
pub fn mqtt_settings(config: &MqttConfig, device_id: &str) -> (s: MqttSettings)
    ensures
        s.client_id@ == (match opt_view(config.client_name) {
            Some(n) => n,
            None => device_id@,
        }),
        s.host@ == config.host@,
        s.port == config.port,
        s.keep_alive_secs == KEEP_ALIVE_SECS,
        credentials_view(s.credentials) == credentials_spec(opt_view(config.username), opt_view(config.password)),
        s.use_tls == config.use_tls,
        s.clean_session,
{
    let client_id = match &config.client_name {
        Some(n) => n.clone(),
        None => device_id.to_owned(),
    };
    MqttSettings {
        client_id,
        host: config.host.clone(),
        port: config.port,
        keep_alive_secs: KEEP_ALIVE_SECS,
        credentials: credentials(&config.username, &config.password),
        use_tls: config.use_tls,
        clean_session: true,
    }
}

/// The base topic of the bridge's Homie device: the Homie base topic, then the device ID.
pub fn device_base(config: &HomieConfig) -> (b: String)
    ensures
        b@ == crate::text::topic(seq![config.prefix@, config.device_id@]),
{
    crate::text::topic2(config.prefix.as_str(), config.device_id.as_str())
}

/// The line of the sensor names file that names a sensor: `"MAC" = "name"`, ended by a newline.
pub fn sensor_name_line(mac: &MacAddress, name: &str) -> (line: String)
    ensures
        line@ == "\""@ + mac@ + "\" = \""@ + name@ + "\"\n"@,
{
    let mut line = String::new();
    line.append("\"");
    line.append(mac.as_str());
    line.append("\" = \"");
    line.append(name);
    line.append("\"\n");
    line
}

} // verus!
