//! Settings of the program that shows sensor readings on a Rainbow HAT.

use super::{credentials, credentials_spec, credentials_view, MqttSettings, KEEP_ALIVE_SECS};
use crate::text::opt_view;
use vstd::prelude::*;

verus! {

/// How to connect to the MQTT broker.
#[derive(Clone, Debug, Eq, PartialEq)]
pub struct MqttConfig {
    pub host: String,
    pub port: u16,
    pub use_tls: bool,
    pub username: Option<String>,
    pub password: Option<String>,
    pub client_name: String,
    /// Seconds to wait before reconnecting after the connection to the broker is lost.
    pub reconnect_interval_secs: u64,
}

impl Default for MqttConfig {
    fn default() -> (c: MqttConfig)
        ensures
            c.host@ == "test.mosquitto.org"@,
            c.port == 1883,
            !c.use_tls,
            c.username is None,
            c.password is None,
            c.client_name@ == "applehat"@,
            c.reconnect_interval_secs == 5,
    {
        MqttConfig {
            host: "test.mosquitto.org".to_owned(),
            port: 1883,
            use_tls: false,
            username: None,
            password: None,
            client_name: "applehat".to_owned(),
            reconnect_interval_secs: 5,
        }
    }
}

/// Which Homie devices to show.
#[derive(Clone, Debug, Eq, PartialEq)]
pub struct HomieConfig {
    /// The Homie base topic.
    pub prefix: String,
}

impl Default for HomieConfig {
    fn default() -> (c: HomieConfig)
        ensures
            c.prefix@ == "homie"@,
    {
        HomieConfig { prefix: "homie".to_owned() }
    }
}

/// All the settings.
#[derive(Clone, Debug, Default, Eq, PartialEq)]
pub struct Config {
    pub mqtt: MqttConfig,
    pub homie: HomieConfig,
}

/// How to connect to the broker: as the configured client, with the configured credentials
/// where both are given, pinging after a few seconds of inactivity.
pub fn mqtt_settings(config: &MqttConfig) -> (s: MqttSettings)
    ensures
        s.client_id@ == config.client_name@,
        s.host@ == config.host@,
        s.port == config.port,
        s.keep_alive_secs == KEEP_ALIVE_SECS,
        credentials_view(s.credentials) == credentials_spec(opt_view(config.username), opt_view(config.password)),
        s.use_tls == config.use_tls,
        s.clean_session,
{
    MqttSettings {
        client_id: config.client_name.clone(),
        host: config.host.clone(),
        port: config.port,
        keep_alive_secs: KEEP_ALIVE_SECS,
        credentials: credentials(&config.username, &config.password),
        use_tls: config.use_tls,
        clean_session: true,
    }
}

} // verus!
