//! Settings of the program that stores the values of Homie properties in InfluxDB.

use super::{credentials, credentials_spec, credentials_view, MqttSettings, KEEP_ALIVE_SECS};
use crate::text::{opt_view, topic};
use vstd::prelude::*;

verus! {

/// How to connect to the MQTT broker.
#[derive(Clone, Debug, Eq, PartialEq)]
pub struct MqttConfig {
    pub host: String,
    pub port: u16,
    pub use_tls: bool,
    pub username: Option<String>,
    pub password: Option<String>,
    /// The start of the client name, which goes on with the Homie base topic.
    pub client_prefix: String,
    /// Seconds to wait before reconnecting after the connection to the broker is lost.
    pub reconnect_interval_secs: u64,
}

impl Default for MqttConfig {
    fn default() -> (c: MqttConfig)
        ensures
            c.host@ == "test.mosquitto.org"@,
            c.port == 1883,
            !c.use_tls,
            c.username is None,
            c.password is None,
            c.client_prefix@ == "homie-influx"@,
            c.reconnect_interval_secs == 5,
    {
        MqttConfig {
            host: "test.mosquitto.org".to_owned(),
            port: 1883,
            use_tls: false,
            username: None,
            password: None,
            client_prefix: "homie-influx".to_owned(),
            reconnect_interval_secs: 5,
        }
    }
}

/// Where the mappings are configured.
#[derive(Clone, Debug, Eq, PartialEq)]
pub struct HomieConfig {
    pub mappings_filename: String,
}

impl Default for HomieConfig {
    fn default() -> (c: HomieConfig)
        ensures
            c.mappings_filename@ == "mappings.toml"@,
    {
        HomieConfig { mappings_filename: "mappings.toml".to_owned() }
    }
}

/// How to connect to InfluxDB.
#[derive(Clone, Debug, Eq, PartialEq)]
pub struct InfluxDBConfig {
    pub url: String,
    pub username: Option<String>,
    pub password: Option<String>,
}

impl Default for InfluxDBConfig {
    fn default() -> (c: InfluxDBConfig)
        ensures
            c.url@ == "http://localhost:8086"@,
            c.username is None,
            c.password is None,
    {
        InfluxDBConfig { url: "http://localhost:8086".to_owned(), username: None, password: None }
    }
}

/// All the settings.
#[derive(Clone, Debug, Default, Eq, PartialEq)]
pub struct Config {
    pub mqtt: MqttConfig,
    pub homie: HomieConfig,
    pub influxdb: InfluxDBConfig,
}

/// A Homie base topic to follow, and the InfluxDB database where its values go.
#[derive(Clone, Debug, Eq, PartialEq)]
pub struct Mapping {
    pub homie_prefix: String,
    pub influxdb_database: String,
}

/// The mappings as the mappings file lists them.
#[derive(Clone, Debug, Eq, PartialEq)]
pub struct MappingsConfig {
    pub mappings: Vec<Mapping>,
}

/// The mappings file configures no mapping.
#[derive(Clone, Debug, Eq, PartialEq)]
pub struct NoMappings;

/// The mappings configured, of which there must be at least one.
pub fn mappings_of(config: MappingsConfig) -> (r: Result<Vec<Mapping>, NoMappings>)
    ensures
        match r {
            Ok(ms) => ms@ == config.mappings@ && ms@.len() > 0,
            Err(_) => config.mappings@.len() == 0,
        },
{
    if config.mappings.len() == 0 {
        Err(NoMappings)
    } else {
        Ok(config.mappings)
    }
}

/// How to connect to the broker to follow a Homie base topic: as the configured client prefix
/// and the base topic joined by '-', so that each client name is unique, keeping the session,
/// with the configured credentials where both are given, pinging after a few seconds of
/// inactivity.
pub fn mqtt_settings(config: &MqttConfig, client_name_suffix: &str) -> (s: MqttSettings)
    ensures
        s.client_id@ == config.client_prefix@ + "-"@ + client_name_suffix@,
        s.host@ == config.host@,
        s.port == config.port,
        s.keep_alive_secs == KEEP_ALIVE_SECS,
        credentials_view(s.credentials) == credentials_spec(opt_view(config.username), opt_view(config.password)),
        s.use_tls == config.use_tls,
        !s.clean_session,
{
    let mut client_id = config.client_prefix.clone();
    client_id.append("-");
    client_id.append(client_name_suffix);
    MqttSettings {
        client_id,
        host: config.host.clone(),
        port: config.port,
        keep_alive_secs: KEEP_ALIVE_SECS,
        credentials: credentials(&config.username, &config.password),
        use_tls: config.use_tls,
        clean_session: false,
    }
}

} // verus!
