//! The settings of the programs built on the library, with their defaults, and the MQTT
//! connection settings that follow from them.

pub mod applehat;
pub mod homie_influx;
pub mod mijia_homie;

use vstd::prelude::*;

verus! {

/// The seconds of inactivity after which the MQTT client pings the broker.
pub const KEEP_ALIVE_SECS: u64 = 5;

/// How to connect to the MQTT broker: the client's name, the broker's host and port, the
/// keep-alive interval, the credentials if any, whether to use TLS, and whether the broker
/// is to start a clean session.
#[derive(Clone, Debug, Eq, PartialEq)]
pub struct MqttSettings {
    pub client_id: String,
    pub host: String,
    pub port: u16,
    pub keep_alive_secs: u64,
    pub credentials: Option<(String, String)>,
    pub use_tls: bool,
    pub clean_session: bool,
}

/// The credentials, where both a username and a password are given.
pub open spec fn credentials_spec(username: Option<Seq<char>>, password: Option<Seq<char>>) -> Option<(Seq<char>, Seq<char>)> {
    match (username, password) {
        (Some(u), Some(p)) => Some((u, p)),
        _ => None,
    }
}

/// The credentials taken by their characters.
pub open spec fn credentials_view(c: Option<(String, String)>) -> Option<(Seq<char>, Seq<char>)> {
    match c {
        Some((u, p)) => Some((u@, p@)),
        None => None,
    }
}

/// The credentials, where both a username and a password are given.
pub fn credentials(username: &Option<String>, password: &Option<String>) -> (c: Option<(String, String)>)
    ensures
        credentials_view(c) == credentials_spec(crate::text::opt_view(*username), crate::text::opt_view(*password)),
{
    match (username, password) {
        (Some(u), Some(p)) => Some((u.clone(), p.clone())),
        _ => None,
    }
}

} // verus!
