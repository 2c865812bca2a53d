//! The controller side of the Homie convention: the model of discovered devices, nodes and
//! properties, typed property values, and the handling of messages from the MQTT broker.

pub mod controller;
pub mod laws;
pub mod types;
pub mod values;

pub use self::controller::{Event, HandleError, HomieController, PublishResponse};
pub use self::types::{Datatype, Device, Extension, Node, ParseDatatypeError, ParseExtensionError, ParseStateError, Property, State};
pub use self::values::{Color, ColorFormat, ColorHsv, ColorRgb, EnumValue, FloatValue, ParseColorError, ParseEnumError, Value, ValueError};
