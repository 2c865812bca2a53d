//! The device side of the Homie convention: the description of a device's nodes and
//! properties, and its lifecycle.

pub mod device;
pub mod types;

pub use self::types::{Node, Property};
pub use crate::homie_controller::types::Datatype;
pub use crate::homie_controller::values::{Color, ColorFormat, ColorHsv, ColorRgb, ParseColorError};
