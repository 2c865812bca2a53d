//! Sensor decoding and Homie convention logic for Bluetooth thermometers bridged to MQTT.

pub mod text;
pub mod btsensor;
pub mod homie_controller;
pub mod homie_device;
pub mod bluez;
pub mod config;
pub mod sensors;
pub mod ui;
pub mod influx;
