# mijia_homie

Verified logic for bridging Bluetooth thermometers to MQTT with the Homie convention, and for
the programs around it: a Homie controller, a Homie device, an InfluxDB writer and a display
for a Rainbow HAT.

- `src/` is the library, verified with Verus:
  - `btsensor`: decoding of BLE advertisements (atc1441, pvvx, BTHome v1 and v2) and their text.
  - `bluez`: D-Bus object IDs, MAC addresses, address types, characteristic flags, and the
    information gathered from the properties that BlueZ reports of adapters and devices.
  - `homie_controller`: the model of discovered devices, typed property values, and the
    handling of each message from the broker, with its laws in `laws.rs`.
  - `homie_device`: the device lifecycle, the messages that publish nodes and values, and the
    decisions of the device's event loop.
  - `sensors`: which sensors are connected, when to scan, connect and give up, and what each
    reading publishes.
  - `influx`: the InfluxDB points stored for property values.
  - `ui`: what the Rainbow HAT shows and how its buttons move the selection.
  - `config`: configuration defaults and the broker settings derived from them.
  - `text`: string helpers and the text formats shared by the modules above.
- `app/` is ordinary Rust around the library: configuration files, the MQTT client, async
  tasks, and floating-point conversions.
- `tests/` runs the library on concrete values.
