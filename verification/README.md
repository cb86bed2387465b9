# nanopulse_core

The logic of the NanoPulse IoT toolkit (devices, gateways and server), as a
library verified with Verus.

- `src/` — the verified library:
  - `device`, `context`: the device's protocol state machine (key exchange,
    activation, telemetry and state uplinks, replay protection) and its flash
    records.
  - `jitqueue`, `semtech_helpers`, `semtech_sx1302`, `gateway_config`,
    `gateway_mqtt`: the gateway's just-in-time downlink queue, channel plan,
    concentrator configuration, packet classification and MQTT topics.
  - `region`, `server_config`, `storage`, `topic`, `profile`,
    `home_assistant`, `integration`, `json`, `wifi`, `lua_helpers`, `hex`:
    the server's regions, configuration, validation, topics, vendor
    profiles, Home Assistant discovery, event and log forwarding, JSON
    state handling, WiFi geolocation input and helpers.
  - `structs`: the messages between server and gateways.
- `tests/` — tests of the library.
- `app/` — input and output around the library: CBOR encoding of the
  messages, configuration files, JSON conversion, discovery payloads, WiFi
  geolocation bodies and a tracing layer.
