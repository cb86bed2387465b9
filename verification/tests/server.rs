use std::collections::HashMap;

use nanopulse_core::hex::{HexArray, HexError};
use nanopulse_core::home_assistant::{
    command_topic, components_from_schemas, discovery_topic, state_command_device,
    telemetry_topic,
};
use nanopulse_core::integration::{get_downlink_gateway, DeviceInfo, LoggingLayer, RxInfo};
use nanopulse_core::json::{
    bools_to_strings, json_diff, json_eq, merge_patch, needs_state_sync, strings_to_bools, JsonValue,
};
use nanopulse_core::lua_helpers::{
    decode_i16_le, decode_i32_le, decode_u16_le, decode_u32_le, lua_package_path,
};
use nanopulse_core::profile::{
    profile_module, vendor_module, Profile, Component, ComponentType, LocationSourceType, NoProps,
    SensorType, TemperatureProperties, TemperatureUnit, TrackerType,
};
use nanopulse_core::region::{
    config_command, downlink_tx_command, needs_config_push, Channel, CodingRate, DataRate,
    Modulation, Region, Regions,
};
use nanopulse_core::server_config::{key_from_hex, Configuration, Geolocation, Logging};
use nanopulse_core::storage::{
    activation_counters, profile_defaults, update_columns, validate_name, Counters, DeviceChanges,
    DeviceColumn, ValidationError,
};
use nanopulse_core::api::ErrorKind;
use nanopulse_core::structs::{DataRateConfiguration, Timing};
use nanopulse_core::topic::{
    config_command_topic, device_command_subscription, gateway_event, gateway_subscribe_topic,
    get_gateway_gid, server_client_id,
    shared_subscription_support, split_topic, tx_command_topic, GatewayEvent, TopicError,
};
use nanopulse_core::wifi::{
    beacondb_mac_address, google_mac_address, parse_bssids, wifi_backend, Bssid, WifiBackend,
    WifiError,
};

#[test]
fn device_test_validation() {
    // a device without a name is refused, one with a valid name accepted
    assert!(validate_name("").is_err());
    assert!(validate_name("test-device-123").is_ok());
}

#[test]
fn workspace_test_validation() {
    assert!(validate_name("").is_err());
    assert!(validate_name("foo-bar-123").is_ok());
}

#[test]
fn name_validation_edges() {
    assert_eq!(Err(ValidationError::InvalidName), validate_name("ab"));
    assert_eq!(Ok(()), validate_name("abc"));
    assert_eq!(Err(ValidationError::InvalidName), validate_name("Test-device"));
    assert_eq!(Err(ValidationError::InvalidName), validate_name("test_device"));
    assert_eq!(Ok(()), validate_name(&"a".repeat(100)));
    assert_eq!(Err(ValidationError::InvalidName), validate_name(&"a".repeat(101)));
}

#[test]
fn server_configuration_defaults() {
    assert_eq!("info", Logging::default().level);
    assert_eq!("beacondb", Geolocation::default().wifi_backend);
    let c = Configuration::default();
    assert_eq!("info", c.logging.level);
    assert_eq!([0u8; 32], c.keypair.public_key);
    assert!(!c.integration.home_assistant.enabled);
    assert_eq!("beacondb", c.geolocation.wifi_backend);
}

#[test]
fn key_from_hex_strips_prefixes() {
    let hex = "00112233445566778899aabbccddeeff00112233445566778899aabbccddeeff";
    let mut expected = [0u8; 32];
    for i in 0..32 {
        expected[i] = ((i % 16) as u8) * 0x11;
    }
    assert_eq!(Ok(expected), key_from_hex(hex));
    assert_eq!(Ok(expected), key_from_hex(&format!("0x{}", hex)));
    assert_eq!(Ok(expected), key_from_hex(&format!("0x0x{}", hex)));
    assert_eq!(Err(HexError::InvalidStringLength), key_from_hex("0x0011"));
    assert_eq!(Err(HexError::OddLength), key_from_hex("001"));
    assert_eq!(
        Err(HexError::InvalidHexCharacter { c: 'g', index: 1 }),
        key_from_hex("0g")
    );
}

#[test]
fn bssids_from_buffer() {
    let buffer = [1, 2, 3, 4, 5, 6, 70, 0xaa, 0xbb, 0xcc, 0xdd, 0xee, 0xff, 80];
    let aps = parse_bssids(&buffer).unwrap();
    assert_eq!(2, aps.len());
    assert_eq!([1, 2, 3, 4, 5, 6], aps[0].bssid);
    assert_eq!(-70, aps[0].rssi);
    assert_eq!(-80, aps[1].rssi);
    assert_eq!(Err(WifiError::InvalidInput), parse_bssids(&[]).map(|v| v.len()));
    assert_eq!(Err(WifiError::InvalidInput), parse_bssids(&[1, 2, 3]).map(|v| v.len()));
}

#[test]
fn mac_address_forms() {
    let ap = Bssid { bssid: [0x00, 0x1a, 0x2b, 0x3c, 0x4d, 0xff], rssi: -50 };
    assert_eq!("001a2b3c4dff", beacondb_mac_address(&ap));
    assert_eq!("00:1a:2b:3c:4d:ff", google_mac_address(&ap));
}

#[test]
fn wifi_backends() {
    assert_eq!(Ok(WifiBackend::Beacondb), wifi_backend("beacondb"));
    assert_eq!(Ok(WifiBackend::Google), wifi_backend("google"));
    assert_eq!(Err(WifiError::UnexpectedBackend), wifi_backend("other"));
}

#[test]
fn little_endian_decoders() {
    assert_eq!(0x0201, decode_u16_le(0x01, 0x02));
    assert_eq!(-2, decode_i16_le(0xfe, 0xff));
    assert_eq!(0x7fff, decode_i16_le(0xff, 0x7f));
    assert_eq!(-32768, decode_i16_le(0x00, 0x80));
    assert_eq!(0x04030201, decode_u32_le(0x01, 0x02, 0x03, 0x04));
    assert_eq!(-1, decode_i32_le(0xff, 0xff, 0xff, 0xff));
    assert_eq!(150, decode_i32_le(150, 0, 0, 0));
}

#[test]
fn lua_search_path() {
    let paths = vec!["/a".to_string(), "/b/c".to_string()];
    assert_eq!("/a/?.lua;/a/?/init.lua;/b/c/?.lua;/b/c/?/init.lua", lua_package_path(&paths));
    assert_eq!("", lua_package_path(&vec![]));
}

#[test]
fn topic_levels_and_gateway_id() {
    assert_eq!(vec!["a", "", "b"], split_topic("a//b"));
    assert_eq!(vec![""], split_topic(""));
    assert_eq!(
        Ok("0102030405060708".to_string()),
        get_gateway_gid("nanopulse/gateway/0102030405060708/event/rx")
    );
    assert_eq!(Ok("gw-abc".to_string()), get_gateway_gid("nanopulse/gateway/GW-ABC/event/heartbeat"));
    assert_eq!(Err(TopicError::InvalidTopic), get_gateway_gid("nanopulse/gateway/gw/event"));
    assert_eq!(GatewayEvent::Rx, gateway_event("nanopulse/gateway/gw/event/rx"));
    assert_eq!(GatewayEvent::Heartbeat, gateway_event("nanopulse/gateway/gw/event/heartbeat"));
    assert_eq!(GatewayEvent::Other, gateway_event("nanopulse/gateway/gw/event/txack"));
}

#[test]
fn server_topics() {
    assert_eq!("nanopulse/gateway/gw1/command/config", config_command_topic("gw1"));
    assert_eq!("nanopulse/gateway/gw1/command/tx", tx_command_topic("gw1"));
    assert_eq!("$share/nanopulse/nanopulse/gateway/+/event/+", gateway_subscribe_topic(true));
    assert_eq!("nanopulse/gateway/+/event/+", gateway_subscribe_topic(false));
    assert!(shared_subscription_support(None));
    assert!(shared_subscription_support(Some(None)));
    assert!(shared_subscription_support(Some(Some(1))));
    assert!(!shared_subscription_support(Some(Some(0))));
}

#[test]
fn profile_module_names() {
    assert_eq!("vendors.00000000", vendor_module(&[0, 0, 0, 0]));
    assert_eq!(
        "vendors.00000000.profiles.0000_0000",
        profile_module(&[0, 0, 0, 0], &[0, 0], &[0, 0])
    );
    assert_eq!("vendors.0a0b0c0d.profiles.0102_ff00", profile_module(&[10, 11, 12, 13], &[1, 2], &[255, 0]));
}

#[test]
fn discovery_components() {
    let schema = vec![
        (
            "temperature".to_string(),
            Component {
                name: "Temperature".to_string(),
                component: ComponentType::Sensor(SensorType::Temperature(TemperatureProperties {
                    unit: TemperatureUnit::C,
                })),
            },
        ),
        (
            "led".to_string(),
            Component { name: "LED".to_string(), component: ComponentType::Switch(NoProps {}) },
        ),
        (
            "location".to_string(),
            Component {
                name: "Location".to_string(),
                component: ComponentType::Tracker(TrackerType {
                    source_type: LocationSourceType::Wifi,
                }),
            },
        ),
        (
            "raw".to_string(),
            Component {
                name: "Raw".to_string(),
                component: ComponentType::Sensor(SensorType::Unclassified),
            },
        ),
    ];
    let out = components_from_schemas("dev1", &schema, "state/topic");
    assert_eq!(4, out.len());
    let (name, t) = &out[0];
    assert_eq!("temperature", name);
    assert_eq!("sensor", t.platform);
    assert_eq!("dev1_temperature", t.unique_id);
    assert_eq!("{{value_json.temperature}}", t.value_template);
    assert_eq!("Temperature", t.name);
    assert_eq!("temperature", t.device_class);
    assert_eq!("°C", t.unit_of_measurement);
    let (_, s) = &out[1];
    assert_eq!("switch", s.platform);
    assert_eq!("{{value_json.led}}", s.value_template);
    assert_eq!("{\"led\": \"{{value}}\"}", s.command_template);
    assert_eq!("", s.device_class);
    let (_, l) = &out[2];
    assert_eq!("device_tracker", l.platform);
    assert_eq!("state/topic", l.json_attributes_topic);
    assert_eq!("gps", l.source_type);
    assert!(l.json_attributes_template.contains("gps_accuracy"));
    let (_, r) = &out[3];
    assert_eq!("None", r.device_class);
    assert_eq!("", r.unit_of_measurement);
}

#[test]
fn home_assistant_topics() {
    assert_eq!("homeassistant/device/nanopulse/dev1/config", discovery_topic("dev1"));
    assert_eq!("nanopulse/workspace/ws/device/dev1/event/telemetry", telemetry_topic("ws", "dev1"));
    assert_eq!("nanopulse/workspace/ws/device/dev1/command/state", command_topic("ws", "dev1"));
    assert_eq!(
        Ok(Some("dev1".to_string())),
        state_command_device("nanopulse/workspace/ws/device/dev1/command/state")
    );
    assert_eq!(Ok(None), state_command_device("nanopulse/workspace/ws/device/dev1/command/reset"));
    assert_eq!(Err(TopicError::InvalidTopic), state_command_device("nanopulse/device/dev1/command/state"));
}

#[test]
fn device_info_and_downlink_gateway() {
    let short_id: HexArray<4> = HexArray::new([0xde, 0xad, 0xbe, 0xef]);
    let info = DeviceInfo::new("ws", "dev1", &short_id, "Acme");
    assert_eq!("dev1", info.device_name);
    assert_eq!("deadbeef", info.device_short_id);
    assert_eq!("ws", info.workspace_name);
    assert_eq!("Acme", info.vendor_name);

    let rx = vec![
        RxInfo { gateway_name: "gw1".to_string(), context: vec![1, 2, 3, 4] },
        RxInfo { gateway_name: "gw2".to_string(), context: vec![5] },
    ];
    let dl = get_downlink_gateway(&rx);
    assert_eq!("gw1", dl.gateway_name);
    assert_eq!(vec![1, 2, 3, 4], dl.context);
}

fn field(k: &str, v: &str) -> (String, String) {
    (k.to_string(), v.to_string())
}

#[test]
fn log_entries_for_workspaces() {
    let layer = LoggingLayer::new();
    let spans = vec![
        vec![field("workspace_name", "ws1"), field("device_name", "d1")],
        vec![field("device_name", "d2")],
    ];
    let event = vec![field("message", "hello"), field("count", "3")];
    let e = layer.log_entry(&spans, &event).unwrap();
    assert_eq!("ws1", e.workspace_name);
    assert_eq!("hello", e.message);
    let attributes: HashMap<String, String> = e.attributes.into_iter().collect();
    assert_eq!(Some(&"d2".to_string()), attributes.get("device_name"));
    assert_eq!(Some(&"3".to_string()), attributes.get("count"));
    assert!(!attributes.contains_key("message"));

    assert!(layer.log_entry(&vec![], &vec![field("message", "no workspace")]).is_none());
    assert!(layer.log_entry(&vec![], &vec![field("workspace_name", "")]).is_none());
}

fn region(version: &str) -> Region {
    let mut uplink_channels = HashMap::new();
    uplink_channels.insert(0, Channel { frequency: 868100000, data_rates: vec![0, 1, 2] });
    let mut downlink_channels = HashMap::new();
    downlink_channels.insert(0, Channel { frequency: 869525000, data_rates: vec![0] });
    let mut data_rates = HashMap::new();
    data_rates.insert(
        0,
        DataRate {
            modulation: Modulation::Lora,
            bandwidth: 125000,
            spreading_factor: 12,
            coding_rate: CodingRate::Cr45,
            bitrate: 0,
            frequency_deviation: 0,
        },
    );
    data_rates.insert(
        7,
        DataRate {
            modulation: Modulation::Fsk,
            bandwidth: 0,
            spreading_factor: 0,
            coding_rate: CodingRate::Cr45,
            bitrate: 50000,
            frequency_deviation: 25000,
        },
    );
    let mut ch_map = HashMap::new();
    ch_map.insert(3, 1);
    let mut dr_map = HashMap::new();
    dr_map.insert(5, 2);
    Region {
        name: "EU868".to_string(),
        description: "".to_string(),
        version: version.to_string(),
        timing_multiplier_ms: 1000,
        tx_delay_key_response: 5,
        tx_delay_join_accept: 5,
        tx_delay_data: 1,
        uplink_channels,
        downlink_channels,
        downlink_tx_power_eirp: 14,
        uplink_downlink_channel_mapping: ch_map,
        data_rates,
        uplink_downlink_data_rate_mapping: dr_map,
    }
}

#[test]
fn region_mappings_and_commands() {
    let r = region("v1");
    assert_eq!(1, r.get_downlink_channel(3));
    assert_eq!(0, r.get_downlink_channel(4));
    assert_eq!(2, r.get_downlink_data_rate(5));
    assert_eq!(0, r.get_downlink_data_rate(0));

    let cmd = config_command(&r);
    assert_eq!("v1", cmd.version);
    assert_eq!(868100000, cmd.uplink_channels[&0].freq_hz);
    assert_eq!(vec![0, 1, 2], cmd.uplink_channels[&0].data_rates);
    assert_eq!(869525000, cmd.downlink_channels[&0].freq_hz);
    assert!(matches!(cmd.data_rates[&0], DataRateConfiguration::Lora(l) if l.spreading_factor == 12 && l.bandwidth == 125000));
    assert!(matches!(cmd.data_rates[&7], DataRateConfiguration::Fsk(f) if f.bitrate == 50000 && f.frequency_deviation == 25000));

    assert!(!needs_config_push(&"v1".to_string(), &r));
    assert!(needs_config_push(&"v0".to_string(), &r));

    let tx = downlink_tx_command(&r, 3, 5, vec![9, 9], vec![1, 2, 3, 4], 5);
    assert_eq!(0, tx.id);
    assert_eq!(1, tx.channel);
    assert_eq!(2, tx.data_rate);
    assert_eq!(14, tx.tx_power);
    let Timing::Delay(d) = tx.timing;
    assert_eq!(5_000_000_000, d.delay_ns);
    assert_eq!(vec![1, 2, 3, 4], d.context);
}

#[test]
fn region_registry() {
    let mut regions = Regions::new();
    assert!(regions.get("regions.lora.eu868").is_none());
    regions.load_all(vec![
        ("regions.lora.us915".to_string(), region("us")),
        ("regions.lora.eu868".to_string(), region("eu")),
    ]);
    assert_eq!("eu", regions.get("regions.lora.eu868").unwrap().version);
    assert_eq!(vec!["regions.lora.eu868", "regions.lora.us915"], regions.get_keys());
    regions.insert("regions.lora.eu868".to_string(), region("eu2"));
    assert_eq!("eu2", regions.get("regions.lora.eu868").unwrap().version);
    assert_eq!("us", regions.get("regions.lora.us915").unwrap().version);
    assert_eq!(2, regions.get_keys().len());
    regions.insert("regions.lora.as923".to_string(), region("as"));
    assert_eq!(
        vec!["regions.lora.as923", "regions.lora.eu868", "regions.lora.us915"],
        regions.get_keys()
    );
}

#[test]
fn region_registry_later_module_wins() {
    let mut regions = Regions::new();
    regions.insert("regions.lora.us915".to_string(), region("old"));
    regions.load_all(vec![
        ("regions.lora.eu868".to_string(), region("eu1")),
        ("regions.lora.eu868".to_string(), region("eu2")),
    ]);
    assert_eq!("eu2", regions.get("regions.lora.eu868").unwrap().version);
    assert_eq!("old", regions.get("regions.lora.us915").unwrap().version);
    assert_eq!(vec!["regions.lora.eu868", "regions.lora.us915"], regions.get_keys());
}

#[test]
fn json_zero_floats_are_the_same_number() {
    let n = |t: &str| JsonValue::Number(t.to_string());
    assert!(json_eq(&n("0.0"), &n("-0.0")));
    assert!(!json_eq(&n("0"), &n("0.0")));
    assert!(!json_eq(&n("1.0"), &n("-1.0")));
    let a = obj(vec![("t", n("0.0"))]);
    let b = obj(vec![("t", n("-0.0"))]);
    assert!(matches!(json_diff(&a, &b), JsonValue::Null));
    assert!(!needs_state_sync(&a, &b));
}

fn s(v: &str) -> JsonValue {
    JsonValue::Str(v.to_string())
}

fn obj(members: Vec<(&str, JsonValue)>) -> JsonValue {
    JsonValue::Object(members.into_iter().map(|(k, v)| (k.to_string(), v)).collect())
}

#[test]
fn test_json_diff() {
    let a = obj(vec![("foo", s("bar")), ("test", s("bar"))]);
    let b = obj(vec![("foo", s("bar")), ("test", s("foo"))]);
    let expected = obj(vec![("test", s("foo"))]);
    assert!(json_eq(&expected, &json_diff(&a, &b)));
}

#[test]
fn json_difference() {
    let a = obj(vec![("foo", s("bar")), ("test", s("bar"))]);
    let b = obj(vec![("foo", s("bar")), ("test", s("foo"))]);
    let expected = obj(vec![("test", s("foo"))]);
    assert!(json_eq(&expected, &json_diff(&a, &b)));
    // nothing changed
    assert!(matches!(json_diff(&a, &a), JsonValue::Null));
    // a new member
    let c = obj(vec![("foo", s("bar")), ("new", JsonValue::Bool(true)), ("test", s("bar"))]);
    assert!(json_eq(&obj(vec![("new", JsonValue::Bool(true))]), &json_diff(&a, &c)));
    // not both objects
    assert!(json_eq(&s("x"), &json_diff(&JsonValue::Null, &s("x"))));
    assert!(matches!(json_diff(&s("x"), &s("x")), JsonValue::Null));
}

#[test]
fn json_switch_values() {
    let state = obj(vec![
        ("led", JsonValue::Bool(true)),
        ("relays", JsonValue::Array(vec![JsonValue::Bool(false), JsonValue::Number("3".to_string())])),
    ]);
    let written = bools_to_strings(&state);
    let expected = obj(vec![
        ("led", s("ON")),
        ("relays", JsonValue::Array(vec![s("OFF"), JsonValue::Number("3".to_string())])),
    ]);
    assert!(json_eq(&expected, &written));
    let read = strings_to_bools(&written);
    assert!(json_eq(&state, &read));
    assert!(json_eq(&s("on"), &strings_to_bools(&s("on"))));
}

#[test]
fn json_merge_patch() {
    let target = obj(vec![("a", s("b")), ("c", obj(vec![("d", s("e")), ("f", s("g"))]))]);
    let patch = obj(vec![("a", s("z")), ("c", obj(vec![("f", JsonValue::Null)]))]);
    let r = merge_patch(target, &patch);
    let expected = obj(vec![("a", s("z")), ("c", obj(vec![("d", s("e"))]))]);
    assert!(json_eq(&expected, &r));
    // a patch that is no object replaces the target
    assert!(json_eq(&s("x"), &merge_patch(obj(vec![("a", s("b"))]), &s("x"))));
    // an object patch on a non-object target starts from an empty object
    let r = merge_patch(s("x"), &obj(vec![("a", JsonValue::Bool(true)), ("b", JsonValue::Null)]));
    assert!(json_eq(&obj(vec![("a", JsonValue::Bool(true))]), &r));
}

#[test]
fn state_sync_needed_when_states_differ() {
    let a = obj(vec![("led", JsonValue::Bool(true))]);
    let b = obj(vec![("led", JsonValue::Bool(false))]);
    assert!(needs_state_sync(&a, &b));
    assert!(!needs_state_sync(&a, &obj(vec![("led", JsonValue::Bool(true))])));
}

#[test]
fn server_identity_topics() {
    assert_eq!("client", server_client_id("client", 0xabc));
    assert_eq!("nanopulse-abc", server_client_id("", 0xabc));
    assert_eq!("nanopulse-0", server_client_id("", 0));
    assert_eq!("nanopulse-ffffffff", server_client_id("", u32::MAX));
    assert_eq!("nanopulse/workspace/+/device/+/command/+", device_command_subscription());
}

#[test]
fn activation_updates() {
    let c = Counters { key_exchange_response: 4, activation_request: 1, activation_response: 2, telemetry_up: 9 };
    let n = activation_counters(&c, 7, 3);
    assert_eq!(Counters { key_exchange_response: 4, activation_request: 8, activation_response: 4, telemetry_up: 0 }, n);
    let p = Profile { name: "Sensor".to_string(), description: "A sensor".to_string() };
    let (name, desc) = profile_defaults(&String::new(), &"mine".to_string(), &p);
    assert_eq!(Some("Sensor".to_string()), name);
    assert_eq!(None, desc);
}

#[test]
fn device_update_columns() {
    assert_eq!(Err(ErrorKind::EmptyUpdate), update_columns(&DeviceChanges::default()));
    let c = DeviceChanges { name: true, state_desired: true, pin: true, ..DeviceChanges::default() };
    assert_eq!(
        Ok(vec![DeviceColumn::Pin, DeviceColumn::Name, DeviceColumn::StateDesired]),
        update_columns(&c)
    );
}
