//! Home Assistant integration: the MQTT discovery of a device's components,
//! and the topics through which telemetry is published and state commands
//! come in.
use vstd::prelude::*;
use vstd::string::StringExecFns;

use crate::profile::{Component, ComponentType, LocationSourceType, SensorType, TemperatureUnit};
use crate::topic::{TopicError, ends_with, split_on, split_topic, str_ends_with};

verus! {

/// A component as Home Assistant discovers it. Empty fields are left out
/// of the discovery payload.
#[derive(Debug, Clone)]
pub struct DiscoveryComponent {
    pub platform: String,
    pub unique_id: String,
    pub value_template: String,
    pub name: String,
    pub device_class: String,
    pub unit_of_measurement: String,
    pub command_template: String,
    pub source_type: String,
    pub json_attributes_topic: String,
    pub json_attributes_template: String,
}

/// Template that reads component `name` from a JSON message.
pub open spec fn value_template_of(name: Seq<char>) -> Seq<char> {
    "{{value_json."@ + name + "}}"@
}

/// Template of the JSON command that sets component `name`.
pub open spec fn command_template_of(name: Seq<char>) -> Seq<char> {
    "{\""@ + name + "\": \"{{value}}\"}"@
}

/// Template that reads a tracker's location attributes.
pub open spec fn location_template() -> Seq<char> {
    "{{ {'latitude': value_json.location.latitude, 'longitude': value_json.location.longitude, 'gps_accuracy': value_json.location.accuracy} | tojson }}"@
}

/// Whether `dc` is the discovery of component `name` (displayed as
/// `display`, of kind `kind`) of device `device`, whose state is published on
/// `state_topic`.
pub open spec fn discovery_matches(
    device: Seq<char>,
    name: Seq<char>,
    display: Seq<char>,
    kind: ComponentType,
    state_topic: Seq<char>,
    dc: DiscoveryComponent,
) -> bool {
    &&& dc.unique_id@ == device + "_"@ + name
    &&& dc.name@ == display
    &&& match kind {
        ComponentType::Sensor(st) => {
            &&& dc.platform@ == "sensor"@
            &&& dc.value_template@ == value_template_of(name)
            &&& dc.command_template@.len() == 0
            &&& dc.source_type@.len() == 0
            &&& dc.json_attributes_topic@.len() == 0
            &&& dc.json_attributes_template@.len() == 0
            &&& match st {
                SensorType::Unclassified => dc.device_class@ == "None"@ && dc.unit_of_measurement@.len()
                    == 0,
                SensorType::Temperature(p) => {
                    &&& dc.device_class@ == "temperature"@
                    &&& dc.unit_of_measurement@ == match p.unit {
                        TemperatureUnit::C => "°C"@,
                        TemperatureUnit::F => "°F"@,
                    }
                },
            }
        },
        ComponentType::Tracker(t) => {
            &&& dc.platform@ == "device_tracker"@
            &&& dc.json_attributes_topic@ == state_topic
            &&& dc.json_attributes_template@ == location_template()
            &&& dc.source_type@ == match t.source_type {
                LocationSourceType::Wifi => "gps"@,
            }
            &&& dc.value_template@.len() == 0
            &&& dc.device_class@.len() == 0
            &&& dc.unit_of_measurement@.len() == 0
            &&& dc.command_template@.len() == 0
        },
        ComponentType::Switch(_) => {
            &&& dc.platform@ == "switch"@
            &&& dc.value_template@ == value_template_of(name)
            &&& dc.command_template@ == command_template_of(name)
            &&& dc.device_class@.len() == 0
            &&& dc.unit_of_measurement@.len() == 0
            &&& dc.source_type@.len() == 0
            &&& dc.json_attributes_topic@.len() == 0
            &&& dc.json_attributes_template@.len() == 0
        },
    }
}

/// Copy of `s`.
fn copy_str(s: &str) -> (r: String)
    ensures
        r@ == s@,
{
    String::from_str(s)
}

/// The discovery of one component.
fn discovery_component(device_name: &str, name: &str, component: &Component, state_topic: &str) -> (r:
    DiscoveryComponent)
    ensures
        discovery_matches(device_name@, name@, component.name@, component.component, state_topic@, r),
{
    let mut unique_id = copy_str(device_name);
    unique_id.append("_");
    unique_id.append(name);
    let mut dc = DiscoveryComponent {
        platform: String::new(),
        unique_id,
        value_template: String::new(),
        name: copy_str(component.name.as_str()),
        device_class: String::new(),
        unit_of_measurement: String::new(),
        command_template: String::new(),
        source_type: String::new(),
        json_attributes_topic: String::new(),
        json_attributes_template: String::new(),
    };
    match component.component {
        ComponentType::Sensor(sensor_type) => {
            dc.platform = String::from_str("sensor");
            let mut t = String::from_str("{{value_json.");
            t.append(name);
            t.append("}}");
            dc.value_template = t;
            match sensor_type {
                SensorType::Unclassified => {
                    dc.device_class = String::from_str("None");
                },
                SensorType::Temperature(props) => {
                    dc.device_class = String::from_str("temperature");
                    dc.unit_of_measurement = match props.unit {
                        TemperatureUnit::C => String::from_str("°C"),
                        TemperatureUnit::F => String::from_str("°F"),
                    };
                },
            }
        },
        ComponentType::Tracker(props) => {
            dc.platform = String::from_str("device_tracker");
            dc.json_attributes_topic = copy_str(state_topic);
            dc.json_attributes_template = String::from_str(
                "{{ {'latitude': value_json.location.latitude, 'longitude': value_json.location.longitude, 'gps_accuracy': value_json.location.accuracy} | tojson }}",
            );
            dc.source_type = match props.source_type {
                LocationSourceType::Wifi => String::from_str("gps"),
            };
        },
        ComponentType::Switch(_) => {
            dc.platform = String::from_str("switch");
            let mut t = String::from_str("{{value_json.");
            t.append(name);
            t.append("}}");
            dc.value_template = t;
            let mut c = String::from_str("{\"");
            c.append(name);
            c.append("\": \"{{value}}\"}");
            dc.command_template = c;
        },
    }
    dc
}

/// The discovery of each component of a schema (component name and
/// component), in the schema's order.
pub fn components_from_schemas(
    device_name: &str,
    schema: &Vec<(String, Component)>,
    state_topic: &str,
) -> (r: Vec<(String, DiscoveryComponent)>)
    ensures
        r@.len() == schema@.len(),
        forall|i: int|
            0 <= i < schema@.len() ==> {
                &&& (#[trigger] r@[i]).0@ == schema@[i].0@
                &&& discovery_matches(
                    device_name@,
                    schema@[i].0@,
                    schema@[i].1.name@,
                    schema@[i].1.component,
                    state_topic@,
                    r@[i].1,
                )
            },
{
    let mut out: Vec<(String, DiscoveryComponent)> = Vec::new();
    let mut i: usize = 0;
    while i < schema.len()
        invariant
            i <= schema@.len(),
            out@.len() == i,
            forall|j: int|
                0 <= j < i ==> {
                    &&& (#[trigger] out@[j]).0@ == schema@[j].0@
                    &&& discovery_matches(
                        device_name@,
                        schema@[j].0@,
                        schema@[j].1.name@,
                        schema@[j].1.component,
                        state_topic@,
                        out@[j].1,
                    )
                },
        decreases schema@.len() - i,
    {
        let name = schema[i].0.as_str();
        let dc = discovery_component(device_name, name, &schema[i].1, state_topic);
        out.push((copy_str(name), dc));
        i += 1;
    }
    out
}

/// Discovery topic of device `device`.
pub open spec fn discovery_topic_of(device: Seq<char>) -> Seq<char> {
    "homeassistant/device/nanopulse/"@ + device + "/config"@
}

/// Topic of device `device` of workspace `workspace`, of the given kind.
pub open spec fn device_topic(workspace: Seq<char>, device: Seq<char>, kind: Seq<char>) -> Seq<char> {
    "nanopulse/workspace/"@ + workspace + "/device/"@ + device + kind
}

/// The discovery topic of a device.
pub fn discovery_topic(device_name: &str) -> (r: String)
    ensures
        r@ == discovery_topic_of(device_name@),
{
    let mut t = String::from_str("homeassistant/device/nanopulse/");
    t.append(device_name);
    t.append("/config");
    t
}

/// The topic that a device's telemetry and state are published on.
pub fn telemetry_topic(workspace_name: &str, device_name: &str) -> (r: String)
    ensures
        r@ == device_topic(workspace_name@, device_name@, "/event/telemetry"@),
{
    let mut t = String::from_str("nanopulse/workspace/");
    t.append(workspace_name);
    t.append("/device/");
    t.append(device_name);
    t.append("/event/telemetry");
    t
}

/// The topic that state commands for a device come in on.
pub fn command_topic(workspace_name: &str, device_name: &str) -> (r: String)
    ensures
        r@ == device_topic(workspace_name@, device_name@, "/command/state"@),
{
    let mut t = String::from_str("nanopulse/workspace/");
    t.append(workspace_name);
    t.append("/device/");
    t.append(device_name);
    t.append("/command/state");
    t
}

/// The device that a command topic
/// (`nanopulse/workspace/<w>/device/<d>/command/<type>`) addresses, where the
/// command sets its state; `None` for other commands. A topic without seven
/// levels is refused.
pub fn state_command_device(topic: &str) -> (r: Result<Option<String>, TopicError>)
    ensures
        split_on(topic@, '/').len() != 7 ==> r == Err::<Option<String>, TopicError>(
            TopicError::InvalidTopic,
        ),
        split_on(topic@, '/').len() == 7 && !ends_with(topic@, "/state"@) ==> r == Ok::<
            Option<String>,
            TopicError,
        >(None),
        split_on(topic@, '/').len() == 7 && ends_with(topic@, "/state"@) ==> (r matches Ok(Some(d))
            && d@ == split_on(topic@, '/')[4]),
{
    let parts = split_topic(topic);
    if parts.len() != 7 {
        return Err(TopicError::InvalidTopic);
    }
    if str_ends_with(topic, "/state") {
        Ok(Some(copy_str(parts[4].as_str())))
    } else {
        Ok(None)
    }
}

} // verus!
