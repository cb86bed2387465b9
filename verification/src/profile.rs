//! Vendor profiles: what a device reports (its telemetry and state
//! components), and the names of the Lua modules that describe a vendor and
//! a profile.
use vstd::prelude::*;
use vstd::string::StringExecFns;

use crate::hex::{append_hex, hex_chars};

verus! {

/// A device profile.
#[derive(Default, Debug, Clone)]
pub struct Profile {
    pub name: String,
    pub description: String,
}

/// A device vendor.
#[derive(Default, Debug, Clone)]
pub struct Vendor {
    pub name: String,
}

/// A component of a device: its display name and what it is.
#[derive(Debug, Clone)]
pub struct Component {
    pub name: String,
    pub component: ComponentType,
}

/// What a component is.
#[derive(Debug, Clone, Copy, PartialEq, Eq, Structural)]
pub enum ComponentType {
    Sensor(SensorType),
    Tracker(TrackerType),
    Switch(NoProps),
}

/// What a sensor measures.
#[derive(Debug, Clone, Copy, PartialEq, Eq, Structural)]
pub enum SensorType {
    /// A sensor of no particular class.
    Unclassified,
    Temperature(TemperatureProperties),
}

/// A location tracker.
#[derive(Debug, Clone, Copy, PartialEq, Eq, Structural)]
pub struct TrackerType {
    pub source_type: LocationSourceType,
}

/// A temperature sensor.
#[derive(Debug, Clone, Copy, PartialEq, Eq, Structural)]
pub struct TemperatureProperties {
    pub unit: TemperatureUnit,
}

/// Unit of a temperature.
#[derive(Debug, Clone, Copy, PartialEq, Eq, Structural)]
pub enum TemperatureUnit {
    C,
    F,
}

/// Where a tracker's location comes from.
#[derive(Debug, Clone, Copy, PartialEq, Eq, Structural)]
pub enum LocationSourceType {
    Wifi,
}

/// A component without properties.
#[derive(Debug, Clone, Copy, PartialEq, Eq, Structural)]
pub struct NoProps {}

/// Name of the Lua module of vendor `id`.
pub open spec fn vendor_module_name(id: Seq<u8>) -> Seq<char> {
    "vendors."@ + hex_chars(id)
}

/// Name of the Lua module of a profile of a vendor, in a version.
pub open spec fn profile_module_name(vendor_id: Seq<u8>, profile_id: Seq<u8>, version_id: Seq<u8>) -> Seq<
    char,
> {
    "vendors."@ + hex_chars(vendor_id) + ".profiles."@ + hex_chars(profile_id) + "_"@ + hex_chars(
        version_id,
    )
}

/// The Lua module of vendor `id`.
pub fn vendor_module(id: &[u8; 4]) -> (r: String)
    ensures
        r@ == vendor_module_name(id@),
{
    let mut m = String::from_str("vendors.");
    append_hex(&mut m, id);
    m
}

/// The Lua module of profile `profile_id` of vendor `vendor_id`, in version
/// `version_id`.
pub fn profile_module(vendor_id: &[u8; 4], profile_id: &[u8; 2], version_id: &[u8; 2]) -> (r: String)
    ensures
        r@ == profile_module_name(vendor_id@, profile_id@, version_id@),
{
    let mut m = String::from_str("vendors.");
    append_hex(&mut m, vendor_id);
    m.append(".profiles.");
    append_hex(&mut m, profile_id);
    m.append("_");
    append_hex(&mut m, version_id);
    m
}

} // verus!
