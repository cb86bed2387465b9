//! Stored objects: the names that workspaces, gateways and devices may have,
//! and the frame counters kept per device.
use vstd::prelude::*;

use crate::api::ErrorKind;
use crate::profile::Profile;

verus! {

/// Frame counters of a device.
#[derive(Default, Debug, Clone, Copy, PartialEq, Eq, Structural)]
pub struct Counters {
    pub key_exchange_response: u32,
    pub activation_request: u32,
    pub activation_response: u32,
    pub telemetry_up: u32,
}

/// Columns of a stored device that an update may set.
#[derive(Debug, Clone, Copy, PartialEq, Eq, Structural)]
pub enum DeviceColumn {
    Pin,
    Name,
    Description,
    RootKey,
    SessionRootKey,
    KeyExchangeAt,
    ActivationAt,
    VendorId,
    VendorName,
    ProfileId,
    VersionId,
    Telemetry,
    Counters,
    State,
    StateDesired,
}

/// Which fields a device update gives.
#[derive(Debug, Clone, Copy, Default)]
pub struct DeviceChanges {
    pub pin: bool,
    pub name: bool,
    pub description: bool,
    pub root_key: bool,
    pub session_root_key: bool,
    pub key_exchange_at: bool,
    pub activation_at: bool,
    pub vendor_id: bool,
    pub vendor_name: bool,
    pub profile_id: bool,
    pub version_id: bool,
    pub telemetry: bool,
    pub counters: bool,
    pub state: bool,
    pub state_desired: bool,
}

/// `seq![col]` where the update gives the column, else nothing.
pub open spec fn column_if(given: bool, col: DeviceColumn) -> Seq<DeviceColumn> {
    if given {
        seq![col]
    } else {
        Seq::empty()
    }
}

/// The columns an update with changes `c` sets, in the order the update
/// writes them.
pub open spec fn update_columns_of(c: DeviceChanges) -> Seq<DeviceColumn> {
    Seq::<DeviceColumn>::empty()
        + column_if(c.pin, DeviceColumn::Pin)
        + column_if(c.name, DeviceColumn::Name)
        + column_if(c.description, DeviceColumn::Description)
        + column_if(c.root_key, DeviceColumn::RootKey)
        + column_if(c.session_root_key, DeviceColumn::SessionRootKey)
        + column_if(c.key_exchange_at, DeviceColumn::KeyExchangeAt)
        + column_if(c.activation_at, DeviceColumn::ActivationAt)
        + column_if(c.vendor_id, DeviceColumn::VendorId)
        + column_if(c.vendor_name, DeviceColumn::VendorName)
        + column_if(c.profile_id, DeviceColumn::ProfileId)
        + column_if(c.version_id, DeviceColumn::VersionId)
        + column_if(c.telemetry, DeviceColumn::Telemetry)
        + column_if(c.counters, DeviceColumn::Counters)
        + column_if(c.state, DeviceColumn::State)
        + column_if(c.state_desired, DeviceColumn::StateDesired)
}

fn push_column(v: &mut Vec<DeviceColumn>, given: bool, col: DeviceColumn)
    ensures
        final(v)@ == old(v)@ + column_if(given, col),
{
    if given {
        v.push(col);
    } else {
        assert(old(v)@ + column_if(given, col) =~= old(v)@);
    }
}

/// The columns a device update sets, in order; an update that gives no
/// field is refused.
pub fn update_columns(c: &DeviceChanges) -> (r: Result<Vec<DeviceColumn>, ErrorKind>)
    ensures
        match r {
            Ok(v) => v@ == update_columns_of(*c) && v@.len() > 0,
            Err(e) => e == ErrorKind::EmptyUpdate && update_columns_of(*c).len() == 0,
        },
{
    let mut v: Vec<DeviceColumn> = Vec::new();
    assert(v@ =~= Seq::<DeviceColumn>::empty());
    push_column(&mut v, c.pin, DeviceColumn::Pin);
    push_column(&mut v, c.name, DeviceColumn::Name);
    push_column(&mut v, c.description, DeviceColumn::Description);
    push_column(&mut v, c.root_key, DeviceColumn::RootKey);
    push_column(&mut v, c.session_root_key, DeviceColumn::SessionRootKey);
    push_column(&mut v, c.key_exchange_at, DeviceColumn::KeyExchangeAt);
    push_column(&mut v, c.activation_at, DeviceColumn::ActivationAt);
    push_column(&mut v, c.vendor_id, DeviceColumn::VendorId);
    push_column(&mut v, c.vendor_name, DeviceColumn::VendorName);
    push_column(&mut v, c.profile_id, DeviceColumn::ProfileId);
    push_column(&mut v, c.version_id, DeviceColumn::VersionId);
    push_column(&mut v, c.telemetry, DeviceColumn::Telemetry);
    push_column(&mut v, c.counters, DeviceColumn::Counters);
    push_column(&mut v, c.state, DeviceColumn::State);
    push_column(&mut v, c.state_desired, DeviceColumn::StateDesired);
    if v.len() == 0 {
        return Err(ErrorKind::EmptyUpdate);
    }
    Ok(v)
}

/// Why an object is refused.
#[derive(Debug, Clone, Copy, PartialEq, Eq, Structural)]
pub enum ValidationError {
    /// The name is not 3 to 100 characters of `a`-`z`, `0`-`9` and `-`.
    InvalidName,
}

/// Whether `c` may appear in a name.
pub open spec fn name_char(c: char) -> bool {
    ('a' <= c <= 'z') || ('0' <= c <= '9') || c == '-'
}

/// Whether `s` is a valid name: 3 to 100 characters, each a lowercase letter,
/// a digit or `-` (e.g. `test-device-123`).
pub open spec fn valid_name(s: Seq<char>) -> bool {
    &&& 3 <= s.len() <= 100
    &&& forall|i: int| 0 <= i < s.len() ==> name_char(#[trigger] s[i])
}

/// Checks the name of a workspace, gateway or device.
pub fn validate_name(name: &str) -> (r: Result<(), ValidationError>)
    ensures
        r is Ok <==> valid_name(name@),
        r is Err ==> r == Err::<(), ValidationError>(ValidationError::InvalidName),
{
    let n = name.unicode_len();
    if n < 3 || n > 100 {
        return Err(ValidationError::InvalidName);
    }
    let mut i: usize = 0;
    while i < n
        invariant
            n == name@.len(),
            i <= n,
            forall|k: int| 0 <= k < i ==> name_char(#[trigger] name@[k]),
        decreases n - i,
    {
        let c = name.get_char(i);
        if !(('a' <= c && c <= 'z') || ('0' <= c && c <= '9') || c == '-') {
            return Err(ValidationError::InvalidName);
        }
        i += 1;
    }
    Ok(())
}


/// The device's counters after an activation with request counter
/// `request_counter`, answered with response counter `response_counter`: the
/// next request and response counters move past them, the key exchange
/// counter stays, the telemetry counter starts again.
pub fn activation_counters(current: &Counters, request_counter: u32, response_counter: u32) -> (r: Counters)
    requires
        request_counter < u32::MAX,
        response_counter < u32::MAX,
    ensures
        r.key_exchange_response == current.key_exchange_response,
        r.activation_request == request_counter + 1,
        r.activation_response == response_counter + 1,
        r.telemetry_up == 0,
{
    Counters {
        key_exchange_response: current.key_exchange_response,
        activation_request: request_counter + 1,
        activation_response: response_counter + 1,
        telemetry_up: 0,
    }
}

/// The name and description that an activation gives a device: those of
/// its profile, for each that the device does not have yet.
pub fn profile_defaults(name: &String, description: &String, profile: &Profile) -> (r: (
    Option<String>,
    Option<String>,
))
    ensures
        name@.len() == 0 ==> (r.0 matches Some(n) && n@ == profile.name@),
        name@.len() != 0 ==> r.0 is None,
        description@.len() == 0 ==> (r.1 matches Some(d) && d@ == profile.description@),
        description@.len() != 0 ==> r.1 is None,
{
    let n = if name.as_str().unicode_len() == 0 {
        Some(profile.name.clone())
    } else {
        None
    };
    let d = if description.as_str().unicode_len() == 0 {
        Some(profile.description.clone())
    } else {
        None
    };
    (n, d)
}

} // verus!
