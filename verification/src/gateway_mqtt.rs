//! The gateway's side of MQTT: its client ID, the topics it publishes events
//! on and receives commands on, the kinds of command, and the
//! acknowledgement of a transmission request.
use vstd::prelude::*;
use vstd::string::StringExecFns;

use crate::gateway_config::Mqtt;
use crate::structs::{HeartbeatEvent, TxAckEvent, TxAckStatus};
use crate::topic::{ends_with, str_ends_with};

verus! {

/// Client ID the gateway connects with: the configured one, else the
/// gateway's name.
pub fn client_id(gateway_name: &str, mqtt: &Mqtt) -> (r: String)
    ensures
        mqtt.client_id@.len() == 0 ==> r@ == gateway_name@,
        mqtt.client_id@.len() != 0 ==> r@ == mqtt.client_id@,
{
    if mqtt.client_id.as_str().unicode_len() == 0 {
        String::from_str(gateway_name)
    } else {
        mqtt.client_id.clone()
    }
}

/// Prefix of the gateway's topics.
pub open spec fn topic_prefix_of(gateway_name: Seq<char>) -> Seq<char> {
    "nanopulse/gateway/"@ + gateway_name
}

/// The prefix of the gateway's topics.
pub fn topic_prefix(gateway_name: &str) -> (r: String)
    ensures
        r@ == topic_prefix_of(gateway_name@),
{
    let mut t = String::from_str("nanopulse/gateway/");
    t.append(gateway_name);
    t
}

/// Topic under `prefix` with suffix `suffix`.
pub fn prefixed_topic(prefix: &str, suffix: &str) -> (r: String)
    ensures
        r@ == prefix@ + suffix@,
{
    let mut t = String::from_str(prefix);
    t.append(suffix);
    t
}

/// Topic of the gateway's events of type `kind` (`rx`, `txack`,
/// `heartbeat`).
pub fn event_topic(prefix: &str, kind: &str) -> (r: String)
    ensures
        r@ == prefix@ + "/event/"@ + kind@,
{
    let mut t = String::from_str(prefix);
    t.append("/event/");
    t.append(kind);
    t
}

/// Topic the gateway subscribes to for its commands.
pub fn command_subscription(prefix: &str) -> (r: String)
    ensures
        r@ == prefix@ + "/command/+"@,
{
    prefixed_topic(prefix, "/command/+")
}

/// Kinds of gateway commands.
#[derive(Debug, Clone, Copy, PartialEq, Eq, Structural)]
pub enum GatewayCommand {
    Tx,
    Config,
    /// Any other command, which is ignored.
    Other,
}

/// The kind of command that a command topic carries.
pub fn gateway_command(topic: &str) -> (r: GatewayCommand)
    ensures
        ends_with(topic@, "command/tx"@) ==> r == GatewayCommand::Tx,
        !ends_with(topic@, "command/tx"@) && ends_with(topic@, "command/config"@) ==> r
            == GatewayCommand::Config,
        !ends_with(topic@, "command/tx"@) && !ends_with(topic@, "command/config"@) ==> r
            == GatewayCommand::Other,
{
    if str_ends_with(topic, "command/tx") {
        GatewayCommand::Tx
    } else if str_ends_with(topic, "command/config") {
        GatewayCommand::Config
    } else {
        GatewayCommand::Other
    }
}

/// Acknowledgement of transmission request `id`, from the radio's answer:
/// accepted, or the reason for refusing it.
pub fn tx_ack(id: u32, sent: Result<(), TxAckStatus>) -> (r: TxAckEvent)
    ensures
        r.id == id,
        r.status == match sent {
            Ok(()) => TxAckStatus::Accepted,
            Err(e) => e,
        },
{
    let status = match sent {
        Err(e) => e,
        Ok(()) => TxAckStatus::Accepted,
    };
    TxAckEvent { id, status }
}

/// The heartbeat to publish at `gw_time` (ns since the UNIX epoch).
pub fn heartbeat(state: &HeartbeatEvent, gw_time: u64) -> (r: HeartbeatEvent)
    ensures
        r.gw_time == gw_time,
        r.config_version@ == state.config_version@,
{
    HeartbeatEvent { gw_time, config_version: state.config_version.clone() }
}

/// Records that the gateway runs configuration `version`.
pub fn set_config_version(state: &mut HeartbeatEvent, version: &String)
    ensures
        final(state).config_version@ == version@,
        final(state).gw_time == old(state).gw_time,
{
    state.config_version = version.clone();
}

} // verus!
