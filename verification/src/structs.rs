//! Messages exchanged between the server and the gateways.
use std::collections::HashMap;

use vstd::prelude::*;

verus! {

/// LoRa coding rate.
#[derive(Debug, Clone, Copy, PartialEq, Eq, Structural)]
pub enum CodingRate {
    Cr45,
    Cr46,
    Cr47,
    Cr48,
}

/// The denominator `n` of a coding rate 4/`n`.
pub open spec fn cr_denominator(c: CodingRate) -> int {
    match c {
        CodingRate::Cr45 => 5,
        CodingRate::Cr46 => 6,
        CodingRate::Cr47 => 7,
        CodingRate::Cr48 => 8,
    }
}

impl Default for CodingRate {
    fn default() -> (r: CodingRate)
        ensures
            r == CodingRate::Cr45,
    {
        CodingRate::Cr45
    }
}

/// Modulation of a data-rate.
#[derive(Debug, Clone, Copy, PartialEq, Eq, Structural)]
pub enum Modulation {
    Lora,
    Fsk,
}

/// Acknowledgement status of a downlink transmission request.
#[derive(Debug, Clone, Copy, PartialEq, Eq, Structural)]
pub enum TxAckStatus {
    Accepted,
    TooLate,
    TooEarly,
    CollisionPacket,
    TxChannel,
    TxDataRate,
    TxPower,
    QueueFull,
    InternalError,
    ContextError,
    InvalidFrame,
}

impl Default for TxAckStatus {
    fn default() -> (r: TxAckStatus)
        ensures
            r == TxAckStatus::Accepted,
    {
        TxAckStatus::Accepted
    }
}

/// Periodic gateway heartbeat.
#[derive(Default, Debug, Clone)]
pub struct HeartbeatEvent {
    /// Gateway timestamp (ns since the UNIX epoch).
    pub gw_time: u64,
    /// Version of the channel configuration the gateway runs.
    pub config_version: String,
}

/// Acknowledgement of a transmission request.
#[derive(Default, Debug, Clone, Copy)]
pub struct TxAckEvent {
    pub id: u32,
    pub status: TxAckStatus,
}

/// Request to transmit a frame.
#[derive(Debug, Clone)]
pub struct TxCommand {
    pub id: u32,
    pub payload: Vec<u8>,
    pub channel: u8,
    pub data_rate: u8,
    /// Transmit power (dBm EIRP).
    pub tx_power: i32,
    pub timing: Timing,
}

/// Timing of a transmission.
#[derive(Debug, Clone)]
pub enum Timing {
    Delay(TimingDelay),
}

/// Transmit `delay_ns` after the reception identified by `context`.
#[derive(Default, Debug, Clone)]
pub struct TimingDelay {
    pub delay_ns: u64,
    pub context: Vec<u8>,
}

/// Channel plan pushed to a gateway.
#[derive(Default, Debug, Clone)]
pub struct ConfigCommand {
    pub version: String,
    pub uplink_channels: HashMap<u8, ChannelConfiguration>,
    pub downlink_channels: HashMap<u8, ChannelConfiguration>,
    pub data_rates: HashMap<u8, DataRateConfiguration>,
}

/// A channel: its frequency and the data-rates it accepts.
#[derive(Default, Debug, Clone)]
pub struct ChannelConfiguration {
    pub freq_hz: u32,
    pub data_rates: Vec<u8>,
}

/// A data-rate definition.
#[derive(Debug, Clone, Copy, PartialEq, Eq, Structural)]
pub enum DataRateConfiguration {
    Lora(LoraDataRateConfiguration),
    Fsk(FskDataRateConfiguration),
}

/// LoRa data-rate parameters.
#[derive(Default, Debug, Clone, Copy, PartialEq, Eq, Structural)]
pub struct LoraDataRateConfiguration {
    /// Bandwidth (Hz).
    pub bandwidth: u32,
    pub spreading_factor: u8,
    pub coding_rate: CodingRate,
}

/// FSK data-rate parameters.
#[derive(Default, Debug, Clone, Copy, PartialEq, Eq, Structural)]
pub struct FskDataRateConfiguration {
    pub frequency_deviation: u32,
    /// Bits per second.
    pub bitrate: u32,
}

} // verus!
