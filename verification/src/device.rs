//! The device side of the protocol: the decisions a device takes around its
//! radio exchanges. Each uplink operation returns what to send and where;
//! the caller encrypts and transmits it, listens for the reply, decodes the
//! reply and hands the outcome back to `handle_rx_buffer`.
use vstd::prelude::*;

use crate::context::{Counters, RootSecurity, Session, all_bytes};
use crate::structs::CodingRate;

verus! {

/// Protocol state of a device.
#[derive(Debug, Clone, Copy, PartialEq, Eq, Structural)]
pub enum State {
    KeyExchange,
    Activate,
    Idle,
}

/// Position of a state in the order the protocol goes through them.
pub open spec fn state_rank(s: State) -> int {
    match s {
        State::KeyExchange => 0,
        State::Activate => 1,
        State::Idle => 2,
    }
}

/// Errors of the device.
#[derive(Debug, Clone, Copy, PartialEq, Eq, Structural)]
pub enum Error {
    HeaplessVec,
    UnsupportedModulation,
    RadioError,
    FrameError,
    CryptoError,
    CounterError,
    NotActivated,
    InvalidPayload,
}

/// LoRa modulation parameters of a data-rate.
#[derive(Debug, Clone, Copy, PartialEq, Eq, Structural)]
pub struct Lora {
    pub spreading_factor: u8,
    pub coding_rate: CodingRate,
    /// Bandwidth (Hz).
    pub bandwidth: u32,
}

/// A data-rate of a region.
#[derive(Debug, Clone, Copy, PartialEq, Eq, Structural)]
pub enum DataRate {
    Lora(Lora),
    Fsk,
}

/// Channels, data-rates and timings of a radio region.
pub struct Region<const UPLINK_CHANNELS: usize, const DOWNLINK_CHANNELS: usize, const DATA_RATES: usize> {
    pub uplink_channels: [u32; UPLINK_CHANNELS],
    pub downlink_channels: [u32; DOWNLINK_CHANNELS],
    pub data_rates: [DataRate; DATA_RATES],
    pub uplink_downlink_channel_mapping: [usize; UPLINK_CHANNELS],
    pub uplink_downlink_data_rate_mapping: [usize; DATA_RATES],
    pub timing_multiplier_ms: u64,
    pub tx_delay_key_exchange_response: u64,
    pub tx_delay_join_accept: u64,
    pub tx_delay_data: u64,
}

impl<const U: usize, const D: usize, const R: usize> Region<U, D, R> {
    /// Every uplink channel and data-rate maps onto a downlink one.
    pub open spec fn wf(&self) -> bool {
        &&& U >= 1
        &&& forall|i: int| 0 <= i < U ==> #[trigger] self.uplink_downlink_channel_mapping@[i] < D
        &&& forall|i: int| 0 <= i < R ==> #[trigger] self.uplink_downlink_data_rate_mapping@[i] < R
    }
}

fn lora(spreading_factor: u8) -> (r: DataRate)
    ensures
        r == DataRate::Lora(Lora { spreading_factor, coding_rate: CodingRate::Cr45, bandwidth: 125000 }),
{
    DataRate::Lora(Lora { spreading_factor, coding_rate: CodingRate::Cr45, bandwidth: 125000 })
}

/// The EU868 region.
pub fn eu868() -> (r: Region<8, 8, 6>)
    ensures
        r.wf(),
        r.uplink_channels@ == seq![
            868100000u32,
            868300000,
            868500000,
            867100000,
            867300000,
            867500000,
            867700000,
            867900000,
        ],
        r.downlink_channels@ == r.uplink_channels@,
        forall|i: int| 0 <= i < 6 ==> #[trigger] r.data_rates@[i] == DataRate::Lora(
            Lora { spreading_factor: (12 - i) as u8, coding_rate: CodingRate::Cr45, bandwidth: 125000 },
        ),
        forall|i: int| 0 <= i < 8 ==> #[trigger] r.uplink_downlink_channel_mapping@[i] == i,
        forall|i: int| 0 <= i < 6 ==> #[trigger] r.uplink_downlink_data_rate_mapping@[i] == i,
        r.timing_multiplier_ms == 1000,
        r.tx_delay_key_exchange_response == 5,
        r.tx_delay_join_accept == 5,
        r.tx_delay_data == 1,
{
    let channels = [868100000u32, 868300000, 868500000, 867100000, 867300000, 867500000, 867700000, 867900000];
    let r = Region {
        uplink_channels: channels,
        downlink_channels: channels,
        data_rates: [lora(12), lora(11), lora(10), lora(9), lora(8), lora(7)],
        uplink_downlink_channel_mapping: [0, 1, 2, 3, 4, 5, 6, 7],
        uplink_downlink_data_rate_mapping: [0, 1, 2, 3, 4, 5],
        timing_multiplier_ms: 1_000,
        tx_delay_key_exchange_response: 5,
        tx_delay_join_accept: 5,
        tx_delay_data: 1,
    };
    assert(r.uplink_channels@ =~= seq![
        868100000u32,
        868300000,
        868500000,
        867100000,
        867300000,
        867500000,
        867700000,
        867900000,
    ]);
    r
}

/// Identity and settings of a device.
pub struct DeviceConfig {
    /// Index of the uplink data-rate.
    pub data_rate: usize,
    pub vendor_id: [u8; 4],
    pub profile_id: [u8; 2],
    pub version_id: [u8; 2],
}

/// The frame an uplink carries, before the caller encodes, encrypts and
/// signs it (the application payload of telemetry and state frames is the
/// caller's).
#[derive(Debug, Clone, Copy)]
pub enum UplinkFrame {
    KeyExchangeRequest { device_pub_key: [u8; 32], nonce: u32 },
    ActivationRequest {
        short_id: [u8; 4],
        counter: u32,
        vendor_id: [u8; 4],
        profile_id: [u8; 2],
        version_id: [u8; 2],
    },
    Telemetry { short_id: [u8; 4], counter: u32 },
    State { is_downlink: bool, short_id: [u8; 4], counter: u32 },
}

/// An uplink transmission followed by a receive window.
#[derive(Debug, Clone, Copy)]
pub struct Uplink {
    /// Uplink channel index.
    pub tx_ch: usize,
    pub tx_freq: u32,
    /// Uplink data-rate index.
    pub tx_dr: usize,
    /// Downlink channel index of the receive window.
    pub rx_ch: usize,
    pub rx_freq: u32,
    /// Downlink data-rate index of the receive window.
    pub rx_dr: usize,
    /// Seconds between transmission and receive window.
    pub sleep_secs: u64,
    /// Frame counter (or nonce) of the uplink.
    pub counter: u32,
    /// The frame to send.
    pub frame: UplinkFrame,
}

/// What the caller does next.
#[derive(Debug, Clone, Copy, PartialEq, Eq, Structural)]
pub enum NextStep {
    /// Run `key_exchange` (again, after a failure).
    KeyExchange,
    /// Run `activate` (again, after a failure).
    Activate,
    /// A frame was received: decode it and call `handle_rx_buffer`.
    HandleRx,
    /// Nothing to do.
    Done,
}

/// A received frame as decoded and checked by the caller: its kind, its
/// counter, and whether its MIC was valid (computed with the keys that
/// `handle_rx_buffer` documents) and its payload could be decrypted.
#[derive(Debug, Clone, Copy)]
pub enum RxFrame {
    /// The bytes do not decode as a frame.
    Undecodable,
    /// Key exchange response; `root_key` is the key derived from it.
    KeyExchangeResponse { server_pub_key: [u8; 32], root_key: [u8; 32], mic_ok: bool },
    /// Activation response; `session_root_key` is the key derived from it.
    ActivationResponse { counter: u32, session_root_key: [u8; 32], mic_ok: bool, decrypt_ok: bool },
    /// State downlink.
    State { counter: u32, mic_ok: bool, decrypt_ok: bool },
    /// Any other frame.
    Other { mic_ok: bool },
}

/// What an accepted frame changed.
#[derive(Debug, Clone, Copy, PartialEq, Eq, Structural)]
pub enum RxOutcome {
    /// The key exchange completed: write the root security to flash.
    KeyExchanged,
    /// The activation completed: write the counters to flash.
    Activated,
    /// A downlink for the application.
    Downlink,
}

/// The header of a received frame, as far as the keys that check it depend
/// on it.
#[derive(Debug, Clone, Copy)]
pub enum RxHeader {
    /// Key exchange response: the server's public key and the response
    /// counter.
    KeyExchangeResponse { server_pub_key: [u8; 32], counter: u32 },
    /// Activation response and its counter.
    ActivationResponse { counter: u32 },
    /// Any other frame.
    Other,
}

/// What the key that checks a received frame is derived from.
#[derive(Debug, Clone, Copy)]
pub enum KeySource {
    /// The root key: from the shared secret of the device's secret key and
    /// the server's public key, the PIN, the request nonce and the response
    /// counter.
    RootKey { secret_key: [u8; 32], server_pub_key: [u8; 32], pin: [u8; 4], request_nonce: u32, response_counter: u32 },
    /// The session root key: from the root key, the counter of the last
    /// activation request and the response counter.
    SessionRootKey { root_key: [u8; 32], request_counter: u32, response_counter: u32 },
    /// The session root key the device holds.
    Session { session_root_key: [u8; 32] },
}

/// The inputs of the MIC check of a received frame: the key it is derived
/// from, and the downlink channel and data-rate it is bound to.
#[derive(Debug, Clone, Copy)]
pub struct MicInputs {
    pub key: KeySource,
    pub rx_ch: usize,
    pub rx_dr: usize,
}

/// The protocol state of a device in a region.
pub struct Device<'a, const U: usize, const D: usize, const R: usize> {
    pub state: State,
    pub session: Session,
    pub root_security: RootSecurity,
    pub counter_ctx: Counters,
    pub region: &'a Region<U, D, R>,
    pub config: DeviceConfig,
    pub rx_len: u8,
    pub rx_ch: usize,
    pub rx_dr: usize,
}

/// The uplink channel picked with random number `random`.
pub open spec fn random_channel(len: usize, random: u32) -> usize {
    if len == 1 {
        0
    } else {
        (random as usize % len) as usize
    }
}

impl<'a, const U: usize, const D: usize, const R: usize> Device<'a, U, D, R> {
    /// The region is well formed and the configured data-rate exists.
    pub open spec fn wf(&self) -> bool {
        &&& self.region.wf()
        &&& self.config.data_rate < R
    }

    /// A device that starts with the key exchange, with an empty session.
    pub fn new(
        root_security: RootSecurity,
        counter_ctx: Counters,
        region: &'a Region<U, D, R>,
        config: DeviceConfig,
    ) -> (r: Self)
        ensures
            r.state == State::KeyExchange,
            r.root_security == root_security,
            r.counter_ctx == counter_ctx,
            r.region == region,
            r.config == config,
            !r.session.activated(),
            r.session.telemetry_up == 0 && r.session.state_up == 0 && r.session.state_down == 0,
            r.rx_len == 0 && r.rx_ch == 0 && r.rx_dr == 0,
    {
        Device {
            state: State::KeyExchange,
            session: Session::default(),
            root_security,
            counter_ctx,
            region,
            config,
            rx_len: 0,
            rx_ch: 0,
            rx_dr: 0,
        }
    }

    /// What to do next: finish the key exchange, then the activation, then
    /// handle a received frame. Handling a frame puts the device in `Idle`.
    pub fn next(&mut self) -> (r: NextStep)
        ensures
            old(self).state == State::KeyExchange ==> r == NextStep::KeyExchange && *final(self) == *old(self),
            old(self).state == State::Activate ==> r == NextStep::Activate && *final(self) == *old(self),
            old(self).state == State::Idle && old(self).rx_len != 0 ==> r == NextStep::HandleRx
                && *final(self) == *old(self),
            old(self).state == State::Idle && old(self).rx_len == 0 ==> r == NextStep::Done && *final(self) == *old(self),
    {
        match self.state {
            State::KeyExchange => NextStep::KeyExchange,
            State::Activate => NextStep::Activate,
            State::Idle => {
                if self.rx_len != 0 {
                    self.state = State::Idle;
                    NextStep::HandleRx
                } else {
                    NextStep::Done
                }
            },
        }
    }

    pub fn has_rx_buffer(&self) -> (r: bool)
        ensures
            r == (self.rx_len != 0),
    {
        self.rx_len != 0
    }

    /// Uplink channel for random number `random`.
    pub fn get_random_tx_channel(&self, random: u32) -> (r: usize)
        requires
            U >= 1,
        ensures
            r == random_channel(U, random),
            r < U,
    {
        if U == 1 {
            0
        } else {
            random as usize % U
        }
    }

    /// The uplink on channel `tx_ch`, with its receive window; records where
    /// the reply is expected.
    fn plan_uplink(&mut self, tx_ch: usize, sleep_secs: u64, counter: u32, frame: UplinkFrame) -> (r: Uplink)
        requires
            old(self).wf(),
            tx_ch < U,
        ensures
            final(self).wf(),
            r == expected_uplink(*old(self), tx_ch, sleep_secs, counter, frame),
            final(self).rx_ch == r.rx_ch,
            final(self).rx_dr == r.rx_dr,
            final(self).state == old(self).state,
            final(self).session == old(self).session,
            final(self).root_security == old(self).root_security,
            final(self).counter_ctx == old(self).counter_ctx,
            final(self).region == old(self).region,
            final(self).config == old(self).config,
            final(self).rx_len == old(self).rx_len,
    {
        let rx_dr = self.region.uplink_downlink_data_rate_mapping[self.config.data_rate];
        let rx_ch = self.region.uplink_downlink_channel_mapping[tx_ch];
        self.rx_dr = rx_dr;
        self.rx_ch = rx_ch;
        Uplink {
            tx_ch,
            tx_freq: self.region.uplink_channels[tx_ch],
            tx_dr: self.config.data_rate,
            rx_ch,
            rx_freq: self.region.downlink_channels[rx_ch],
            rx_dr,
            sleep_secs,
            counter,
            frame,
        }
    }

    /// Starts the key exchange, unless the device already has the server's
    /// public key (then it moves on to the activation and sends nothing).
    /// `nonce` becomes the request nonce, sent on the channel that `random`
    /// picks; the reply is expected 5 s later.
    pub fn key_exchange(&mut self, random: u32, nonce: u32) -> (r: Option<Uplink>)
        requires
            old(self).wf(),
        ensures
            final(self).wf(),
            !all_bytes(old(self).root_security.server_public_key@, 0) ==> {
                &&& r is None
                &&& final(self).state == State::Activate
                &&& final(self).counter_ctx == old(self).counter_ctx
                &&& final(self).rx_ch == old(self).rx_ch && final(self).rx_dr == old(self).rx_dr
            },
            all_bytes(old(self).root_security.server_public_key@, 0) ==> {
                &&& r == Some(
                    expected_uplink(
                        *old(self),
                        random_channel(U, random),
                        5,
                        nonce,
                        UplinkFrame::KeyExchangeRequest {
                            device_pub_key: old(self).root_security.public_key,
                            nonce,
                        },
                    ),
                )
                &&& final(self).state == old(self).state
                &&& final(self).counter_ctx.last_key_exchange_request_nonce == nonce
                &&& final(self).counter_ctx.activation_request_counter
                    == old(self).counter_ctx.activation_request_counter
                &&& final(self).counter_ctx.activation_response_counter
                    == old(self).counter_ctx.activation_response_counter
                &&& final(self).rx_ch == r->0.rx_ch && final(self).rx_dr == r->0.rx_dr
            },
            final(self).session == old(self).session,
            final(self).root_security == old(self).root_security,
            final(self).region == old(self).region,
            final(self).config == old(self).config,
            final(self).rx_len == old(self).rx_len,
    {
        if self.root_security.has_server_public_key() {
            self.state = State::Activate;
            return None;
        }
        let tx_ch = self.get_random_tx_channel(random);
        self.counter_ctx.last_key_exchange_request_nonce = nonce;
        let frame = UplinkFrame::KeyExchangeRequest { device_pub_key: self.root_security.public_key, nonce };
        Some(self.plan_uplink(tx_ch, 5, nonce, frame))
    }

    /// Starts the activation, unless a session is already active (then the
    /// device becomes idle and sends nothing). The request carries the
    /// activation request counter, which is incremented; the reply is
    /// expected 5 s later.
    pub fn activate(&mut self, random: u32) -> (r: Option<Uplink>)
        requires
            old(self).wf(),
            !old(self).session.activated() ==> old(self).counter_ctx.activation_request_counter < u32::MAX,
        ensures
            final(self).wf(),
            old(self).session.activated() ==> {
                &&& r is None
                &&& final(self).state == State::Idle
                &&& final(self).counter_ctx == old(self).counter_ctx
                &&& final(self).rx_ch == old(self).rx_ch && final(self).rx_dr == old(self).rx_dr
            },
            !old(self).session.activated() ==> {
                &&& r == Some(
                    expected_uplink(
                        *old(self),
                        random_channel(U, random),
                        5,
                        old(self).counter_ctx.activation_request_counter,
                        UplinkFrame::ActivationRequest {
                            short_id: old(self).root_security.short_id,
                            counter: old(self).counter_ctx.activation_request_counter,
                            vendor_id: old(self).config.vendor_id,
                            profile_id: old(self).config.profile_id,
                            version_id: old(self).config.version_id,
                        },
                    ),
                )
                &&& final(self).state == old(self).state
                &&& final(self).counter_ctx.activation_request_counter
                    == old(self).counter_ctx.activation_request_counter + 1
                &&& final(self).counter_ctx.activation_response_counter
                    == old(self).counter_ctx.activation_response_counter
                &&& final(self).counter_ctx.last_key_exchange_request_nonce
                    == old(self).counter_ctx.last_key_exchange_request_nonce
                &&& final(self).rx_ch == r->0.rx_ch && final(self).rx_dr == r->0.rx_dr
            },
            final(self).session == old(self).session,
            final(self).root_security == old(self).root_security,
            final(self).region == old(self).region,
            final(self).config == old(self).config,
            final(self).rx_len == old(self).rx_len,
    {
        if self.session.is_activated() {
            self.state = State::Idle;
            return None;
        }
        let req_counter = self.counter_ctx.activation_request_counter;
        self.counter_ctx.activation_request_counter = req_counter + 1;
        let tx_ch = self.get_random_tx_channel(random);
        let frame = UplinkFrame::ActivationRequest {
            short_id: self.root_security.short_id,
            counter: req_counter,
            vendor_id: self.config.vendor_id,
            profile_id: self.config.profile_id,
            version_id: self.config.version_id,
        };
        Some(self.plan_uplink(tx_ch, 5, req_counter, frame))
    }

    /// A telemetry uplink: refused before the activation; it carries the
    /// telemetry counter, which is incremented; a downlink may follow 1 s
    /// later.
    pub fn send_telemetry(&mut self, random: u32) -> (r: Result<Uplink, Error>)
        requires
            old(self).wf(),
            old(self).session.activated() ==> old(self).session.telemetry_up < u32::MAX,
        ensures
            final(self).wf(),
            !old(self).session.activated() ==> r == Err::<Uplink, Error>(Error::NotActivated) && *final(self) == *old(self),
            old(self).session.activated() ==> {
                &&& r == Ok::<Uplink, Error>(
                    expected_uplink(
                        *old(self),
                        random_channel(U, random),
                        1,
                        old(self).session.telemetry_up,
                        UplinkFrame::Telemetry {
                            short_id: old(self).root_security.short_id,
                            counter: old(self).session.telemetry_up,
                        },
                    ),
                )
                &&& final(self).session.telemetry_up == old(self).session.telemetry_up + 1
                &&& final(self).session.state_up == old(self).session.state_up
                &&& final(self).session.state_down == old(self).session.state_down
                &&& final(self).session.session_root_key == old(self).session.session_root_key
                &&& final(self).state == old(self).state
                &&& final(self).counter_ctx == old(self).counter_ctx
                &&& final(self).root_security == old(self).root_security
                &&& final(self).rx_ch == r->Ok_0.rx_ch && final(self).rx_dr == r->Ok_0.rx_dr
                &&& final(self).rx_len == old(self).rx_len
            },
            final(self).region == old(self).region,
            final(self).config == old(self).config,
    {
        if !self.session.is_activated() {
            return Err(Error::NotActivated);
        }
        let telemetry_count = self.session.telemetry_up;
        self.session.telemetry_up = telemetry_count + 1;
        let tx_ch = self.get_random_tx_channel(random);
        let frame = UplinkFrame::Telemetry { short_id: self.root_security.short_id, counter: telemetry_count };
        Ok(self.plan_uplink(tx_ch, 1, telemetry_count, frame))
    }

    /// A state uplink: refused before the activation; it carries the state
    /// counter, which is incremented; a downlink may follow 1 s later.
    pub fn send_state(&mut self, random: u32) -> (r: Result<Uplink, Error>)
        requires
            old(self).wf(),
            old(self).session.activated() ==> old(self).session.state_up < u32::MAX,
        ensures
            final(self).wf(),
            !old(self).session.activated() ==> r == Err::<Uplink, Error>(Error::NotActivated) && *final(self) == *old(self),
            old(self).session.activated() ==> {
                &&& r == Ok::<Uplink, Error>(
                    expected_uplink(
                        *old(self),
                        random_channel(U, random),
                        1,
                        old(self).session.state_up,
                        UplinkFrame::State {
                            is_downlink: false,
                            short_id: old(self).root_security.short_id,
                            counter: old(self).session.state_up,
                        },
                    ),
                )
                &&& final(self).session.state_up == old(self).session.state_up + 1
                &&& final(self).session.telemetry_up == old(self).session.telemetry_up
                &&& final(self).session.state_down == old(self).session.state_down
                &&& final(self).session.session_root_key == old(self).session.session_root_key
                &&& final(self).state == old(self).state
                &&& final(self).counter_ctx == old(self).counter_ctx
                &&& final(self).root_security == old(self).root_security
                &&& final(self).rx_ch == r->Ok_0.rx_ch && final(self).rx_dr == r->Ok_0.rx_dr
                &&& final(self).rx_len == old(self).rx_len
            },
            final(self).region == old(self).region,
            final(self).config == old(self).config,
    {
        if !self.session.is_activated() {
            return Err(Error::NotActivated);
        }
        let state_counter = self.session.state_up;
        self.session.state_up = state_counter + 1;
        let tx_ch = self.get_random_tx_channel(random);
        let frame = UplinkFrame::State {
            is_downlink: false,
            short_id: self.root_security.short_id,
            counter: state_counter,
        };
        Ok(self.plan_uplink(tx_ch, 1, state_counter, frame))
    }

    /// The inputs of the MIC check of a received frame with header
    /// `header`. A key exchange response is checked only in the key
    /// exchange, an activation response only in the activation: in another
    /// state the frame is refused (`FrameError`) before any key is derived.
    pub fn mic_inputs(&self, header: RxHeader) -> (r: Result<MicInputs, Error>)
        requires
            header is ActivationResponse && self.state == State::Activate
                ==> self.counter_ctx.activation_request_counter > 0,
        ensures
            r == match mic_inputs_for(*self, header) {
                Some(m) => Ok::<MicInputs, Error>(m),
                None => Err::<MicInputs, Error>(Error::FrameError),
            },
    {
        match header {
            RxHeader::KeyExchangeResponse { server_pub_key, counter } => {
                if self.state != State::KeyExchange {
                    return Err(Error::FrameError);
                }
                Ok(
                    MicInputs {
                        key: KeySource::RootKey {
                            secret_key: self.root_security.secret_key,
                            server_pub_key,
                            pin: self.root_security.pin,
                            request_nonce: self.counter_ctx.last_key_exchange_request_nonce,
                            response_counter: counter,
                        },
                        rx_ch: self.rx_ch,
                        rx_dr: self.rx_dr,
                    },
                )
            },
            RxHeader::ActivationResponse { counter } => {
                if self.state != State::Activate {
                    return Err(Error::FrameError);
                }
                Ok(
                    MicInputs {
                        key: KeySource::SessionRootKey {
                            root_key: self.root_security.root_key,
                            request_counter: self.counter_ctx.activation_request_counter - 1,
                            response_counter: counter,
                        },
                        rx_ch: self.rx_ch,
                        rx_dr: self.rx_dr,
                    },
                )
            },
            RxHeader::Other => Ok(
                MicInputs {
                    key: KeySource::Session { session_root_key: self.session.session_root_key },
                    rx_ch: self.rx_ch,
                    rx_dr: self.rx_dr,
                },
            ),
        }
    }

    /// Records the length of what the receive window gave. The key exchange
    /// and the activation expect a reply: nothing received is a radio error.
    pub fn received(&mut self, rx_len: u8, expect_reply: bool) -> (r: Result<(), Error>)
        ensures
            *final(self) == (Device { rx_len, ..*old(self) }),
            r is Err <==> expect_reply && rx_len == 0,
            r is Err ==> r == Err::<(), Error>(Error::RadioError),
    {
        self.rx_len = rx_len;
        if expect_reply && rx_len == 0 {
            return Err(Error::RadioError);
        }
        Ok(())
    }

    /// Acts on a received frame and empties the receive buffer.
    ///
    /// The caller checks the frame's MIC with the key and the downlink
    /// channel and data-rate that `mic_inputs` gives for its header.
    pub fn handle_rx_buffer(&mut self, frame: RxFrame) -> (r: Result<RxOutcome, Error>)
        requires
            frame matches RxFrame::ActivationResponse { counter, mic_ok, .. } ==> (old(self).state
                == State::Activate && mic_ok && counter >= old(self).counter_ctx.activation_response_counter
                ==> counter < u32::MAX),
            frame matches RxFrame::State { counter, mic_ok, .. } ==> (mic_ok && counter >= old(
                self,
            ).session.state_down ==> counter < u32::MAX),
        ensures
            final(self).rx_len == 0,
            r == rx_outcome(*old(self), frame),
            *final(self) == rx_next(*old(self), frame),
    {
        self.rx_len = 0;
        match frame {
            RxFrame::Undecodable => Err(Error::FrameError),
            RxFrame::KeyExchangeResponse { server_pub_key, root_key, mic_ok } => {
                if self.state != State::KeyExchange {
                    return Err(Error::FrameError);
                }
                if !mic_ok {
                    return Err(Error::FrameError);
                }
                self.root_security.server_public_key = server_pub_key;
                self.root_security.root_key = root_key;
                self.state = State::Activate;
                Ok(RxOutcome::KeyExchanged)
            },
            RxFrame::ActivationResponse { counter, session_root_key, mic_ok, decrypt_ok } => {
                if self.state != State::Activate {
                    return Err(Error::FrameError);
                }
                if !mic_ok {
                    return Err(Error::FrameError);
                }
                if counter >= self.counter_ctx.activation_response_counter {
                    self.counter_ctx.activation_response_counter = counter + 1;
                } else {
                    return Err(Error::CounterError);
                }
                if !decrypt_ok {
                    return Err(Error::CryptoError);
                }
                self.session.session_root_key = session_root_key;
                self.state = State::Idle;
                Ok(RxOutcome::Activated)
            },
            RxFrame::State { counter, mic_ok, decrypt_ok } => {
                if !mic_ok {
                    return Err(Error::FrameError);
                }
                if counter >= self.session.state_down {
                    self.session.state_down = counter + 1;
                } else {
                    return Err(Error::CounterError);
                }
                if !decrypt_ok {
                    return Err(Error::CryptoError);
                }
                Ok(RxOutcome::Downlink)
            },
            RxFrame::Other { mic_ok } => {
                if !mic_ok {
                    return Err(Error::FrameError);
                }
                Err(Error::CounterError)
            },
        }
    }
}

/// The uplink planned on channel `tx_ch` for device `d`.
pub open spec fn expected_uplink<'a, const U: usize, const D: usize, const R: usize>(
    d: Device<'a, U, D, R>,
    tx_ch: usize,
    sleep_secs: u64,
    counter: u32,
    frame: UplinkFrame,
) -> Uplink {
    let rx_ch = d.region.uplink_downlink_channel_mapping@[tx_ch as int];
    let rx_dr = d.region.uplink_downlink_data_rate_mapping@[d.config.data_rate as int];
    Uplink {
        tx_ch,
        tx_freq: d.region.uplink_channels@[tx_ch as int],
        tx_dr: d.config.data_rate,
        rx_ch,
        rx_freq: d.region.downlink_channels@[rx_ch as int],
        rx_dr,
        sleep_secs,
        counter,
        frame,
    }
}

/// The inputs of the MIC check of a frame with header `header` received by
/// device `d`; `None` where the frame does not fit the device's state.
pub open spec fn mic_inputs_for<'a, const U: usize, const D: usize, const R: usize>(
    d: Device<'a, U, D, R>,
    header: RxHeader,
) -> Option<MicInputs> {
    match header {
        RxHeader::KeyExchangeResponse { server_pub_key, counter } => if d.state == State::KeyExchange {
            Some(
                MicInputs {
                    key: KeySource::RootKey {
                        secret_key: d.root_security.secret_key,
                        server_pub_key,
                        pin: d.root_security.pin,
                        request_nonce: d.counter_ctx.last_key_exchange_request_nonce,
                        response_counter: counter,
                    },
                    rx_ch: d.rx_ch,
                    rx_dr: d.rx_dr,
                },
            )
        } else {
            None
        },
        RxHeader::ActivationResponse { counter } => if d.state == State::Activate {
            Some(
                MicInputs {
                    key: KeySource::SessionRootKey {
                        root_key: d.root_security.root_key,
                        request_counter: (d.counter_ctx.activation_request_counter - 1) as u32,
                        response_counter: counter,
                    },
                    rx_ch: d.rx_ch,
                    rx_dr: d.rx_dr,
                },
            )
        } else {
            None
        },
        RxHeader::Other => Some(
            MicInputs {
                key: KeySource::Session { session_root_key: d.session.session_root_key },
                rx_ch: d.rx_ch,
                rx_dr: d.rx_dr,
            },
        ),
    }
}

/// What `handle_rx_buffer` returns for `frame`.
pub open spec fn rx_outcome<'a, const U: usize, const D: usize, const R: usize>(
    d: Device<'a, U, D, R>,
    frame: RxFrame,
) -> Result<RxOutcome, Error> {
    match frame {
        RxFrame::Undecodable => Err(Error::FrameError),
        RxFrame::KeyExchangeResponse { mic_ok, .. } => {
            if d.state != State::KeyExchange || !mic_ok {
                Err(Error::FrameError)
            } else {
                Ok(RxOutcome::KeyExchanged)
            }
        },
        RxFrame::ActivationResponse { counter, mic_ok, decrypt_ok, .. } => {
            if d.state != State::Activate || !mic_ok {
                Err(Error::FrameError)
            } else if counter < d.counter_ctx.activation_response_counter {
                Err(Error::CounterError)
            } else if !decrypt_ok {
                Err(Error::CryptoError)
            } else {
                Ok(RxOutcome::Activated)
            }
        },
        RxFrame::State { counter, mic_ok, decrypt_ok } => {
            if !mic_ok {
                Err(Error::FrameError)
            } else if counter < d.session.state_down {
                Err(Error::CounterError)
            } else if !decrypt_ok {
                Err(Error::CryptoError)
            } else {
                Ok(RxOutcome::Downlink)
            }
        },
        RxFrame::Other { mic_ok } => {
            if !mic_ok {
                Err(Error::FrameError)
            } else {
                Err(Error::CounterError)
            }
        },
    }
}

/// The device after `handle_rx_buffer` acted on `frame`: a response whose MIC
/// checks in the matching state completes its step; the counter of an
/// activation response or of a state downlink that is not behind is
/// recorded, even where the payload then fails to decrypt.
pub open spec fn rx_next<'a, const U: usize, const D: usize, const R: usize>(
    d: Device<'a, U, D, R>,
    frame: RxFrame,
) -> Device<'a, U, D, R> {
    let d0 = Device { rx_len: 0, ..d };
    match frame {
        RxFrame::KeyExchangeResponse { server_pub_key, root_key, mic_ok } => {
            if d.state == State::KeyExchange && mic_ok {
                Device {
                    root_security: RootSecurity { server_public_key: server_pub_key, root_key, ..d.root_security },
                    state: State::Activate,
                    ..d0
                }
            } else {
                d0
            }
        },
        RxFrame::ActivationResponse { counter, session_root_key, mic_ok, decrypt_ok } => {
            if d.state == State::Activate && mic_ok && counter >= d.counter_ctx.activation_response_counter {
                let d1 = Device {
                    counter_ctx: Counters { activation_response_counter: (counter + 1) as u32, ..d.counter_ctx },
                    ..d0
                };
                if decrypt_ok {
                    Device {
                        session: Session { session_root_key, ..d.session },
                        state: State::Idle,
                        ..d1
                    }
                } else {
                    d1
                }
            } else {
                d0
            }
        },
        RxFrame::State { counter, mic_ok, .. } => {
            if mic_ok && counter >= d.session.state_down {
                Device { session: Session { state_down: (counter + 1) as u32, ..d.session }, ..d0 }
            } else {
                d0
            }
        },
        _ => d0,
    }
}

/// Acting on a received frame never takes the device back to an earlier
/// protocol state.
pub proof fn lemma_rx_never_goes_back<'a, const U: usize, const D: usize, const R: usize>(
    d: Device<'a, U, D, R>,
    frame: RxFrame,
)
    ensures
        state_rank(rx_next(d, frame).state) >= state_rank(d.state),
{
}

/// A state downlink whose counter was recorded is refused when received
/// again: a downlink counter is never accepted twice.
pub proof fn lemma_state_downlink_not_replayed<'a, const U: usize, const D: usize, const R: usize>(
    d: Device<'a, U, D, R>,
    counter: u32,
    decrypt_ok: bool,
)
    requires
        counter < u32::MAX,
        rx_outcome(d, RxFrame::State { counter, mic_ok: true, decrypt_ok }) != Err::<RxOutcome, Error>(
            Error::CounterError,
        ),
    ensures
        rx_outcome(
            rx_next(d, RxFrame::State { counter, mic_ok: true, decrypt_ok }),
            RxFrame::State { counter, mic_ok: true, decrypt_ok },
        ) == Err::<RxOutcome, Error>(Error::CounterError),
{
}

/// An activation response that was taken up (its counter recorded) is never
/// accepted again.
pub proof fn lemma_activation_response_not_replayed<'a, const U: usize, const D: usize, const R: usize>(
    d: Device<'a, U, D, R>,
    counter: u32,
    session_root_key: [u8; 32],
    decrypt_ok: bool,
)
    requires
        counter < u32::MAX,
        rx_outcome(
            d,
            RxFrame::ActivationResponse { counter, session_root_key, mic_ok: true, decrypt_ok },
        ) is Ok || rx_outcome(
            d,
            RxFrame::ActivationResponse { counter, session_root_key, mic_ok: true, decrypt_ok },
        ) == Err::<RxOutcome, Error>(Error::CryptoError),
    ensures
        rx_outcome(
            rx_next(d, RxFrame::ActivationResponse { counter, session_root_key, mic_ok: true, decrypt_ok }),
            RxFrame::ActivationResponse { counter, session_root_key, mic_ok: true, decrypt_ok },
        ) is Err,
{
}


/// An activation response with a valid MIC, received during the
/// activation, is refused as replayed exactly when its counter is behind
/// the stored one; a counter equal to it or ahead (the server's first
/// response has counter 0 on a new device) is taken up: where the payload
/// decrypts, the device is activated with the response's session key, and
/// in any case the next expected counter is the response's plus one.
pub proof fn lemma_activation_response_accepted_unless_behind<'a, const U: usize, const D: usize, const R: usize>(
    d: Device<'a, U, D, R>,
    counter: u32,
    session_root_key: [u8; 32],
    decrypt_ok: bool,
)
    requires
        d.state == State::Activate,
        counter < u32::MAX,
    ensures
        ({
            let f = RxFrame::ActivationResponse { counter, session_root_key, mic_ok: true, decrypt_ok };
            &&& (rx_outcome(d, f) == Err::<RxOutcome, Error>(Error::CounterError)) <==> counter
                < d.counter_ctx.activation_response_counter
            &&& counter >= d.counter_ctx.activation_response_counter ==> {
                &&& rx_next(d, f).counter_ctx.activation_response_counter == counter + 1
                &&& decrypt_ok ==> {
                    &&& rx_outcome(d, f) == Ok::<RxOutcome, Error>(RxOutcome::Activated)
                    &&& rx_next(d, f).state == State::Idle
                    &&& rx_next(d, f).session.session_root_key == session_root_key
                }
                &&& !decrypt_ok ==> rx_outcome(d, f) == Err::<RxOutcome, Error>(Error::CryptoError)
            }
            &&& counter < d.counter_ctx.activation_response_counter ==> rx_next(d, f).state == State::Activate
                && rx_next(d, f).counter_ctx == d.counter_ctx
        }),
{
}

/// A state downlink with a valid MIC is refused as replayed exactly when its
/// counter is behind the next expected one; one equal to it or ahead is
/// taken up (the next expected counter becomes its own plus one) and, where
/// it decrypts, handed to the application. The protocol state is kept.
pub proof fn lemma_state_downlink_accepted_unless_behind<'a, const U: usize, const D: usize, const R: usize>(
    d: Device<'a, U, D, R>,
    counter: u32,
    decrypt_ok: bool,
)
    requires
        counter < u32::MAX,
    ensures
        ({
            let f = RxFrame::State { counter, mic_ok: true, decrypt_ok };
            &&& (rx_outcome(d, f) == Err::<RxOutcome, Error>(Error::CounterError)) <==> counter < d.session.state_down
            &&& counter >= d.session.state_down ==> {
                &&& rx_next(d, f).session.state_down == counter + 1
                &&& (rx_outcome(d, f) == Ok::<RxOutcome, Error>(RxOutcome::Downlink)) <==> decrypt_ok
            }
            &&& counter < d.session.state_down ==> rx_next(d, f).session == d.session
            &&& rx_next(d, f).state == d.state
        }),
{
}

/// Time (µs) the radio needs to wake up and enter receive mode before a
/// receive window.
pub const PRE_RX_MARGIN_US: u64 = 100_000;

/// Clock drift of the SX126x radio (parts per million).
pub const CLOCK_DRIFT_PPM: u64 = 50;

/// Clock drift (µs) over `interval_us` microseconds at `ppm` parts per
/// million.
pub fn get_clock_drift(interval_us: u64, ppm: u64) -> (r: u64)
    requires
        interval_us * ppm <= u64::MAX,
    ensures
        r == interval_us * ppm / 1_000_000,
{
    interval_us * ppm / 1_000_000
}

/// Timing of the receive window `delay_us` after a transmission: how long to
/// sleep after it, and the margin the window keeps open around the expected
/// reply (µs). The window opens the margin plus the drift early and keeps
/// that margin plus twice the drift.
pub fn rx_window(delay_us: u64) -> (r: (u64, u64))
    requires
        delay_us * CLOCK_DRIFT_PPM <= u64::MAX,
        delay_us >= PRE_RX_MARGIN_US + delay_us * CLOCK_DRIFT_PPM / 1_000_000,
    ensures
        ({
            let drift = delay_us * CLOCK_DRIFT_PPM / 1_000_000;
            &&& r.0 == delay_us - PRE_RX_MARGIN_US - drift
            &&& r.1 == PRE_RX_MARGIN_US + 2 * drift
        }),
{
    let drift = get_clock_drift(delay_us, CLOCK_DRIFT_PPM);
    (delay_us - PRE_RX_MARGIN_US - drift, PRE_RX_MARGIN_US + drift + drift)
}


/// The LoRa modulation of data-rate `dr`, as the radio is configured for
/// it; the radio does not support FSK.
pub fn lora_params(dr: &DataRate) -> (r: Result<Lora, Error>)
    ensures
        r == match *dr {
            DataRate::Lora(l) => Ok::<Lora, Error>(l),
            DataRate::Fsk => Err::<Lora, Error>(Error::UnsupportedModulation),
        },
{
    match dr {
        DataRate::Lora(l) => Ok(*l),
        DataRate::Fsk => Err(Error::UnsupportedModulation),
    }
}

/// How the radio runs an uplink with its receive window: the modulations of
/// the transmission and of the receive window, how long to sleep after the
/// transmission and the margin the window keeps open (µs).
#[derive(Debug, Clone, Copy, PartialEq, Eq, Structural)]
pub struct RadioPlan {
    pub tx: Lora,
    pub rx: Lora,
    pub sleep_us: u64,
    pub margin_us: u64,
}

/// Plans an uplink on data-rate `tx_dr` followed `delay_us` later by a
/// receive window on data-rate `rx_dr`. Both data-rates are checked before
/// anything is sent: an FSK one is refused (the transmission's first).
pub fn plan_send_sleep_receive(tx_dr: &DataRate, rx_dr: &DataRate, delay_us: u64) -> (r: Result<
    RadioPlan,
    Error,
>)
    requires
        (tx_dr is Lora && rx_dr is Lora) ==> {
            &&& delay_us * CLOCK_DRIFT_PPM <= u64::MAX
            &&& delay_us >= PRE_RX_MARGIN_US + delay_us * CLOCK_DRIFT_PPM / 1_000_000
        },
    ensures
        ({
            let drift = delay_us * CLOCK_DRIFT_PPM / 1_000_000;
            match (*tx_dr, *rx_dr) {
                (DataRate::Lora(t), DataRate::Lora(x)) => r == Ok::<RadioPlan, Error>(
                    RadioPlan {
                        tx: t,
                        rx: x,
                        sleep_us: (delay_us - PRE_RX_MARGIN_US - drift) as u64,
                        margin_us: (PRE_RX_MARGIN_US + 2 * drift) as u64,
                    },
                ),
                _ => r == Err::<RadioPlan, Error>(Error::UnsupportedModulation),
            }
        }),
{
    let tx = lora_params(tx_dr)?;
    let rx = lora_params(rx_dr)?;
    let (sleep_us, margin_us) = rx_window(delay_us);
    Ok(RadioPlan { tx, rx, sleep_us, margin_us })
}

/// Length of what the receive window gave: a failed or timed-out reception
/// gives nothing (0), not an error.
pub fn received_length(rx: Option<u8>) -> (r: u8)
    ensures
        r == match rx {
            Some(n) => n,
            None => 0u8,
        },
{
    match rx {
        Some(n) => n,
        None => 0,
    }
}

} // verus!
