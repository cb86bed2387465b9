//! SX1302/3 concentrator logic: the mapping of the concentrator's wrapping
//! microsecond counter onto a linear count, the configuration of its radios
//! and channels, the classification of received packets and the packets to
//! transmit.
use std::collections::HashMap;

use vstd::prelude::*;

use crate::jitqueue::{DURATION_MAX_NANOS, Item, Queue, TxMode, TxPacket, is_duration};
use crate::semtech_helpers::{
    ChannelPlanError, FskChannel, LoraMultiSfChannel, LoraStdChannel, first_fit_from, fsk_from,
    lemma_first_fit_from,
    get_fsk_channel, get_lora_multi_fs_channels, get_lora_std_channel, get_radio_for_channel,
    get_radio_frequencies, lora_std_from, multi_sf_channels, plan_in_range, radio_plan, fsk_bandwidth,
};
use crate::structs::{
    ChannelConfiguration, CodingRate, ConfigCommand, DataRateConfiguration, FskDataRateConfiguration, HeartbeatEvent,
    LoraDataRateConfiguration, Timing, TxAckStatus, TxCommand, cr_denominator,
};

verus! {

broadcast use vstd::std_specs::hash::group_hash_axioms;

/// Microseconds between `last` and `c` on the wrapping 32-bit counter.
pub open spec fn wrapping_diff(c: u32, last: u32) -> int {
    (c - last) % 0x1_0000_0000
}

/// Maps the wrapping 32-bit microsecond counter of the concentrator onto a
/// linear count in nanoseconds.
pub struct CountMapping {
    /// Counter value at the last forward step.
    last: u32,
    /// Linear count (ns) at the last forward step.
    count: u128,
}

/// The mapping's state after reading counter value `c`, and the linear count
/// returned: a reading within half the counter range behind the last one
/// (once the count has left 0) is taken as a late reading and gives a count
/// in the past without changing the state; any other reading moves the state
/// forward.
pub open spec fn count_step(last: u32, count: int, c: u32) -> (u32, int, int) {
    let diff = wrapping_diff(c, last);
    if count != 0 && diff > u32::MAX / 2 {
        (last, count, count - wrapping_diff(last, c) * 1000)
    } else {
        (c, count + diff * 1000, count + diff * 1000)
    }
}

/// The step neither moves a late count before 0 nor the linear count beyond
/// the range of a `Duration`.
pub open spec fn count_step_in_range(last: u32, count: int, c: u32) -> bool {
    let diff = wrapping_diff(c, last);
    if count != 0 && diff > u32::MAX / 2 {
        wrapping_diff(last, c) * 1000 <= count
    } else {
        count + diff * 1000 <= DURATION_MAX_NANOS
    }
}

impl CountMapping {
    /// Last counter value taken as a step forward.
    pub closed spec fn last_counter(&self) -> u32 {
        self.last
    }

    /// Linear count (ns) at that counter value.
    pub closed spec fn linear(&self) -> u128 {
        self.count
    }

    /// A mapping that has not read the counter yet.
    pub fn new() -> (r: CountMapping)
        ensures
            r.last_counter() == 0,
            r.linear() == 0,
    {
        CountMapping { last: 0, count: 0 }
    }
}

/// Maps counter value `concentrator_count` onto the linear count (ns).
pub fn get_count(mapping: &mut CountMapping, concentrator_count: u32) -> (r: u128)
    requires
        count_step_in_range(
            old(mapping).last_counter(),
            old(mapping).linear() as int,
            concentrator_count,
        ),
    ensures
        ({
            let (l, n, out) = count_step(
                old(mapping).last_counter(),
                old(mapping).linear() as int,
                concentrator_count,
            );
            &&& final(mapping).last_counter() == l
            &&& final(mapping).linear() == n
            &&& r == out
        }),
{
    let diff_us = concentrator_count.wrapping_sub(mapping.last);
    proof {
        assert(diff_us == wrapping_diff(concentrator_count, mapping.last));
    }
    if mapping.count != 0 && diff_us > u32::MAX / 2 {
        let back = mapping.last.wrapping_sub(concentrator_count);
        proof {
            assert(back == wrapping_diff(mapping.last, concentrator_count));
        }
        mapping.count - (back as u128) * 1000
    } else {
        mapping.count = mapping.count + (diff_us as u128) * 1000;
        mapping.last = concentrator_count;
        mapping.count
    }
}

/// Reading the same counter value twice gives the same count, and the second
/// reading leaves the mapping as the first left it.
pub proof fn lemma_get_count_repeat(last: u32, count: int, c: u32)
    requires
        count_step_in_range(last, count, c),
        count >= 0,
    ensures
        ({
            let (l1, n1, o1) = count_step(last, count, c);
            let (l2, n2, o2) = count_step(l1, n1, c);
            &&& count_step_in_range(l1, n1, c)
            &&& l2 == l1 && n2 == n1 && o2 == o1
        }),
{
    let (l1, n1, o1) = count_step(last, count, c);
    assert(wrapping_diff(c, c) == 0);
}

/// The linear count of the mapping never decreases; a reading taken as a
/// step forward returns the new count.
pub proof fn lemma_count_monotonic(last: u32, count: int, c: u32)
    requires
        count >= 0,
    ensures
        ({
            let (l1, n1, o1) = count_step(last, count, c);
            &&& n1 >= count
            &&& (l1 == c ==> o1 == n1)
            &&& o1 <= n1
        }),
{
}

// ---------------------------------------------------------------------------
// Concentrator codes (SX1302 HAL).
// ---------------------------------------------------------------------------
pub const MOD_LORA: u8 = 0x10;
pub const MOD_FSK: u8 = 0x20;
pub const BW_UNDEFINED: u8 = 0;
pub const BW_125KHZ: u8 = 0x04;
pub const BW_250KHZ: u8 = 0x05;
pub const BW_500KHZ: u8 = 0x06;
pub const CR_LORA_4_5: u8 = 0x01;
pub const CR_LORA_4_6: u8 = 0x02;
pub const CR_LORA_4_7: u8 = 0x03;
pub const CR_LORA_4_8: u8 = 0x04;
pub const STAT_CRC_OK: u8 = 0x10;
pub const IMMEDIATE: u8 = 0;
pub const TIMESTAMPED: u8 = 1;

/// Errors of the concentrator logic.
#[derive(Debug, Clone, Copy, PartialEq, Eq, Structural)]
pub enum ConcentratorError {
    ChannelPlan(ChannelPlanError),
    UnexpectedBandwidth(u8),
    UnexpectedSpreadingFactor(u32),
    UnexpectedCodingRate(u8),
    UnknownModulation(u8),
    DataRateNotFound,
    NoUplinkChannel,
    InvalidBandwidth(u32),
    InvalidSpreadingFactor(u8),
    ComPathTooLong,
    UnexpectedRadioType,
}

/// Configuration of an IF chain (a receive channel of the concentrator).
#[derive(Debug, Clone, Copy, PartialEq, Eq, Structural)]
pub struct RxIfConf {
    pub enable: bool,
    pub rf_chain: u8,
    /// Offset from the radio's center frequency (Hz).
    pub freq_hz: i32,
    pub bandwidth: u8,
    pub datarate: u32,
}

/// An IF chain that is not in use.
pub open spec fn rx_if_unused() -> RxIfConf {
    RxIfConf { enable: false, rf_chain: 0, freq_hz: 0, bandwidth: 0, datarate: 0 }
}

fn unused_rx_if() -> (r: RxIfConf)
    ensures
        r == rx_if_unused(),
{
    RxIfConf { enable: false, rf_chain: 0, freq_hz: 0, bandwidth: 0, datarate: 0 }
}

/// Tuning of an RF chain (a radio of the concentrator).
#[derive(Debug, Clone, Copy, PartialEq, Eq, Structural)]
pub struct RxRfTuning {
    pub enable: bool,
    pub freq_hz: u32,
}

/// The fields of a received packet that decide its channel and data-rate.
#[derive(Debug, Clone, Copy, PartialEq, Eq, Structural)]
pub struct RxPacketInfo {
    pub status: u8,
    pub freq_hz: u32,
    pub modulation: u8,
    pub bandwidth: u8,
    pub datarate: u32,
    pub coderate: u8,
}

/// The fields of a packet handed to the concentrator for transmission.
pub struct TxPacketFields {
    pub freq_hz: u32,
    pub tx_mode: u8,
    pub count_us: u32,
    pub rf_chain: u8,
    pub rf_power: i8,
    pub modulation: u8,
    pub bandwidth: u8,
    pub datarate: u32,
    pub coderate: u8,
    pub invert_pol: bool,
    pub f_dev: u8,
    pub size: u16,
    pub payload: [u8; 256],
}

/// Offset of a channel from the center of its radio, as the concentrator
/// takes it (32-bit two's complement).
pub open spec fn if_offset(freq: u32, radio: u32) -> i32 {
    (freq - radio) as i32
}

fn offset_from_radio(freq: u32, radio: u32) -> (r: i32)
    ensures
        r == if_offset(freq, radio),
{
    let d: i64 = freq as i64 - radio as i64;
    #[verifier::truncate]
    (d as i32)
}

/// Bandwidth code of a LoRa bandwidth (Hz).
pub open spec fn lora_bw_code(bw: u32) -> Option<u8> {
    if bw == 125000 {
        Some(BW_125KHZ)
    } else if bw == 250000 {
        Some(BW_250KHZ)
    } else if bw == 500000 {
        Some(BW_500KHZ)
    } else {
        None
    }
}

fn lora_bandwidth_code(bw: u32) -> (r: Option<u8>)
    ensures
        r == lora_bw_code(bw),
{
    match bw {
        125000 => Some(BW_125KHZ),
        250000 => Some(BW_250KHZ),
        500000 => Some(BW_500KHZ),
        _ => None,
    }
}

/// Bandwidth code of an FSK channel: `2 * deviation + bitrate` rounded up to
/// 125, 250 or 500 kHz; undefined where it is 0 or above 500 kHz.
pub open spec fn fsk_bw_code(freq_deviation: u32, bitrate: u32) -> u8 {
    let bw = 2 * freq_deviation + bitrate;
    if bw == 0 {
        BW_UNDEFINED
    } else if bw <= 125000 {
        BW_125KHZ
    } else if bw <= 250000 {
        BW_250KHZ
    } else if bw <= 500000 {
        BW_500KHZ
    } else {
        BW_UNDEFINED
    }
}

/// The IF chain of multi-SF channel `c`, given the radio centers.
pub open spec fn multi_sf_if(radios: Seq<u32>, c: LoraMultiSfChannel) -> Result<RxIfConf, ConcentratorError> {
    match first_fit_from(radios, 0, c.freq_hz as int, c.bandwidth) {
        Some(i) => Ok(
            RxIfConf {
                enable: true,
                rf_chain: i as u8,
                freq_hz: if_offset(c.freq_hz, radios[i]),
                bandwidth: 0,
                datarate: 0,
            },
        ),
        None => Err(ConcentratorError::ChannelPlan(ChannelPlanError::NoRadioForChannel)),
    }
}

/// The IF chain of the LoRa single-SF channel `c`.
pub open spec fn lora_std_if(radios: Seq<u32>, c: LoraStdChannel) -> Result<RxIfConf, ConcentratorError> {
    match first_fit_from(radios, 0, c.freq_hz as int, c.bandwidth) {
        Some(i) => match lora_bw_code(c.bandwidth) {
            Some(bw) => if 5 <= c.spreading_factor <= 12 {
                Ok(
                    RxIfConf {
                        enable: true,
                        rf_chain: i as u8,
                        freq_hz: if_offset(c.freq_hz, radios[i]),
                        bandwidth: bw,
                        datarate: c.spreading_factor as u32,
                    },
                )
            } else {
                Err(ConcentratorError::InvalidSpreadingFactor(c.spreading_factor))
            },
            None => Err(ConcentratorError::InvalidBandwidth(c.bandwidth)),
        },
        None => Err(ConcentratorError::ChannelPlan(ChannelPlanError::NoRadioForChannel)),
    }
}

/// The IF chain of the FSK channel `c`.
pub open spec fn fsk_if(radios: Seq<u32>, c: FskChannel) -> Result<RxIfConf, ConcentratorError> {
    match first_fit_from(radios, 0, c.freq_hz as int, c.bandwidth) {
        Some(i) => Ok(
            RxIfConf {
                enable: true,
                rf_chain: i as u8,
                freq_hz: if_offset(c.freq_hz, radios[i]),
                bandwidth: fsk_bw_code(c.freq_deviation, c.bitrate),
                datarate: c.bitrate,
            },
        ),
        None => Err(ConcentratorError::ChannelPlan(ChannelPlanError::NoRadioForChannel)),
    }
}

/// The IF chain configured in slot `i` (of 10) by the channel plan: slots 0
/// to 7 hold the multi-SF channels, slot 8 the LoRa single-SF channel and
/// slot 9 the FSK channel; a slot without a channel is unused.
pub open spec fn planned_if(
    dr: Map<u8, DataRateConfiguration>,
    ch: Map<u8, ChannelConfiguration>,
    radios: Seq<u32>,
    i: int,
) -> Result<RxIfConf, ConcentratorError> {
    let multi = multi_sf_channels(dr, ch);
    if 0 <= i < multi.len() {
        multi_sf_if(radios, multi[i])
    } else if i == 8 && lora_std_from(dr, ch, 0) is Some {
        lora_std_if(radios, lora_std_from(dr, ch, 0)->0)
    } else if i == 9 && fsk_from(dr, ch, 0) is Some {
        fsk_if(radios, fsk_from(dr, ch, 0)->0)
    } else {
        Ok(rx_if_unused())
    }
}

/// The first error of the channel plan, taking the slots in the order the
/// concentrator configures them (multi-SF channels, then slot 8, then 9).
pub open spec fn first_if_error(
    dr: Map<u8, DataRateConfiguration>,
    ch: Map<u8, ChannelConfiguration>,
    radios: Seq<u32>,
) -> Option<ConcentratorError> {
    let multi = multi_sf_channels(dr, ch);
    if exists|i: int| 0 <= i < multi.len() && #[trigger] planned_if(dr, ch, radios, i) is Err {
        let i = choose|i: int|
            0 <= i < multi.len() && #[trigger] planned_if(dr, ch, radios, i) is Err && forall|j: int|
                0 <= j < i ==> planned_if(dr, ch, radios, j) is Ok;
        Some(planned_if(dr, ch, radios, i)->Err_0)
    } else if planned_if(dr, ch, radios, 8) is Err {
        Some(planned_if(dr, ch, radios, 8)->Err_0)
    } else if planned_if(dr, ch, radios, 9) is Err {
        Some(planned_if(dr, ch, radios, 9)->Err_0)
    } else {
        None
    }
}

/// The first slot, from `i` on, whose IF chain cannot be configured; 10
/// where there is none. The concentrator configures the slots in the order
/// of their index.
pub open spec fn first_failing_slot_from(
    dr: Map<u8, DataRateConfiguration>,
    ch: Map<u8, ChannelConfiguration>,
    radios: Seq<u32>,
    i: int,
) -> int
    decreases 10 - i,
{
    if i < 0 || i >= 10 {
        10
    } else if planned_if(dr, ch, radios, i) is Err {
        i
    } else {
        first_failing_slot_from(dr, ch, radios, i + 1)
    }
}

proof fn lemma_first_failing_slot(
    dr: Map<u8, DataRateConfiguration>,
    ch: Map<u8, ChannelConfiguration>,
    radios: Seq<u32>,
    a: int,
    i: int,
)
    requires
        0 <= a <= i < 10,
        forall|j: int| a <= j < i ==> #[trigger] planned_if(dr, ch, radios, j) is Ok,
        planned_if(dr, ch, radios, i) is Err,
    ensures
        first_failing_slot_from(dr, ch, radios, a) == i,
    decreases i - a,
{
    if a < i {
        assert(planned_if(dr, ch, radios, a) is Ok);
        lemma_first_failing_slot(dr, ch, radios, a + 1, i);
    }
}

/// What configuring the channels `ch` (with data-rates `dr`) does to the
/// radio tunings and IF chains, from `old_rf` and `old_if` to `new_rf` and
/// `new_if`, with result `r`: where the plan fails, nothing changes; else
/// both radios are tuned to the plan and the IF chains are configured as
/// planned, up to the first that cannot be (from there on they are unused).
pub open spec fn channels_configured(
    dr: Map<u8, DataRateConfiguration>,
    ch: Map<u8, ChannelConfiguration>,
    old_rf: [RxRfTuning; 2],
    old_if: [RxIfConf; 10],
    new_rf: [RxRfTuning; 2],
    new_if: [RxIfConf; 10],
    r: Result<(), ConcentratorError>,
) -> bool {
    match radio_plan(dr, ch) {
        Err(e) => {
            &&& r == Err::<(), ConcentratorError>(ConcentratorError::ChannelPlan(e))
            &&& new_rf == old_rf
            &&& new_if == old_if
        },
        Ok((r0, r1)) => {
            let radios = seq![r0 as u32, r1 as u32];
            &&& new_rf[0] == (RxRfTuning { enable: r0 != 0, freq_hz: r0 as u32 })
            &&& new_rf[1] == (RxRfTuning { enable: r1 != 0, freq_hz: r1 as u32 })
            &&& match first_if_error(dr, ch, radios) {
                None => {
                    &&& r is Ok
                    &&& forall|i: int|
                        0 <= i < 10 ==> Ok::<RxIfConf, ConcentratorError>(#[trigger] new_if[i])
                            == planned_if(dr, ch, radios, i)
                },
                Some(e) => {
                    let f = first_failing_slot_from(dr, ch, radios, 0);
                    &&& r == Err::<(), ConcentratorError>(e)
                    &&& forall|i: int|
                        0 <= i < f ==> Ok::<RxIfConf, ConcentratorError>(#[trigger] new_if[i])
                            == planned_if(dr, ch, radios, i)
                    &&& forall|i: int| f <= i < 10 ==> #[trigger] new_if[i] == rx_if_unused()
                },
            }
        },
    }
}

/// The configuration state of the concentrator.
pub struct RadioState {
    pub started: bool,
    pub rx_rf: [RxRfTuning; 2],
    pub rx_if: [RxIfConf; 10],
    pub data_rates: HashMap<u8, DataRateConfiguration>,
    pub uplink_channels: HashMap<u8, ChannelConfiguration>,
    pub downlink_channels: HashMap<u8, ChannelConfiguration>,
}

impl RadioState {
    /// A stopped concentrator: radio 0 and the radio that provides the clock
    /// are enabled and tuned to 868.5 MHz, no channel is configured.
    pub fn new(clock_source: u8) -> (r: RadioState)
        ensures
            !r.started,
            r.rx_rf[0] == (RxRfTuning { enable: true, freq_hz: 868500000 }),
            r.rx_rf[1] == (RxRfTuning { enable: clock_source == 1, freq_hz: 868500000 }),
            forall|i: int| 0 <= i < 10 ==> #[trigger] r.rx_if[i] == rx_if_unused(),
            r.data_rates@ == Map::<u8, DataRateConfiguration>::empty(),
            r.uplink_channels@ == Map::<u8, ChannelConfiguration>::empty(),
            r.downlink_channels@ == Map::<u8, ChannelConfiguration>::empty(),
    {
        let unused = unused_rx_if();
        RadioState {
            started: false,
            rx_rf: [
                RxRfTuning { enable: true, freq_hz: 868500000 },
                RxRfTuning { enable: clock_source == 1, freq_hz: 868500000 },
            ],
            rx_if: [unused, unused, unused, unused, unused, unused, unused, unused, unused, unused],
            data_rates: HashMap::new(),
            uplink_channels: HashMap::new(),
            downlink_channels: HashMap::new(),
        }
    }

    /// Replaces the data-rates.
    pub fn configure_data_rates(&mut self, data_rates: &HashMap<u8, DataRateConfiguration>)
        ensures
            final(self).data_rates@ == data_rates@,
            final(self).started == old(self).started,
            final(self).rx_rf == old(self).rx_rf,
            final(self).rx_if == old(self).rx_if,
            final(self).uplink_channels@ == old(self).uplink_channels@,
            final(self).downlink_channels@ == old(self).downlink_channels@,
    {
        self.data_rates = data_rates.clone();
    }

    /// Replaces the channels and configures the radios and IF chains for the
    /// uplink channels (with the current data-rates). Where an IF chain
    /// cannot be configured, the chains before it keep their new
    /// configuration and it and the chains after it are unused.
    pub fn configure_channels(
        &mut self,
        uplink_channels: &HashMap<u8, ChannelConfiguration>,
        downlink_channels: &HashMap<u8, ChannelConfiguration>,
    ) -> (r: Result<(), ConcentratorError>)
        requires
            multi_sf_channels(old(self).data_rates@, uplink_channels@).len() <= 8 ==> plan_in_range(
                old(self).data_rates@,
                uplink_channels@,
            ),
        ensures
            final(self).uplink_channels@ == uplink_channels@,
            final(self).downlink_channels@ == downlink_channels@,
            final(self).data_rates@ == old(self).data_rates@,
            final(self).started == old(self).started,
            channels_configured(
                old(self).data_rates@,
                uplink_channels@,
                old(self).rx_rf,
                old(self).rx_if,
                final(self).rx_rf,
                final(self).rx_if,
                r,
            ),
    {
        self.uplink_channels = uplink_channels.clone();
        self.downlink_channels = downlink_channels.clone();
        let ghost dr = self.data_rates@;
        let ghost ch = uplink_channels@;

        let radios = match get_radio_frequencies(&self.data_rates, &self.uplink_channels) {
            Ok(r) => r,
            Err(e) => return Err(ConcentratorError::ChannelPlan(e)),
        };
        self.rx_rf[0] = RxRfTuning { enable: radios[0] != 0, freq_hz: radios[0] };
        self.rx_rf[1] = RxRfTuning { enable: radios[1] != 0, freq_hz: radios[1] };
        let ghost rs = seq![radios[0], radios[1]];
        assert(radios@ =~= rs);

        let unused = unused_rx_if();
        self.rx_if = [unused, unused, unused, unused, unused, unused, unused, unused, unused, unused];

        let multi_sf = match get_lora_multi_fs_channels(&self.data_rates, &self.uplink_channels) {
            Ok(v) => v,
            Err(e) => return Err(ConcentratorError::ChannelPlan(e)),
        };
        let lora_std = get_lora_std_channel(&self.data_rates, &self.uplink_channels);
        let fsk = get_fsk_channel(&self.data_rates, &self.uplink_channels);

        let mut i: usize = 0;
        while i < multi_sf.len()
            invariant
                i <= multi_sf@.len(),
                dr == old(self).data_rates@,
                ch == uplink_channels@,
                radio_plan(dr, ch) == Ok::<(int, int), ChannelPlanError>(
                    (radios[0] as int, radios[1] as int),
                ),
                rs == seq![radios[0], radios[1]],
                multi_sf@ == multi_sf_channels(dr, ch),
                multi_sf@.len() <= 8,
                radios@ == rs,
                self.data_rates@ == dr,
                self.uplink_channels@ == ch,
                self.downlink_channels@ == downlink_channels@,
                self.started == old(self).started,
                self.rx_rf[0] == (RxRfTuning { enable: radios[0] != 0, freq_hz: radios[0] }),
                self.rx_rf[1] == (RxRfTuning { enable: radios[1] != 0, freq_hz: radios[1] }),
                forall|j: int| 0 <= j < i ==> planned_if(dr, ch, rs, j) is Ok,
                forall|j: int|
                    0 <= j < i ==> Ok::<RxIfConf, ConcentratorError>(#[trigger] self.rx_if[j]) == planned_if(
                        dr,
                        ch,
                        rs,
                        j,
                    ),
                forall|j: int| i <= j < 10 ==> #[trigger] self.rx_if[j] == rx_if_unused(),
            decreases multi_sf@.len() - i,
        {
            let c = multi_sf[i];
            proof {
                lemma_first_fit_from(rs, 0, c.freq_hz as int, c.bandwidth);
            }
            let radio_i = match get_radio_for_channel(&radios, c.freq_hz, c.bandwidth) {
                Ok(v) => v,
                Err(e) => {
                    proof {
                        assert(planned_if(dr, ch, rs, i as int) is Err);
                        assert(first_if_error(dr, ch, rs) == Some(ConcentratorError::ChannelPlan(e))) by {
                            let k = choose|k: int|
                                0 <= k < multi_sf@.len() && #[trigger] planned_if(dr, ch, rs, k) is Err
                                    && forall|j: int| 0 <= j < k ==> planned_if(dr, ch, rs, j) is Ok;
                            assert(k == i as int);
                        }
                        lemma_first_failing_slot(dr, ch, rs, 0, i as int);
                    }
                    return Err(ConcentratorError::ChannelPlan(e));
                },
            };
            self.rx_if[i] = RxIfConf {
                enable: true,
                rf_chain: radio_i as u8,
                freq_hz: offset_from_radio(c.freq_hz, radios[radio_i]),
                bandwidth: 0,
                datarate: 0,
            };
            i += 1;
        }
        assert(forall|j: int| 0 <= j < multi_sf@.len() ==> planned_if(dr, ch, rs, j) is Ok);

        proof {
            assert(!exists|j: int| 0 <= j < multi_sf@.len() && #[trigger] planned_if(dr, ch, rs, j) is Err);
            assert forall|j: int| 0 <= j < 8 implies #[trigger] planned_if(dr, ch, rs, j) is Ok by {
                if j >= multi_sf@.len() {
                    assert(planned_if(dr, ch, rs, j) == Ok::<RxIfConf, ConcentratorError>(rx_if_unused()));
                }
            }
            assert forall|j: int| multi_sf@.len() <= j < 8 implies Ok::<RxIfConf, ConcentratorError>(
                #[trigger] self.rx_if[j],
            ) == planned_if(dr, ch, rs, j) by {
                assert(planned_if(dr, ch, rs, j) == Ok::<RxIfConf, ConcentratorError>(rx_if_unused()));
            }
            if planned_if(dr, ch, rs, 8) is Err {
                lemma_first_failing_slot(dr, ch, rs, 0, 8);
            }
        }
        if let Some(c) = lora_std {
            proof {
                lemma_first_fit_from(rs, 0, c.freq_hz as int, c.bandwidth);
            }
            let radio_i = match get_radio_for_channel(&radios, c.freq_hz, c.bandwidth) {
                Ok(v) => v,
                Err(e) => return Err(ConcentratorError::ChannelPlan(e)),
            };
            let bandwidth = match lora_bandwidth_code(c.bandwidth) {
                Some(b) => b,
                None => return Err(ConcentratorError::InvalidBandwidth(c.bandwidth)),
            };
            if c.spreading_factor < 5 || c.spreading_factor > 12 {
                return Err(ConcentratorError::InvalidSpreadingFactor(c.spreading_factor));
            }
            self.rx_if[8] = RxIfConf {
                enable: true,
                rf_chain: radio_i as u8,
                freq_hz: offset_from_radio(c.freq_hz, radios[radio_i]),
                bandwidth,
                datarate: c.spreading_factor as u32,
            };
        }

        assert(planned_if(dr, ch, rs, 8) is Err ==> false);
        assert(Ok::<RxIfConf, ConcentratorError>(self.rx_if[8]) == planned_if(dr, ch, rs, 8));
        proof {
            if planned_if(dr, ch, rs, 9) is Err {
                lemma_first_failing_slot(dr, ch, rs, 0, 9);
            }
        }
        if let Some(c) = fsk {
            proof {
                lemma_first_fit_from(rs, 0, c.freq_hz as int, c.bandwidth);
            }
            let radio_i = match get_radio_for_channel(&radios, c.freq_hz, c.bandwidth) {
                Ok(v) => v,
                Err(e) => return Err(ConcentratorError::ChannelPlan(e)),
            };
            let bw: u64 = 2 * (c.freq_deviation as u64) + c.bitrate as u64;
            let bandwidth = if bw == 0 {
                BW_UNDEFINED
            } else if bw <= 125000 {
                BW_125KHZ
            } else if bw <= 250000 {
                BW_250KHZ
            } else if bw <= 500000 {
                BW_500KHZ
            } else {
                BW_UNDEFINED
            };
            self.rx_if[9] = RxIfConf {
                enable: true,
                rf_chain: radio_i as u8,
                freq_hz: offset_from_radio(c.freq_hz, radios[radio_i]),
                bandwidth,
                datarate: c.bitrate,
            };
        }
        Ok(())
    }
}

/// The data-rate of a received packet, read from its modulation fields.
pub open spec fn rx_data_rate(pkt: RxPacketInfo) -> Result<DataRateConfiguration, ConcentratorError> {
    if pkt.modulation == MOD_LORA {
        let bw: Option<u32> = if pkt.bandwidth == BW_500KHZ {
            Some(500000u32)
        } else if pkt.bandwidth == BW_250KHZ {
            Some(250000u32)
        } else if pkt.bandwidth == BW_125KHZ {
            Some(125000u32)
        } else {
            None
        };
        let cr: Option<CodingRate> = if pkt.coderate == CR_LORA_4_5 {
            Some(CodingRate::Cr45)
        } else if pkt.coderate == CR_LORA_4_6 {
            Some(CodingRate::Cr46)
        } else if pkt.coderate == CR_LORA_4_7 {
            Some(CodingRate::Cr47)
        } else if pkt.coderate == CR_LORA_4_8 {
            Some(CodingRate::Cr48)
        } else {
            None
        };
        if bw is None {
            Err(ConcentratorError::UnexpectedBandwidth(pkt.bandwidth))
        } else if !(5 <= pkt.datarate <= 12) {
            Err(ConcentratorError::UnexpectedSpreadingFactor(pkt.datarate))
        } else if cr is None {
            Err(ConcentratorError::UnexpectedCodingRate(pkt.coderate))
        } else {
            Ok(
                DataRateConfiguration::Lora(
                    LoraDataRateConfiguration {
                        bandwidth: bw->0,
                        spreading_factor: pkt.datarate as u8,
                        coding_rate: cr->0,
                    },
                ),
            )
        }
    } else if pkt.modulation == MOD_FSK {
        Ok(
            DataRateConfiguration::Fsk(
                FskDataRateConfiguration { bitrate: pkt.datarate, frequency_deviation: 25000 },
            ),
        )
    } else {
        Err(ConcentratorError::UnknownModulation(pkt.modulation))
    }
}

fn read_data_rate(pkt: &RxPacketInfo) -> (r: Result<DataRateConfiguration, ConcentratorError>)
    ensures
        r == rx_data_rate(*pkt),
{
    if pkt.modulation == MOD_LORA {
        let bandwidth: u32 = match pkt.bandwidth {
            BW_500KHZ => 500000,
            BW_250KHZ => 250000,
            BW_125KHZ => 125000,
            _ => return Err(ConcentratorError::UnexpectedBandwidth(pkt.bandwidth)),
        };
        if pkt.datarate < 5 || pkt.datarate > 12 {
            return Err(ConcentratorError::UnexpectedSpreadingFactor(pkt.datarate));
        }
        let coding_rate = match pkt.coderate {
            CR_LORA_4_5 => CodingRate::Cr45,
            CR_LORA_4_6 => CodingRate::Cr46,
            CR_LORA_4_7 => CodingRate::Cr47,
            CR_LORA_4_8 => CodingRate::Cr48,
            _ => return Err(ConcentratorError::UnexpectedCodingRate(pkt.coderate)),
        };
        Ok(
            DataRateConfiguration::Lora(
                LoraDataRateConfiguration { bandwidth, spreading_factor: pkt.datarate as u8, coding_rate },
            ),
        )
    } else if pkt.modulation == MOD_FSK {
        Ok(DataRateConfiguration::Fsk(FskDataRateConfiguration { bitrate: pkt.datarate, frequency_deviation: 25_000 }))
    } else {
        Err(ConcentratorError::UnknownModulation(pkt.modulation))
    }
}

/// Whether uplink channel `c` is on `freq` and accepts data-rate `dr`.
pub open spec fn channel_matches(c: ChannelConfiguration, freq: u32, dr: u8) -> bool {
    c.freq_hz == freq && c.data_rates@.contains(dr)
}

impl RadioState {
    /// Whether a received packet has a valid CRC and was received on uplink
    /// channel `ch` with data-rate `dr`.
    pub open spec fn rx_classified(&self, pkt: RxPacketInfo, ch: u8, dr: u8) -> bool {
        &&& pkt.status == STAT_CRC_OK
        &&& rx_data_rate(pkt) is Ok
        &&& self.data_rates@.contains_key(dr) && self.data_rates@[dr] == rx_data_rate(pkt)->Ok_0
        &&& self.uplink_channels@.contains_key(ch)
        &&& channel_matches(self.uplink_channels@[ch], pkt.freq_hz, dr)
    }

    /// Whether a received packet is dropped: its CRC is not valid, or its
    /// data-rate or channel cannot be found.
    pub open spec fn rx_unclassifiable(&self, pkt: RxPacketInfo) -> bool {
        ||| pkt.status != STAT_CRC_OK
        ||| rx_data_rate(pkt) is Err
        ||| forall|k: u8| #[trigger] self.data_rates@.contains_key(k) ==> self.data_rates@[k] != rx_data_rate(pkt)->Ok_0
        ||| exists|dr: u8|
            #[trigger] self.data_rates@.contains_key(dr) && self.data_rates@[dr] == rx_data_rate(pkt)->Ok_0 && forall|
                i: u8,
            |
                #[trigger] self.uplink_channels@.contains_key(i) ==> !channel_matches(
                    self.uplink_channels@[i],
                    pkt.freq_hz,
                    dr,
                )
    }
}

impl RadioState {
    /// The index of a data-rate that the received packet's modulation fields
    /// define. Where several indexes hold that data-rate, one of them.
    pub fn get_data_rate(&self, pkt: &RxPacketInfo) -> (r: Result<u8, ConcentratorError>)
        ensures
            match rx_data_rate(*pkt) {
                Err(e) => r == Err::<u8, ConcentratorError>(e),
                Ok(d) => match r {
                    Ok(k) => self.data_rates@.contains_key(k) && self.data_rates@[k] == d,
                    Err(e) => e == ConcentratorError::DataRateNotFound && forall|k: u8|
                        #[trigger] self.data_rates@.contains_key(k) ==> self.data_rates@[k] != d,
                },
            },
    {
        let data_rate = read_data_rate(pkt)?;
        let mut k: u16 = 0;
        while k < 256
            invariant
                k <= 256,
                rx_data_rate(*pkt) == Ok::<DataRateConfiguration, ConcentratorError>(data_rate),
                forall|j: u8| j < k && #[trigger] self.data_rates@.contains_key(j) ==> self.data_rates@[j] != data_rate,
            decreases 256 - k,
        {
            if let Some(v) = self.data_rates.get(&(k as u8)) {
                if *v == data_rate {
                    return Ok(k as u8);
                }
            }
            k += 1;
        }
        Err(ConcentratorError::DataRateNotFound)
    }

    /// The index of an uplink channel on `freq` that accepts data-rate `dr`.
    /// Where several match, one of them.
    pub fn get_uplink_channel_index(&self, freq: u32, dr: u8) -> (r: Result<u8, ConcentratorError>)
        ensures
            match r {
                Ok(i) => self.uplink_channels@.contains_key(i) && channel_matches(self.uplink_channels@[i], freq, dr),
                Err(e) => e == ConcentratorError::NoUplinkChannel && forall|i: u8|
                    #[trigger] self.uplink_channels@.contains_key(i) ==> !channel_matches(
                        self.uplink_channels@[i],
                        freq,
                        dr,
                    ),
            },
    {
        let mut k: u16 = 0;
        while k < 256
            invariant
                k <= 256,
                forall|j: u8|
                    j < k && #[trigger] self.uplink_channels@.contains_key(j) ==> !channel_matches(
                        self.uplink_channels@[j],
                        freq,
                        dr,
                    ),
            decreases 256 - k,
        {
            if let Some(c) = self.uplink_channels.get(&(k as u8)) {
                if c.freq_hz == freq && vec_contains(&c.data_rates, dr) {
                    return Ok(k as u8);
                }
            }
            k += 1;
        }
        Err(ConcentratorError::NoUplinkChannel)
    }

    /// The uplink channel and data-rate of a received packet; `None` where
    /// its CRC is not valid or either cannot be found (such packets are
    /// dropped).
    pub fn classify_rx(&self, pkt: &RxPacketInfo) -> (r: Option<(u8, u8)>)
        ensures
            match r {
                Some((ch, dr)) => self.rx_classified(*pkt, ch, dr),
                None => self.rx_unclassifiable(*pkt),
            },
    {
        if pkt.status != STAT_CRC_OK {
            return None;
        }
        let data_rate = match self.get_data_rate(pkt) {
            Ok(v) => v,
            Err(_) => return None,
        };
        let channel = match self.get_uplink_channel_index(pkt.freq_hz, data_rate) {
            Ok(v) => v,
            Err(_) => return None,
        };
        Some((channel, data_rate))
    }
}

/// A received frame as the gateway reports it (signal strength, noise
/// ratio, reception id and time are added by the caller): its uplink
/// channel and data-rate, its payload, and as context the concentrator's
/// counter at reception (big-endian).
#[derive(Debug, Clone)]
pub struct ReceivedFrame {
    pub channel: u8,
    pub data_rate: u8,
    pub payload: Vec<u8>,
    pub context: Vec<u8>,
}

/// The big-endian bytes of `c`.
pub open spec fn be_bytes(c: u32) -> Seq<u8> {
    seq![(c / 16777216) as u8, ((c / 65536) % 256) as u8, ((c / 256) % 256) as u8, (c % 256) as u8]
}

/// Reading the context of a received frame gives back the counter it was
/// made from (as a transmission request's timing context is read).
pub proof fn lemma_be_bytes_round_trip(c: u32)
    ensures
        be_bytes(c).len() == 4,
        be_u32(be_bytes(c)) == c,
{
    let b = be_bytes(c);
    assert(b[0] == c / 16777216);
    assert(b[1] == (c / 65536) % 256);
    assert(b[2] == (c / 256) % 256);
    assert(b[3] == c % 256);
    assert(be_u32(b) == c) by (nonlinear_arith)
        requires
            b[0] == c / 16777216,
            b[1] == (c / 65536) % 256,
            b[2] == (c / 256) % 256,
            b[3] == c % 256,
            be_u32(b) == b[0] * 16777216 + b[1] * 65536 + b[2] * 256 + b[3],
            0 <= c < 0x1_0000_0000,
    ;
}

impl RadioState {
    /// The frame reported for a received packet with payload bytes
    /// `payload[..size]`, received when the concentrator's counter read
    /// `count_us`; `None` where the packet is dropped.
    pub fn received_frame(&self, pkt: &RxPacketInfo, payload: &[u8], size: u16, count_us: u32) -> (r: Option<
        ReceivedFrame,
    >)
        requires
            (exists|ch: u8, dr: u8| self.rx_classified(*pkt, ch, dr)) ==> size as int <= payload@.len(),
        ensures
            match r {
                Some(f) => {
                    &&& self.rx_classified(*pkt, f.channel, f.data_rate)
                    &&& f.payload@ == payload@.subrange(0, size as int)
                    &&& f.context@ == be_bytes(count_us)
                },
                None => self.rx_unclassifiable(*pkt),
            },
    {
        let (channel, data_rate) = match self.classify_rx(pkt) {
            Some(v) => v,
            None => return None,
        };
        let mut out: Vec<u8> = Vec::new();
        let mut i: usize = 0;
        let n = size as usize;
        while i < n
            invariant
                n <= payload@.len(),
                i <= n,
                out@ == payload@.subrange(0, i as int),
            decreases n - i,
        {
            out.push(payload[i]);
            i += 1;
            assert(out@ =~= payload@.subrange(0, i as int));
        }
        let context = vec![
            (count_us / 16777216) as u8,
            ((count_us / 65536) % 256) as u8,
            ((count_us / 256) % 256) as u8,
            (count_us % 256) as u8,
        ];
        assert(context@ =~= be_bytes(count_us));
        Some(ReceivedFrame { channel, data_rate, payload: out, context })
    }
}

/// Whether `v` holds `x`.
fn vec_contains(v: &Vec<u8>, x: u8) -> (r: bool)
    ensures
        r == v@.contains(x),
{
    let mut i: usize = 0;
    while i < v.len()
        invariant
            i <= v@.len(),
            forall|j: int| 0 <= j < i ==> v@[j] != x,
        decreases v@.len() - i,
    {
        if v[i] == x {
            return true;
        }
        i += 1;
    }
    false
}

/// The big-endian number held by the first four bytes of `b`.
pub open spec fn be_u32(b: Seq<u8>) -> int {
    b[0] * 16777216 + b[1] * 65536 + b[2] * 256 + b[3]
}

/// Transmission count (µs, concentrator clock): the reception count held by
/// the context plus the delay, on the wrapping 32-bit counter.
pub open spec fn tx_count_us(context: Seq<u8>, delay_ns: u64) -> u32 {
    ((be_u32(context) + (delay_ns / 1000) % 0x1_0000_0000) % 0x1_0000_0000) as u32
}

/// Coding-rate code of a LoRa coding rate.
pub open spec fn cr_code(cr: CodingRate) -> u8 {
    match cr {
        CodingRate::Cr45 => CR_LORA_4_5,
        CodingRate::Cr46 => CR_LORA_4_6,
        CodingRate::Cr47 => CR_LORA_4_7,
        CodingRate::Cr48 => CR_LORA_4_8,
    }
}

impl RadioState {
    /// Whether a transmission request gets as far as reading its timing
    /// context.
    pub open spec fn reads_context(&self, frame: TxCommand) -> bool {
        &&& self.started
        &&& self.downlink_channels@.contains_key(frame.channel)
        &&& self.data_rates@.contains_key(frame.data_rate)
    }

    /// The packet to hand to the concentrator for a transmission request.
    pub fn tx_packet(&self, frame: &TxCommand) -> (r: Result<TxPacketFields, TxAckStatus>)
        requires
            self.reads_context(*frame) ==> (match frame.timing {
                Timing::Delay(v) => v.context@.len() >= 4,
            }),
        ensures
            !self.started ==> r == Err::<TxPacketFields, TxAckStatus>(TxAckStatus::InternalError),
            self.started && !self.downlink_channels@.contains_key(frame.channel) ==> r == Err::<
                TxPacketFields,
                TxAckStatus,
            >(TxAckStatus::TxChannel),
            self.started && self.downlink_channels@.contains_key(frame.channel)
                && !self.data_rates@.contains_key(frame.data_rate) ==> r == Err::<TxPacketFields, TxAckStatus>(
                TxAckStatus::TxDataRate,
            ),
            self.reads_context(*frame) ==> {
                let d = self.data_rates@[frame.data_rate];
                let v = frame.timing->Delay_0;
                match d {
                    DataRateConfiguration::Lora(l) if lora_bw_code(l.bandwidth) is None => r == Err::<
                        TxPacketFields,
                        TxAckStatus,
                    >(TxAckStatus::InvalidFrame),
                    _ => r matches Ok(p) && {
                        &&& p.freq_hz == self.downlink_channels@[frame.channel].freq_hz
                        &&& p.tx_mode == TIMESTAMPED
                        &&& p.count_us == tx_count_us(v.context@, v.delay_ns)
                        &&& p.rf_chain == 0
                        &&& p.rf_power == frame.tx_power as i8
                        &&& p.size == frame.payload@.len() as u16
                        &&& forall|i: int|
                            0 <= i < 256 ==> #[trigger] p.payload@[i] == if i < frame.payload@.len() {
                                frame.payload@[i]
                            } else {
                                0u8
                            }
                        &&& match d {
                            DataRateConfiguration::Lora(l) => {
                                &&& p.modulation == MOD_LORA
                                &&& Some(p.bandwidth) == lora_bw_code(l.bandwidth)
                                &&& p.datarate == l.spreading_factor as u32
                                &&& p.coderate == cr_code(l.coding_rate)
                                &&& p.invert_pol
                                &&& p.f_dev == 0
                            },
                            DataRateConfiguration::Fsk(f) => {
                                &&& p.modulation == MOD_FSK
                                &&& p.bandwidth == 0
                                &&& p.datarate == f.bitrate
                                &&& p.coderate == 0
                                &&& !p.invert_pol
                                &&& p.f_dev == (f.frequency_deviation / 1000) as u8
                            },
                        }
                    },
                }
            },
    {
        if !self.started {
            return Err(TxAckStatus::InternalError);
        }
        let channel = match self.downlink_channels.get(&frame.channel) {
            Some(c) => c,
            None => return Err(TxAckStatus::TxChannel),
        };
        let data_rate = match self.data_rates.get(&frame.data_rate) {
            Some(d) => *d,
            None => return Err(TxAckStatus::TxDataRate),
        };
        let count_us = match &frame.timing {
            Timing::Delay(v) => {
                let rx_count: u64 = v.context[0] as u64 * 16777216 + v.context[1] as u64 * 65536
                    + v.context[2] as u64 * 256 + v.context[3] as u64;
                let delay_us: u64 = (v.delay_ns / 1000) % 0x1_0000_0000;
                ((rx_count + delay_us) % 0x1_0000_0000) as u32
            },
        };
        let (modulation, bandwidth, datarate, coderate, invert_pol, f_dev) = match data_rate {
            DataRateConfiguration::Lora(l) => {
                let bandwidth = match lora_bandwidth_code(l.bandwidth) {
                    Some(b) => b,
                    None => return Err(TxAckStatus::InvalidFrame),
                };
                let coderate = match l.coding_rate {
                    CodingRate::Cr45 => CR_LORA_4_5,
                    CodingRate::Cr46 => CR_LORA_4_6,
                    CodingRate::Cr47 => CR_LORA_4_7,
                    CodingRate::Cr48 => CR_LORA_4_8,
                };
                (MOD_LORA, bandwidth, l.spreading_factor as u32, coderate, true, 0u8)
            },
            DataRateConfiguration::Fsk(f) => {
                #[verifier::truncate]
                let f_dev = (f.frequency_deviation / 1000) as u8;
                (MOD_FSK, 0u8, f.bitrate, 0u8, false, f_dev)
            },
        };
        let mut payload = [0u8; 256];
        let len = frame.payload.len();
        let mut i: usize = 0;
        while i < 256 && i < len
            invariant
                i <= 256,
                i <= len,
                len == frame.payload@.len(),
                payload@.len() == 256,
                forall|j: int| 0 <= j < i ==> payload@[j] == frame.payload@[j],
                forall|j: int| i <= j < 256 ==> payload@[j] == 0u8,
            decreases 256 - i,
        {
            payload[i] = frame.payload[i];
            i += 1;
        }
        assert(forall|j: int| 0 <= j < 256 ==> #[trigger] payload@[j] == if j < frame.payload@.len() {
            frame.payload@[j]
        } else {
            0u8
        });
        assert(count_us == tx_count_us(frame.timing->Delay_0.context@, frame.timing->Delay_0.delay_ns));
        #[verifier::truncate]
        let size = len as u16;
        #[verifier::truncate]
        let rf_power = frame.tx_power as i8;
        Ok(
            TxPacketFields {
                freq_hz: channel.freq_hz,
                tx_mode: TIMESTAMPED,
                count_us,
                rf_chain: 0,
                rf_power,
                modulation,
                bandwidth,
                datarate,
                coderate,
                invert_pol,
                f_dev,
                size,
                payload,
            },
        )
    }
}

/// The 32-bit microsecond counter value that a linear count (ns) falls on.
pub open spec fn counter_us(count: u128) -> u32 {
    ((count / 1000) % 0x1_0000_0000) as u32
}

/// A transmission waiting in the just-in-time queue: the concentrator's
/// packet, the linear count (ns) at which it goes out and its time on air as
/// the concentrator computed it.
pub struct QueuedPacket {
    pub tx_id: u32,
    pub data_rate: u8,
    pub channel: u8,
    pub fields: TxPacketFields,
    pub count: u128,
    pub time_on_air: u128,
}

impl TxPacket for QueuedPacket {
    open spec fn packet_time_on_air(&self) -> Option<u128> {
        Some(self.time_on_air)
    }

    open spec fn packet_mode(&self) -> TxMode {
        if self.fields.tx_mode == IMMEDIATE {
            TxMode::Immediate
        } else {
            TxMode::Timestamped
        }
    }

    open spec fn packet_count(&self) -> u128 {
        self.count
    }

    open spec fn with_mode(self, mode: TxMode) -> Self {
        QueuedPacket {
            fields: TxPacketFields {
                tx_mode: if mode == TxMode::Immediate { IMMEDIATE } else { TIMESTAMPED },
                ..self.fields
            },
            ..self
        }
    }

    /// Moves the packet to `count`, and the concentrator's counter value with
    /// it.
    open spec fn with_count(self, count: u128) -> Self {
        QueuedPacket { count, fields: TxPacketFields { count_us: counter_us(count), ..self.fields }, ..self }
    }

    /// The transmission request's id.
    fn get_id(&self) -> (r: u32)
        ensures
            r == self.tx_id,
    {
        self.tx_id
    }

    fn get_time_on_air(&self) -> (r: Option<u128>) {
        Some(self.time_on_air)
    }

    fn get_tx_mode(&self) -> (r: TxMode) {
        if self.fields.tx_mode == IMMEDIATE {
            TxMode::Immediate
        } else {
            TxMode::Timestamped
        }
    }

    fn set_tx_mode(&mut self, tx_mode: TxMode) {
        match tx_mode {
            TxMode::Immediate => self.fields.tx_mode = IMMEDIATE,
            TxMode::Timestamped => self.fields.tx_mode = TIMESTAMPED,
        }
    }

    fn get_count(&self) -> (r: u128) {
        self.count
    }

    fn set_count(&mut self, count: u128) {
        self.count = count;
        #[verifier::truncate]
        let us = ((count / 1000) % 0x1_0000_0000) as u32;
        self.fields.count_us = us;
    }
}


/// The packet queued for transmission request `frame`, built as `fields`,
/// scheduled at linear count `count` with time on air `time_on_air`.
pub open spec fn queued_packet(frame: TxCommand, fields: TxPacketFields, count: u128, time_on_air: u128) -> QueuedPacket {
    QueuedPacket {
        tx_id: frame.id,
        data_rate: frame.data_rate,
        channel: frame.channel,
        fields,
        count,
        time_on_air,
    }
}

/// Queues transmission request `frame`, built as `fields` (by `tx_packet`),
/// whose time on air the concentrator computed as `time_on_air`, when the
/// concentrator's counter reads `concentrator_count`. The counter reading
/// gives the current linear count; then the packet's own counter value
/// gives the count it goes out at.
pub fn schedule_tx(
    queue: &mut Queue<QueuedPacket>,
    mapping: &mut CountMapping,
    frame: &TxCommand,
    fields: TxPacketFields,
    concentrator_count: u32,
    time_on_air: u128,
) -> (r: Result<(), TxAckStatus>)
    requires
        old(queue).wf(),
        old(mapping).linear() <= DURATION_MAX_NANOS,
        is_duration(time_on_air as int),
        count_step_in_range(old(mapping).last_counter(), old(mapping).linear() as int, concentrator_count),
        ({
            let (l, n, now) = count_step(
                old(mapping).last_counter(),
                old(mapping).linear() as int,
                concentrator_count,
            );
            count_step_in_range(l, n, fields.count_us)
        }),
    ensures
        final(queue).wf(),
        ({
            let (l1, n1, now) = count_step(
                old(mapping).last_counter(),
                old(mapping).linear() as int,
                concentrator_count,
            );
            let (l2, n2, at) = count_step(l1, n1, fields.count_us);
            let pkt = queued_packet(*frame, fields, at as u128, time_on_air);
            &&& final(mapping).last_counter() == l2
            &&& final(mapping).linear() == n2
            &&& match old(queue).schedule(now, pkt) {
                Err(e) => r == Err::<(), TxAckStatus>(e) && *final(queue) == *old(queue),
                Ok(s) => {
                    &&& r is Ok
                    &&& final(queue).queued().len() == old(queue).queued().len() + 1
                    &&& exists|p: int, it: Item<QueuedPacket>|
                        #![trigger old(queue).queued().insert(p, it)]
                        {
                            &&& 0 <= p <= old(queue).queued().len()
                            &&& final(queue).queued() == old(queue).queued().insert(p, it)
                            &&& it.at() == s
                            &&& it.payload().count == s
                            &&& it.payload().fields.tx_mode != IMMEDIATE
                            &&& fields.tx_mode != IMMEDIATE ==> it.payload() == pkt
                            &&& fields.tx_mode == IMMEDIATE ==> it.payload() == QueuedPacket {
                                count: s as u128,
                                fields: TxPacketFields {
                                    tx_mode: TIMESTAMPED,
                                    count_us: counter_us(s as u128),
                                    ..fields
                                },
                                ..pkt
                            }
                        }
                },
            }
        }),
{
    proof {
        lemma_count_monotonic(mapping.last_counter(), mapping.linear() as int, concentrator_count);
    }
    let now = get_count(mapping, concentrator_count);
    proof {
        lemma_count_monotonic(mapping.last_counter(), mapping.linear() as int, fields.count_us);
    }
    let at = get_count(mapping, fields.count_us);
    let pkt = QueuedPacket {
        tx_id: frame.id,
        data_rate: frame.data_rate,
        channel: frame.channel,
        fields,
        count: at,
        time_on_air,
    };
    queue.enqueue(now, pkt)
}

/// Whether `v` fits in an `i8`.
pub open spec fn fits_i8(v: int) -> bool {
    i8::MIN <= v <= i8::MAX
}

/// One turn of the just-in-time loop, when the concentrator's counter reads
/// `concentrator_count`: takes the packet that is due, if any, with its
/// transmit power lowered by the antenna gain (the concentrator transmits at
/// the power before the antenna).
pub fn jit_pop(
    queue: &mut Queue<QueuedPacket>,
    mapping: &mut CountMapping,
    concentrator_count: u32,
    antenna_gain_dbi: i8,
) -> (r: Option<QueuedPacket>)
    requires
        old(queue).wf(),
        count_step_in_range(old(mapping).last_counter(), old(mapping).linear() as int, concentrator_count),
        old(queue).queued().len() > 0 ==> fits_i8(
            old(queue).queued()[0].payload().fields.rf_power - antenna_gain_dbi,
        ),
    ensures
        final(queue).wf(),
        ({
            let (l1, n1, now) = count_step(
                old(mapping).last_counter(),
                old(mapping).linear() as int,
                concentrator_count,
            );
            &&& final(mapping).last_counter() == l1
            &&& final(mapping).linear() == n1
            &&& old(queue).queued().len() == 0 ==> r is None && *final(queue) == *old(queue)
            &&& old(queue).queued().len() > 0 ==> {
                let first = old(queue).queued()[0];
                if first.at() < now {
                    r is None && final(queue).queued() == old(queue).queued().drop_first()
                } else if first.at() - now > first.pre() {
                    r is None && *final(queue) == *old(queue)
                } else {
                    &&& final(queue).queued() == old(queue).queued().drop_first()
                    &&& final(queue).finished() == first.at() + first.post()
                    &&& r matches Some(p) && p == QueuedPacket {
                        fields: TxPacketFields {
                            rf_power: (first.payload().fields.rf_power - antenna_gain_dbi) as i8,
                            ..first.payload().fields
                        },
                        ..first.payload()
                    }
                }
            }
        }),
{
    let now = get_count(mapping, concentrator_count);
    match queue.pop(now) {
        Some(mut p) => {
            p.fields.rf_power = p.fields.rf_power - antenna_gain_dbi;
            Some(p)
        },
        None => None,
    }
}


/// The bandwidth code of a LoRa transmission or IF chain names the
/// data-rate's own bandwidth: 125, 250 and 500 kHz get the codes of 125, 250
/// and 500 kHz; any other bandwidth has no code.
pub proof fn lemma_lora_bandwidth_codes(bw: u32)
    ensures
        (lora_bw_code(bw) == Some(BW_125KHZ)) <==> bw == 125000,
        (lora_bw_code(bw) == Some(BW_250KHZ)) <==> bw == 250000,
        (lora_bw_code(bw) == Some(BW_500KHZ)) <==> bw == 500000,
        lora_bw_code(bw) is None <==> (bw != 125000 && bw != 250000 && bw != 500000),
{
}

/// The bandwidth code of the FSK IF chain names the FSK channel's bandwidth
/// (its deviation and bitrate rounded up to 125, 250 or 500 kHz); a channel
/// without a bandwidth gets the undefined code.
pub proof fn lemma_fsk_bandwidth_code(freq_deviation: u32, bitrate: u32)
    ensures
        fsk_bandwidth(freq_deviation, bitrate) == 0 ==> fsk_bw_code(freq_deviation, bitrate) == BW_UNDEFINED,
        fsk_bandwidth(freq_deviation, bitrate) != 0 ==> Some(fsk_bw_code(freq_deviation, bitrate)) == lora_bw_code(
            fsk_bandwidth(freq_deviation, bitrate),
        ),
{
}

/// The coding-rate code of a LoRa transmission names the coding rate 4/n by
/// its denominator n.
pub proof fn lemma_coding_rate_codes(cr: CodingRate)
    ensures
        (cr_code(cr) == CR_LORA_4_5) <==> cr_denominator(cr) == 5,
        (cr_code(cr) == CR_LORA_4_6) <==> cr_denominator(cr) == 6,
        (cr_code(cr) == CR_LORA_4_7) <==> cr_denominator(cr) == 7,
        (cr_code(cr) == CR_LORA_4_8) <==> cr_denominator(cr) == 8,
{
}

/// The data-rate read from a received LoRa packet has the bandwidth its
/// bandwidth code names (125, 250 or 500 kHz), the packet's spreading factor
/// and the coding rate its coding-rate code names.
pub proof fn lemma_rx_data_rate_named(pkt: RxPacketInfo)
    requires
        pkt.modulation == MOD_LORA,
    ensures
        rx_data_rate(pkt) matches Ok(DataRateConfiguration::Lora(v)) ==> {
            &&& (pkt.bandwidth == BW_125KHZ && v.bandwidth == 125000) || (pkt.bandwidth == BW_250KHZ && v.bandwidth
                == 250000) || (pkt.bandwidth == BW_500KHZ && v.bandwidth == 500000)
            &&& v.spreading_factor == pkt.datarate
            &&& (pkt.coderate == CR_LORA_4_5 && cr_denominator(v.coding_rate) == 5) || (pkt.coderate
                == CR_LORA_4_6 && cr_denominator(v.coding_rate) == 6) || (pkt.coderate == CR_LORA_4_7
                && cr_denominator(v.coding_rate) == 7) || (pkt.coderate == CR_LORA_4_8 && cr_denominator(
                v.coding_rate,
            ) == 8)
        },
{
}

/// Reading back a packet sent with a LoRa data-rate gives that data-rate:
/// the receive side decodes the bandwidth and coding-rate codes that the
/// transmit side writes into the values they were made from.
pub proof fn lemma_rx_reads_back_tx_codes(v: LoraDataRateConfiguration, status: u8, freq_hz: u32)
    requires
        lora_bw_code(v.bandwidth) is Some,
        5 <= v.spreading_factor <= 12,
    ensures
        rx_data_rate(
            RxPacketInfo {
                status,
                freq_hz,
                modulation: MOD_LORA,
                bandwidth: lora_bw_code(v.bandwidth)->0,
                datarate: v.spreading_factor as u32,
                coderate: cr_code(v.coding_rate),
            },
        ) == Ok::<DataRateConfiguration, ConcentratorError>(DataRateConfiguration::Lora(v)),
{
}

/// Applies channel plan `cmd`: the concentrator is stopped, takes the
/// plan's data-rates and channels, tunes its radios and IF chains to them
/// (as `configure_channels` does), and is started again; the heartbeat then
/// reports the plan's version. Where the channels cannot be configured the
/// concentrator stays stopped and the heartbeat is unchanged.
pub fn apply_config(radio: &mut RadioState, heartbeat: &mut HeartbeatEvent, cmd: &ConfigCommand) -> (r: Result<
    (),
    ConcentratorError,
>)
    requires
        multi_sf_channels(cmd.data_rates@, cmd.uplink_channels@).len() <= 8 ==> plan_in_range(
            cmd.data_rates@,
            cmd.uplink_channels@,
        ),
    ensures
        final(radio).data_rates@ == cmd.data_rates@,
        final(radio).uplink_channels@ == cmd.uplink_channels@,
        final(radio).downlink_channels@ == cmd.downlink_channels@,
        final(radio).started == r is Ok,
        channels_configured(
            cmd.data_rates@,
            cmd.uplink_channels@,
            old(radio).rx_rf,
            old(radio).rx_if,
            final(radio).rx_rf,
            final(radio).rx_if,
            r,
        ),
        r is Ok ==> final(heartbeat).config_version@ == cmd.version@,
        r is Err ==> final(heartbeat).config_version@ == old(heartbeat).config_version@,
        final(heartbeat).gw_time == old(heartbeat).gw_time,
{
    radio.started = false;
    radio.configure_data_rates(&cmd.data_rates);
    let res = radio.configure_channels(&cmd.uplink_channels, &cmd.downlink_channels);
    match res {
        Err(e) => Err(e),
        Ok(()) => {
            radio.started = true;
            heartbeat.config_version = cmd.version.clone();
            Ok(())
        },
    }
}

} // verus!
