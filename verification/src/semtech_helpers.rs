//! Channel plan of an SX1302/3 concentrator: which receive channels it
//! listens on and where its two radios are tuned so that every channel lies
//! within the bandwidth of a radio.
use std::collections::HashMap;

use vstd::prelude::*;

use crate::structs::{ChannelConfiguration, DataRateConfiguration};

verus! {

broadcast use vstd::std_specs::hash::group_hash_axioms;

/// Radio bandwidth used for channels of a bandwidth that has no entry.
pub const DEFAULT_RADIO_BANDWIDTH: u32 = 925000;

/// A LoRa channel that demodulates several spreading factors.
#[derive(Debug, Clone, Copy, PartialEq, Eq, Structural)]
pub struct LoraMultiSfChannel {
    pub freq_hz: u32,
    pub bandwidth: u32,
}

/// The LoRa channel of a single spreading factor.
#[derive(Debug, Clone, Copy, PartialEq, Eq, Structural)]
pub struct LoraStdChannel {
    pub freq_hz: u32,
    pub bandwidth: u32,
    pub spreading_factor: u8,
}

/// The FSK channel.
#[derive(Debug, Clone, Copy, PartialEq, Eq, Structural)]
pub struct FskChannel {
    pub freq_hz: u32,
    pub freq_deviation: u32,
    pub bitrate: u32,
    pub bandwidth: u32,
}

/// A receive channel: its center frequency and its bandwidth (Hz).
#[derive(Debug, Clone, Copy, PartialEq, Eq, Structural)]
pub struct Channel {
    pub freq_hz: u32,
    pub bandwidth: u32,
}

/// Why a channel plan cannot be configured.
#[derive(Debug, Clone, Copy, PartialEq, Eq, Structural)]
pub enum ChannelPlanError {
    /// More than 8 multi-SF channels; the count is given.
    TooManyMultiSfChannels(usize),
    /// The channels do not fit within the bandwidth of the two radios.
    ChannelsDoNotFit,
    /// The channel does not fit in the bandwidth of any radio.
    NoRadioForChannel,
}

/// Bandwidth of the radio that serves channels of bandwidth `channel_bw`.
pub open spec fn radio_bandwidth(channel_bw: u32) -> u32 {
    if channel_bw == 500000 {
        1100000
    } else if channel_bw == 250000 {
        1000000
    } else if channel_bw == 125000 {
        925000
    } else {
        DEFAULT_RADIO_BANDWIDTH
    }
}

/// Lowest frequency a radio can be centered on to hold channel `c`.
pub open spec fn min_radio(c: Channel) -> int {
    c.freq_hz - c.bandwidth / 2 + radio_bandwidth(c.bandwidth) / 2
}

/// Lowest frequency of channel `c`.
pub open spec fn channel_low(c: Channel) -> int {
    c.freq_hz - c.bandwidth / 2
}

/// Highest frequency of channel `c`.
pub open spec fn channel_high(c: Channel) -> int {
    c.freq_hz + c.bandwidth / 2
}

/// The channel's lowest frequency, and the lowest radio center that holds
/// it, are frequencies (no `u32` bound is crossed).
pub open spec fn channel_in_range(c: Channel) -> bool {
    &&& c.bandwidth / 2 <= c.freq_hz
    &&& min_radio(c) <= u32::MAX
}

impl Channel {
    pub fn min_radio_freq(&self) -> (r: u32)
        requires
            channel_in_range(*self),
        ensures
            r == min_radio(*self),
    {
        let radio_bw = get_radio_bandwidth(self.bandwidth);
        self.freq_hz - (self.bandwidth / 2) + (radio_bw / 2)
    }

    pub fn min_channel_freq(&self) -> (r: u32)
        requires
            self.bandwidth / 2 <= self.freq_hz,
        ensures
            r == channel_low(*self),
    {
        self.freq_hz - (self.bandwidth / 2)
    }

    /// The highest frequency, as a `u64` so that it never overflows.
    pub fn max_channel_freq(&self) -> (r: u64)
        ensures
            r == channel_high(*self),
    {
        self.freq_hz as u64 + (self.bandwidth / 2) as u64
    }
}

pub fn get_radio_bandwidth(channel_bw: u32) -> (r: u32)
    ensures
        r == radio_bandwidth(channel_bw),
{
    match channel_bw {
        500000 => 1100000,
        250000 => 1000000,
        125000 => 925000,
        _ => DEFAULT_RADIO_BANDWIDTH,
    }
}

/// Looks `k` up in a map keyed by `u8`.
fn lookup<V>(m: &HashMap<u8, V>, k: u8) -> (r: Option<&V>)
    ensures
        r matches Some(v) ==> m@.contains_key(k) && m@[k] == *v,
        r is None ==> !m@.contains_key(k),
{
    m.get(&k)
}

// ---------------------------------------------------------------------------
// Channels of the configuration, taken in order of their keys.
// ---------------------------------------------------------------------------
/// Bandwidth of a multi-SF channel: that of its first data-rate if it is a
/// LoRa one, else 0.
pub open spec fn multi_sf_bandwidth(dr: Map<u8, DataRateConfiguration>, c: ChannelConfiguration) -> u32 {
    if dr.contains_key(c.data_rates@[0]) {
        match dr[c.data_rates@[0]] {
            DataRateConfiguration::Lora(v) => v.bandwidth,
            DataRateConfiguration::Fsk(_) => 0,
        }
    } else {
        0
    }
}

/// The multi-SF channels (those with more than one data-rate) among the
/// keys below `n`, in order of their keys.
pub open spec fn multi_sf_upto(
    dr: Map<u8, DataRateConfiguration>,
    ch: Map<u8, ChannelConfiguration>,
    n: int,
) -> Seq<LoraMultiSfChannel>
    decreases n,
{
    if n <= 0 {
        Seq::empty()
    } else {
        let prev = multi_sf_upto(dr, ch, n - 1);
        let k = (n - 1) as u8;
        if ch.contains_key(k) && ch[k].data_rates@.len() > 1 {
            prev.push(
                LoraMultiSfChannel { freq_hz: ch[k].freq_hz, bandwidth: multi_sf_bandwidth(dr, ch[k]) },
            )
        } else {
            prev
        }
    }
}

/// All multi-SF channels of the configuration, in order of their keys.
pub open spec fn multi_sf_channels(dr: Map<u8, DataRateConfiguration>, ch: Map<u8, ChannelConfiguration>) -> Seq<
    LoraMultiSfChannel,
> {
    multi_sf_upto(dr, ch, 256)
}

/// The single data-rate of channel `k`, where it has exactly one and that
/// one is defined.
pub open spec fn single_data_rate(
    dr: Map<u8, DataRateConfiguration>,
    ch: Map<u8, ChannelConfiguration>,
    k: u8,
) -> Option<DataRateConfiguration> {
    if ch.contains_key(k) && ch[k].data_rates@.len() == 1 && dr.contains_key(ch[k].data_rates@[0]) {
        Some(dr[ch[k].data_rates@[0]])
    } else {
        None
    }
}

/// The first channel, from key `k` on, of a single LoRa data-rate.
pub open spec fn lora_std_from(dr: Map<u8, DataRateConfiguration>, ch: Map<u8, ChannelConfiguration>, k: int) -> Option<
    LoraStdChannel,
>
    decreases 256 - k,
{
    if k < 0 || k >= 256 {
        None
    } else {
        match single_data_rate(dr, ch, k as u8) {
            Some(DataRateConfiguration::Lora(v)) => Some(
                LoraStdChannel {
                    freq_hz: ch[k as u8].freq_hz,
                    bandwidth: v.bandwidth,
                    spreading_factor: v.spreading_factor,
                },
            ),
            _ => lora_std_from(dr, ch, k + 1),
        }
    }
}

/// Bandwidth of an FSK channel: `2 * deviation + bitrate` rounded up to 125,
/// 250 or 500 kHz, 0 where it is 0 or above 500 kHz.
pub open spec fn fsk_bandwidth(freq_deviation: u32, bitrate: u32) -> u32 {
    let bw = 2 * freq_deviation + bitrate;
    if bw == 0 {
        0
    } else if bw <= 125000 {
        125000
    } else if bw <= 250000 {
        250000
    } else if bw <= 500000 {
        500000
    } else {
        0
    }
}

/// The first channel, from key `k` on, of a single FSK data-rate.
pub open spec fn fsk_from(dr: Map<u8, DataRateConfiguration>, ch: Map<u8, ChannelConfiguration>, k: int) -> Option<
    FskChannel,
>
    decreases 256 - k,
{
    if k < 0 || k >= 256 {
        None
    } else {
        match single_data_rate(dr, ch, k as u8) {
            Some(DataRateConfiguration::Fsk(v)) => Some(
                FskChannel {
                    freq_hz: ch[k as u8].freq_hz,
                    freq_deviation: v.frequency_deviation,
                    bitrate: v.bitrate,
                    bandwidth: fsk_bandwidth(v.frequency_deviation, v.bitrate),
                },
            ),
            _ => fsk_from(dr, ch, k + 1),
        }
    }
}

/// The LoRa single-SF channel at key `k`: where channel `k` has exactly one
/// data-rate and that is a defined LoRa one.
pub open spec fn lora_std_at(dr: Map<u8, DataRateConfiguration>, ch: Map<u8, ChannelConfiguration>, k: int) -> Option<
    LoraStdChannel,
> {
    match single_data_rate(dr, ch, k as u8) {
        Some(DataRateConfiguration::Lora(v)) => Some(
            LoraStdChannel {
                freq_hz: ch[k as u8].freq_hz,
                bandwidth: v.bandwidth,
                spreading_factor: v.spreading_factor,
            },
        ),
        _ => None,
    }
}

/// The FSK channel at key `k`: where channel `k` has exactly one data-rate
/// and that is a defined FSK one.
pub open spec fn fsk_at(dr: Map<u8, DataRateConfiguration>, ch: Map<u8, ChannelConfiguration>, k: int) -> Option<
    FskChannel,
> {
    match single_data_rate(dr, ch, k as u8) {
        Some(DataRateConfiguration::Fsk(v)) => Some(
            FskChannel {
                freq_hz: ch[k as u8].freq_hz,
                freq_deviation: v.frequency_deviation,
                bitrate: v.bitrate,
                bandwidth: fsk_bandwidth(v.frequency_deviation, v.bitrate),
            },
        ),
        _ => None,
    }
}

/// The LoRa single-SF channel is the one with the lowest key (from `k` on):
/// where there is one, it is that of a key with none below it; where there
/// is none, no key has one.
pub proof fn lemma_lora_std_lowest_key(dr: Map<u8, DataRateConfiguration>, ch: Map<u8, ChannelConfiguration>, k: int)
    requires
        0 <= k <= 256,
    ensures
        lora_std_from(dr, ch, k) is None <==> forall|i: int| k <= i < 256 ==> #[trigger] lora_std_at(dr, ch, i) is None,
        lora_std_from(dr, ch, k) matches Some(c) ==> exists|j: int|
            k <= j < 256 && #[trigger] lora_std_at(dr, ch, j) == Some(c) && forall|i: int|
                k <= i < j ==> #[trigger] lora_std_at(dr, ch, i) is None,
    decreases 256 - k,
{
    if k < 256 {
        lemma_lora_std_lowest_key(dr, ch, k + 1);
        if lora_std_at(dr, ch, k) is Some {
            assert(lora_std_from(dr, ch, k) == lora_std_at(dr, ch, k));
        } else {
            assert(lora_std_from(dr, ch, k) == lora_std_from(dr, ch, k + 1));
            if let Some(c) = lora_std_from(dr, ch, k) {
                let j = choose|j: int|
                    k + 1 <= j < 256 && #[trigger] lora_std_at(dr, ch, j) == Some(c) && forall|i: int|
                        k + 1 <= i < j ==> #[trigger] lora_std_at(dr, ch, i) is None;
                assert forall|i: int| k <= i < j implies #[trigger] lora_std_at(dr, ch, i) is None by {
                    if i > k {
                    }
                }
            }
        }
    }
}

/// The FSK channel is the one with the lowest key (from `k` on): where
/// there is one, it is that of a key with none below it; where there is
/// none, no key has one.
pub proof fn lemma_fsk_lowest_key(dr: Map<u8, DataRateConfiguration>, ch: Map<u8, ChannelConfiguration>, k: int)
    requires
        0 <= k <= 256,
    ensures
        fsk_from(dr, ch, k) is None <==> forall|i: int| k <= i < 256 ==> #[trigger] fsk_at(dr, ch, i) is None,
        fsk_from(dr, ch, k) matches Some(c) ==> exists|j: int|
            k <= j < 256 && #[trigger] fsk_at(dr, ch, j) == Some(c) && forall|i: int|
                k <= i < j ==> #[trigger] fsk_at(dr, ch, i) is None,
    decreases 256 - k,
{
    if k < 256 {
        lemma_fsk_lowest_key(dr, ch, k + 1);
        if fsk_at(dr, ch, k) is Some {
            assert(fsk_from(dr, ch, k) == fsk_at(dr, ch, k));
        } else {
            assert(fsk_from(dr, ch, k) == fsk_from(dr, ch, k + 1));
            if let Some(c) = fsk_from(dr, ch, k) {
                let j = choose|j: int|
                    k + 1 <= j < 256 && #[trigger] fsk_at(dr, ch, j) == Some(c) && forall|i: int|
                        k + 1 <= i < j ==> #[trigger] fsk_at(dr, ch, i) is None;
                assert forall|i: int| k <= i < j implies #[trigger] fsk_at(dr, ch, i) is None by {
                    if i > k {
                    }
                }
            }
        }
    }
}

/// The multi-SF channels of the configuration, in order of their keys; more
/// than 8 of them is an error.
pub fn get_lora_multi_fs_channels(
    dr_config: &HashMap<u8, DataRateConfiguration>,
    channel_config: &HashMap<u8, ChannelConfiguration>,
) -> (r: Result<Vec<LoraMultiSfChannel>, ChannelPlanError>)
    ensures
        match r {
            Ok(v) => v@ == multi_sf_channels(dr_config@, channel_config@) && v@.len() <= 8,
            Err(e) => e == ChannelPlanError::TooManyMultiSfChannels(
                multi_sf_channels(dr_config@, channel_config@).len() as usize,
            ) && multi_sf_channels(dr_config@, channel_config@).len() > 8,
        },
{
    let mut channels: Vec<LoraMultiSfChannel> = Vec::new();
    let mut k: u16 = 0;
    while k < 256
        invariant
            k <= 256,
            channels@ == multi_sf_upto(dr_config@, channel_config@, k as int),
        decreases 256 - k,
    {
        let key = k as u8;
        if let Some(c) = lookup(channel_config, key) {
            if c.data_rates.len() > 1 {
                let bandwidth = match lookup(dr_config, c.data_rates[0]) {
                    Some(DataRateConfiguration::Lora(v)) => v.bandwidth,
                    _ => 0,
                };
                channels.push(LoraMultiSfChannel { freq_hz: c.freq_hz, bandwidth });
            }
        }
        k += 1;
    }
    if channels.len() > 8 {
        return Err(ChannelPlanError::TooManyMultiSfChannels(channels.len()));
    }
    Ok(channels)
}

/// The first channel, in order of keys, of a single LoRa data-rate.
pub fn get_lora_std_channel(
    dr_config: &HashMap<u8, DataRateConfiguration>,
    channel_config: &HashMap<u8, ChannelConfiguration>,
) -> (r: Option<LoraStdChannel>)
    ensures
        r == lora_std_from(dr_config@, channel_config@, 0),
{
    let mut k: u16 = 0;
    while k < 256
        invariant
            k <= 256,
            lora_std_from(dr_config@, channel_config@, k as int) == lora_std_from(
                dr_config@,
                channel_config@,
                0,
            ),
        decreases 256 - k,
    {
        let key = k as u8;
        if let Some(c) = lookup(channel_config, key) {
            if c.data_rates.len() == 1 {
                if let Some(dr) = lookup(dr_config, c.data_rates[0]) {
                    if let DataRateConfiguration::Lora(v) = dr {
                        return Some(
                            LoraStdChannel {
                                freq_hz: c.freq_hz,
                                bandwidth: v.bandwidth,
                                spreading_factor: v.spreading_factor,
                            },
                        );
                    }
                }
            }
        }
        k += 1;
    }
    None
}

/// The first channel, in order of keys, of a single FSK data-rate.
pub fn get_fsk_channel(
    dr_config: &HashMap<u8, DataRateConfiguration>,
    channel_config: &HashMap<u8, ChannelConfiguration>,
) -> (r: Option<FskChannel>)
    ensures
        r == fsk_from(dr_config@, channel_config@, 0),
{
    let mut k: u16 = 0;
    while k < 256
        invariant
            k <= 256,
            fsk_from(dr_config@, channel_config@, k as int) == fsk_from(dr_config@, channel_config@, 0),
        decreases 256 - k,
    {
        let key = k as u8;
        if let Some(c) = lookup(channel_config, key) {
            if c.data_rates.len() == 1 {
                if let Some(dr) = lookup(dr_config, c.data_rates[0]) {
                    if let DataRateConfiguration::Fsk(v) = dr {
                        let bw: u64 = 2 * (v.frequency_deviation as u64) + v.bitrate as u64;
                        let bandwidth: u32 = if bw == 0 {
                            0
                        } else if bw <= 125000 {
                            125000
                        } else if bw <= 250000 {
                            250000
                        } else if bw <= 500000 {
                            500000
                        } else {
                            0
                        };
                        return Some(
                            FskChannel {
                                freq_hz: c.freq_hz,
                                freq_deviation: v.frequency_deviation,
                                bitrate: v.bitrate,
                                bandwidth,
                            },
                        );
                    }
                }
            }
        }
        k += 1;
    }
    None
}

// ---------------------------------------------------------------------------
// Tuning the two radios.
// ---------------------------------------------------------------------------
/// Every receive channel of the configuration: the multi-SF channels, then
/// the LoRa single-SF channel and the FSK channel where there are such.
pub open spec fn plan_channels(dr: Map<u8, DataRateConfiguration>, ch: Map<u8, ChannelConfiguration>) -> Seq<Channel> {
    let multi = multi_sf_channels(dr, ch).map_values(
        |c: LoraMultiSfChannel| Channel { freq_hz: c.freq_hz, bandwidth: c.bandwidth },
    );
    let with_std = match lora_std_from(dr, ch, 0) {
        Some(c) => multi.push(Channel { freq_hz: c.freq_hz, bandwidth: c.bandwidth }),
        None => multi,
    };
    match fsk_from(dr, ch, 0) {
        Some(c) => with_std.push(Channel { freq_hz: c.freq_hz, bandwidth: c.bandwidth }),
        None => with_std,
    }
}

/// Index of the first channel, from `i` on, whose lowest radio center is
/// above `key`; the length where there is none.
pub open spec fn upper_bound_from(s: Seq<Channel>, key: int, i: int) -> int
    decreases s.len() - i,
{
    if i < 0 || i >= s.len() {
        s.len() as int
    } else if min_radio(s[i]) > key {
        i
    } else {
        upper_bound_from(s, key, i + 1)
    }
}

/// `s` with `c` inserted behind every channel whose key is not above its own.
pub open spec fn insert_by_min_radio(s: Seq<Channel>, c: Channel) -> Seq<Channel> {
    s.insert(upper_bound_from(s, min_radio(c), 0), c)
}

/// `s` stably sorted by lowest radio center.
pub open spec fn sort_by_min_radio(s: Seq<Channel>) -> Seq<Channel>
    decreases s.len(),
{
    if s.len() == 0 {
        s
    } else {
        insert_by_min_radio(sort_by_min_radio(s.drop_last()), s.last())
    }
}

/// Places channel `c` given radio centers `r0` and `r1` (0: not yet tuned):
/// a free radio is tuned to the lowest center that holds the channel; a
/// tuned radio keeps it where the channel's top lies within its bandwidth.
pub open spec fn place(r0: int, r1: int, c: Channel) -> Option<(int, int)> {
    let half = radio_bandwidth(c.bandwidth) / 2;
    if r0 == 0 {
        Some((min_radio(c), r1))
    } else if channel_high(c) <= r0 + half {
        Some((r0, r1))
    } else if r1 == 0 {
        Some((r0, min_radio(c)))
    } else if channel_high(c) <= r1 + half {
        Some((r0, r1))
    } else {
        None
    }
}

/// Places the channels of `s` from index `i` on.
pub open spec fn place_from(s: Seq<Channel>, i: int, r0: int, r1: int) -> Option<(int, int)>
    decreases s.len() - i,
{
    if i < 0 || i >= s.len() {
        Some((r0, r1))
    } else {
        match place(r0, r1, s[i]) {
            Some((a, b)) => place_from(s, i + 1, a, b),
            None => None,
        }
    }
}

/// Centers of the two radios (0: radio unused) for the configuration.
pub open spec fn radio_plan(dr: Map<u8, DataRateConfiguration>, ch: Map<u8, ChannelConfiguration>) -> Result<
    (int, int),
    ChannelPlanError,
> {
    let multi = multi_sf_channels(dr, ch);
    if multi.len() > 8 {
        Err(ChannelPlanError::TooManyMultiSfChannels(multi.len() as usize))
    } else {
        match place_from(sort_by_min_radio(plan_channels(dr, ch)), 0, 0, 0) {
            Some(r) => Ok(r),
            None => Err(ChannelPlanError::ChannelsDoNotFit),
        }
    }
}

/// Every channel of the configuration is in range.
pub open spec fn plan_in_range(dr: Map<u8, DataRateConfiguration>, ch: Map<u8, ChannelConfiguration>) -> bool {
    forall|i: int|
        0 <= i < plan_channels(dr, ch).len() ==> channel_in_range(#[trigger] plan_channels(dr, ch)[i])
}

/// Channels of `s` all in range.
pub open spec fn all_in_range(s: Seq<Channel>) -> bool {
    forall|i: int| 0 <= i < s.len() ==> channel_in_range(#[trigger] s[i])
}

proof fn lemma_insert_in_range(s: Seq<Channel>, p: int, c: Channel)
    requires
        all_in_range(s),
        channel_in_range(c),
        0 <= p <= s.len(),
    ensures
        all_in_range(s.insert(p, c)),
{
    assert forall|i: int| 0 <= i < s.insert(p, c).len() implies channel_in_range(
        #[trigger] s.insert(p, c)[i],
    ) by {
        if i < p {
            assert(s.insert(p, c)[i] == s[i]);
        } else if i > p {
            assert(s.insert(p, c)[i] == s[i - 1]);
        }
    }
}

proof fn lemma_upper_bound_range(s: Seq<Channel>, key: int, i: int)
    requires
        0 <= i <= s.len(),
    ensures
        i <= upper_bound_from(s, key, i) <= s.len(),
    decreases s.len() - i,
{
    if i < s.len() && min_radio(s[i]) <= key {
        lemma_upper_bound_range(s, key, i + 1);
    }
}

/// Sorts channels stably by their lowest radio center.
fn sort_channels(channels: &Vec<Channel>) -> (r: Vec<Channel>)
    requires
        all_in_range(channels@),
    ensures
        r@ == sort_by_min_radio(channels@),
        all_in_range(r@),
{
    let mut sorted: Vec<Channel> = Vec::new();
    let mut i: usize = 0;
    while i < channels.len()
        invariant
            i <= channels@.len(),
            all_in_range(channels@),
            all_in_range(sorted@),
            sorted@ == sort_by_min_radio(channels@.take(i as int)),
        decreases channels@.len() - i,
    {
        let c = channels[i];
        let key = c.min_radio_freq();
        let mut p: usize = 0;
        while p < sorted.len() && sorted[p].min_radio_freq() <= key
            invariant
                p <= sorted@.len(),
                all_in_range(sorted@),
                channel_in_range(c),
                key == min_radio(c),
                upper_bound_from(sorted@, key as int, p as int) == upper_bound_from(
                    sorted@,
                    key as int,
                    0,
                ),
            decreases sorted@.len() - p,
        {
            p += 1;
        }
        proof {
            lemma_insert_in_range(sorted@, p as int, c);
            let t = channels@.take(i + 1);
            assert(t.drop_last() =~= channels@.take(i as int));
            assert(t.last() == c);
        }
        sorted.insert(p, c);
        i += 1;
    }
    proof {
        assert(channels@.take(channels@.len() as int) =~= channels@);
    }
    sorted
}

/// The channels of the configuration, in the order of `plan_channels`.
fn collect_channels(
    multi_sf: &Vec<LoraMultiSfChannel>,
    lora_std: Option<LoraStdChannel>,
    fsk: Option<FskChannel>,
) -> (r: Vec<Channel>)
    ensures
        r@ == ({
            let multi = multi_sf@.map_values(
                |c: LoraMultiSfChannel| Channel { freq_hz: c.freq_hz, bandwidth: c.bandwidth },
            );
            let with_std = match lora_std {
                Some(c) => multi.push(Channel { freq_hz: c.freq_hz, bandwidth: c.bandwidth }),
                None => multi,
            };
            match fsk {
                Some(c) => with_std.push(Channel { freq_hz: c.freq_hz, bandwidth: c.bandwidth }),
                None => with_std,
            }
        }),
{
    let mut channels: Vec<Channel> = Vec::new();
    let mut i: usize = 0;
    while i < multi_sf.len()
        invariant
            i <= multi_sf@.len(),
            channels@ == multi_sf@.take(i as int).map_values(
                |c: LoraMultiSfChannel| Channel { freq_hz: c.freq_hz, bandwidth: c.bandwidth },
            ),
        decreases multi_sf@.len() - i,
    {
        channels.push(Channel { freq_hz: multi_sf[i].freq_hz, bandwidth: multi_sf[i].bandwidth });
        proof {
            assert(multi_sf@.take(i + 1).drop_last() =~= multi_sf@.take(i as int));
            assert(channels@ =~= multi_sf@.take(i + 1).map_values(
                |c: LoraMultiSfChannel| Channel { freq_hz: c.freq_hz, bandwidth: c.bandwidth },
            ));
        }
        i += 1;
    }
    proof {
        assert(multi_sf@.take(multi_sf@.len() as int) =~= multi_sf@);
    }
    if let Some(c) = lora_std {
        channels.push(Channel { freq_hz: c.freq_hz, bandwidth: c.bandwidth });
    }
    if let Some(c) = fsk {
        channels.push(Channel { freq_hz: c.freq_hz, bandwidth: c.bandwidth });
    }
    channels
}

/// Centers of the two radios such that every receive channel of the
/// configuration lies within the bandwidth of a radio; 0 for an unused
/// radio.
pub fn get_radio_frequencies(
    dr_config: &HashMap<u8, DataRateConfiguration>,
    channel_config: &HashMap<u8, ChannelConfiguration>,
) -> (r: Result<[u32; 2], ChannelPlanError>)
    requires
        multi_sf_channels(dr_config@, channel_config@).len() <= 8 ==> plan_in_range(
            dr_config@,
            channel_config@,
        ),
    ensures
        match r {
            Ok(radios) => radio_plan(dr_config@, channel_config@) == Ok::<(int, int), ChannelPlanError>(
                (radios[0] as int, radios[1] as int),
            ),
            Err(e) => radio_plan(dr_config@, channel_config@) == Err::<(int, int), ChannelPlanError>(e),
        },
        r matches Ok(radios) ==> {
            &&& radios[0] == 0 <==> plan_channels(dr_config@, channel_config@).len() == 0
            &&& radios[0] == 0 ==> radios[1] == 0
        },
{
    let multi_sf = get_lora_multi_fs_channels(dr_config, channel_config)?;
    let lora_std_channel = get_lora_std_channel(dr_config, channel_config);
    let fsk_channel = get_fsk_channel(dr_config, channel_config);

    let channels = collect_channels(&multi_sf, lora_std_channel, fsk_channel);
    proof {
        assert(channels@ == plan_channels(dr_config@, channel_config@));
    }
    let sorted = sort_channels(&channels);

    let mut r0: u32 = 0;
    let mut r1: u32 = 0;
    let mut i: usize = 0;
    while i < sorted.len()
        invariant
            i <= sorted@.len(),
            all_in_range(sorted@),
            place_from(sorted@, i as int, r0 as int, r1 as int) == place_from(sorted@, 0, 0, 0),
            sorted@ == sort_by_min_radio(plan_channels(dr_config@, channel_config@)),
            multi_sf_channels(dr_config@, channel_config@).len() <= 8,
        decreases sorted@.len() - i,
    {
        let c = sorted[i];
        let channel_max = c.max_channel_freq();
        let radio_bw = get_radio_bandwidth(c.bandwidth);
        let min_radio_center_freq = c.min_radio_freq();
        let half = (radio_bw / 2) as u64;

        if r0 == 0 {
            r0 = min_radio_center_freq;
        } else if channel_max <= r0 as u64 + half {
        } else if r1 == 0 {
            r1 = min_radio_center_freq;
        } else if channel_max <= r1 as u64 + half {
        } else {
            proof {
                assert(place(r0 as int, r1 as int, sorted@[i as int]) is None);
                assert(place_from(sorted@, i as int, r0 as int, r1 as int) is None);
            }
            return Err(ChannelPlanError::ChannelsDoNotFit);
        }
        i += 1;
    }
    proof {
        lemma_radio_plan_unused_radios(dr_config@, channel_config@, r0 as int, r1 as int);
    }
    Ok([r0, r1])
}

/// Whether the channel centered on `freq` with bandwidth `bw` lies within the
/// bandwidth of a radio centered on `radio`.
pub open spec fn fits(radio: int, freq: int, bw: u32) -> bool {
    let half = radio_bandwidth(bw) / 2;
    &&& freq - bw / 2 >= radio - half
    &&& freq + bw / 2 <= radio + half
}

/// The first radio, from index `i` on, that holds the channel.
pub open spec fn first_fit_from(radios: Seq<u32>, i: int, freq: int, bw: u32) -> Option<int>
    decreases radios.len() - i,
{
    if i < 0 || i >= radios.len() {
        None
    } else if fits(radios[i] as int, freq, bw) {
        Some(i)
    } else {
        first_fit_from(radios, i + 1, freq, bw)
    }
}

/// The first radio that holds the channel centered on `freq_hz` with the
/// given bandwidth.
pub fn get_radio_for_channel(radios: &[u32], freq_hz: u32, bandwidth: u32) -> (r: Result<usize, ChannelPlanError>)
    ensures
        match first_fit_from(radios@, 0, freq_hz as int, bandwidth) {
            Some(i) => r == Ok::<usize, ChannelPlanError>(i as usize),
            None => r == Err::<usize, ChannelPlanError>(ChannelPlanError::NoRadioForChannel),
        },
        r matches Ok(i) ==> i < radios@.len() && fits(radios@[i as int] as int, freq_hz as int, bandwidth)
            && forall|j: int| 0 <= j < i ==> !fits(#[trigger] radios@[j] as int, freq_hz as int, bandwidth),
        r is Err ==> forall|j: int|
            0 <= j < radios@.len() ==> !fits(#[trigger] radios@[j] as int, freq_hz as int, bandwidth),
{
    let half = (get_radio_bandwidth(bandwidth) / 2) as u64;
    let half_bw = (bandwidth / 2) as u64;
    let mut i: usize = 0;
    while i < radios.len()
        invariant
            i <= radios@.len(),
            half == radio_bandwidth(bandwidth) / 2,
            half_bw == bandwidth / 2,
            first_fit_from(radios@, i as int, freq_hz as int, bandwidth) == first_fit_from(
                radios@,
                0,
                freq_hz as int,
                bandwidth,
            ),
        decreases radios@.len() - i,
    {
        let radio = radios[i] as u64;
        if freq_hz as u64 + half >= radio + half_bw && freq_hz as u64 + half_bw <= radio + half {
            proof {
                lemma_first_fit_from(radios@, 0, freq_hz as int, bandwidth);
            }
            return Ok(i);
        }
        i += 1;
    }
    proof {
        lemma_first_fit_from(radios@, 0, freq_hz as int, bandwidth);
    }
    Err(ChannelPlanError::NoRadioForChannel)
}

// ---------------------------------------------------------------------------
// Every channel of a radio plan lies within the bandwidth of a radio.
// ---------------------------------------------------------------------------
/// Channels ordered by lowest radio center.
pub open spec fn sorted_by_min_radio(s: Seq<Channel>) -> bool {
    forall|i: int, j: int| 0 <= i <= j < s.len() ==> min_radio(#[trigger] s[i]) <= min_radio(#[trigger] s[j])
}

/// A channel is no wider than the radio that serves it.
pub open spec fn fits_own_radio(c: Channel) -> bool {
    c.bandwidth / 2 <= radio_bandwidth(c.bandwidth) / 2
}

/// One of the tuned radios holds channel `c`.
pub open spec fn covered(r0: int, r1: int, c: Channel) -> bool {
    ||| r0 != 0 && fits(r0, c.freq_hz as int, c.bandwidth)
    ||| r1 != 0 && fits(r1, c.freq_hz as int, c.bandwidth)
}

proof fn lemma_upper_bound(s: Seq<Channel>, key: int, i: int)
    requires
        0 <= i <= s.len(),
        sorted_by_min_radio(s),
    ensures
        i <= upper_bound_from(s, key, i) <= s.len(),
        forall|j: int| i <= j < upper_bound_from(s, key, i) ==> min_radio(#[trigger] s[j]) <= key,
        forall|j: int| upper_bound_from(s, key, i) <= j < s.len() ==> min_radio(#[trigger] s[j]) > key,
    decreases s.len() - i,
{
    if i < s.len() {
        if min_radio(s[i]) <= key {
            lemma_upper_bound(s, key, i + 1);
        } else {
            assert forall|j: int| i <= j < s.len() implies min_radio(#[trigger] s[j]) > key by {
                assert(min_radio(s[i]) <= min_radio(s[j]));
            }
        }
    }
}

proof fn lemma_sort(s: Seq<Channel>)
    ensures
        sorted_by_min_radio(sort_by_min_radio(s)),
        sort_by_min_radio(s).to_multiset() == s.to_multiset(),
    decreases s.len(),
{
    broadcast use vstd::seq_lib::group_to_multiset_ensures;

    if s.len() > 0 {
        let t = sort_by_min_radio(s.drop_last());
        let c = s.last();
        lemma_sort(s.drop_last());
        lemma_upper_bound(t, min_radio(c), 0);
        let u = upper_bound_from(t, min_radio(c), 0);
        let r = t.insert(u, c);
        assert(r == sort_by_min_radio(s));
        assert forall|i: int, j: int| 0 <= i <= j < r.len() implies min_radio(#[trigger] r[i]) <= min_radio(
            #[trigger] r[j],
        ) by {
            if j < u {
                assert(r[i] == t[i] && r[j] == t[j]);
            } else if j == u {
                if i < u {
                    assert(r[i] == t[i]);
                }
            } else if i < u {
                assert(r[i] == t[i] && r[j] == t[j - 1]);
            } else if i == u {
                assert(r[j] == t[j - 1]);
            } else {
                assert(r[i] == t[i - 1] && r[j] == t[j - 1]);
            }
        }
        vstd::seq_lib::to_multiset_insert(t, u, c);
        assert(s == s.drop_last().push(c));
        vstd::seq_lib::to_multiset_build(s.drop_last(), c);
    }
}

proof fn lemma_min_radio_positive(c: Channel)
    requires
        channel_in_range(c),
    ensures
        min_radio(c) > 0,
{
}

proof fn lemma_place_from(s: Seq<Channel>, i: int, r0: int, r1: int)
    requires
        0 <= i <= s.len(),
        sorted_by_min_radio(s),
        all_in_range(s),
        forall|k: int| 0 <= k < s.len() ==> fits_own_radio(#[trigger] s[k]),
        r1 != 0 ==> r0 != 0,
        r0 != 0 ==> forall|j: int| i <= j < s.len() ==> r0 <= min_radio(#[trigger] s[j]),
        r1 != 0 ==> forall|j: int| i <= j < s.len() ==> r1 <= min_radio(#[trigger] s[j]),
        forall|k: int| 0 <= k < i ==> covered(r0, r1, #[trigger] s[k]),
    ensures
        place_from(s, i, r0, r1) matches Some((a, b)) ==> forall|k: int|
            0 <= k < s.len() ==> covered(a, b, #[trigger] s[k]),
    decreases s.len() - i,
{
    if i < s.len() {
        let c = s[i];
        assert(channel_in_range(c));
        assert(fits_own_radio(c));
        lemma_min_radio_positive(c);
        match place(r0, r1, c) {
            Some((a, b)) => {
                assert forall|j: int| i + 1 <= j < s.len() implies min_radio(c) <= min_radio(#[trigger] s[j]) by {
                }
                assert forall|k: int| 0 <= k < i + 1 implies covered(a, b, #[trigger] s[k]) by {
                    if k < i {
                        assert(covered(r0, r1, s[k]));
                    }
                }
                lemma_place_from(s, i + 1, a, b);
            },
            None => {},
        }
    }
}

proof fn lemma_place_from_unused(s: Seq<Channel>, i: int, r0: int, r1: int)
    requires
        0 <= i <= s.len(),
        all_in_range(s),
        r1 != 0 ==> r0 != 0,
        r0 == 0 <==> i == 0,
    ensures
        place_from(s, i, r0, r1) matches Some((a, b)) ==> (b != 0 ==> a != 0) && (a == 0 <==> s.len() == 0),
    decreases s.len() - i,
{
    if i < s.len() {
        assert(channel_in_range(s[i]));
        lemma_min_radio_positive(s[i]);
        match place(r0, r1, s[i]) {
            Some((a, b)) => lemma_place_from_unused(s, i + 1, a, b),
            None => {},
        }
    }
}

/// The radios of a plan are used in order: the first radio is unused (0)
/// exactly when the configuration has no receive channel, and then the
/// second is unused too. This holds where every channel is in range.
pub proof fn lemma_radio_plan_unused_radios(
    dr: Map<u8, DataRateConfiguration>,
    ch: Map<u8, ChannelConfiguration>,
    r0: int,
    r1: int,
)
    requires
        radio_plan(dr, ch) == Ok::<(int, int), ChannelPlanError>((r0, r1)),
        plan_in_range(dr, ch),
    ensures
        r0 == 0 <==> plan_channels(dr, ch).len() == 0,
        r0 == 0 ==> r1 == 0,
{
    broadcast use vstd::seq_lib::group_to_multiset_ensures;

    let plan = plan_channels(dr, ch);
    let sorted = sort_by_min_radio(plan);
    lemma_sort(plan);
    assert forall|k: int| 0 <= k < sorted.len() implies channel_in_range(#[trigger] sorted[k]) by {
        assert(sorted.to_multiset().count(sorted[k]) > 0);
        assert(plan.contains(sorted[k]));
    }
    assert(sorted.len() == plan.len()) by {
        assert(sorted.to_multiset().len() == plan.to_multiset().len());
    }
    lemma_place_from_unused(sorted, 0, 0, 0);
}

/// A plan of radio centers that `get_radio_frequencies` computes holds every
/// receive channel of the configuration: `get_radio_for_channel` finds a
/// radio for each of them. This holds where every channel is in range and no
/// wider than the radio that serves it.
pub proof fn lemma_radio_plan_covers_channels(
    dr: Map<u8, DataRateConfiguration>,
    ch: Map<u8, ChannelConfiguration>,
    r0: int,
    r1: int,
)
    requires
        radio_plan(dr, ch) == Ok::<(int, int), ChannelPlanError>((r0, r1)),
        plan_in_range(dr, ch),
        forall|i: int| 0 <= i < plan_channels(dr, ch).len() ==> fits_own_radio(#[trigger] plan_channels(dr, ch)[i]),
    ensures
        0 <= r0 <= u32::MAX,
        0 <= r1 <= u32::MAX,
        forall|i: int|
            0 <= i < plan_channels(dr, ch).len() ==> first_fit_from(
                seq![r0 as u32, r1 as u32],
                0,
                (#[trigger] plan_channels(dr, ch)[i]).freq_hz as int,
                plan_channels(dr, ch)[i].bandwidth,
            ) is Some,
{
    broadcast use vstd::seq_lib::group_to_multiset_ensures;

    let plan = plan_channels(dr, ch);
    let sorted = sort_by_min_radio(plan);
    lemma_sort(plan);
    assert forall|k: int| 0 <= k < sorted.len() implies channel_in_range(#[trigger] sorted[k]) && fits_own_radio(
        sorted[k],
    ) by {
        assert(sorted.to_multiset().count(sorted[k]) > 0);
        assert(plan.contains(sorted[k]));
    }
    lemma_place_from_range(sorted, 0, 0, 0);
    lemma_place_from(sorted, 0, 0, 0);
    assert forall|i: int| 0 <= i < plan.len() implies first_fit_from(
        seq![r0 as u32, r1 as u32],
        0,
        (#[trigger] plan[i]).freq_hz as int,
        plan[i].bandwidth,
    ) is Some by {
        let c = plan[i];
        assert(plan.to_multiset().count(c) > 0);
        assert(sorted.contains(c));
        let k = choose|k: int| 0 <= k < sorted.len() && sorted[k] == c;
        assert(covered(r0, r1, sorted[k]));
        let radios = seq![r0 as u32, r1 as u32];
        if !fits(r0, c.freq_hz as int, c.bandwidth) {
            assert(first_fit_from(radios, 1, c.freq_hz as int, c.bandwidth) is Some);
        }
    }
}

proof fn lemma_place_from_range(s: Seq<Channel>, i: int, r0: int, r1: int)
    requires
        0 <= i <= s.len(),
        all_in_range(s),
        0 <= r0 <= u32::MAX,
        0 <= r1 <= u32::MAX,
    ensures
        place_from(s, i, r0, r1) matches Some((a, b)) ==> 0 <= a <= u32::MAX && 0 <= b <= u32::MAX,
    decreases s.len() - i,
{
    if i < s.len() {
        assert(channel_in_range(s[i]));
        match place(r0, r1, s[i]) {
            Some((a, b)) => lemma_place_from_range(s, i + 1, a, b),
            None => {},
        }
    }
}

/// The radio that `first_fit_from` finds is the first one, from `i` on,
/// that holds the channel; where it finds none, no radio from `i` on holds
/// it.
pub proof fn lemma_first_fit_from(radios: Seq<u32>, i: int, freq: int, bw: u32)
    requires
        0 <= i,
    ensures
        first_fit_from(radios, i, freq, bw) matches Some(k) ==> i <= k < radios.len() && fits(
            radios[k] as int,
            freq,
            bw,
        ) && forall|j: int| i <= j < k ==> !fits(#[trigger] radios[j] as int, freq, bw),
        first_fit_from(radios, i, freq, bw) is None ==> forall|j: int|
            i <= j < radios.len() ==> !fits(#[trigger] radios[j] as int, freq, bw),
    decreases radios.len() - i,
{
    if i < radios.len() && !fits(radios[i] as int, freq, bw) {
        lemma_first_fit_from(radios, i + 1, freq, bw);
    }
}

} // verus!
