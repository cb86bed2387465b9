//! Radio regions on the server side: the channel plan pushed to gateways and
//! the mapping of uplinks onto downlinks.
use std::collections::HashMap;

use vstd::prelude::*;
use vstd::string::StringExecFns;

use crate::topic::views;
use crate::structs::{
    ChannelConfiguration, CodingRate as CommonCodingRate, ConfigCommand, DataRateConfiguration, cr_denominator,
    FskDataRateConfiguration, LoraDataRateConfiguration, Timing, TimingDelay, TxCommand,
};

verus! {

broadcast use vstd::std_specs::hash::group_hash_axioms;

/// Modulation of a region's data-rate.
#[derive(Debug, Clone, Copy, PartialEq, Eq, Structural)]
pub enum Modulation {
    Lora,
    Fsk,
}

impl Default for Modulation {
    fn default() -> (r: Modulation)
        ensures
            r == Modulation::Lora,
    {
        Modulation::Lora
    }
}

/// Coding rate of a region's data-rate.
#[derive(Debug, Clone, Copy, PartialEq, Eq, Structural)]
pub enum CodingRate {
    Cr45,
}

impl Default for CodingRate {
    fn default() -> (r: CodingRate)
        ensures
            r == CodingRate::Cr45,
    {
        CodingRate::Cr45
    }
}

/// The coding rate sent to gateways.
pub open spec fn common_coding_rate(c: CodingRate) -> CommonCodingRate {
    match c {
        CodingRate::Cr45 => CommonCodingRate::Cr45,
    }
}

/// The denominator `n` of a region's coding rate 4/`n`.
pub open spec fn region_cr_denominator(c: CodingRate) -> int {
    match c {
        CodingRate::Cr45 => 5,
    }
}

impl CodingRate {
    pub fn to_common(self) -> (r: CommonCodingRate)
        ensures
            r == common_coding_rate(self),
            cr_denominator(r) == region_cr_denominator(self),
    {
        match self {
            CodingRate::Cr45 => CommonCodingRate::Cr45,
        }
    }
}

/// A channel of a region.
#[derive(Debug, Clone)]
pub struct Channel {
    pub frequency: u32,
    pub data_rates: Vec<u8>,
}

/// A data-rate of a region.
#[derive(Debug, Clone, Copy, Default)]
pub struct DataRate {
    pub modulation: Modulation,
    pub bandwidth: u32,
    pub spreading_factor: u8,
    pub coding_rate: CodingRate,
    pub bitrate: u32,
    pub frequency_deviation: u32,
}

/// A radio region.
#[derive(Debug, Clone)]
pub struct Region {
    pub name: String,
    pub description: String,
    pub version: String,
    pub timing_multiplier_ms: usize,
    pub tx_delay_key_response: usize,
    pub tx_delay_join_accept: usize,
    pub tx_delay_data: usize,
    pub uplink_channels: HashMap<u8, Channel>,
    pub downlink_channels: HashMap<u8, Channel>,
    pub downlink_tx_power_eirp: i8,
    pub uplink_downlink_channel_mapping: HashMap<u8, u8>,
    pub data_rates: HashMap<u8, DataRate>,
    pub uplink_downlink_data_rate_mapping: HashMap<u8, u8>,
}

/// The value of `k` in `m`, 0 where `m` has none.
pub open spec fn mapped_or_zero(m: Map<u8, u8>, k: u8) -> u8 {
    if m.contains_key(k) {
        m[k]
    } else {
        0
    }
}

impl Region {
    /// Downlink channel answering uplink channel `ul_chan` (0 where the
    /// region maps none).
    pub fn get_downlink_channel(&self, ul_chan: u8) -> (r: u8)
        ensures
            r == mapped_or_zero(self.uplink_downlink_channel_mapping@, ul_chan),
    {
        match self.uplink_downlink_channel_mapping.get(&ul_chan) {
            Some(v) => *v,
            None => 0,
        }
    }

    /// Downlink data-rate answering uplink data-rate `ul_dr` (0 where the
    /// region maps none).
    pub fn get_downlink_data_rate(&self, ul_dr: u8) -> (r: u8)
        ensures
            r == mapped_or_zero(self.uplink_downlink_data_rate_mapping@, ul_dr),
    {
        match self.uplink_downlink_data_rate_mapping.get(&ul_dr) {
            Some(v) => *v,
            None => 0,
        }
    }
}

/// A region's channel as gateways receive it.
pub open spec fn channel_config(c: Channel) -> (u32, Seq<u8>) {
    (c.frequency, c.data_rates@)
}

/// A region's data-rate as gateways receive it.
pub open spec fn data_rate_config(d: DataRate) -> DataRateConfiguration {
    match d.modulation {
        Modulation::Lora => DataRateConfiguration::Lora(
            LoraDataRateConfiguration {
                bandwidth: d.bandwidth,
                spreading_factor: d.spreading_factor,
                coding_rate: common_coding_rate(d.coding_rate),
            },
        ),
        Modulation::Fsk => DataRateConfiguration::Fsk(
            FskDataRateConfiguration { frequency_deviation: d.frequency_deviation, bitrate: d.bitrate },
        ),
    }
}

/// The channels of `m` as gateways receive them.
pub open spec fn channels_match(m: Map<u8, Channel>, out: Map<u8, ChannelConfiguration>) -> bool {
    &&& out.dom() == m.dom()
    &&& forall|k: u8|
        #[trigger] m.contains_key(k) ==> out[k].freq_hz == m[k].frequency && out[k].data_rates@ == m[k].data_rates@
}

fn copy_bytes(v: &Vec<u8>) -> (r: Vec<u8>)
    ensures
        r@ == v@,
{
    let mut out: Vec<u8> = Vec::new();
    let mut i: usize = 0;
    while i < v.len()
        invariant
            i <= v@.len(),
            out@ == v@.subrange(0, i as int),
        decreases v@.len() - i,
    {
        out.push(v[i]);
        i += 1;
        assert(out@ =~= v@.subrange(0, i as int));
    }
    out
}

fn convert_channels(m: &HashMap<u8, Channel>) -> (r: HashMap<u8, ChannelConfiguration>)
    ensures
        channels_match(m@, r@),
{
    let mut out: HashMap<u8, ChannelConfiguration> = HashMap::new();
    let mut k: u16 = 0;
    while k < 256
        invariant
            k <= 256,
            forall|j: u8| #[trigger] out@.contains_key(j) <==> (j < k && m@.contains_key(j)),
            forall|j: u8|
                j < k && #[trigger] m@.contains_key(j) ==> out@[j].freq_hz == m@[j].frequency
                    && out@[j].data_rates@ == m@[j].data_rates@,
        decreases 256 - k,
    {
        let key = k as u8;
        if let Some(c) = m.get(&key) {
            out.insert(key, ChannelConfiguration { freq_hz: c.frequency, data_rates: copy_bytes(&c.data_rates) });
        }
        k += 1;
    }
    assert(out@.dom() =~= m@.dom());
    out
}

fn data_rate_to_config(d: &DataRate) -> (r: DataRateConfiguration)
    ensures
        r == data_rate_config(*d),
{
    match d.modulation {
        Modulation::Lora => DataRateConfiguration::Lora(
            LoraDataRateConfiguration {
                bandwidth: d.bandwidth,
                spreading_factor: d.spreading_factor,
                coding_rate: d.coding_rate.to_common(),
            },
        ),
        Modulation::Fsk => DataRateConfiguration::Fsk(
            FskDataRateConfiguration { frequency_deviation: d.frequency_deviation, bitrate: d.bitrate },
        ),
    }
}

/// The channel plan sent to gateways keeps each data-rate of the region: a
/// LoRa data-rate is sent as LoRa with its own bandwidth, spreading factor
/// and coding rate (4/5 stays 4/5), an FSK one as FSK with its own bitrate
/// and deviation.
pub proof fn lemma_data_rate_config_keeps_modulation(d: DataRate)
    ensures
        d.modulation == Modulation::Lora ==> (data_rate_config(d) matches DataRateConfiguration::Lora(v)
            && v.bandwidth == d.bandwidth && v.spreading_factor == d.spreading_factor && cr_denominator(
            v.coding_rate,
        ) == region_cr_denominator(d.coding_rate)),
        d.modulation == Modulation::Fsk ==> (data_rate_config(d) matches DataRateConfiguration::Fsk(v)
            && v.bitrate == d.bitrate && v.frequency_deviation == d.frequency_deviation),
{
}

/// The configuration command that brings a gateway to the region's channel
/// plan (its version, channels and data-rates).
pub fn config_command(region: &Region) -> (r: ConfigCommand)
    ensures
        r.version@ == region.version@,
        channels_match(region.uplink_channels@, r.uplink_channels@),
        channels_match(region.downlink_channels@, r.downlink_channels@),
        r.data_rates@.dom() == region.data_rates@.dom(),
        forall|k: u8|
            #[trigger] region.data_rates@.contains_key(k) ==> r.data_rates@[k] == data_rate_config(
                region.data_rates@[k],
            ),
        forall|k: u8|
            #[trigger] region.data_rates@.contains_key(k) && region.data_rates@[k].modulation == Modulation::Lora
                ==> (r.data_rates@[k] matches DataRateConfiguration::Lora(v) && v.bandwidth
                == region.data_rates@[k].bandwidth && v.spreading_factor == region.data_rates@[k].spreading_factor
                && cr_denominator(v.coding_rate) == region_cr_denominator(region.data_rates@[k].coding_rate)),
{
    let mut data_rates: HashMap<u8, DataRateConfiguration> = HashMap::new();
    let mut k: u16 = 0;
    while k < 256
        invariant
            k <= 256,
            forall|j: u8| #[trigger] data_rates@.contains_key(j) <==> (j < k && region.data_rates@.contains_key(j)),
            forall|j: u8|
                j < k && #[trigger] region.data_rates@.contains_key(j) ==> data_rates@[j] == data_rate_config(
                    region.data_rates@[j],
                ),
        decreases 256 - k,
    {
        let key = k as u8;
        if let Some(d) = region.data_rates.get(&key) {
            data_rates.insert(key, data_rate_to_config(d));
        }
        k += 1;
    }
    assert(data_rates@.dom() =~= region.data_rates@.dom());
    assert forall|k: u8| #[trigger] region.data_rates@.contains_key(k) implies data_rate_config(region.data_rates@[k])
        == data_rate_config(region.data_rates@[k]) by {
        lemma_data_rate_config_keeps_modulation(region.data_rates@[k]);
    }
    ConfigCommand {
        version: region.version.clone(),
        uplink_channels: convert_channels(&region.uplink_channels),
        downlink_channels: convert_channels(&region.downlink_channels),
        data_rates,
    }
}

/// Whether a gateway that reports configuration `config_version` must be
/// sent the region's channel plan.
pub fn needs_config_push(config_version: &String, region: &Region) -> (r: bool)
    ensures
        r == (config_version@ != region.version@),
{
    !(*config_version == region.version)
}

/// Delay (ns) of a downlink sent `delay` timing units after the uplink.
pub open spec fn tx_delay_ns(region: Region, delay: usize) -> u64 {
    (region.timing_multiplier_ms * delay * 1_000_000) as u64
}

/// Transmission request for `payload`, answering an uplink received on
/// channel `ul_ch` with data-rate `ul_dr` through the gateway that gave
/// `context`, `delay` timing units after it.
pub fn downlink_tx_command(region: &Region, ul_ch: u8, ul_dr: u8, payload: Vec<u8>, context: Vec<u8>, delay: usize) -> (r: TxCommand)
    requires
        region.timing_multiplier_ms * delay <= u64::MAX,
    ensures
        r.id == 0,
        r.payload == payload,
        r.channel == mapped_or_zero(region.uplink_downlink_channel_mapping@, ul_ch),
        r.data_rate == mapped_or_zero(region.uplink_downlink_data_rate_mapping@, ul_dr),
        r.tx_power == region.downlink_tx_power_eirp as i32,
        r.timing == Timing::Delay(TimingDelay { delay_ns: tx_delay_ns(*region, delay), context }),
{
    let ms: u64 = region.timing_multiplier_ms as u64 * delay as u64;
    let ns: u128 = ms as u128 * 1_000_000;
    #[verifier::truncate]
    let delay_ns = ns as u64;
    TxCommand {
        id: 0,
        payload,
        channel: region.get_downlink_channel(ul_ch),
        data_rate: region.get_downlink_data_rate(ul_dr),
        tx_power: region.downlink_tx_power_eirp as i32,
        timing: Timing::Delay(TimingDelay { delay_ns, context }),
    }
}


/// Whether `a` comes before `b` in lexicographic order of their characters
/// (the order of `str`).
pub open spec fn text_lt(a: Seq<char>, b: Seq<char>) -> bool
    decreases a.len(),
{
    if a.len() == 0 {
        b.len() > 0
    } else if b.len() == 0 {
        false
    } else if a[0] != b[0] {
        (a[0] as int) < (b[0] as int)
    } else {
        text_lt(a.drop_first(), b.drop_first())
    }
}

proof fn lemma_text_lt_irreflexive(a: Seq<char>)
    ensures
        !text_lt(a, a),
    decreases a.len(),
{
    if a.len() > 0 {
        lemma_text_lt_irreflexive(a.drop_first());
    }
}

proof fn lemma_text_lt_total(a: Seq<char>, b: Seq<char>)
    requires
        a != b,
    ensures
        text_lt(a, b) || text_lt(b, a),
    decreases a.len(),
{
    if a.len() > 0 && b.len() > 0 && a[0] == b[0] {
        if a.drop_first() == b.drop_first() {
            assert(a =~= seq![a[0]] + a.drop_first());
            assert(b =~= seq![b[0]] + b.drop_first());
        }
        lemma_text_lt_total(a.drop_first(), b.drop_first());
    }
    if a.len() == 0 && b.len() == 0 {
        assert(a =~= b);
    }
}

proof fn lemma_text_lt_transitive(a: Seq<char>, b: Seq<char>, c: Seq<char>)
    requires
        text_lt(a, b),
        text_lt(b, c),
    ensures
        text_lt(a, c),
    decreases a.len(),
{
    if a.len() > 0 && a[0] == b[0] && b[0] == c[0] {
        lemma_text_lt_transitive(a.drop_first(), b.drop_first(), c.drop_first());
    }
}

/// Whether text `a` comes before text `b`.
fn str_lt(a: &str, b: &str) -> (r: bool)
    ensures
        r == text_lt(a@, b@),
{
    let n = a.unicode_len();
    let m = b.unicode_len();
    let mut i: usize = 0;
    assert(a@.skip(0) =~= a@);
    assert(b@.skip(0) =~= b@);
    while i < n && i < m
        invariant
            n == a@.len(),
            m == b@.len(),
            i <= n,
            i <= m,
            text_lt(a@, b@) == text_lt(a@.skip(i as int), b@.skip(i as int)),
        decreases n - i,
    {
        let x = a.get_char(i);
        let y = b.get_char(i);
        proof {
            assert(a@.skip(i as int)[0] == x);
            assert(b@.skip(i as int)[0] == y);
            assert(a@.skip(i as int).drop_first() =~= a@.skip(i + 1));
            assert(b@.skip(i as int).drop_first() =~= b@.skip(i + 1));
        }
        if x != y {
            return (x as u32) < (y as u32);
        }
        i += 1;
    }
    i == n && i < m
}

proof fn lemma_index_of_unique(m: Seq<Seq<char>>, i: int)
    requires
        m.no_duplicates(),
        0 <= i < m.len(),
    ensures
        m.index_of(m[i]) == i,
{
    assert(0 <= i < m.len() && m[i] == m[i]);
    let j = m.index_of(m[i]);
    assert(0 <= j < m.len() && m[j] == m[i]);
}

/// Names of the entries of a registry.
pub open spec fn entry_names(e: Seq<(String, Region)>) -> Seq<Seq<char>> {
    e.map_values(|x: (String, Region)| x.0@)
}

/// The region that the last of `modules` named `k` holds.
pub open spec fn last_region(modules: Seq<(String, Region)>, k: Seq<char>) -> Option<Region>
    decreases modules.len(),
{
    if modules.len() == 0 {
        None
    } else if modules.last().0@ == k {
        Some(modules.last().1)
    } else {
        last_region(modules.drop_last(), k)
    }
}

/// The regions loaded so far, by the name of their module.
pub struct Regions {
    entries: Vec<(String, Region)>,
}

impl Regions {
    /// The loaded regions, as module name and region.
    pub closed spec fn loaded(&self) -> Seq<(String, Region)> {
        self.entries@
    }

    /// Names of the loaded modules, in loading order.
    pub open spec fn modules(&self) -> Seq<Seq<char>> {
        entry_names(self.loaded())
    }

    /// No module is loaded twice.
    pub open spec fn wf(&self) -> bool {
        self.modules().no_duplicates()
    }

    /// Whether module `name` is loaded.
    pub open spec fn has(&self, name: Seq<char>) -> bool {
        self.modules().contains(name)
    }

    /// The region of loaded module `name`.
    pub open spec fn region_of(&self, name: Seq<char>) -> Region {
        self.loaded()[self.modules().index_of(name)].1
    }

    /// No region loaded yet.
    pub fn new() -> (r: Regions)
        ensures
            r.wf(),
            r.modules().len() == 0,
    {
        let r = Regions { entries: Vec::new() };
        assert(r.modules() =~= Seq::<Seq<char>>::empty());
        r
    }

    fn find(&self, name: &str) -> (r: Option<usize>)
        requires
            self.wf(),
        ensures
            r is None <==> !self.has(name@),
            r matches Some(i) ==> i < self.modules().len() && self.modules()[i as int] == name@
                && self.modules().index_of(name@) == i,
    {
        let target = String::from_str(name);
        let mut i: usize = 0;
        while i < self.entries.len()
            invariant
                self.wf(),
                target@ == name@,
                i <= self.entries@.len(),
                forall|j: int| 0 <= j < i ==> self.modules()[j] != name@,
            decreases self.entries@.len() - i,
        {
            let ghost m = self.modules();
            assert(m[i as int] == self.entries@[i as int].0@);
            if self.entries[i].0 == target {
                proof {
                    lemma_index_of_unique(m, i as int);
                }
                return Some(i);
            }
            i += 1;
        }
        None
    }

    /// The region of module `name`, where it is loaded.
    pub fn get(&self, name: &str) -> (r: Option<&Region>)
        requires
            self.wf(),
        ensures
            r is None <==> !self.has(name@),
            r matches Some(x) ==> *x == self.region_of(name@),
    {
        match self.find(name) {
            Some(i) => Some(&self.entries[i].1),
            None => None,
        }
    }

    /// Loads `region` as module `name`, in place of the region loaded under
    /// that name before, if any.
    pub fn insert(&mut self, name: String, region: Region)
        requires
            old(self).wf(),
        ensures
            final(self).wf(),
            final(self).has(name@),
            final(self).region_of(name@) == region,
            forall|k: Seq<char>| k != name@ ==> (final(self).has(k) <==> old(self).has(k)),
            forall|k: Seq<char>| k != name@ && old(self).has(k) ==> final(self).region_of(k) == old(self).region_of(k),
    {
        let ghost old_m = self.modules();
        match self.find(name.as_str()) {
            Some(i) => {
                let ghost nm = name@;
                self.entries.set(i, (name, region));
                proof {
                    assert(self.modules() =~= old_m);
                    assert forall|k: Seq<char>| k != nm && old(self).has(k) implies self.region_of(k)
                        == old(self).region_of(k) by {
                        let j = choose|j: int| 0 <= j < old_m.len() && old_m[j] == k;
                        lemma_index_of_unique(old_m, j);
                    }
                    lemma_index_of_unique(old_m, i as int);
                }
            },
            None => {
                let ghost nm = name@;
                self.entries.push((name, region));
                proof {
                    assert(self.modules() =~= old_m.push(nm));
                    assert(self.modules()[old_m.len() as int] == nm);
                    assert forall|a: int, b: int| 0 <= a < b < self.modules().len() implies self.modules()[a]
                        != self.modules()[b] by {
                        if b == old_m.len() {
                            assert(old_m[a] == self.modules()[a]);
                        }
                    }
                    lemma_index_of_unique(self.modules(), old_m.len() as int);
                    assert forall|k: Seq<char>| k != nm implies (self.has(k) <==> old(self).has(k)) by {
                        if self.has(k) {
                            let j = choose|j: int| 0 <= j < self.modules().len() && self.modules()[j] == k;
                            assert(old_m[j] == k);
                        }
                        if old(self).has(k) {
                            let j = choose|j: int| 0 <= j < old_m.len() && old_m[j] == k;
                            assert(self.modules()[j] == k);
                        }
                    }
                    assert forall|k: Seq<char>| k != nm && old(self).has(k) implies self.region_of(k)
                        == old(self).region_of(k) by {
                        let j = choose|j: int| 0 <= j < old_m.len() && old_m[j] == k;
                        lemma_index_of_unique(old_m, j);
                        assert(self.modules()[j] == k);
                        lemma_index_of_unique(self.modules(), j);
                    }
                }
            },
        }
    }

    /// Names of the loaded modules, in lexicographic order.
    pub fn get_keys(&self) -> (r: Vec<String>)
        requires
            self.wf(),
        ensures
            r@.len() == self.modules().len(),
            forall|a: int, b: int| 0 <= a < b < r@.len() ==> text_lt(#[trigger] r@[a]@, #[trigger] r@[b]@),
            forall|k: Seq<char>| #[trigger] self.has(k) <==> views(r@).contains(k),
    {
        let ghost m = self.modules();
        let mut out: Vec<String> = Vec::new();
        let mut i: usize = 0;
        while i < self.entries.len()
            invariant
                self.wf(),
                m == self.modules(),
                i <= m.len(),
                out@.len() == i,
                forall|a: int, b: int| 0 <= a < b < out@.len() ==> text_lt(#[trigger] out@[a]@, #[trigger] out@[b]@),
                forall|k: Seq<char>| #[trigger] m.take(i as int).contains(k) <==> views(out@).contains(k),
            decreases m.len() - i,
        {
            let name = self.entries[i].0.as_str();
            let ghost nm = name@;
            assert(nm == m[i as int]);
            let mut p: usize = 0;
            while p < out.len() && str_lt(out[p].as_str(), name)
                invariant
                    nm == name@,
                    p <= out@.len(),
                    forall|j: int| 0 <= j < p ==> text_lt(#[trigger] out@[j]@, nm),
                decreases out@.len() - p,
            {
                p += 1;
            }
            let ghost before = out@;
            proof {
                assert forall|j: int| p <= j < before.len() implies text_lt(nm, #[trigger] before[j]@) by {
                    let w = before[j]@;
                    assert(views(before)[j] == w);
                    assert(m.take(i as int).contains(w));
                    let k = choose|k: int| 0 <= k < i && m.take(i as int)[k] == w;
                    assert(m[k] == w);
                    assert(m[k] != m[i as int]);
                    if j == p {
                        lemma_text_lt_total(w, nm);
                    } else {
                        assert(views(before)[p as int] == before[p as int]@);
                        assert(m.take(i as int).contains(before[p as int]@));
                        let k2 = choose|k2: int| 0 <= k2 < i && m.take(i as int)[k2] == before[p as int]@;
                        assert(m[k2] != m[i as int]);
                        lemma_text_lt_total(before[p as int]@, nm);
                        lemma_text_lt_transitive(nm, before[p as int]@, w);
                    }
                }
            }
            out.insert(p, String::from_str(name));
            proof {
                assert forall|a: int, b: int| 0 <= a < b < out@.len() implies text_lt(
                    #[trigger] out@[a]@,
                    #[trigger] out@[b]@,
                ) by {
                    if b < p {
                    } else if b == p {
                    } else if a < p {
                        assert(text_lt(out@[a]@, nm));
                        lemma_text_lt_transitive(out@[a]@, nm, out@[b]@);
                    } else if a == p {
                    } else {
                        assert(out@[a] == before[a - 1] && out@[b] == before[b - 1]);
                    }
                }
                assert(views(out@) =~= views(before).insert(p as int, nm));
                assert(m.take(i + 1) =~= m.take(i as int).push(nm));
                let t1 = m.take(i + 1);
                let t0 = m.take(i as int);
                assert forall|k: Seq<char>| #[trigger] t1.contains(k) <==> views(out@).contains(k) by {
                    if t1.contains(k) {
                        let j = choose|j: int| 0 <= j < i + 1 && t1[j] == k;
                        if j == i {
                            assert(views(out@)[p as int] == k);
                        } else {
                            assert(t0[j] == k);
                            assert(t0.contains(k));
                            assert(views(before).contains(k));
                            let q = choose|q: int| 0 <= q < before.len() && views(before)[q] == k;
                            if q < p {
                                assert(views(out@)[q] == k);
                            } else {
                                assert(views(out@)[q + 1] == k);
                            }
                        }
                    }
                    if views(out@).contains(k) {
                        let q = choose|q: int| 0 <= q < out@.len() && views(out@)[q] == k;
                        if q == p {
                            assert(t1[i as int] == k);
                        } else if q < p {
                            assert(views(before)[q] == k);
                            assert(t0.contains(k));
                            let j = choose|j: int| 0 <= j < i && t0[j] == k;
                            assert(t1[j] == k);
                        } else {
                            assert(views(before)[q - 1] == k);
                            assert(t0.contains(k));
                            let j = choose|j: int| 0 <= j < i && t0[j] == k;
                            assert(t1[j] == k);
                        }
                    }
                }
            }
            i += 1;
        }
        assert(m.take(i as int) =~= m);
        out
    }

    /// Loads each of `modules` (module name and region) in turn.
    pub fn load_all(&mut self, modules: Vec<(String, Region)>)
        requires
            old(self).wf(),
        ensures
            final(self).wf(),
            forall|k: Seq<char>|
                #[trigger] final(self).has(k) <==> (old(self).has(k) || entry_names(modules@).contains(k)),
            forall|k: Seq<char>|
                old(self).has(k) && !entry_names(modules@).contains(k) ==> final(self).region_of(k)
                    == old(self).region_of(k),
            forall|k: Seq<char>|
                #[trigger] entry_names(modules@).contains(k) ==> Some(final(self).region_of(k)) == last_region(
                    modules@,
                    k,
                ),
    {
        let ghost all = modules@;
        let n: usize = modules.len();
        let mut modules = modules;
        let mut i: usize = 0;
        assert(all.skip(0) =~= all);
        assert(entry_names(all.take(0)) =~= Seq::<Seq<char>>::empty());
        while modules.len() > 0
            invariant
                self.wf(),
                i <= n,
                n == all.len(),
                modules@ == all.skip(i as int),
                forall|k: Seq<char>|
                    #[trigger] self.has(k) <==> (old(self).has(k) || entry_names(all.take(i as int)).contains(k)),
                forall|k: Seq<char>|
                    old(self).has(k) && !entry_names(all.take(i as int)).contains(k) ==> self.region_of(k)
                        == old(self).region_of(k),
                forall|k: Seq<char>|
                    #[trigger] entry_names(all.take(i as int)).contains(k) ==> Some(self.region_of(k))
                        == last_region(all.take(i as int), k),
            decreases modules@.len(),
        {
            let (name, region) = modules.remove(0);
            let ghost nm = name@;
            let ghost before = *self;
            proof {
                assert(all.skip(i as int)[0] == all[i as int]);
                assert(nm == all[i as int].0@);
                assert(entry_names(all.take(i + 1)) =~= entry_names(all.take(i as int)).push(nm));
                assert(modules@ =~= all.skip(i + 1));
            }
            self.insert(name, region);
            proof {
                let prev = entry_names(all.take(i as int));
                let next = entry_names(all.take(i + 1));
                assert forall|k: Seq<char>| #[trigger] self.has(k) <==> (old(self).has(k) || next.contains(k)) by {
                    if k == nm {
                        assert(next[prev.len() as int] == nm);
                    } else {
                        if next.contains(k) {
                            let j = choose|j: int| 0 <= j < next.len() && next[j] == k;
                            assert(prev[j] == k);
                        }
                        if prev.contains(k) {
                            let j = choose|j: int| 0 <= j < prev.len() && prev[j] == k;
                            assert(next[j] == k);
                        }
                    }
                }
                assert forall|k: Seq<char>|
                    old(self).has(k) && !next.contains(k) implies self.region_of(k) == old(self).region_of(k) by {
                    assert(next[prev.len() as int] == nm);
                    if prev.contains(k) {
                        let j = choose|j: int| 0 <= j < prev.len() && prev[j] == k;
                        assert(next[j] == k);
                    }
                }
                let t1 = all.take(i + 1);
                assert(t1.drop_last() =~= all.take(i as int));
                assert(t1.last() == all[i as int]);
                assert forall|k: Seq<char>| #[trigger] next.contains(k) implies Some(self.region_of(k)) == last_region(
                    t1,
                    k,
                ) by {
                    if k != nm {
                        let j = choose|j: int| 0 <= j < next.len() && next[j] == k;
                        assert(j != prev.len());
                        assert(prev[j] == k);
                        assert(prev.contains(k));
                    }
                }
            }
            i += 1;
        }
        proof {
            assert(all.take(i as int) =~= all);
        }
    }
}
} // verus!
