use std::collections::HashMap;

use nanopulse_core::semtech_helpers::{
    get_fsk_channel, get_lora_multi_fs_channels, get_lora_std_channel, get_radio_bandwidth,
    get_radio_for_channel, get_radio_frequencies, Channel, ChannelPlanError,
};
use nanopulse_core::structs::{
    ChannelConfiguration, CodingRate, ConfigCommand, DataRateConfiguration,
    FskDataRateConfiguration, LoraDataRateConfiguration,
};

fn lora(bandwidth: u32, spreading_factor: u8) -> DataRateConfiguration {
    DataRateConfiguration::Lora(LoraDataRateConfiguration {
        bandwidth,
        spreading_factor,
        coding_rate: CodingRate::Cr45,
    })
}

fn channel(freq_hz: u32, data_rates: Vec<u8>) -> ChannelConfiguration {
    ChannelConfiguration { freq_hz, data_rates }
}

fn eu_data_rates() -> HashMap<u8, DataRateConfiguration> {
    [
        (0, lora(125000, 12)),
        (1, lora(125000, 11)),
        (2, lora(125000, 10)),
        (3, lora(125000, 9)),
        (4, lora(125000, 8)),
        (5, lora(125000, 7)),
        (6, lora(250000, 7)),
        (
            7,
            DataRateConfiguration::Fsk(FskDataRateConfiguration {
                bitrate: 50000,
                frequency_deviation: 25000,
            }),
        ),
    ]
    .iter()
    .cloned()
    .collect()
}

fn us_data_rates() -> HashMap<u8, DataRateConfiguration> {
    [
        (0, lora(125000, 10)),
        (1, lora(125000, 9)),
        (2, lora(125000, 8)),
        (3, lora(125000, 9)),
        (4, lora(500000, 8)),
    ]
    .iter()
    .cloned()
    .collect()
}

#[test]
fn test_get_radio_frequencies() {
    let data_rates = eu_data_rates();
    let data_rates_us = us_data_rates();

    let tests = vec![
        (
            ConfigCommand {
                data_rates: data_rates.clone(),
                uplink_channels: [(0, channel(868100000, vec![0, 1, 2, 3, 4, 5]))]
                    .iter()
                    .cloned()
                    .collect(),
                ..Default::default()
            },
            [868500000, 0],
        ),
        (
            ConfigCommand {
                data_rates: data_rates.clone(),
                uplink_channels: [
                    (0, channel(868100000, vec![0, 1, 2, 3, 4, 5])),
                    (1, channel(868300000, vec![0, 1, 2, 3, 4, 5])),
                    (2, channel(868500000, vec![0, 1, 2, 3, 4, 5])),
                ]
                .iter()
                .cloned()
                .collect(),
                ..Default::default()
            },
            [868500000, 0],
        ),
        (
            ConfigCommand {
                data_rates: data_rates.clone(),
                uplink_channels: [
                    (0, channel(868100000, vec![0, 1, 2, 3, 4, 5])),
                    (1, channel(868300000, vec![0, 1, 2, 3, 4, 5])),
                    (2, channel(868500000, vec![0, 1, 2, 3, 4, 5])),
                    (3, channel(867100000, vec![0, 1, 2, 3, 4, 5])),
                    (4, channel(867300000, vec![0, 1, 2, 3, 4, 5])),
                    (5, channel(867500000, vec![0, 1, 2, 3, 4, 5])),
                    (6, channel(867700000, vec![0, 1, 2, 3, 4, 5])),
                    (7, channel(867900000, vec![0, 1, 2, 3, 4, 5])),
                    (8, channel(868300000, vec![6])),
                    (8, channel(868000000, vec![7])),
                ]
                .iter()
                .cloned()
                .collect(),
                ..Default::default()
            },
            [867500000, 868400000],
        ),
        (
            ConfigCommand {
                data_rates: data_rates_us.clone(),
                uplink_channels: [
                    (0, channel(902300000, vec![0, 1, 2, 3])),
                    (1, channel(902500000, vec![0, 1, 2, 3])),
                    (2, channel(902700000, vec![0, 1, 2, 3])),
                    (3, channel(902900000, vec![0, 1, 2, 3])),
                    (4, channel(903100000, vec![0, 1, 2, 3])),
                    (5, channel(903300000, vec![0, 1, 2, 3])),
                    (6, channel(903500000, vec![0, 1, 2, 3])),
                    (7, channel(903700000, vec![0, 1, 2, 3])),
                    (8, channel(903000000, vec![4])),
                ]
                .iter()
                .cloned()
                .collect(),
                ..Default::default()
            },
            [902700000, 903700000],
        ),
    ];

    for (cmd, expected) in tests {
        assert_eq!(
            expected,
            get_radio_frequencies(&cmd.data_rates, &cmd.uplink_channels).unwrap()
        );
    }
}

#[test]
fn test_get_radio_for_channel() {
    let tests = vec![("Radio 0".to_string(), [868500000, 0], 868100000, 125000, 0)];

    for (_, radios, freq_hz, bandwidth, expected) in tests {
        let radio = get_radio_for_channel(&radios, freq_hz, bandwidth).unwrap();
        assert_eq!(radio, expected);
    }
}

#[test]
fn radio_bandwidth_per_channel_bandwidth() {
    assert_eq!(1100000, get_radio_bandwidth(500000));
    assert_eq!(1000000, get_radio_bandwidth(250000));
    assert_eq!(925000, get_radio_bandwidth(125000));
    assert_eq!(925000, get_radio_bandwidth(0));
    assert_eq!(925000, get_radio_bandwidth(62500));
}

#[test]
fn channel_frequencies() {
    let c = Channel { freq_hz: 868100000, bandwidth: 125000 };
    assert_eq!(868037500, c.min_channel_freq());
    assert_eq!(868162500, c.max_channel_freq());
    assert_eq!(868037500 + 462500, c.min_radio_freq());
}

#[test]
fn radio_for_channel_second_radio_and_none() {
    let radios = [868500000, 867500000];
    assert_eq!(Ok(1), get_radio_for_channel(&radios, 867100000, 125000));
    assert_eq!(
        Err(ChannelPlanError::NoRadioForChannel),
        get_radio_for_channel(&radios, 869500000, 125000)
    );
}

#[test]
fn more_than_eight_multi_sf_channels_are_refused() {
    let data_rates = eu_data_rates();
    let mut channels = HashMap::new();
    for i in 0..9u8 {
        channels.insert(i, channel(867100000 + (i as u32) * 200000, vec![0, 1, 2, 3, 4, 5]));
    }
    assert_eq!(
        Err(ChannelPlanError::TooManyMultiSfChannels(9)),
        get_lora_multi_fs_channels(&data_rates, &channels).map(|v| v.len())
    );
    assert_eq!(
        Err(ChannelPlanError::TooManyMultiSfChannels(9)),
        get_radio_frequencies(&data_rates, &channels)
    );
}

#[test]
fn channels_that_do_not_fit_two_radios() {
    let data_rates = eu_data_rates();
    let channels: HashMap<u8, ChannelConfiguration> = [
        (0, channel(863100000, vec![0, 1, 2, 3, 4, 5])),
        (1, channel(866100000, vec![0, 1, 2, 3, 4, 5])),
        (2, channel(869100000, vec![0, 1, 2, 3, 4, 5])),
    ]
    .iter()
    .cloned()
    .collect();
    assert_eq!(
        Err(ChannelPlanError::ChannelsDoNotFit),
        get_radio_frequencies(&data_rates, &channels)
    );
}

#[test]
fn single_channels_are_found_by_key_order() {
    let data_rates = eu_data_rates();
    let channels: HashMap<u8, ChannelConfiguration> = [
        (9, channel(868300000, vec![6])),
        (10, channel(868800000, vec![6])),
        (11, channel(868000000, vec![7])),
        (3, channel(867100000, vec![0, 1, 2])),
    ]
    .iter()
    .cloned()
    .collect();
    let std = get_lora_std_channel(&data_rates, &channels).unwrap();
    assert_eq!(868300000, std.freq_hz);
    assert_eq!(250000, std.bandwidth);
    assert_eq!(7, std.spreading_factor);
    let fsk = get_fsk_channel(&data_rates, &channels).unwrap();
    assert_eq!(868000000, fsk.freq_hz);
    assert_eq!(25000, fsk.freq_deviation);
    assert_eq!(50000, fsk.bitrate);
    // 2 * 25 kHz + 50 kbit/s fits in 125 kHz
    assert_eq!(125000, fsk.bandwidth);
    let multi = get_lora_multi_fs_channels(&data_rates, &channels).unwrap();
    assert_eq!(1, multi.len());
    assert_eq!(867100000, multi[0].freq_hz);
    assert_eq!(125000, multi[0].bandwidth);
}

#[test]
fn no_single_channels() {
    let data_rates = eu_data_rates();
    let channels: HashMap<u8, ChannelConfiguration> =
        [(0, channel(868100000, vec![0, 1]))].iter().cloned().collect();
    assert!(get_lora_std_channel(&data_rates, &channels).is_none());
    assert!(get_fsk_channel(&data_rates, &channels).is_none());
}

#[test]
fn radios_are_used_in_order() {
    let data_rates = eu_data_rates();
    // no channel: both radios unused
    let none: HashMap<u8, ChannelConfiguration> = HashMap::new();
    assert_eq!(Ok([0, 0]), get_radio_frequencies(&data_rates, &none));
    // one channel: only the first radio is used
    let one: HashMap<u8, ChannelConfiguration> =
        [(0, channel(868100000, vec![0, 1]))].iter().cloned().collect();
    let radios = get_radio_frequencies(&data_rates, &one).unwrap();
    assert_ne!(0, radios[0]);
    assert_eq!(0, radios[1]);
}

#[test]
fn radio_for_channel_is_the_first_that_fits() {
    // both radios hold the channel: the first one is taken
    assert_eq!(Ok(0), get_radio_for_channel(&[868500000, 868500000], 868100000, 125000));
    assert_eq!(Ok(1), get_radio_for_channel(&[867500000, 868500000], 868900000, 125000));
}
