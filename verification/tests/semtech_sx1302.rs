use std::collections::HashMap;
use std::time::Duration;

use nanopulse_core::jitqueue::{Config, Queue, TxMode, TxPacket};
use nanopulse_core::semtech_sx1302::{
    apply_config, get_count, jit_pop, schedule_tx, ConcentratorError, CountMapping, QueuedPacket,
    RadioState, ReceivedFrame, RxPacketInfo,
    TxPacketFields, BW_125KHZ, CR_LORA_4_5, IMMEDIATE, MOD_FSK, MOD_LORA, STAT_CRC_OK,
    TIMESTAMPED,
};
use nanopulse_core::structs::{
    ChannelConfiguration, CodingRate, ConfigCommand, DataRateConfiguration, HeartbeatEvent,
    LoraDataRateConfiguration, Timing, TimingDelay, TxAckStatus, TxCommand,
};

#[test]
fn test_get_count() {
    let mut mapping = CountMapping::new();

    let count = Duration::from_micros(u32::MAX as u64);
    assert_eq!(count.as_nanos(), get_count(&mut mapping, u32::MAX));

    // u32 rollover
    let count = Duration::from_micros(u32::MAX as u64 + 1);
    assert_eq!(count.as_nanos(), get_count(&mut mapping, 0));
    assert_eq!(count.as_nanos(), get_count(&mut mapping, 0)); // no increment

    // an increment
    let count = Duration::from_micros(u32::MAX as u64 + 501);
    assert_eq!(count.as_nanos(), get_count(&mut mapping, 500));

    // a slightly lower value, this should not be handled as a rollover
    // as the value is too close to the previous counter value
    let count = Duration::from_micros(u32::MAX as u64 + 101);
    assert_eq!(count.as_nanos(), get_count(&mut mapping, 100));
}

#[test]
fn count_of_a_late_reading_leaves_the_mapping() {
    let mut mapping = CountMapping::new();
    assert_eq!(1_000_000_000, get_count(&mut mapping, 1_000_000));
    assert_eq!(999_000_000, get_count(&mut mapping, 999_000));
    // the next reading is still measured from the last forward step
    assert_eq!(1_001_000_000, get_count(&mut mapping, 1_001_000));
}

fn eu_data_rates() -> HashMap<u8, DataRateConfiguration> {
    let mut m = HashMap::new();
    for (i, sf) in [12u8, 11, 10, 9, 8, 7].iter().enumerate() {
        m.insert(
            i as u8,
            DataRateConfiguration::Lora(LoraDataRateConfiguration {
                bandwidth: 125000,
                spreading_factor: *sf,
                coding_rate: CodingRate::Cr45,
            }),
        );
    }
    m
}

fn eu_channels() -> HashMap<u8, ChannelConfiguration> {
    let mut m = HashMap::new();
    for (i, f) in [868100000u32, 868300000, 868500000].iter().enumerate() {
        m.insert(i as u8, ChannelConfiguration { freq_hz: *f, data_rates: vec![0, 1, 2, 3, 4, 5] });
    }
    m
}

#[test]
fn configure_channels_tunes_radios_and_if_chains() {
    let mut state = RadioState::new(0);
    assert!(!state.started);
    assert!(state.rx_rf[0].enable);
    assert!(!state.rx_rf[1].enable);
    state.configure_data_rates(&eu_data_rates());
    let downlink = eu_channels();
    assert_eq!(Ok(()), state.configure_channels(&eu_channels(), &downlink));
    assert_eq!(868500000, state.rx_rf[0].freq_hz);
    assert!(state.rx_rf[0].enable);
    assert!(!state.rx_rf[1].enable);
    assert!(state.rx_if[0].enable);
    assert_eq!(0, state.rx_if[0].rf_chain);
    assert_eq!(-400000, state.rx_if[0].freq_hz);
    assert_eq!(-200000, state.rx_if[1].freq_hz);
    assert_eq!(0, state.rx_if[2].freq_hz);
    assert!(!state.rx_if[3].enable);
    assert!(!state.rx_if[8].enable);
    assert!(!state.rx_if[9].enable);
}

#[test]
fn classify_received_packets() {
    let mut state = RadioState::new(0);
    state.configure_data_rates(&eu_data_rates());
    state.configure_channels(&eu_channels(), &eu_channels()).unwrap();
    let pkt = RxPacketInfo {
        status: STAT_CRC_OK,
        freq_hz: 868300000,
        modulation: MOD_LORA,
        bandwidth: BW_125KHZ,
        datarate: 7,
        coderate: CR_LORA_4_5,
    };
    assert_eq!(Ok(5), state.get_data_rate(&pkt));
    assert_eq!(Ok(1), state.get_uplink_channel_index(868300000, 5));
    assert_eq!(Some((1, 5)), state.classify_rx(&pkt));

    let unknown = RxPacketInfo { modulation: 0x40, ..pkt };
    assert_eq!(Err(ConcentratorError::UnknownModulation(0x40)), state.get_data_rate(&unknown));
    assert_eq!(None, state.classify_rx(&unknown));

    let fsk = RxPacketInfo { modulation: MOD_FSK, datarate: 50000, ..pkt };
    assert_eq!(Err(ConcentratorError::DataRateNotFound), state.get_data_rate(&fsk));

    let bad_crc = RxPacketInfo { status: 0, ..pkt };
    assert_eq!(None, state.classify_rx(&bad_crc));

    assert_eq!(
        Err(ConcentratorError::NoUplinkChannel),
        state.get_uplink_channel_index(869000000, 5)
    );
}

fn tx_command(channel: u8, data_rate: u8) -> TxCommand {
    TxCommand {
        id: 7,
        payload: vec![1, 2, 3],
        channel,
        data_rate,
        tx_power: 14,
        timing: Timing::Delay(TimingDelay { delay_ns: 1_000_000_000, context: vec![0, 0, 0x03, 0xe8] }),
    }
}

#[test]
fn tx_packet_from_command() {
    let mut state = RadioState::new(0);
    assert_eq!(Err(TxAckStatus::InternalError), state.tx_packet(&tx_command(0, 5)).map(|_| ()));
    state.started = true;
    state.configure_data_rates(&eu_data_rates());
    state.configure_channels(&eu_channels(), &eu_channels()).unwrap();
    assert_eq!(Err(TxAckStatus::TxChannel), state.tx_packet(&tx_command(9, 5)).map(|_| ()));
    assert_eq!(Err(TxAckStatus::TxDataRate), state.tx_packet(&tx_command(0, 9)).map(|_| ()));

    let p = state.tx_packet(&tx_command(1, 5)).unwrap();
    assert_eq!(868300000, p.freq_hz);
    assert_eq!(TIMESTAMPED, p.tx_mode);
    // 1000 us after the reception plus one second
    assert_eq!(1_001_000, p.count_us);
    assert_eq!(MOD_LORA, p.modulation);
    assert_eq!(BW_125KHZ, p.bandwidth);
    assert_eq!(7, p.datarate);
    assert_eq!(CR_LORA_4_5, p.coderate);
    assert!(p.invert_pol);
    assert_eq!(14, p.rf_power);
    assert_eq!(3, p.size);
    assert_eq!([1, 2, 3, 0], p.payload[..4]);
}

fn fields() -> TxPacketFields {
    TxPacketFields {
        freq_hz: 868100000,
        tx_mode: IMMEDIATE,
        count_us: 0,
        rf_chain: 0,
        rf_power: 14,
        modulation: MOD_LORA,
        bandwidth: BW_125KHZ,
        datarate: 7,
        coderate: CR_LORA_4_5,
        invert_pol: true,
        f_dev: 0,
        size: 0,
        payload: [0; 256],
    }
}

#[test]
fn queued_packet_follows_its_fields() {
    let mut p = QueuedPacket {
        tx_id: 3,
        data_rate: 5,
        channel: 0,
        fields: fields(),
        count: 0,
        time_on_air: 41_216_000,
    };
    assert_eq!(3, p.get_id());
    assert_eq!(TxMode::Immediate, p.get_tx_mode());
    assert_eq!(Some(41_216_000), p.get_time_on_air());
    p.set_tx_mode(TxMode::Timestamped);
    assert_eq!(TIMESTAMPED, p.fields.tx_mode);
    assert_eq!(TxMode::Timestamped, p.get_tx_mode());
    // 2^32 us + 5 us: the counter wraps
    p.set_count(4_294_967_301_000);
    assert_eq!(4_294_967_301_000, p.get_count());
    assert_eq!(5, p.fields.count_us);
}

#[test]
fn transmission_goes_through_the_queue() {
    let mut state = RadioState::new(0);
    state.started = true;
    state.configure_data_rates(&eu_data_rates());
    state.configure_channels(&eu_channels(), &eu_channels()).unwrap();
    let mut queue: Queue<QueuedPacket> = Queue::new(4, Config::default());
    let mut mapping = CountMapping::new();

    // the uplink was received at counter 1_000_000 µs; reply one second later
    let frame = TxCommand {
        id: 11,
        payload: vec![1, 2, 3],
        channel: 0,
        data_rate: 5,
        tx_power: 16,
        timing: Timing::Delay(TimingDelay { delay_ns: 1_000_000_000, context: vec![0, 0x0f, 0x42, 0x40] }),
    };
    let fields = state.tx_packet(&frame).unwrap();
    assert_eq!(2_000_000, fields.count_us);
    assert_eq!(Ok(()), schedule_tx(&mut queue, &mut mapping, &frame, fields, 1_100_000, 41_216_000));
    assert_eq!(1, queue.len());
    assert_eq!(2_000_000_000, queue.item(0).count());

    // not due yet 200 ms before
    assert!(jit_pop(&mut queue, &mut mapping, 1_800_000, 2).is_none());
    assert_eq!(1, queue.len());
    // due within the pre-delay
    let p = jit_pop(&mut queue, &mut mapping, 1_970_000, 2).unwrap();
    assert_eq!(11, p.tx_id);
    assert_eq!(14, p.fields.rf_power);
    assert_eq!(0, queue.len());

    // a request that overlaps the transmission in progress is refused
    let late = TxCommand {
        timing: Timing::Delay(TimingDelay { delay_ns: 10_000_000, context: vec![0, 0x1e, 0x84, 0x80] }),
        ..frame.clone()
    };
    let fields = state.tx_packet(&late).unwrap();
    assert_eq!(
        Err(TxAckStatus::CollisionPacket),
        schedule_tx(&mut queue, &mut mapping, &late, fields, 2_000_000, 41_216_000)
    );
}

#[test]
fn immediate_transmission_keeps_its_packet() {
    let mut queue: Queue<QueuedPacket> = Queue::new(4, Config::default());
    let mut mapping = CountMapping::new();
    let frame = TxCommand {
        id: 21,
        payload: vec![9, 8],
        channel: 1,
        data_rate: 4,
        tx_power: 14,
        timing: Timing::Delay(TimingDelay { delay_ns: 0, context: vec![0, 0, 0, 0] }),
    };
    let mut f = fields();
    f.size = 2;
    f.payload[0] = 9;
    f.payload[1] = 8;
    assert_eq!(Ok(()), schedule_tx(&mut queue, &mut mapping, &frame, f, 1_000, 41_216_000));
    assert_eq!(1, queue.len());
    let item = queue.item(0);
    let p = item.packet();
    assert_eq!(21, p.tx_id);
    assert_eq!(1, p.channel);
    assert_eq!(4, p.data_rate);
    assert_eq!(TIMESTAMPED, p.fields.tx_mode);
    assert_eq!(item.count(), p.count);
    assert_eq!((item.count() / 1000) as u32, p.fields.count_us);
    assert_eq!(868100000, p.fields.freq_hz);
    assert_eq!(14, p.fields.rf_power);
    assert_eq!(2, p.fields.size);
    assert_eq!([9, 8], p.fields.payload[..2]);
}

#[test]
fn config_command_restarts_the_concentrator() {
    let mut state = RadioState::new(0);
    let mut hb = HeartbeatEvent::default();
    let cmd = ConfigCommand {
        version: "v7".to_string(),
        uplink_channels: eu_channels(),
        downlink_channels: eu_channels(),
        data_rates: eu_data_rates(),
    };
    assert_eq!(Ok(()), apply_config(&mut state, &mut hb, &cmd));
    assert!(state.started);
    assert_eq!("v7", hb.config_version);
    assert_eq!(868500000, state.rx_rf[0].freq_hz);
    // the IF chains are configured as configuring the channels does
    let mut direct = RadioState::new(0);
    direct.configure_data_rates(&cmd.data_rates);
    direct.configure_channels(&cmd.uplink_channels, &cmd.downlink_channels).unwrap();
    for i in 0..2 {
        assert_eq!(direct.rx_rf[i].freq_hz, state.rx_rf[i].freq_hz);
        assert_eq!(direct.rx_rf[i].enable, state.rx_rf[i].enable);
    }
    for i in 0..10 {
        assert_eq!(direct.rx_if[i].enable, state.rx_if[i].enable);
        assert_eq!(direct.rx_if[i].freq_hz, state.rx_if[i].freq_hz);
        assert_eq!(direct.rx_if[i].rf_chain, state.rx_if[i].rf_chain);
    }
    assert!(state.rx_if[0].enable);

    // channels that do not fit the radios: stopped, version unchanged
    let mut far = HashMap::new();
    far.insert(0u8, ChannelConfiguration { freq_hz: 863100000, data_rates: vec![0, 1] });
    far.insert(1u8, ChannelConfiguration { freq_hz: 866100000, data_rates: vec![0, 1] });
    far.insert(2u8, ChannelConfiguration { freq_hz: 869100000, data_rates: vec![0, 1] });
    let bad = ConfigCommand { version: "v8".to_string(), uplink_channels: far, ..cmd.clone() };
    assert!(apply_config(&mut state, &mut hb, &bad).is_err());
    assert!(!state.started);
    assert_eq!("v7", hb.config_version);
}

#[test]
fn received_frames_are_reported() {
    let mut state = RadioState::new(0);
    state.configure_data_rates(&eu_data_rates());
    state.configure_channels(&eu_channels(), &eu_channels()).unwrap();
    let pkt = RxPacketInfo {
        status: STAT_CRC_OK,
        freq_hz: 868300000,
        modulation: MOD_LORA,
        bandwidth: BW_125KHZ,
        datarate: 7,
        coderate: CR_LORA_4_5,
    };
    let mut payload = [0u8; 256];
    payload[..3].copy_from_slice(&[1, 2, 3]);
    let f: ReceivedFrame = state.received_frame(&pkt, &payload, 3, 0x0102_0304).unwrap();
    assert_eq!(Some((f.channel, f.data_rate)), state.classify_rx(&pkt));
    assert_eq!(vec![1, 2, 3], f.payload);
    assert_eq!(vec![1, 2, 3, 4], f.context);
    let bad = RxPacketInfo { status: 0, ..pkt };
    assert!(state.received_frame(&bad, &payload, 3, 0).is_none());
}
