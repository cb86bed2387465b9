use nanopulse_core::context::{Counters, RootSecurity, Session};
use nanopulse_core::device::{
    eu868, get_clock_drift, lora_params, plan_send_sleep_receive, received_length, rx_window, DataRate, Device,
    DeviceConfig, Error, KeySource, Lora, NextStep, RxFrame, RxHeader, RxOutcome, State, UplinkFrame,
};
use nanopulse_core::structs::CodingRate;

fn config() -> DeviceConfig {
    DeviceConfig { data_rate: 5, vendor_id: [0; 4], profile_id: [0; 2], version_id: [0; 2] }
}

#[test]
fn root_security_flash_image_round_trip() {
    let mut rs = RootSecurity::new([1; 32], [2; 32], [3, 4, 5, 6], 0x0a0b0c0d);
    assert_eq!([0x0d, 0x0c, 0x0b, 0x0a], rs.pin);
    assert!(!rs.has_server_public_key());
    assert!(!rs.is_empty());
    rs.server_public_key = [7; 32];
    let b = rs.to_bytes();
    assert_eq!(RootSecurity::LENGTH, b.len());
    assert_eq!(1, b[0]);
    assert_eq!(2, b[32]);
    assert_eq!([3, 4, 5, 6], b[64..68]);
    assert_eq!(7, b[72]);
    let back = RootSecurity::from_bytes(&b);
    assert_eq!(rs.public_key, back.public_key);
    assert_eq!(rs.pin, back.pin);
    assert_eq!(rs.server_public_key, back.server_public_key);
    assert!(back.has_server_public_key());
    assert!(RootSecurity::from_bytes(&[0xff; 136]).is_empty());
}

#[test]
fn counters_flash_image_round_trip() {
    let c = Counters {
        activation_request_counter: 1,
        activation_response_counter: 0x0102_0304,
        last_key_exchange_request_nonce: 7,
    };
    let b = c.to_bytes();
    assert_eq!([1, 0, 0, 0, 4, 3, 2, 1, 7, 0, 0, 0], b);
    let back = Counters::from_bytes(&b);
    assert_eq!(1, back.activation_request_counter);
    assert_eq!(0x0102_0304, back.activation_response_counter);
    assert_eq!(7, back.last_key_exchange_request_nonce);
}

#[test]
fn session_activation() {
    let mut s = Session::default();
    assert!(!s.is_activated());
    s.session_root_key[31] = 1;
    assert!(s.is_activated());
}

#[test]
fn device_protocol_walk_through() {
    let region = eu868();
    let rs = RootSecurity::new([1; 32], [2; 32], [3; 4], 1234);
    let mut d = Device::new(rs, Counters::default(), &region, config());
    assert_eq!(NextStep::KeyExchange, d.next());

    // key exchange request on the channel picked by the random number
    let up = d.key_exchange(10, 42).unwrap();
    assert_eq!(2, up.tx_ch);
    assert_eq!(868500000, up.tx_freq);
    assert_eq!(5, up.tx_dr);
    assert_eq!(2, up.rx_ch);
    assert_eq!(868500000, up.rx_freq);
    assert_eq!(5, up.sleep_secs);
    assert_eq!(42, up.counter);
    assert_eq!(42, d.counter_ctx.last_key_exchange_request_nonce);

    // nothing received when a reply is expected
    assert_eq!(Err(Error::RadioError), d.received(0, true));
    assert_eq!(Ok(()), d.received(40, true));
    assert!(d.has_rx_buffer());

    // a response with a bad MIC is refused
    let bad = RxFrame::KeyExchangeResponse { server_pub_key: [9; 32], root_key: [8; 32], mic_ok: false };
    assert_eq!(Err(Error::FrameError), d.handle_rx_buffer(bad));
    assert_eq!(State::KeyExchange, d.state);
    assert!(!d.has_rx_buffer());

    let ok = RxFrame::KeyExchangeResponse { server_pub_key: [9; 32], root_key: [8; 32], mic_ok: true };
    assert_eq!(Ok(RxOutcome::KeyExchanged), d.handle_rx_buffer(ok));
    assert_eq!(State::Activate, d.state);
    assert_eq!([9; 32], d.root_security.server_public_key);
    assert_eq!(NextStep::Activate, d.next());

    // activation request carries the request counter, which moves on
    let up = d.activate(1).unwrap();
    assert_eq!(0, up.counter);
    assert_eq!(1, up.tx_ch);
    assert_eq!(1, d.counter_ctx.activation_request_counter);

    // telemetry before activation is refused
    assert!(matches!(d.send_telemetry(0), Err(Error::NotActivated)));

    let act = RxFrame::ActivationResponse { counter: 3, session_root_key: [5; 32], mic_ok: true, decrypt_ok: true };
    assert_eq!(Ok(RxOutcome::Activated), d.handle_rx_buffer(act));
    assert_eq!(State::Idle, d.state);
    assert_eq!(4, d.counter_ctx.activation_response_counter);
    assert!(d.session.is_activated());
    // the same response again is refused
    assert_eq!(Err(Error::FrameError), d.handle_rx_buffer(act));

    let up = d.send_telemetry(9).unwrap();
    assert_eq!(0, up.counter);
    assert_eq!(1, up.sleep_secs);
    assert_eq!(1, d.session.telemetry_up);
    let up = d.send_state(9).unwrap();
    assert_eq!(0, up.counter);
    assert_eq!(1, d.session.state_up);

    assert_eq!(NextStep::Done, d.next());
    d.received(10, false).unwrap();
    assert_eq!(NextStep::HandleRx, d.next());
    let st = RxFrame::State { counter: 0, mic_ok: true, decrypt_ok: true };
    assert_eq!(Ok(RxOutcome::Downlink), d.handle_rx_buffer(st));
    assert_eq!(1, d.session.state_down);
    // a replayed state downlink is refused
    assert_eq!(Err(Error::CounterError), d.handle_rx_buffer(st));
    // a state downlink that fails to decrypt still records its counter
    let st5 = RxFrame::State { counter: 5, mic_ok: true, decrypt_ok: false };
    assert_eq!(Err(Error::CryptoError), d.handle_rx_buffer(st5));
    assert_eq!(6, d.session.state_down);
    assert_eq!(Err(Error::FrameError), d.handle_rx_buffer(RxFrame::Undecodable));
    assert_eq!(Err(Error::CounterError), d.handle_rx_buffer(RxFrame::Other { mic_ok: true }));

    // once activated, activation and key exchange are skipped
    assert!(d.activate(0).is_none());
    assert!(d.key_exchange(0, 1).is_none());
    assert_eq!(State::Activate, d.state);
}

#[test]
fn random_channel_in_range() {
    let region = eu868();
    let d = Device::new(RootSecurity::new([1; 32], [2; 32], [3; 4], 0), Counters::default(), &region, config());
    for r in [0u32, 7, 8, 15, u32::MAX] {
        let ch = d.get_random_tx_channel(r);
        assert_eq!((r as usize) % 8, ch);
    }
}

#[test]
fn receive_window_timing() {
    assert_eq!(250, get_clock_drift(5_000_000, 50));
    assert_eq!(0, get_clock_drift(19_999, 50));
    // 5 s after the uplink: 100 ms margin and 250 µs drift
    assert_eq!((5_000_000 - 100_000 - 250, 100_000 + 500), rx_window(5_000_000));
    assert_eq!((1_000_000 - 100_000 - 50, 100_000 + 100), rx_window(1_000_000));
}

#[test]
fn radio_modulation_of_data_rates() {
    let region = eu868();
    let l = lora_params(&region.data_rates[0]).unwrap();
    assert_eq!(12, l.spreading_factor);
    assert_eq!(125000, l.bandwidth);
    assert_eq!(Err(Error::UnsupportedModulation), lora_params(&DataRate::Fsk));
}

#[test]
fn uplinks_carry_their_frames() {
    let region = eu868();
    let rs = RootSecurity::new([1; 32], [2; 32], [3, 4, 5, 6], 1234);
    let cfg = DeviceConfig { data_rate: 5, vendor_id: [1, 2, 3, 4], profile_id: [5, 6], version_id: [7, 8] };
    let mut d = Device::new(rs, Counters::default(), &region, cfg);
    let up = d.key_exchange(0, 77).unwrap();
    match up.frame {
        UplinkFrame::KeyExchangeRequest { device_pub_key, nonce } => {
            assert_eq!([1; 32], device_pub_key);
            assert_eq!(77, nonce);
        }
        _ => panic!("not a key exchange request"),
    }
    d.state = State::Activate;
    d.counter_ctx.activation_request_counter = 9;
    let up = d.activate(0).unwrap();
    assert!(matches!(
        up.frame,
        UplinkFrame::ActivationRequest {
            short_id: [3, 4, 5, 6],
            counter: 9,
            vendor_id: [1, 2, 3, 4],
            profile_id: [5, 6],
            version_id: [7, 8],
        }
    ));
    d.session.session_root_key = [5; 32];
    d.session.telemetry_up = 4;
    d.session.state_up = 2;
    let up = d.send_telemetry(0).unwrap();
    assert!(matches!(up.frame, UplinkFrame::Telemetry { short_id: [3, 4, 5, 6], counter: 4 }));
    let up = d.send_state(0).unwrap();
    assert!(matches!(
        up.frame,
        UplinkFrame::State { is_downlink: false, short_id: [3, 4, 5, 6], counter: 2 }
    ));
}

#[test]
fn radio_plan_refuses_fsk_before_sending() {
    let sf7 = DataRate::Lora(Lora { spreading_factor: 7, coding_rate: CodingRate::Cr45, bandwidth: 125000 });
    assert_eq!(Err(Error::UnsupportedModulation), plan_send_sleep_receive(&DataRate::Fsk, &sf7, 1_000_000));
    assert_eq!(Err(Error::UnsupportedModulation), plan_send_sleep_receive(&sf7, &DataRate::Fsk, 1_000_000));
    let p = plan_send_sleep_receive(&sf7, &sf7, 1_000_000).unwrap();
    // 1 s: 50 us of drift
    assert_eq!(1_000_000 - 100_000 - 50, p.sleep_us);
    assert_eq!(100_000 + 100, p.margin_us);
    assert_eq!(7, p.tx.spreading_factor);
    assert_eq!(0, received_length(None));
    assert_eq!(12, received_length(Some(12)));
}

#[test]
fn rejected_frames_at_the_last_counter_do_not_overflow() {
    let region = eu868();
    let rs = RootSecurity::new([1; 32], [2; 32], [3; 4], 1234);
    let mut d = Device::new(rs, Counters::default(), &region, config());
    // a state downlink with a bad MIC at the last counter is refused
    let st = RxFrame::State { counter: u32::MAX, mic_ok: false, decrypt_ok: true };
    assert_eq!(Err(Error::FrameError), d.handle_rx_buffer(st));
    // an activation response in the wrong state likewise
    let act = RxFrame::ActivationResponse { counter: u32::MAX, session_root_key: [1; 32], mic_ok: true, decrypt_ok: true };
    assert_eq!(Err(Error::FrameError), d.handle_rx_buffer(act));
}

#[test]
fn mic_inputs_per_frame() {
    let region = eu868();
    let rs = RootSecurity::new([1; 32], [2; 32], [3; 4], 0x01020304);
    let mut d = Device::new(rs, Counters::default(), &region, config());
    d.counter_ctx.last_key_exchange_request_nonce = 42;
    d.rx_ch = 2;
    d.rx_dr = 5;
    let m = d.mic_inputs(RxHeader::KeyExchangeResponse { server_pub_key: [9; 32], counter: 7 }).unwrap();
    assert_eq!((2, 5), (m.rx_ch, m.rx_dr));
    match m.key {
        KeySource::RootKey { secret_key, server_pub_key, pin, request_nonce, response_counter } => {
            assert_eq!([2; 32], secret_key);
            assert_eq!([9; 32], server_pub_key);
            assert_eq!([4, 3, 2, 1], pin);
            assert_eq!(42, request_nonce);
            assert_eq!(7, response_counter);
        }
        _ => panic!("not the root key"),
    }
    // an activation response before the key exchange completed is refused
    assert!(matches!(d.mic_inputs(RxHeader::ActivationResponse { counter: 1 }), Err(Error::FrameError)));
    d.state = State::Activate;
    d.root_security.root_key = [8; 32];
    d.counter_ctx.activation_request_counter = 3;
    match d.mic_inputs(RxHeader::ActivationResponse { counter: 1 }).unwrap().key {
        KeySource::SessionRootKey { root_key, request_counter, response_counter } => {
            assert_eq!([8; 32], root_key);
            assert_eq!(2, request_counter);
            assert_eq!(1, response_counter);
        }
        _ => panic!("not the session root key"),
    }
    assert!(matches!(
        d.mic_inputs(RxHeader::KeyExchangeResponse { server_pub_key: [9; 32], counter: 7 }),
        Err(Error::FrameError)
    ));
    d.session.session_root_key = [6; 32];
    match d.mic_inputs(RxHeader::Other).unwrap().key {
        KeySource::Session { session_root_key } => assert_eq!([6; 32], session_root_key),
        _ => panic!("not the session key"),
    }
}
