use nanopulse_core::gateway_config::{
    board_config, board_settings, radio_enabled_at_start, reset_lines, reset_sequence, reset_setup, ResetLine,
    ResetStep, radio_type_from_name, select_radio, uses_reset_line,
    BoardSettingsError, ComType, RadioBackend, RadioSelectError,
    Concentrator, Mapping, Mqtt, RadioType, TxGain,
};
use nanopulse_core::gateway_mqtt::{
    client_id, command_subscription, event_topic, gateway_command, heartbeat,
    set_config_version, topic_prefix, tx_ack, GatewayCommand,
};
use nanopulse_core::hex::{decode, encode, HexArray, HexError};
use nanopulse_core::semtech_sx1302::ConcentratorError;
use nanopulse_core::structs::{HeartbeatEvent, TxAckStatus};

#[test]
fn radio_types_by_name() {
    assert_eq!(Ok(RadioType::Sx1250), radio_type_from_name("SX1250"));
    assert_eq!(Ok(RadioType::Sx1257), radio_type_from_name("SX1257"));
    assert_eq!(Ok(RadioType::Sx1276), radio_type_from_name("SX1276"));
    assert_eq!(Err(ConcentratorError::UnexpectedRadioType), radio_type_from_name("sx1250"));
}

#[test]
fn board_configuration() {
    let c = Concentrator { clock_source: 1, full_duplex: false };
    let m = Mapping {
        reset_chip: "/dev/gpiochip0".to_string(),
        reset_pin: 23,
        com_dev_spi: "/dev/spidev0.0".to_string(),
        com_dev_usb: String::new(),
    };
    let b = board_config(&c, &m).unwrap();
    assert!(b.lorawan_public);
    assert_eq!(1, b.clksrc);
    assert_eq!(ComType::Spi, b.com_type);
    assert_eq!(b"/dev/spidev0.0", &b.com_path[..14]);
    assert_eq!(0, b.com_path[14]);
    assert!(uses_reset_line(&m));

    let usb = Mapping { com_dev_usb: "/dev/ttyACM0".to_string(), com_dev_spi: String::new(), ..m.clone() };
    let b = board_config(&c, &usb).unwrap();
    assert_eq!(ComType::Usb, b.com_type);
    assert!(!uses_reset_line(&usb));

    let long = Mapping { com_dev_spi: "x".repeat(64), ..m.clone() };
    assert!(matches!(board_config(&c, &long), Err(ConcentratorError::ComPathTooLong)));
    let fits = Mapping { com_dev_spi: "x".repeat(63), ..m };
    assert!(board_config(&c, &fits).is_ok());

    assert!(radio_enabled_at_start(0, 1));
    assert!(radio_enabled_at_start(1, 1));
    assert!(!radio_enabled_at_start(1, 0));
}

#[test]
fn board_settings_by_mapping_name() {
    let c = Concentrator { clock_source: 0, full_duplex: true };
    let spi = Mapping {
        reset_chip: "/dev/gpiochip0".to_string(),
        reset_pin: 23,
        com_dev_spi: "/dev/spidev0.0".to_string(),
        com_dev_usb: String::new(),
    };
    let usb = Mapping { com_dev_usb: "/dev/ttyACM0".to_string(), ..spi.clone() };
    let long = Mapping { com_dev_spi: "x".repeat(64), ..spi.clone() };
    let mappings = vec![
        ("rpi".to_string(), spi),
        ("usb".to_string(), usb),
        ("long".to_string(), long),
    ];
    let b = board_settings(&c, &mappings, "usb").unwrap();
    assert_eq!(ComType::Usb, b.com_type);
    assert!(b.full_duplex);
    assert_eq!(b"/dev/ttyACM0", &b.com_path[..12]);
    let b = board_settings(&c, &mappings, "rpi").unwrap();
    assert_eq!(ComType::Spi, b.com_type);
    assert!(matches!(
        board_settings(&c, &mappings, "other"),
        Err(BoardSettingsError::UnknownMapping)
    ));
    assert!(matches!(
        board_settings(&c, &mappings, "long"),
        Err(BoardSettingsError::ComPathTooLong)
    ));
}

#[test]
fn gateway_configuration_defaults() {
    let g = TxGain::default();
    assert_eq!(5, g.mix_gain);
    assert_eq!(0, g.rf_power);
    let m = Mapping::default();
    assert_eq!("/dev/gpiochip0", m.reset_chip);
    assert_eq!(0, m.reset_pin);
}

#[test]
fn gateway_mqtt_topics() {
    let mut mqtt = Mqtt::default();
    assert_eq!("gw1", client_id("gw1", &mqtt));
    mqtt.client_id = "client".to_string();
    assert_eq!("client", client_id("gw1", &mqtt));
    let prefix = topic_prefix("gw1");
    assert_eq!("nanopulse/gateway/gw1", prefix);
    assert_eq!("nanopulse/gateway/gw1/event/rx", event_topic(&prefix, "rx"));
    assert_eq!("nanopulse/gateway/gw1/command/+", command_subscription(&prefix));
    assert_eq!(GatewayCommand::Tx, gateway_command("nanopulse/gateway/gw1/command/tx"));
    assert_eq!(GatewayCommand::Config, gateway_command("nanopulse/gateway/gw1/command/config"));
    assert_eq!(GatewayCommand::Other, gateway_command("nanopulse/gateway/gw1/command/other"));
}

#[test]
fn tx_acknowledgements_and_heartbeats() {
    let ack = tx_ack(7, Ok(()));
    assert_eq!(7, ack.id);
    assert_eq!(TxAckStatus::Accepted, ack.status);
    assert_eq!(TxAckStatus::TooLate, tx_ack(8, Err(TxAckStatus::TooLate)).status);

    let mut hb = HeartbeatEvent::default();
    set_config_version(&mut hb, &"v2".to_string());
    let out = heartbeat(&hb, 1234);
    assert_eq!(1234, out.gw_time);
    assert_eq!("v2", out.config_version);
}

#[test]
fn hex_text() {
    assert_eq!("00ff10", encode(&[0x00, 0xff, 0x10]));
    assert_eq!(Ok(vec![0x00, 0xff, 0xab]), decode(b"00FFab"));
    assert_eq!(Err(HexError::OddLength), decode(b"abc"));
    assert_eq!(Err(HexError::InvalidHexCharacter { c: 'z', index: 2 }), decode(b"00zz"));
}

#[test]
fn hex_arrays() {
    let a: HexArray<4> = HexArray::from_str("01020304").unwrap();
    assert_eq!(vec![1, 2, 3, 4], a.as_vec());
    assert_eq!("01020304", a.to_string());
    assert!(!a.is_empty());
    assert!(HexArray::<4>::default().is_empty());
    assert_eq!(Err(HexError::InvalidStringLength), HexArray::<4>::from_str("0102").map(|a| a.to_array()));
    // shorter input is padded with zeros, longer input cut
    assert_eq!([1, 2, 0, 0], HexArray::<4>::from_slice(&[1, 2]).to_array());
    assert_eq!([1, 2, 3, 4], HexArray::<4>::from_slice(&[1, 2, 3, 4, 5]).to_array());
    // the vector holds exactly the array's bytes, and gives the array back
    let v = a.as_vec();
    assert_eq!(4, v.len());
    assert_eq!(a.to_array(), HexArray::<4>::from_slice(&v).to_array());
}

#[test]
fn radio_backend_selection() {
    assert_eq!(Ok(RadioBackend::SemtechSx1302), select_radio("semtech", "sx1302"));
    assert_eq!(Err(RadioSelectError::UnknownChipset), select_radio("semtech", "sx1301"));
    assert_eq!(Err(RadioSelectError::UnknownChipsetVendor), select_radio("other", "sx1302"));
}

#[test]
fn reset_sequences() {
    let spi = Mapping {
        reset_chip: "/dev/gpiochip0".to_string(),
        reset_pin: 23,
        com_dev_spi: "/dev/spidev0.0".to_string(),
        com_dev_usb: String::new(),
    };
    let lines = reset_lines(&spi);
    assert_eq!(1, lines.len());
    assert_eq!("/dev/gpiochip0", lines[0].chip);
    assert_eq!(23, lines[0].line);
    assert!(lines[0].active);
    assert_eq!(100, lines[0].duration_ms);
    assert_eq!(
        vec![ResetStep::Request { index: 0, active: false }, ResetStep::SleepMs(100)],
        reset_setup(&lines)
    );
    assert_eq!(
        vec![
            ResetStep::Drive { index: 0, active: true },
            ResetStep::SleepMs(100),
            ResetStep::Drive { index: 0, active: false },
            ResetStep::SleepMs(100),
        ],
        reset_sequence(&lines)
    );
    // a line without a duration stays at its reset level
    let held = vec![ResetLine { chip: "c".to_string(), line: 1, active: false, duration_ms: 0 }];
    assert_eq!(
        vec![ResetStep::Drive { index: 0, active: false }, ResetStep::SleepMs(100)],
        reset_sequence(&held)
    );
    // USB boards have no reset line
    let usb = Mapping { com_dev_spi: String::new(), com_dev_usb: "/dev/ttyACM0".to_string(), ..spi };
    assert!(reset_lines(&usb).is_empty());
}
