use spawn_protocol::ProtocolError;
use spawn_protocol::{
    decode_custom_led, decode_key_table, decode_rt_table, encode_custom_led, encode_key_table,
    encode_rt_table, Cmd, DeviceInfo, GameMode, KeyAction, KeyTelemetry, LedEffect, Page, Rgb,
    RtKey, DEVICE_INFO_LEN, KEY_SLOTS, RT_ENTRY_LEN, RT_TABLE_LEN,
};

#[test]
fn device_info_version_decodes_bcd() {
    let mut b = vec![0u8; DEVICE_INFO_LEN];
    b[4] = 0x45;
    b[5] = 0x0C; // 0x0C45
    b[8] = 0x23; // units 3, tens 2 -> 23
    b[9] = 1; // hundreds -> 100
    b[29] = 1;
    let d = DeviceInfo::decode(&b).unwrap();
    assert_eq!(d.vid, 0x0C45);
    assert_eq!(d.version_centi, 123);
    assert_eq!(d.version_string(), "1.23");
    assert_eq!(d.rt_scale(), 1000);
}

#[test]
fn game_mode_round_trips() {
    let g = GameMode {
        game_mode: 1,
        report_rate: 2,
        top_dead_zone_um: 150,
        bottom_dead_zone_um: 250,
        stability_mode: 1,
        auto_calibration: 1,
        ..Default::default()
    };
    let back = GameMode::decode(&g.encode()).unwrap();
    assert_eq!(back.report_rate, 2);
    assert_eq!(back.top_dead_zone_um, 150);
    assert_eq!(back.bottom_dead_zone_um, 250);
    assert_eq!(back.auto_calibration, 1);
}

#[test]
fn rt_table_round_trips_at_both_precisions() {
    for scale in [100u32, 1000] {
        let mut keys = vec![RtKey::default(); KEY_SLOTS];
        keys[0] = RtKey {
            axis_type: 4,
            whole_fast: true,
            rampage: false,
            trigger_um: 1750,
            press_rt_um: 200,
            release_rt_um: 300,
        };
        let bytes = encode_rt_table(&keys, scale);
        assert_eq!(bytes.len(), RT_TABLE_LEN);
        let back = decode_rt_table(&bytes, scale).unwrap();
        assert_eq!(back[0].axis_type, 4);
        assert!(back[0].whole_fast);
        assert!(!back[0].rampage);
        assert_eq!(back[0].trigger_um, 1750);
        assert_eq!(back[0].press_rt_um, 200);
        assert_eq!(back[0].release_rt_um, 300);
    }
}

/// A factory-reset board reports every rapid-trigger slot as zeros, so
/// "unconfigured" is the reset state and not a fault.
#[test]
fn a_reset_board_reports_an_unconfigured_rt_table() {
    let table = decode_rt_table(&vec![0u8; RT_TABLE_LEN], 100).unwrap();
    assert!(table.iter().all(|k| k.is_unconfigured()));
}

#[test]
fn recorded_factory_defaults_round_trip() {
    let g = GameMode::factory_default();
    assert_eq!(g.report_rate, 6, "8000 Hz");
    assert_eq!(g.stability_mode, 1);
    assert_eq!(g.auto_calibration, 1);
    assert_eq!(GameMode::decode(&g.encode()).unwrap().report_rate, 6);

    let l = LedEffect::factory_default();
    assert_eq!(l.mode, 11);
    assert_eq!(l.color_mode, 1, "the board picks its own colours");
    assert_eq!(l.brightness, 5);
    assert_eq!(LedEffect::decode(&l.encode()).unwrap(), l);
}

#[test]
fn all_zero_entries_are_treated_as_unconfigured() {
    let zero = RtKey {
        axis_type: 0,
        whole_fast: false,
        rampage: false,
        trigger_um: 0,
        press_rt_um: 0,
        release_rt_um: 0,
    };
    assert!(zero.is_unconfigured());
    let fixed = zero.or_default();
    assert!(fixed.trigger_um > 0, "must never present 0.00 mm actuation");
    assert_eq!(fixed, RtKey::default());
}

#[test]
fn configured_entries_are_left_alone() {
    let real = RtKey {
        trigger_um: 400,
        axis_type: 2,
        ..RtKey::default()
    };
    assert!(!real.is_unconfigured());
    assert_eq!(real.or_default(), real);
}

#[test]
fn a_freshly_read_zero_table_normalises_to_defaults() {
    let table = decode_rt_table(&vec![0u8; RT_TABLE_LEN], 100).unwrap();
    assert!(table.iter().all(|k| k.is_unconfigured()));
    let norm: Vec<_> = table.into_iter().map(|k| k.or_default()).collect();
    assert!(norm.iter().all(|k| k.trigger_um >= 100));
}

#[test]
fn rt_flags_are_independent() {
    let mut keys = vec![RtKey::default(); KEY_SLOTS];
    keys[3].rampage = true;
    keys[3].whole_fast = false;
    let b = encode_rt_table(&keys, 100);
    assert_eq!(b[3 * RT_ENTRY_LEN + 1], 0x02);
    let back = decode_rt_table(&b, 100).unwrap();
    assert!(back[3].rampage && !back[3].whole_fast);
}

#[test]
fn led_effect_writes_check_bytes() {
    let e = LedEffect {
        mode: 3,
        primary: Rgb::new(10, 20, 30),
        secondary: Rgb::new(40, 50, 60),
        brightness: 200,
        speed: 5,
        ..Default::default()
    };
    let b = e.encode();
    assert_eq!(b[4], 0xFF);
    assert_eq!(b[14], 0xAA);
    assert_eq!(b[15], 0x55);
    let back = LedEffect::decode(&b).unwrap();
    assert_eq!(back, e);
}

#[test]
fn custom_led_indexes_each_slot() {
    let colors: Vec<_> = (0..KEY_SLOTS).map(|i| Rgb::new(i as u8, 0, 0)).collect();
    let b = encode_custom_led(&colors);
    assert_eq!(b[0], 0);
    assert_eq!(b[4], 1, "second entry carries its own index");
    assert_eq!(decode_custom_led(&b).unwrap()[5].r, 5);
}

#[test]
fn key_table_round_trips() {
    let mut keys = vec![KeyAction::default(); KEY_SLOTS];
    keys[0] = KeyAction::keyboard(0x02, 0x04); // Shift+A
    keys[1] = KeyAction::consumer(0x00E9); // volume up
    let back = decode_key_table(&encode_key_table(&keys)).unwrap();
    assert_eq!(back[0], KeyAction::keyboard(0x02, 0x04));
    assert_eq!(back[1].page, Page::ConsumerKey);
    assert_eq!(back[1].p1, 0xE9);
    assert_eq!(back[1].p2, 0x00);
}

#[test]
fn telemetry_masks_the_min_flag_bit() {
    let mut raw = vec![0u8; 32];
    raw[0] = 0x55;
    raw[1] = Cmd::MagneticAxisCalibrationData.raw();
    raw[2] = 12;
    raw[6..8].copy_from_slice(&0x8123u16.to_le_bytes());
    raw[10..12].copy_from_slice(&180u16.to_le_bytes());
    let t = KeyTelemetry::parse(&raw).unwrap();
    assert_eq!(t.key_index, 12);
    assert_eq!(t.min_value, 0x0123);
    assert!((t.key_stroke as f32 / 100.0 - 1.80).abs() < 1e-6);
}

#[test]
fn telemetry_ignores_unrelated_reports() {
    let mut raw = vec![0u8; 32];
    raw[0] = 0x55;
    raw[1] = Cmd::GetDeviceInfo.raw();
    assert!(KeyTelemetry::parse(&raw).is_none());
}

#[test]
fn a_short_record_is_reported_truncated() {
    assert_eq!(
        DeviceInfo::decode(&[0u8; 3]),
        Err(ProtocolError::Truncated { got: 3, want: DEVICE_INFO_LEN })
    );
    assert!(matches!(
        decode_key_table(&[0u8; 10]),
        Err(ProtocolError::Truncated { got: 10, .. })
    ));
}

#[test]
fn off_grid_distances_read_back_within_half_a_unit() {
    for scale in [100u32, 1000] {
        let mut keys = vec![RtKey::default(); KEY_SLOTS];
        keys[0] = RtKey {
            axis_type: 4,
            whole_fast: true,
            rampage: false,
            trigger_um: 1754,
            press_rt_um: 205,
            release_rt_um: 296,
        };
        let back = decode_rt_table(&encode_rt_table(&keys, scale), scale).unwrap();
        assert_eq!(back.len(), KEY_SLOTS);
        let k = back[0];
        assert_eq!(k.axis_type, 4);
        assert!(k.whole_fast && !k.rampage);
        assert_eq!(k.trigger_um, 1750);
        let half = (500 / scale) as i64;
        assert!((k.press_rt_um as i64 - 205).abs() <= half);
        assert!((k.release_rt_um as i64 - 296).abs() <= half);
        if scale == 100 {
            assert_eq!((k.press_rt_um, k.release_rt_um), (210, 300));
        } else {
            assert_eq!((k.press_rt_um, k.release_rt_um), (205, 296));
        }
    }
}
