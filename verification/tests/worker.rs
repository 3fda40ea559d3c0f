use spawn_protocol::exchange::{has_text, open_failure_message};
use spawn_protocol::exchange::{classify_inbound, retry_after_timeout, Inbound, MAX_RETRIES};
use spawn_protocol::report::{
    all_alike, count_lit, count_remapped, count_unconfigured, hex_dump, polling_name, rgb_string,
    travel_resolution,
};
use spawn_protocol::worker::{
    completion_status, connection_label, devices_changed, monitoring_after, requires_keyboard,
    telemetry_event, Cmd, Event,
};
use spawn_protocol::{
    Candidate, Cmd as Opcode, GameMode, KeyAction, KeyTelemetry, LedEffect, ResetScope, Rgb, RtKey,
    RESP_MAGIC,
};

fn candidate(path: &str, product: &str) -> Candidate {
    Candidate {
        path: path.to_string(),
        vid: 0x0C45,
        pid: 0x8A01,
        usage_page: 0xFF67,
        product: product.to_string(),
    }
}

#[test]
fn only_device_work_needs_a_keyboard() {
    assert!(!requires_keyboard(&Cmd::Rescan));
    assert!(!requires_keyboard(&Cmd::Connect(candidate("a", ""))));
    assert!(!requires_keyboard(&Cmd::Disconnect));
    assert!(!requires_keyboard(&Cmd::Shutdown));
    assert!(requires_keyboard(&Cmd::Reload));
    assert!(requires_keyboard(&Cmd::ApplyLed(LedEffect::default())));
    assert!(requires_keyboard(&Cmd::ApplyGameMode(GameMode::default())));
    assert!(requires_keyboard(&Cmd::SetMonitor(false)));
    assert!(requires_keyboard(&Cmd::FactoryReset(ResetScope::All)));
}

#[test]
fn each_write_announces_itself() {
    assert_eq!(completion_status(&Cmd::ApplyRt(Vec::new())), Some("Actuation applied"));
    assert_eq!(completion_status(&Cmd::ApplyLed(LedEffect::default())), Some("Lighting applied"));
    assert_eq!(
        completion_status(&Cmd::ApplyCustomLed(Vec::new())),
        Some("Per-key colours applied")
    );
    assert_eq!(
        completion_status(&Cmd::ApplyGameMode(GameMode::default())),
        Some("Settings applied")
    );
    assert_eq!(completion_status(&Cmd::ApplyKeys(Vec::new())), Some("Keymap applied"));
    assert_eq!(
        completion_status(&Cmd::SetCalibration(true)),
        Some("Calibration running \u{2014} press every key to its bottom")
    );
    assert_eq!(completion_status(&Cmd::SetCalibration(false)), Some("Calibration finished"));
    assert_eq!(completion_status(&Cmd::FactoryReset(ResetScope::Keys)), Some("Reset complete"));
    assert_eq!(completion_status(&Cmd::Reload), None);
    assert_eq!(completion_status(&Cmd::SetMonitor(true)), None);
}

#[test]
fn streaming_follows_the_live_modes() {
    assert!(!monitoring_after(&Cmd::Connect(candidate("a", "")), true));
    assert!(!monitoring_after(&Cmd::Disconnect, true));
    assert!(monitoring_after(&Cmd::SetMonitor(true), false));
    assert!(!monitoring_after(&Cmd::SetMonitor(false), true));
    assert!(monitoring_after(&Cmd::SetCalibration(true), false));
    assert!(monitoring_after(&Cmd::Reload, true));
    assert!(!monitoring_after(&Cmd::Reload, false));
}

#[test]
fn a_connection_is_labelled_with_firmware_and_report_size() {
    assert_eq!(
        connection_label("SPAWN", "1.09", 32),
        "SPAWN \u{2014} firmware 1.09 \u{2014} 32-byte reports"
    );
    assert_eq!(
        connection_label("0C45:8A01", "0.00", 4096),
        "0C45:8A01 \u{2014} firmware 0.00 \u{2014} 4096-byte reports"
    );
}

#[test]
fn only_a_different_device_list_is_news() {
    let a = vec![candidate("a", "SPAWN"), candidate("b", "")];
    assert!(!devices_changed(&a.clone(), &a));
    assert!(devices_changed(&vec![candidate("a", "SPAWN")], &a));
    assert!(devices_changed(&vec![candidate("a", "SPAWN"), candidate("b", "x")], &a));
    let mut other = a.clone();
    other[1].usage_page = 0xFF60;
    assert!(devices_changed(&other, &a));
    assert!(!devices_changed(&Vec::new(), &Vec::new()));
}

#[test]
fn an_empty_telemetry_batch_is_not_sent() {
    assert!(telemetry_event(Vec::new()).is_none());
    let f = KeyTelemetry {
        key_index: 1,
        calibration_status: 0,
        max_value: 0,
        min_value: 0,
        current_value: 0,
        key_stroke: 7,
        max_stroke: 9,
    };
    match telemetry_event(vec![f]) {
        Some(Event::Telemetry(frames)) => assert_eq!(frames, vec![f]),
        other => panic!("expected telemetry, got {other:?}"),
    }
}

#[test]
fn inbound_reports_are_sorted_for_the_exchange() {
    let mut reply = vec![0u8; 32];
    reply[0] = RESP_MAGIC;
    reply[1] = Opcode::GetGameMode.raw();
    match classify_inbound(&reply, Opcode::GetGameMode) {
        Inbound::Reply(r) => assert_eq!(r.cmd, Opcode::GetGameMode.raw()),
        other => panic!("expected the reply, got {other:?}"),
    }
    assert_eq!(classify_inbound(&reply, Opcode::GetKey), Inbound::Unrelated);
    assert_eq!(classify_inbound(&[0x12, 0x34], Opcode::GetKey), Inbound::Unrelated);

    let mut frame = vec![0u8; 32];
    frame[0] = RESP_MAGIC;
    frame[1] = Opcode::MagneticAxisCalibrationData.raw();
    frame[2] = 5;
    frame[10] = 44;
    match classify_inbound(&frame, Opcode::MagneticAxisCalibrationData) {
        Inbound::Telemetry(t) => {
            assert_eq!(t.key_index, 5);
            assert_eq!(t.key_stroke, 44);
        }
        other => panic!("calibration frames go to the sink first, got {other:?}"),
    }
}

#[test]
fn a_silent_packet_is_resent_a_bounded_number_of_times() {
    assert_eq!(MAX_RETRIES, 3);
    assert_eq!(retry_after_timeout(0), Some(1));
    assert_eq!(retry_after_timeout(2), Some(3));
    assert_eq!(retry_after_timeout(3), None);
}

#[test]
fn probe_names_and_counts() {
    assert_eq!(polling_name(3), "1000 Hz");
    assert_eq!(polling_name(4), "2000 Hz");
    assert_eq!(polling_name(6), "8000 Hz");
    assert_eq!(polling_name(9), "unknown");
    assert_eq!(travel_resolution(1), "0.001 mm");
    assert_eq!(travel_resolution(0), "0.01 mm");

    let zero = RtKey {
        axis_type: 0,
        whole_fast: false,
        rampage: false,
        trigger_um: 0,
        press_rt_um: 0,
        release_rt_um: 0,
    };
    let rt = vec![zero, RtKey::default(), zero];
    assert_eq!(count_unconfigured(&rt), 2);
    assert!(!all_alike(&rt));
    assert!(all_alike(&[zero, zero]));

    let colors = [Rgb::new(0, 0, 0), Rgb::new(0, 0, 1), Rgb::new(9, 9, 9)];
    assert_eq!(count_lit(&colors), 2);

    let keys = [KeyAction::default(), KeyAction::mouse(1, 1), KeyAction::default()];
    assert_eq!(count_remapped(&keys), 1);

    assert_eq!(rgb_string(Rgb::new(0, 255, 10)), "rgb(0,255,10)");
    assert_eq!(hex_dump(&[0x00, 0xAB, 0x5]), "00 ab 05 ");
    assert_eq!(hex_dump(&[]), "");
}

#[test]
fn open_failures_say_what_went_wrong() {
    assert!(open_failure_message("hid_open_path: device already open")
        .starts_with("the keyboard is already open in another program"));
    assert!(open_failure_message("exclusive access (0xE00002C5)")
        .starts_with("the keyboard is already open in another program"));
    assert!(open_failure_message("Permission denied")
        .starts_with("not allowed to open the keyboard"));
    assert_eq!(
        open_failure_message("no such device"),
        "could not open the keyboard: no such device"
    );
    assert!(has_text("abcabd", "abd"));
    assert!(!has_text("ab", "abc"));
    assert!(has_text("x", ""));
}
