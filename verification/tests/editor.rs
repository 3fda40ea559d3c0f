use spawn_protocol::editor::{hold_level, step_level, LevelStep};
use spawn_protocol::catalog::{CUSTOM_LIGHTING, COLOR_AUTO, COLOR_CUSTOM, LIGHTS_OFF};
use spawn_protocol::editor::{Editor, Pane, RtEdit, RtField, Section, FIRST_EFFECT};
use spawn_protocol::worker::{Cmd, Event, Snapshot};
use spawn_protocol::{
    Candidate, DeviceInfo, GameMode, KeyAction, KeyTelemetry, LedEffect, Page, ResetScope, Rgb,
    RtKey, KEY_SLOTS,
};
use std::collections::HashSet;

fn connected() -> Editor {
    let mut e = Editor::new();
    e.connected = Some("SPAWN".to_string());
    e
}

fn candidate(path: &str) -> Candidate {
    Candidate {
        path: path.to_string(),
        vid: 0x0C45,
        pid: 0x8A01,
        usage_page: 0xFF67,
        product: "SPAWN".to_string(),
    }
}

fn zero_rt() -> RtKey {
    RtKey {
        axis_type: 0,
        whole_fast: false,
        rampage: false,
        trigger_um: 0,
        press_rt_um: 0,
        release_rt_um: 0,
    }
}

fn snapshot(rt: Vec<RtKey>, led_mode: u8) -> Snapshot {
    Snapshot {
        info: DeviceInfo::default(),
        game_mode: GameMode::default(),
        rt,
        led: LedEffect {
            mode: led_mode,
            brightness: 9,
            speed: 0,
            ..LedEffect::default()
        },
        custom_led: vec![Rgb::new(1, 2, 3); 3],
        keys: vec![KeyAction::keyboard(0, 4); 200],
    }
}

#[test]
fn a_new_editor_shows_defaults_for_every_slot() {
    let e = Editor::new();
    assert_eq!(e.rt.len(), KEY_SLOTS);
    assert!(e.rt.iter().all(|k| *k == RtKey::default()));
    assert_eq!(e.keys.len(), KEY_SLOTS);
    assert_eq!(e.custom_led.len(), KEY_SLOTS);
    assert!(e.selection.is_empty());
    assert!(!e.danger_open, "the danger zone must be closed at construction");
    assert_eq!(e.section, Section::Keyboard);
    assert_eq!(e.pane, Pane::Actuation);
    assert_eq!(e.last_mode, FIRST_EFFECT);
    assert_eq!(e.status, "Searching for a keyboard");
    assert_eq!(e.scope(), "Every key");
    assert_eq!(e.title(), "No keyboard");
}

#[test]
fn tab_labels_are_unique() {
    let mut panes = HashSet::new();
    for pane in Pane::all() {
        assert!(panes.insert(pane.title()), "duplicate pane title");
    }
}

#[test]
fn every_section_and_pane_has_its_own_transition_key() {
    let mut seen = HashSet::new();
    let sections = [Section::Keyboard, Section::Settings];
    for section in sections {
        for pane in Pane::all() {
            let key = (section as u64) << 8 | pane as u64;
            assert!(seen.insert(key), "duplicate panel key");
        }
    }
    assert_eq!(seen.len(), sections.len() * Pane::all().len());
}

#[test]
fn with_nothing_selected_an_edit_reaches_the_whole_board() {
    let mut e = Editor::new();
    let board = Editor::board_slots();
    assert_eq!(board.len(), 68);
    assert_eq!(e.target_slots(), board);
    e.edit_rt(RtEdit::Trigger(2200));
    for slot in 0..KEY_SLOTS {
        let expected = if board.contains(&(slot as u8)) { 2200 } else { 1200 };
        assert_eq!(e.rt[slot].trigger_um, expected, "slot {slot}");
    }
}

#[test]
fn an_edit_reaches_only_the_selected_keys_in_order() {
    let mut e = Editor::new();
    e.toggle_key(50);
    e.toggle_key(3);
    e.toggle_key(200);
    assert_eq!(e.target_slots(), vec![3, 50, 200]);
    assert_eq!(e.scope(), "3 keys selected");
    e.edit_rt(RtEdit::PressRt(300));
    assert_eq!(e.rt[3].press_rt_um, 300);
    assert_eq!(e.rt[50].press_rt_um, 300);
    assert_eq!(e.rt[0].press_rt_um, 100);
    assert_eq!(e.rt_probe().press_rt_um, 300);
}

#[test]
fn clicking_a_key_twice_leaves_the_selection_as_it_was() {
    let mut e = Editor::new();
    e.toggle_key(17);
    let before: HashSet<u8> = e.selection.clone();
    e.toggle_key(21);
    e.toggle_key(21);
    assert_eq!(e.selection, before);
}

#[test]
fn select_all_selects_the_board() {
    let mut e = Editor::new();
    e.select_all();
    let board: HashSet<u8> = Editor::board_slots().into_iter().collect();
    assert_eq!(e.selection, board);
    assert_eq!(e.scope(), "68 keys selected");
}

#[test]
fn nudging_stays_inside_the_firmware_range() {
    let mut e = Editor::new();
    e.toggle_key(0);
    e.nudge_trigger(-5000);
    assert_eq!(e.probe_trigger_um(), 100);
    e.nudge_trigger(250);
    assert_eq!(e.probe_trigger_um(), 350);
    e.nudge_trigger(i32::MAX);
    assert_eq!(e.probe_trigger_um(), 3400);
    assert_eq!(e.rt[17].trigger_um, 1200, "an unselected key is untouched");
}

#[test]
fn readouts_say_when_the_selection_disagrees() {
    let mut e = Editor::new();
    e.toggle_key(0);
    e.toggle_key(17);
    assert_eq!(e.readout(RtField::Trigger), "1.20 mm");
    e.toggle_key(17);
    e.edit_rt(RtEdit::Trigger(455));
    e.toggle_key(17);
    assert_eq!(e.readout(RtField::Trigger), "Mixed");
    assert_eq!(e.readout(RtField::ReleaseRt), "0.10 mm");
    let mut only_missing = Editor::new();
    only_missing.toggle_key(250);
    assert_eq!(only_missing.readout(RtField::Trigger), "\u{2014}");
}

#[test]
fn readouts_round_to_hundredths() {
    let mut e = Editor::new();
    e.toggle_key(0);
    e.edit_rt(RtEdit::Trigger(455));
    assert_eq!(e.readout(RtField::Trigger), "0.46 mm");
    e.edit_rt(RtEdit::Trigger(3400));
    assert_eq!(e.readout(RtField::Trigger), "3.40 mm");
}

#[test]
fn the_switch_profile_comes_from_the_offered_list() {
    let mut e = Editor::new();
    e.toggle_key(0);
    e.choose_axis(4);
    assert_eq!(e.rt[0].axis_type, 2);
    e.choose_axis(99);
    assert_eq!(e.rt[0].axis_type, 2, "a position past the list changes nothing");
}

#[test]
fn assigning_needs_a_selection() {
    let mut e = Editor::new();
    e.assign(KeyAction::mouse(1, 1));
    assert_eq!(e.error.as_deref(), Some("Select a key first"));
    assert!(e.keys.iter().all(|a| *a == KeyAction::default()));
    e.toggle_key(50);
    e.assign(KeyAction::mouse(1, 1));
    assert_eq!(e.error, None);
    assert_eq!(e.keys[50], KeyAction::mouse(1, 1));
    assert_eq!(e.assigned(), KeyAction::mouse(1, 1));
    e.restore_default_keys();
    assert_eq!(e.keys[50], KeyAction::default());
}

#[test]
fn a_remapped_key_is_labelled_by_what_it_does() {
    let mut e = Editor::new();
    e.toggle_key(0);
    e.assign(KeyAction::consumer(0x00E9));
    assert_eq!(e.cap_label(0, "Esc"), "Esc", "other panes keep the legend");
    e.set_pane(Pane::Keys);
    assert_eq!(e.cap_label(0, "Esc"), "Volume up");
    assert_eq!(e.cap_label(17, "1"), "1");
}

#[test]
fn lighting_is_never_written_outside_the_levels_the_firmware_honours() {
    let mut e = connected();
    e.led.brightness = 9;
    e.led.speed = 0;
    match e.push_led() {
        Some(Cmd::ApplyLed(l)) => {
            assert_eq!(l.brightness, 5);
            assert_eq!(l.speed, 1);
        }
        other => panic!("expected a lighting write, got {other:?}"),
    }
    assert_eq!(e.led.brightness, 5);
}

#[test]
fn lighting_without_a_keyboard_says_so() {
    let mut e = Editor::new();
    assert!(e.push_led().is_none());
    assert_eq!(e.error.as_deref(), Some("No keyboard connected"));
}

#[test]
fn choosing_a_colour_in_an_effect_switches_to_that_colour() {
    let mut e = connected();
    e.led.mode = 1;
    e.led.color_mode = COLOR_AUTO;
    e.last_mode = 1;
    let red = Rgb::new(255, 0, 0);
    match e.choose_color(red) {
        Some(Cmd::ApplyLed(l)) => {
            assert_eq!(l.color_mode, COLOR_CUSTOM);
            assert_eq!(l.primary, red);
        }
        other => panic!("expected a lighting write, got {other:?}"),
    }
    assert!(e.swatch_active(red));
    assert!(!e.swatch_active(Rgb::new(0, 0, 255)));
}

#[test]
fn choosing_a_colour_in_per_key_mode_paints_the_selection() {
    let mut e = connected();
    e.led.mode = CUSTOM_LIGHTING;
    e.last_mode = CUSTOM_LIGHTING;
    e.toggle_key(17);
    let green = Rgb::new(0, 255, 0);
    match e.choose_color(green) {
        Some(Cmd::ApplyCustomLed(v)) => {
            assert_eq!(v.len(), KEY_SLOTS);
            assert_eq!(v[17], green);
            assert_eq!(v[0], Rgb::new(0, 0, 0));
        }
        other => panic!("expected a per-key write, got {other:?}"),
    }
    assert!(e.swatch_active(green));
}

#[test]
fn switching_the_backlight_off_and_on_restores_the_effect() {
    let mut e = connected();
    assert!(e.choose_effect(11).is_some());
    assert_eq!(e.last_mode, 11);
    e.set_backlight(false);
    assert_eq!(e.led.mode, LIGHTS_OFF);
    e.set_backlight(true);
    assert_eq!(e.led.mode, 11);
}

#[test]
fn direction_and_colour_source_are_written_with_the_effect() {
    let mut e = connected();
    assert!(matches!(e.set_direction(3), Some(Cmd::ApplyLed(l)) if l.direction == 3));
    assert!(matches!(e.set_auto_color(true), Some(Cmd::ApplyLed(l)) if l.color_mode == COLOR_AUTO));
}

#[test]
fn a_never_configured_board_is_shown_with_defaults() {
    let mut e = Editor::new();
    let mut rt = vec![zero_rt(); 10];
    rt[2].trigger_um = 800;
    e.apply_snapshot(snapshot(rt, 0));
    assert_eq!(e.rt.len(), KEY_SLOTS);
    assert!(e.rt.iter().all(|k| !k.is_unconfigured()), "must never present 0.00 mm actuation");
    assert_eq!(e.rt[0], RtKey::default());
    assert_eq!(e.rt[2].trigger_um, 800, "a configured entry is left alone");
    assert_eq!(e.keys.len(), KEY_SLOTS, "a long table is cut to the slots");
    assert_eq!(e.custom_led.len(), KEY_SLOTS, "a short table is padded");
    assert_eq!(e.custom_led[2], Rgb::new(1, 2, 3));
    assert_eq!(e.custom_led[3], Rgb::new(0, 0, 0));
    assert_eq!(e.last_mode, FIRST_EFFECT, "a dark board keeps the remembered effect");
}

#[test]
fn a_lit_board_becomes_the_effect_to_restore() {
    let mut e = Editor::new();
    e.apply_snapshot(snapshot(Vec::new(), 7));
    assert_eq!(e.last_mode, 7);
    assert_eq!(e.led.brightness, 9, "levels are shown as read and held only on write");
}

#[test]
fn a_keyboard_that_turns_up_is_connected_on_sight() {
    let mut e = Editor::new();
    assert!(e.handle_event(Event::Devices(Vec::new())).is_none());
    assert_eq!(e.status, "No keyboard found");
    let c = e.handle_event(Event::Devices(vec![candidate("a"), candidate("b")]));
    match c {
        Some(Cmd::Connect(d)) => assert_eq!(d.path, "a"),
        other => panic!("expected a connect, got {other:?}"),
    }
    assert!(e.connecting);
    assert_eq!(e.status, "Connecting");
    assert_eq!(e.title(), "SPAWN");
    assert!(
        e.handle_event(Event::Devices(vec![candidate("a")])).is_none(),
        "one connection attempt at a time"
    );
    assert_eq!(e.status, "Keyboard found");
}

#[test]
fn connecting_shows_what_the_keyboard_reported() {
    let mut e = Editor::new();
    e.connecting = true;
    e.error = Some("old".to_string());
    let c = e.handle_event(Event::Connected(
        Box::new(snapshot(vec![zero_rt(); KEY_SLOTS], 1)),
        "SPAWN".to_string(),
    ));
    assert!(c.is_none());
    assert!(!e.connecting);
    assert_eq!(e.connected.as_deref(), Some("SPAWN"));
    assert_eq!(e.status, "Connected");
    assert_eq!(e.error, None);
    assert_eq!(e.led.mode, 1);
    assert_eq!(e.rt[5], RtKey::default());
    e.handle_event(Event::Loaded(Box::new(snapshot(Vec::new(), 2))));
    assert_eq!(e.status, "Reloaded from the keyboard");
    assert_eq!(e.led.mode, 2);
}

#[test]
fn releasing_the_keyboard_stops_everything_live() {
    let mut e = connected();
    assert_eq!(e.toggle_monitor().map(|c| matches!(c, Cmd::SetMonitor(true))), Some(true));
    e.handle_event(Event::Telemetry(vec![frame(3, 100), frame(4, 50), frame(3, 120)]));
    assert_eq!(e.travel.len(), 2);
    assert_eq!(e.travel[&3].key_stroke, 120, "the latest frame wins");
    e.handle_event(Event::Disconnected);
    assert!(e.connected.is_none());
    assert!(!e.monitoring && !e.calibrating);
    assert!(e.travel.is_empty());
    assert_eq!(e.status, "Released the keyboard");
}

#[test]
fn status_and_errors_are_shown_as_reported() {
    let mut e = Editor::new();
    e.connecting = true;
    e.handle_event(Event::Status("Lighting applied".to_string()));
    assert_eq!(e.status, "Lighting applied");
    e.handle_event(Event::Error("no device".to_string()));
    assert!(!e.connecting);
    assert_eq!(e.error.as_deref(), Some("no device"));
}

#[test]
fn device_commands_need_a_keyboard() {
    let mut e = Editor::new();
    assert!(e.apply_rt().is_none());
    assert!(e.apply_keys().is_none());
    assert!(e.apply_settings().is_none());
    assert!(e.toggle_calibration().is_none());
    assert!(e.factory_reset(ResetScope::All).is_none());
    assert!(e.reload().is_none());
    assert_eq!(e.error.as_deref(), Some("No keyboard connected"));

    let mut e = connected();
    assert!(matches!(e.apply_rt(), Some(Cmd::ApplyRt(v)) if v.len() == KEY_SLOTS));
    assert_eq!(e.status, "Writing actuation");
    assert!(matches!(e.apply_keys(), Some(Cmd::ApplyKeys(v)) if v.len() == KEY_SLOTS));
    assert_eq!(e.status, "Writing keymap");
    e.choose_report_rate(1);
    e.set_stability(true);
    e.set_auto_calibration(true);
    match e.apply_settings() {
        Some(Cmd::ApplyGameMode(g)) => {
            assert_eq!(g.report_rate, 5);
            assert_eq!(g.stability_mode, 1);
            assert_eq!(g.auto_calibration, 1);
        }
        other => panic!("expected a settings write, got {other:?}"),
    }
    assert!(matches!(e.toggle_calibration(), Some(Cmd::SetCalibration(true))));
    assert!(e.calibrating);
    assert!(matches!(e.factory_reset(ResetScope::Keys), Some(Cmd::FactoryReset(ResetScope::Keys))));
    assert!(matches!(e.reload(), Some(Cmd::Reload)));
}

#[test]
fn sections_and_panes_switch() {
    let mut e = Editor::new();
    e.set_section(Section::Settings);
    e.set_pane(Pane::Lighting);
    assert_eq!(e.section, Section::Settings);
    assert_eq!(e.pane, Pane::Lighting);
    assert_eq!(Pane::Keys.title(), "Keys");
    assert_eq!(e.keys[0].page, Page::Default);
}

fn frame(key: u8, stroke: u16) -> KeyTelemetry {
    KeyTelemetry {
        key_index: key,
        calibration_status: 0,
        max_value: 0,
        min_value: 0,
        current_value: 0,
        key_stroke: stroke,
        max_stroke: 400,
    }
}

#[test]
fn keyboard_stepping_reaches_every_level_and_stops_at_the_ends() {
    let mut v = 5u8;
    let mut seen = vec![v];
    while v > 1 {
        v = step_level(v, LevelStep::Down);
        seen.push(v);
    }
    assert_eq!(seen, vec![5, 4, 3, 2, 1], "stepping down");
    assert_eq!(step_level(1, LevelStep::Down), 1);
    assert_eq!(step_level(4, LevelStep::Up), 5);
    assert_eq!(step_level(5, LevelStep::Up), 5);
    assert_eq!(step_level(3, LevelStep::Down), 2, "the left arrow at 3 leaves two");
    assert_eq!(step_level(3, LevelStep::First), 1);
    assert_eq!(step_level(3, LevelStep::Last), 5);
    assert_eq!(step_level(3, LevelStep::Stay), 3);
    assert_eq!(hold_level(0), 1);
    assert_eq!(hold_level(7), 5);
    assert_eq!(hold_level(3), 3);
}
