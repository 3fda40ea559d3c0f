use spawn_protocol::catalog::{
    assignable, assigned_label, describe, directions_for, effect_caps, led_modes, max_rt_um_for,
    media_actions, report_rates, swatches, axis_profiles, COLOR_AUTO, COLOR_CUSTOM,
    CUSTOM_LIGHTING, DIR_DOWN, DIR_LEFT, DIR_RIGHT, DIR_UP, LIGHTS_OFF, MAX_RT_UM,
};
use spawn_protocol::editor::{MAX_DEAD_ZONE_UM, MAX_TRIGGER_UM, MIN_RT_UM, MIN_TRIGGER_UM};
use spawn_protocol::{KeyAction, Rgb, RtKey};
use std::collections::HashSet;

#[test]
fn only_effects_this_board_supports_are_offered() {
    const INVALID: [u8; 4] = [23, 24, 25, 254];
    for m in led_modes() {
        assert!(
            !INVALID.contains(&m.value),
            "effect {} ({}) is not valid for this board",
            m.value,
            m.name
        );
        assert!(
            (1..=19).contains(&m.value) || m.value == CUSTOM_LIGHTING,
            "effect {} is outside the supported range",
            m.value
        );
    }
}

#[test]
fn per_key_mode_is_offered_and_correct() {
    assert_eq!(CUSTOM_LIGHTING, 128);
    assert!(led_modes().iter().any(|m| m.value == CUSTOM_LIGHTING));
}

#[test]
fn effects_are_unique() {
    let mut seen = HashSet::new();
    for m in led_modes() {
        assert!(seen.insert(m.value), "duplicate effect {}", m.value);
    }
}

#[test]
fn choosing_a_colour_requires_custom_colour_mode() {
    assert_eq!(COLOR_CUSTOM, 0);
    assert_eq!(COLOR_AUTO, 1);
}

#[test]
fn lights_off_is_a_state_not_an_effect() {
    assert_eq!(LIGHTS_OFF, 0);
    assert!(!led_modes().iter().any(|m| m.value == LIGHTS_OFF));
}

#[test]
fn report_rate_codes_match_the_firmware() {
    let rates = report_rates();
    assert_eq!(rates[0].0, 3, "1000 Hz is code 3");
    assert_eq!(rates[1].0, 5, "4000 Hz is code 5");
    assert_eq!(rates[2].0, 6, "8000 Hz is code 6");
    assert!(
        rates.iter().any(|(code, _)| *code == 6),
        "the factory default must be selectable"
    );
}

#[test]
fn swatch_colours_are_distinct() {
    let mut seen = HashSet::new();
    for (_, c) in swatches() {
        assert!(seen.insert((c.r, c.g, c.b)), "duplicate swatch colour");
    }
}

#[test]
fn mouse_actions_match_the_vendor_table() {
    let groups = assignable();
    let by_name = |name: &str| {
        groups
            .iter()
            .flat_map(|(_, list)| list.iter())
            .find(|(n, _)| *n == name)
            .map(|(_, a)| *a)
            .expect("assignment is offered")
    };
    assert_eq!(by_name("Left click"), KeyAction::mouse(1, 1));
    assert_eq!(by_name("Right click"), KeyAction::mouse(1, 2));
    assert_eq!(by_name("Middle click"), KeyAction::mouse(1, 4));
    assert_eq!(by_name("Back"), KeyAction::mouse(1, 8));
    assert_eq!(by_name("Forward"), KeyAction::mouse(1, 16));
    assert_eq!(by_name("Scroll up"), KeyAction::mouse(3, 1));
    assert_eq!(by_name("Scroll down"), KeyAction::mouse(3, 255));
}

#[test]
fn media_actions_match_the_vendor_table() {
    let media = media_actions();
    let usage = |name: &str| {
        media
            .iter()
            .find(|(n, _)| *n == name)
            .map(|(_, a)| u16::from(a.p1) | (u16::from(a.p2) << 8))
            .expect("action is offered")
    };
    assert_eq!(usage("Play or pause"), 205);
    assert_eq!(usage("Stop"), 183);
    assert_eq!(usage("Previous track"), 182);
    assert_eq!(usage("Next track"), 181);
    assert_eq!(usage("Volume up"), 233);
    assert_eq!(usage("Volume down"), 234);
    assert_eq!(usage("Mute"), 226);
}

#[test]
fn swatches_are_the_colours_they_claim_to_be() {
    let all = swatches();
    let by_name = |name: &str| {
        all.iter()
            .find(|(n, _)| *n == name)
            .map(|(_, c)| *c)
            .expect("swatch is offered")
    };
    assert_eq!(by_name("Red"), Rgb::new(255, 0, 0));
    assert_eq!(by_name("Green"), Rgb::new(0, 255, 0));
    assert_eq!(by_name("Blue"), Rgb::new(0, 0, 255));
    assert_eq!(by_name("Cyan"), Rgb::new(0, 255, 255));
    assert_eq!(by_name("Magenta"), Rgb::new(255, 0, 255));

    let g = by_name("Green");
    let c = by_name("Cyan");
    assert_ne!(g, c);
    assert_eq!(g.b, 0, "green carries no blue at all");

    for (name, c) in swatches() {
        if matches!(name, "Orange" | "Purple") {
            continue;
        }
        for (channel, v) in [("r", c.r), ("g", c.g), ("b", c.b)] {
            assert!(v == 0 || v == 255, "{name} has a partial {channel} channel");
        }
    }
}

#[test]
fn direction_values_match_the_vendor_arrows() {
    assert_eq!((DIR_RIGHT, DIR_LEFT, DIR_UP, DIR_DOWN), (0, 1, 2, 3));

    let vertical = directions_for(10).expect("effect 10 travels vertically");
    assert_eq!(vertical, [(DIR_UP, "Up"), (DIR_DOWN, "Down")]);

    for mode in [11, 12, 16, 18] {
        let pair = directions_for(mode).expect("effect travels horizontally");
        assert_eq!(
            pair,
            [(DIR_LEFT, "Left"), (DIR_RIGHT, "Right")],
            "effect {mode}"
        );
    }

    assert!(
        directions_for(1).is_none(),
        "a static effect has no direction"
    );
    assert!(
        directions_for(23).is_none(),
        "effects this board does not have must not offer one either"
    );
}

#[test]
fn directional_effects_are_offered() {
    for mode in [10, 11, 12, 16, 18] {
        assert!(
            led_modes().iter().any(|m| m.value == mode),
            "effect {mode} has directions but is not in the list"
        );
    }
}

#[test]
fn switch_profiles_are_named_not_keyed() {
    for p in axis_profiles() {
        assert!(
            !p.name.starts_with("Axis ") && !p.name.contains('_'),
            "profile {} is labelled with its key, not its name: {}",
            p.value,
            p.name
        );
    }
    let values: Vec<u8> = axis_profiles().iter().map(|p| p.value).collect();
    assert_eq!(
        values,
        vec![1, 4, 5, 6, 2, 3],
        "order and values match the vendor list"
    );
    assert_eq!(RtKey::default().axis_type, 1, "the vendor default switch");
}

#[test]
fn ranges_match_the_vendor_bounds() {
    assert_eq!(MAX_DEAD_ZONE_UM, 500);
    assert_eq!(MIN_TRIGGER_UM, 100);
    assert_eq!(MAX_TRIGGER_UM, 3400);
    assert_eq!(MIN_RT_UM, 10);
    assert_eq!(max_rt_um_for(1), 3400, "axis 6");
    assert_eq!(max_rt_um_for(2), 3300, "jade");
    assert_eq!(max_rt_um_for(3), 3300, "king");
    assert_eq!(max_rt_um_for(6), 3400, "axis 20");
    assert_eq!(max_rt_um_for(200), MAX_RT_UM, "an unknown switch falls back");
}

#[test]
fn only_remapped_keys_get_a_new_label() {
    assert_eq!(assigned_label(&KeyAction::default()), None);
    assert_eq!(
        assigned_label(&KeyAction::keyboard(0, 0xE0)),
        Some("Left Ctrl")
    );
    assert_eq!(
        assigned_label(&KeyAction::consumer(0x00E9)),
        Some("Volume up")
    );
}

#[test]
fn unknown_effects_fall_back_to_the_first() {
    assert_eq!(effect_caps(8).name, "Spectrum");
    assert!(!effect_caps(8).color);
    assert_eq!(effect_caps(CUSTOM_LIGHTING).name, "Per-key");
    assert_eq!(effect_caps(200).value, 1);
}

#[test]
fn descriptions_name_what_a_key_does() {
    assert_eq!(describe(&KeyAction::default(), 0), "default (Esc)");
    assert_eq!(describe(&KeyAction::default(), 200), "default");
    assert_eq!(describe(&KeyAction::keyboard(0, 0xE0), 0), "Left Ctrl");
    assert_eq!(describe(&KeyAction::keyboard(0, 0x7F), 0), "usage 0x7f");
    assert_eq!(describe(&KeyAction::mouse(1, 4), 0), "mouse button 4");
    assert_eq!(describe(&KeyAction::consumer(0x00E9), 0), "Volume up");
    assert_eq!(describe(&KeyAction::consumer(0x0123), 0), "consumer 0x0123");
}
