//! The choices the configurator offers: lighting effects, polling rates,
//! switch profiles, colour swatches and key assignments, with the rules that
//! tie them to the firmware's own values.
use vstd::prelude::*;

use crate::layout::{key_by_slot, layout_keys, lemma_slots_unique_and_addressable};
use crate::model::{KeyAction, Page, Rgb};
use crate::text::{decimal, hex_byte_text, hex_word_text, push_decimal, push_hex_byte, push_hex_word};

verus! {

/// Per-key lighting is its own mode value, not an index into the effects.
pub const CUSTOM_LIGHTING: u8 = 128;

/// The firmware's own "backlight off" state.
pub const LIGHTS_OFF: u8 = 0;

/// `color_mode`: use the RGB in the record.
pub const COLOR_CUSTOM: u8 = 0;

/// `color_mode`: the firmware chooses, shows a rainbow and ignores the RGB.
pub const COLOR_AUTO: u8 = 1;

/// Direction values, as the vendor's arrow buttons send them.
pub const DIR_RIGHT: u8 = 0;

pub const DIR_LEFT: u8 = 1;

pub const DIR_UP: u8 = 2;

pub const DIR_DOWN: u8 = 3;

/// A lighting effect and which of its settings apply.
#[derive(Debug, Clone, Copy, PartialEq, Eq)]
pub struct LedMode {
    pub value: u8,
    pub name: &'static str,
    pub speed: bool,
    pub color: bool,
}

/// Lighting effects this board implements.
///
/// The vendor application starts from a default list and only adds the extra
/// effects (23, 24, 25, 254) when the board's own configuration names them
/// under `customEffect`. The SPAWN declares no lighting configuration at all,
/// so those extras are not valid here — selecting one leaves the keyboard
/// dark.
pub open spec fn led_mode_table() -> Seq<LedMode> {
    seq![
        LedMode { value: 1, name: "Static", speed: false, color: true },
        LedMode { value: 2, name: "Point on", speed: true, color: true },
        LedMode { value: 3, name: "Point off", speed: true, color: true },
        LedMode { value: 4, name: "Starry sky", speed: true, color: true },
        LedMode { value: 5, name: "Snowfall", speed: true, color: true },
        LedMode { value: 6, name: "Floral", speed: true, color: false },
        LedMode { value: 7, name: "Breathing", speed: true, color: true },
        LedMode { value: 8, name: "Spectrum", speed: true, color: false },
        LedMode { value: 9, name: "Fountain", speed: true, color: true },
        LedMode { value: 10, name: "Interchange", speed: true, color: true },
        LedMode { value: 11, name: "Waves", speed: true, color: true },
        LedMode { value: 12, name: "Peaks", speed: true, color: true },
        LedMode { value: 13, name: "Fire", speed: true, color: true },
        LedMode { value: 14, name: "Two birds", speed: true, color: true },
        LedMode { value: 15, name: "Ripples", speed: true, color: true },
        LedMode { value: 16, name: "Endless flow", speed: true, color: true },
        LedMode { value: 17, name: "Mountains", speed: true, color: true },
        LedMode { value: 18, name: "Rain", speed: true, color: true },
        LedMode { value: 19, name: "Back and forth", speed: true, color: true },
        LedMode { value: CUSTOM_LIGHTING, name: "Per-key", speed: false, color: true },
    ]
}

/// The lighting effects, in the order they are offered.
pub fn led_modes() -> (v: Vec<LedMode>)
    ensures
        v@ == led_mode_table(),
{
    let mut v: Vec<LedMode> = Vec::new();
    v.push(LedMode { value: 1, name: "Static", speed: false, color: true });
    v.push(LedMode { value: 2, name: "Point on", speed: true, color: true });
    v.push(LedMode { value: 3, name: "Point off", speed: true, color: true });
    v.push(LedMode { value: 4, name: "Starry sky", speed: true, color: true });
    v.push(LedMode { value: 5, name: "Snowfall", speed: true, color: true });
    v.push(LedMode { value: 6, name: "Floral", speed: true, color: false });
    v.push(LedMode { value: 7, name: "Breathing", speed: true, color: true });
    v.push(LedMode { value: 8, name: "Spectrum", speed: true, color: false });
    v.push(LedMode { value: 9, name: "Fountain", speed: true, color: true });
    v.push(LedMode { value: 10, name: "Interchange", speed: true, color: true });
    v.push(LedMode { value: 11, name: "Waves", speed: true, color: true });
    v.push(LedMode { value: 12, name: "Peaks", speed: true, color: true });
    v.push(LedMode { value: 13, name: "Fire", speed: true, color: true });
    v.push(LedMode { value: 14, name: "Two birds", speed: true, color: true });
    v.push(LedMode { value: 15, name: "Ripples", speed: true, color: true });
    v.push(LedMode { value: 16, name: "Endless flow", speed: true, color: true });
    v.push(LedMode { value: 17, name: "Mountains", speed: true, color: true });
    v.push(LedMode { value: 18, name: "Rain", speed: true, color: true });
    v.push(LedMode { value: 19, name: "Back and forth", speed: true, color: true });
    v.push(LedMode { value: CUSTOM_LIGHTING, name: "Per-key", speed: false, color: true });
    assert(v@ =~= led_mode_table());
    v
}

/// The effect `mode` names, or the first effect when it names none.
pub open spec fn effect_for(mode: u8) -> LedMode {
    let t = led_mode_table();
    if exists|i: int| 0 <= i < t.len() && (#[trigger] t[i]).value == mode {
        t[choose|i: int| 0 <= i < t.len() && (#[trigger] t[i]).value == mode]
    } else {
        t[0]
    }
}

/// Which settings apply to the current effect: the effect itself, or the
/// first one when the board reports a mode that is not offered.
pub fn effect_caps(mode: u8) -> (m: LedMode)
    ensures
        m == effect_for(mode),
{
    let modes = led_modes();
    let mut i: usize = 0;
    while i < modes.len()
        invariant
            modes@ == led_mode_table(),
            i <= modes@.len(),
            forall|k: int| 0 <= k < i ==> (#[trigger] modes@[k]).value != mode,
        decreases modes@.len() - i,
    {
        if modes[i].value == mode {
            proof {
                lemma_effect_values_unique();
                let t = led_mode_table();
                let j = choose|j: int| 0 <= j < t.len() && (#[trigger] t[j]).value == mode;
                assert(t[i as int].value == mode);
                assert(j == i);
            }
            return modes[i];
        }
        i = i + 1;
    }
    modes[0]
}

/// No effect is offered twice.
pub proof fn lemma_effect_values_unique()
    ensures
        forall|i: int, j: int|
            0 <= i < j < led_mode_table().len() ==> (#[trigger] led_mode_table()[i]).value != (
            #[trigger] led_mode_table()[j]).value,
{
}

/// Every effect offered is one this board implements: 1 to 19, or per-key
/// lighting; never "off", and never the vendor's extras.
pub proof fn lemma_effects_supported()
    ensures
        forall|i: int|
            0 <= i < led_mode_table().len() ==> {
                let v = (#[trigger] led_mode_table()[i]).value;
                (1 <= v <= 19 || v == CUSTOM_LIGHTING) && v != LIGHTS_OFF
            },
        exists|i: int| 0 <= i < led_mode_table().len() && (#[trigger] led_mode_table()[i]).value == CUSTOM_LIGHTING,
{
    assert(led_mode_table()[19].value == CUSTOM_LIGHTING);
}

/// The direction pair an effect offers, or none if it has no direction. An
/// effect offers only the pair matching the axis it travels along.
pub open spec fn direction_pair(mode: u8) -> Option<[(u8, &'static str); 2]> {
    if mode == 10 {
        Some([(DIR_UP, "Up"), (DIR_DOWN, "Down")])
    } else if mode == 11 || mode == 12 || mode == 16 || mode == 18 {
        Some([(DIR_LEFT, "Left"), (DIR_RIGHT, "Right")])
    } else {
        None
    }
}

pub fn directions_for(mode: u8) -> (d: Option<[(u8, &'static str); 2]>)
    ensures
        d == direction_pair(mode),
{
    match mode {
        // The only vertical effect on this board.
        10 => Some([(DIR_UP, "Up"), (DIR_DOWN, "Down")]),
        11 | 12 | 16 | 18 => Some([(DIR_LEFT, "Left"), (DIR_RIGHT, "Right")]),
        _ => None,
    }
}

/// Polling rates offered, as firmware code and label. The code is not an
/// index: 3 = 1000 Hz, 5 = 4000 Hz, 6 = 8000 Hz.
pub open spec fn report_rate_table() -> Seq<(u8, &'static str)> {
    seq![(3u8, "1000 Hz"), (5u8, "4000 Hz"), (6u8, "8000 Hz")]
}

pub fn report_rates() -> (v: Vec<(u8, &'static str)>)
    ensures
        v@ == report_rate_table(),
{
    let mut v: Vec<(u8, &'static str)> = Vec::new();
    v.push((3, "1000 Hz"));
    v.push((5, "4000 Hz"));
    v.push((6, "8000 Hz"));
    assert(v@ =~= report_rate_table());
    v
}

/// Actuation depths offered as one-click presets under the trigger slider,
/// by name, in micrometres.
pub open spec fn trigger_preset_table() -> Seq<(&'static str, u32)> {
    seq![("Hair", 300u32), ("Fast", 800u32), ("Normal", 1500u32), ("Deep", 2200u32)]
}

pub fn trigger_presets() -> (v: Vec<(&'static str, u32)>)
    ensures
        v@ == trigger_preset_table(),
{
    let mut v: Vec<(&'static str, u32)> = Vec::new();
    v.push(("Hair", 300));
    v.push(("Fast", 800));
    v.push(("Normal", 1500));
    v.push(("Deep", 2200));
    assert(v@ =~= trigger_preset_table());
    v
}

/// A magnetic switch model, with the rapid-trigger ceiling it allows.
#[derive(Debug, Clone, Copy, PartialEq, Eq)]
pub struct AxisProfile {
    pub value: u8,
    pub name: &'static str,
    /// Largest rapid-trigger delta, in micrometres.
    pub max_rt_um: u32,
}

/// Magnetic switch models this board can be calibrated for. The names are
/// the vendor's own English strings, not its localisation keys; the ceiling
/// comes from the switch, and the two magnetic ones stop a tenth of a
/// millimetre short of the rest.
pub open spec fn axis_profile_table() -> Seq<AxisProfile> {
    seq![
        AxisProfile { value: 1, name: "Graywood / Yingyi / Yongchun", max_rt_um: 3400 },
        AxisProfile { value: 4, name: "Black Emperor", max_rt_um: 3400 },
        AxisProfile { value: 5, name: "Spirit Cloud", max_rt_um: 3400 },
        AxisProfile { value: 6, name: "Neptune", max_rt_um: 3400 },
        AxisProfile { value: 2, name: "Magnetic Jade Pro", max_rt_um: 3300 },
        AxisProfile { value: 3, name: "Magneto", max_rt_um: 3300 },
    ]
}

pub fn axis_profiles() -> (v: Vec<AxisProfile>)
    ensures
        v@ == axis_profile_table(),
{
    let mut v: Vec<AxisProfile> = Vec::new();
    v.push(AxisProfile { value: 1, name: "Graywood / Yingyi / Yongchun", max_rt_um: 3400 });
    v.push(AxisProfile { value: 4, name: "Black Emperor", max_rt_um: 3400 });
    v.push(AxisProfile { value: 5, name: "Spirit Cloud", max_rt_um: 3400 });
    v.push(AxisProfile { value: 6, name: "Neptune", max_rt_um: 3400 });
    v.push(AxisProfile { value: 2, name: "Magnetic Jade Pro", max_rt_um: 3300 });
    v.push(AxisProfile { value: 3, name: "Magneto", max_rt_um: 3300 });
    assert(v@ =~= axis_profile_table());
    v
}

/// Largest rapid-trigger delta for any switch, in micrometres.
pub const MAX_RT_UM: u32 = 3400;

/// The rapid-trigger ceiling for a switch profile; an unknown switch falls
/// back to [`MAX_RT_UM`].
pub open spec fn rt_ceiling(axis: u8) -> u32 {
    if axis == 2 || axis == 3 {
        3300
    } else if axis == 1 || axis == 4 || axis == 5 || axis == 6 {
        3400
    } else {
        MAX_RT_UM
    }
}

pub fn max_rt_um_for(axis: u8) -> (um: u32)
    ensures
        um == rt_ceiling(axis),
        forall|i: int|
            0 <= i < axis_profile_table().len() && (#[trigger] axis_profile_table()[i]).value
                == axis ==> um == axis_profile_table()[i].max_rt_um,
{
    let profiles = axis_profiles();
    let mut i: usize = 0;
    while i < profiles.len()
        invariant
            profiles@ == axis_profile_table(),
            i <= profiles@.len(),
            forall|k: int| 0 <= k < i ==> (#[trigger] profiles@[k]).value != axis,
        decreases profiles@.len() - i,
    {
        if profiles[i].value == axis {
            return profiles[i].max_rt_um;
        }
        i = i + 1;
    }
    MAX_RT_UM
}

/// The colours the picker offers. Saturated primaries and secondaries: these
/// drive LEDs, where a tinted colour reads as a different hue.
pub open spec fn swatch_table() -> Seq<(&'static str, Rgb)> {
    seq![
        ("White", Rgb { r: 255, g: 255, b: 255 }),
        ("Red", Rgb { r: 255, g: 0, b: 0 }),
        ("Orange", Rgb { r: 255, g: 80, b: 0 }),
        ("Yellow", Rgb { r: 255, g: 255, b: 0 }),
        ("Green", Rgb { r: 0, g: 255, b: 0 }),
        ("Cyan", Rgb { r: 0, g: 255, b: 255 }),
        ("Blue", Rgb { r: 0, g: 0, b: 255 }),
        ("Purple", Rgb { r: 128, g: 0, b: 255 }),
        ("Magenta", Rgb { r: 255, g: 0, b: 255 }),
        ("Off", Rgb { r: 0, g: 0, b: 0 }),
    ]
}

pub fn swatches() -> (v: Vec<(&'static str, Rgb)>)
    ensures
        v@ == swatch_table(),
{
    let mut v: Vec<(&'static str, Rgb)> = Vec::new();
    v.push(("White", Rgb::new(255, 255, 255)));
    v.push(("Red", Rgb::new(255, 0, 0)));
    v.push(("Orange", Rgb::new(255, 80, 0)));
    v.push(("Yellow", Rgb::new(255, 255, 0)));
    v.push(("Green", Rgb::new(0, 255, 0)));
    v.push(("Cyan", Rgb::new(0, 255, 255)));
    v.push(("Blue", Rgb::new(0, 0, 255)));
    v.push(("Purple", Rgb::new(128, 0, 255)));
    v.push(("Magenta", Rgb::new(255, 0, 255)));
    v.push(("Off", Rgb::new(0, 0, 0)));
    assert(v@ =~= swatch_table());
    v
}

/// No two swatches are the same colour.
pub proof fn lemma_swatches_distinct()
    ensures
        forall|i: int, j: int|
            0 <= i < j < swatch_table().len() ==> (#[trigger] swatch_table()[i]).1 != (
            #[trigger] swatch_table()[j]).1,
{
}

/// Names of the assignment groups offered in the Keys tab.
pub open spec fn assignment_group_names() -> Seq<&'static str> {
    seq!["Modifiers", "Editing", "Arrows", "Function", "Mouse"]
}

/// The assignments of group `g`. Usage IDs are from the HID Keyboard/Keypad
/// page; mouse entries use function 1 for a button and 3 for the wheel,
/// where down travels as 255.
pub open spec fn assignment_group(g: int) -> Seq<(&'static str, KeyAction)> {
    if g == 0 {
        seq![
            ("Left Ctrl", KeyAction { page: Page::Keyboard, p1: 0, p2: 0xE0, p3: 0 }),
            ("Left Shift", KeyAction { page: Page::Keyboard, p1: 0, p2: 0xE1, p3: 0 }),
            ("Left Alt", KeyAction { page: Page::Keyboard, p1: 0, p2: 0xE2, p3: 0 }),
            ("Left Win", KeyAction { page: Page::Keyboard, p1: 0, p2: 0xE3, p3: 0 }),
            ("Right Ctrl", KeyAction { page: Page::Keyboard, p1: 0, p2: 0xE4, p3: 0 }),
            ("Right Shift", KeyAction { page: Page::Keyboard, p1: 0, p2: 0xE5, p3: 0 }),
            ("Right Alt", KeyAction { page: Page::Keyboard, p1: 0, p2: 0xE6, p3: 0 }),
        ]
    } else if g == 1 {
        seq![
            ("Esc", KeyAction { page: Page::Keyboard, p1: 0, p2: 0x29, p3: 0 }),
            ("Tab", KeyAction { page: Page::Keyboard, p1: 0, p2: 0x2B, p3: 0 }),
            ("Enter", KeyAction { page: Page::Keyboard, p1: 0, p2: 0x28, p3: 0 }),
            ("Backspace", KeyAction { page: Page::Keyboard, p1: 0, p2: 0x2A, p3: 0 }),
            ("Delete", KeyAction { page: Page::Keyboard, p1: 0, p2: 0x4C, p3: 0 }),
            ("Insert", KeyAction { page: Page::Keyboard, p1: 0, p2: 0x49, p3: 0 }),
            ("Home", KeyAction { page: Page::Keyboard, p1: 0, p2: 0x4A, p3: 0 }),
            ("End", KeyAction { page: Page::Keyboard, p1: 0, p2: 0x4D, p3: 0 }),
            ("Page up", KeyAction { page: Page::Keyboard, p1: 0, p2: 0x4B, p3: 0 }),
            ("Page down", KeyAction { page: Page::Keyboard, p1: 0, p2: 0x4E, p3: 0 }),
            ("Caps lock", KeyAction { page: Page::Keyboard, p1: 0, p2: 0x39, p3: 0 }),
        ]
    } else if g == 2 {
        seq![
            ("Left", KeyAction { page: Page::Keyboard, p1: 0, p2: 0x50, p3: 0 }),
            ("Down", KeyAction { page: Page::Keyboard, p1: 0, p2: 0x51, p3: 0 }),
            ("Up", KeyAction { page: Page::Keyboard, p1: 0, p2: 0x52, p3: 0 }),
            ("Right", KeyAction { page: Page::Keyboard, p1: 0, p2: 0x4F, p3: 0 }),
        ]
    } else if g == 3 {
        seq![
            ("F1", KeyAction { page: Page::Keyboard, p1: 0, p2: 0x3A, p3: 0 }),
            ("F2", KeyAction { page: Page::Keyboard, p1: 0, p2: 0x3B, p3: 0 }),
            ("F3", KeyAction { page: Page::Keyboard, p1: 0, p2: 0x3C, p3: 0 }),
            ("F4", KeyAction { page: Page::Keyboard, p1: 0, p2: 0x3D, p3: 0 }),
            ("F5", KeyAction { page: Page::Keyboard, p1: 0, p2: 0x3E, p3: 0 }),
            ("F6", KeyAction { page: Page::Keyboard, p1: 0, p2: 0x3F, p3: 0 }),
            ("F7", KeyAction { page: Page::Keyboard, p1: 0, p2: 0x40, p3: 0 }),
            ("F8", KeyAction { page: Page::Keyboard, p1: 0, p2: 0x41, p3: 0 }),
            ("F9", KeyAction { page: Page::Keyboard, p1: 0, p2: 0x42, p3: 0 }),
            ("F10", KeyAction { page: Page::Keyboard, p1: 0, p2: 0x43, p3: 0 }),
            ("F11", KeyAction { page: Page::Keyboard, p1: 0, p2: 0x44, p3: 0 }),
            ("F12", KeyAction { page: Page::Keyboard, p1: 0, p2: 0x45, p3: 0 }),
        ]
    } else {
        seq![
            ("Left click", KeyAction { page: Page::Mouse, p1: 1, p2: 1, p3: 0 }),
            ("Right click", KeyAction { page: Page::Mouse, p1: 1, p2: 2, p3: 0 }),
            ("Middle click", KeyAction { page: Page::Mouse, p1: 1, p2: 4, p3: 0 }),
            ("Back", KeyAction { page: Page::Mouse, p1: 1, p2: 8, p3: 0 }),
            ("Forward", KeyAction { page: Page::Mouse, p1: 1, p2: 16, p3: 0 }),
            ("Scroll up", KeyAction { page: Page::Mouse, p1: 3, p2: 1, p3: 0 }),
            ("Scroll down", KeyAction { page: Page::Mouse, p1: 3, p2: 255, p3: 0 }),
        ]
    }
}

fn group_entries(g: usize) -> (v: Vec<(&'static str, KeyAction)>)
    requires
        g < 5,
    ensures
        v@ == assignment_group(g as int),
{
    let mut v: Vec<(&'static str, KeyAction)> = Vec::new();
    if g == 0 {
        v.push(("Left Ctrl", KeyAction::keyboard(0, 0xE0)));
        v.push(("Left Shift", KeyAction::keyboard(0, 0xE1)));
        v.push(("Left Alt", KeyAction::keyboard(0, 0xE2)));
        v.push(("Left Win", KeyAction::keyboard(0, 0xE3)));
        v.push(("Right Ctrl", KeyAction::keyboard(0, 0xE4)));
        v.push(("Right Shift", KeyAction::keyboard(0, 0xE5)));
        v.push(("Right Alt", KeyAction::keyboard(0, 0xE6)));
    } else if g == 1 {
        v.push(("Esc", KeyAction::keyboard(0, 0x29)));
        v.push(("Tab", KeyAction::keyboard(0, 0x2B)));
        v.push(("Enter", KeyAction::keyboard(0, 0x28)));
        v.push(("Backspace", KeyAction::keyboard(0, 0x2A)));
        v.push(("Delete", KeyAction::keyboard(0, 0x4C)));
        v.push(("Insert", KeyAction::keyboard(0, 0x49)));
        v.push(("Home", KeyAction::keyboard(0, 0x4A)));
        v.push(("End", KeyAction::keyboard(0, 0x4D)));
        v.push(("Page up", KeyAction::keyboard(0, 0x4B)));
        v.push(("Page down", KeyAction::keyboard(0, 0x4E)));
        v.push(("Caps lock", KeyAction::keyboard(0, 0x39)));
    } else if g == 2 {
        v.push(("Left", KeyAction::keyboard(0, 0x50)));
        v.push(("Down", KeyAction::keyboard(0, 0x51)));
        v.push(("Up", KeyAction::keyboard(0, 0x52)));
        v.push(("Right", KeyAction::keyboard(0, 0x4F)));
    } else if g == 3 {
        v.push(("F1", KeyAction::keyboard(0, 0x3A)));
        v.push(("F2", KeyAction::keyboard(0, 0x3B)));
        v.push(("F3", KeyAction::keyboard(0, 0x3C)));
        v.push(("F4", KeyAction::keyboard(0, 0x3D)));
        v.push(("F5", KeyAction::keyboard(0, 0x3E)));
        v.push(("F6", KeyAction::keyboard(0, 0x3F)));
        v.push(("F7", KeyAction::keyboard(0, 0x40)));
        v.push(("F8", KeyAction::keyboard(0, 0x41)));
        v.push(("F9", KeyAction::keyboard(0, 0x42)));
        v.push(("F10", KeyAction::keyboard(0, 0x43)));
        v.push(("F11", KeyAction::keyboard(0, 0x44)));
        v.push(("F12", KeyAction::keyboard(0, 0x45)));
    } else {
        v.push(("Left click", KeyAction::mouse(1, 1)));
        v.push(("Right click", KeyAction::mouse(1, 2)));
        v.push(("Middle click", KeyAction::mouse(1, 4)));
        v.push(("Back", KeyAction::mouse(1, 8)));
        v.push(("Forward", KeyAction::mouse(1, 16)));
        v.push(("Scroll up", KeyAction::mouse(3, 1)));
        v.push(("Scroll down", KeyAction::mouse(3, 255)));
    }
    assert(v@ =~= assignment_group(g as int));
    v
}

/// Assignments offered in the Keys tab, group by group.
pub fn assignable() -> (v: Vec<(&'static str, Vec<(&'static str, KeyAction)>)>)
    ensures
        v@.len() == 5,
        forall|g: int|
            0 <= g < 5 ==> (#[trigger] v@[g]).0 == assignment_group_names()[g] && v@[g].1@
                == assignment_group(g),
{
    let mut v: Vec<(&'static str, Vec<(&'static str, KeyAction)>)> = Vec::new();
    v.push(("Modifiers", group_entries(0)));
    v.push(("Editing", group_entries(1)));
    v.push(("Arrows", group_entries(2)));
    v.push(("Function", group_entries(3)));
    v.push(("Mouse", group_entries(4)));
    v
}

/// Media keys offered in the Keys tab, as Consumer-page usages.
pub open spec fn media_table() -> Seq<(&'static str, KeyAction)> {
    seq![
        ("Play or pause", KeyAction { page: Page::ConsumerKey, p1: 205, p2: 0, p3: 0 }),
        ("Next track", KeyAction { page: Page::ConsumerKey, p1: 181, p2: 0, p3: 0 }),
        ("Previous track", KeyAction { page: Page::ConsumerKey, p1: 182, p2: 0, p3: 0 }),
        ("Stop", KeyAction { page: Page::ConsumerKey, p1: 183, p2: 0, p3: 0 }),
        ("Mute", KeyAction { page: Page::ConsumerKey, p1: 226, p2: 0, p3: 0 }),
        ("Volume up", KeyAction { page: Page::ConsumerKey, p1: 233, p2: 0, p3: 0 }),
        ("Volume down", KeyAction { page: Page::ConsumerKey, p1: 234, p2: 0, p3: 0 }),
    ]
}

pub fn media_actions() -> (v: Vec<(&'static str, KeyAction)>)
    ensures
        v@ == media_table(),
{
    let mut v: Vec<(&'static str, KeyAction)> = Vec::new();
    v.push(("Play or pause", KeyAction::consumer(0x00CD)));
    v.push(("Next track", KeyAction::consumer(0x00B5)));
    v.push(("Previous track", KeyAction::consumer(0x00B6)));
    v.push(("Stop", KeyAction::consumer(0x00B7)));
    v.push(("Mute", KeyAction::consumer(0x00E2)));
    v.push(("Volume up", KeyAction::consumer(0x00E9)));
    v.push(("Volume down", KeyAction::consumer(0x00EA)));
    assert(v@ =~= media_table());
    v
}

/// The name of the first entry of `list` whose action is `a`.
pub open spec fn first_named(list: Seq<(&'static str, KeyAction)>, a: KeyAction) -> Option<
    &'static str,
>
    decreases list.len(),
{
    if list.len() == 0 {
        None
    } else if list[0].1 == a {
        Some(list[0].0)
    } else {
        first_named(list.drop_first(), a)
    }
}

/// The name of the first keyboard entry of `list` with HID usage `usage`.
pub open spec fn first_with_usage(list: Seq<(&'static str, KeyAction)>, usage: u8) -> Option<
    &'static str,
>
    decreases list.len(),
{
    if list.len() == 0 {
        None
    } else if list[0].1.page == Page::Keyboard && list[0].1.p2 == usage {
        Some(list[0].0)
    } else {
        first_with_usage(list.drop_first(), usage)
    }
}

/// The Consumer-page usage an action's two arguments encode.
pub open spec fn consumer_usage(a: KeyAction) -> u16 {
    (a.p1 + 256 * a.p2) as u16
}

/// The name of the first entry of `list` with Consumer usage `usage`.
pub open spec fn first_with_consumer(list: Seq<(&'static str, KeyAction)>, usage: u16) -> Option<
    &'static str,
>
    decreases list.len(),
{
    if list.len() == 0 {
        None
    } else if consumer_usage(list[0].1) == usage {
        Some(list[0].0)
    } else {
        first_with_consumer(list.drop_first(), usage)
    }
}

/// Every assignment of the Keys tab, group after group.
pub open spec fn all_assignments() -> Seq<(&'static str, KeyAction)> {
    assignment_group(0) + assignment_group(1) + assignment_group(2) + assignment_group(3)
        + assignment_group(4)
}

fn all_assignment_entries() -> (v: Vec<(&'static str, KeyAction)>)
    ensures
        v@ == all_assignments(),
{
    let mut v = group_entries(0);
    let mut g: usize = 1;
    while g < 5
        invariant
            1 <= g <= 5,
            v@ == if g == 1 {
                assignment_group(0)
            } else if g == 2 {
                assignment_group(0) + assignment_group(1)
            } else if g == 3 {
                assignment_group(0) + assignment_group(1) + assignment_group(2)
            } else if g == 4 {
                assignment_group(0) + assignment_group(1) + assignment_group(2) + assignment_group(
                    3,
                )
            } else {
                all_assignments()
            },
        decreases 5 - g,
    {
        let mut more = group_entries(g);
        v.append(&mut more);
        g = g + 1;
    }
    v
}

fn find_named(list: &Vec<(&'static str, KeyAction)>, a: KeyAction) -> (r: Option<&'static str>)
    ensures
        r == first_named(list@, a),
{
    let mut i: usize = 0;
    assert(list@.subrange(0, list@.len() as int) =~= list@);
    while i < list.len()
        invariant
            i <= list@.len(),
            first_named(list@, a) == first_named(list@.subrange(i as int, list@.len() as int), a),
        decreases list@.len() - i,
    {
        assert(list@.subrange(i as int, list@.len() as int).drop_first() =~= list@.subrange(
            i + 1,
            list@.len() as int,
        ));
        if list[i].1 == a {
            return Some(list[i].0);
        }
        i = i + 1;
    }
    None
}

fn find_usage(list: &Vec<(&'static str, KeyAction)>, usage: u8) -> (r: Option<&'static str>)
    ensures
        r == first_with_usage(list@, usage),
{
    let mut i: usize = 0;
    assert(list@.subrange(0, list@.len() as int) =~= list@);
    while i < list.len()
        invariant
            i <= list@.len(),
            first_with_usage(list@, usage) == first_with_usage(
                list@.subrange(i as int, list@.len() as int),
                usage,
            ),
        decreases list@.len() - i,
    {
        assert(list@.subrange(i as int, list@.len() as int).drop_first() =~= list@.subrange(
            i + 1,
            list@.len() as int,
        ));
        let a = list[i].1;
        if a.page == Page::Keyboard && a.p2 == usage {
            return Some(list[i].0);
        }
        i = i + 1;
    }
    None
}

fn find_consumer(list: &Vec<(&'static str, KeyAction)>, usage: u16) -> (r: Option<&'static str>)
    ensures
        r == first_with_consumer(list@, usage),
{
    let mut i: usize = 0;
    assert(list@.subrange(0, list@.len() as int) =~= list@);
    while i < list.len()
        invariant
            i <= list@.len(),
            first_with_consumer(list@, usage) == first_with_consumer(
                list@.subrange(i as int, list@.len() as int),
                usage,
            ),
        decreases list@.len() - i,
    {
        assert(list@.subrange(i as int, list@.len() as int).drop_first() =~= list@.subrange(
            i + 1,
            list@.len() as int,
        ));
        let a = list[i].1;
        if a.p1 as u16 + 256 * (a.p2 as u16) == usage {
            return Some(list[i].0);
        }
        i = i + 1;
    }
    None
}

/// The short name of an assignment, for a keycap: the first offered
/// assignment, then the first media key, that matches exactly. `None` when
/// the key still does what its legend says.
pub open spec fn assignment_name(a: KeyAction) -> Option<&'static str> {
    if a.page == Page::Default {
        None
    } else {
        match first_named(all_assignments(), a) {
            Some(n) => Some(n),
            None => first_named(media_table(), a),
        }
    }
}

pub fn assigned_label(action: &KeyAction) -> (r: Option<&'static str>)
    ensures
        r == assignment_name(*action),
{
    if action.page == Page::Default {
        return None;
    }
    let all = all_assignment_entries();
    match find_named(&all, *action) {
        Some(n) => Some(n),
        None => find_named(&media_actions(), *action),
    }
}

/// The legend of the key in `slot`, if the board has one there.
pub open spec fn slot_label(slot: u8) -> Option<&'static str> {
    let ks = layout_keys();
    if exists|i: int| 0 <= i < ks.len() && (#[trigger] ks[i]).slot == slot {
        Some(ks[choose|i: int| 0 <= i < ks.len() && (#[trigger] ks[i]).slot == slot].label)
    } else {
        None
    }
}

/// Human-readable summary of what a slot currently does.
pub open spec fn description(a: KeyAction, slot: u8) -> Seq<char> {
    match a.page {
        Page::Default => match slot_label(slot) {
            Some(l) => "default ("@ + l@ + ")"@,
            None => "default"@,
        },
        Page::Keyboard => match first_with_usage(all_assignments(), a.p2) {
            Some(n) => n@,
            None => "usage "@ + hex_byte_text(a.p2),
        },
        Page::Mouse => "mouse button "@ + decimal(a.p2 as nat),
        Page::ConsumerKey => match first_with_consumer(media_table(), consumer_usage(a)) {
            Some(n) => n@,
            None => "consumer "@ + hex_word_text(consumer_usage(a)),
        },
        Page::Macro => "macro "@ + decimal(a.p1 as nat),
        Page::Dks => "DKS "@ + decimal(a.p1 as nat),
        Page::Mt => "mod-tap"@,
        Page::Tgl => "toggle"@,
        Page::Socd => "SOCD"@,
        Page::Rs => "rapid switch"@,
        Page::Cb => "combo"@,
        Page::Func => "function"@,
        Page::SystemKey => "system"@,
        Page::ExtraFunction => "extra"@,
    }
}

pub fn describe(action: &KeyAction, slot: u8) -> (s: String)
    ensures
        s@ == description(*action, slot),
{
    match action.page {
        Page::Default => match key_by_slot(slot) {
            Some(k) => {
                proof {
                    lemma_slots_unique_and_addressable();
                    let ks = layout_keys();
                    let j = choose|j: int| 0 <= j < ks.len() && ks[j] == k;
                    assert(ks[j].slot == slot);
                    let i = choose|i: int| 0 <= i < ks.len() && (#[trigger] ks[i]).slot == slot;
                    assert(i == j);
                }
                let mut s = String::from_str("default (");
                s.append(k.label);
                s.append(")");
                s
            },
            None => String::from_str("default"),
        },
        Page::Keyboard => match find_usage(&all_assignment_entries(), action.p2) {
            Some(n) => String::from_str(n),
            None => {
                let mut s = String::from_str("usage ");
                push_hex_byte(&mut s, action.p2);
                s
            },
        },
        Page::Mouse => {
            let mut s = String::from_str("mouse button ");
            push_decimal(&mut s, action.p2 as u64);
            s
        },
        Page::ConsumerKey => {
            let usage = action.p1 as u16 + 256 * (action.p2 as u16);
            match find_consumer(&media_actions(), usage) {
                Some(n) => String::from_str(n),
                None => {
                    let mut s = String::from_str("consumer ");
                    push_hex_word(&mut s, usage);
                    s
                },
            }
        },
        Page::Macro => {
            let mut s = String::from_str("macro ");
            push_decimal(&mut s, action.p1 as u64);
            s
        },
        Page::Dks => {
            let mut s = String::from_str("DKS ");
            push_decimal(&mut s, action.p1 as u64);
            s
        },
        Page::Mt => String::from_str("mod-tap"),
        Page::Tgl => String::from_str("toggle"),
        Page::Socd => String::from_str("SOCD"),
        Page::Rs => String::from_str("rapid switch"),
        Page::Cb => String::from_str("combo"),
        Page::Func => String::from_str("function"),
        Page::SystemKey => String::from_str("system"),
        Page::ExtraFunction => String::from_str("extra"),
    }
}

} // verus!
