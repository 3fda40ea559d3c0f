//! The configuration being edited in the window, and every decision the
//! window takes about it: which keys an edit reaches, what a click changes,
//! what goes to the keyboard and what the device thread's reports do to the
//! state. Drawing it, and turning pointer positions into values, is the
//! window's own business; it asks this model for everything else, and sends
//! the device thread whatever command a method hands back.
use vstd::prelude::*;

use std::collections::{HashMap, HashSet};

use crate::candidate::{copy_candidate, display_text, Candidate};
use crate::catalog::{
    assigned_label, assignment_name, axis_profile_table, axis_profiles, report_rate_table,
    report_rates, COLOR_AUTO, COLOR_CUSTOM, CUSTOM_LIGHTING, LIGHTS_OFF,
};
use crate::layout::{all_keys, layout_keys, KeyCap};
use crate::model::{
    default_action, default_rt_key, fill_slots, DeviceInfo, GameMode, KeyAction, KeyTelemetry,
    LedEffect, Rgb, RtKey,
};
use crate::text::{
    decimal, digit_char, digit_str, digits_value, lemma_decimal_reads_back, lemma_digit_chars,
    lemma_digits_value_push, push_decimal,
};
use crate::worker::{Cmd, Event, Snapshot};
use crate::{ResetScope, KEY_SLOTS};

verus! {

broadcast use vstd::std_specs::hash::group_hash_axioms;

/// The top-level split: the board and everything about the keys, or the
/// device's own settings.
#[derive(Debug, Clone, Copy, PartialEq, Eq, Structural)]
pub enum Section {
    Keyboard,
    Settings,
}

/// What the panel under the board is showing. The board itself stays put
/// across these and only re-colours.
#[derive(Debug, Clone, Copy, PartialEq, Eq, Structural)]
pub enum Pane {
    Actuation,
    Keys,
    Lighting,
}

impl Pane {
    /// The panes, in tab order.
    pub fn all() -> (panes: [Pane; 3])
        ensures
            panes@ == seq![Pane::Actuation, Pane::Keys, Pane::Lighting],
    {
        let panes = [Pane::Actuation, Pane::Keys, Pane::Lighting];
        assert(panes@ =~= seq![Pane::Actuation, Pane::Keys, Pane::Lighting]);
        panes
    }

    /// The tab label.
    pub fn title(self) -> (s: &'static str)
        ensures
            s == (match self {
                Pane::Actuation => "Actuation",
                Pane::Keys => "Keys",
                Pane::Lighting => "Lighting",
            }),
    {
        match self {
            Pane::Actuation => "Actuation",
            Pane::Keys => "Keys",
            Pane::Lighting => "Lighting",
        }
    }
}

/// Lighting levels run 1..=5: the vendor reads the bounds as
/// `minBrightness || 1` and `maxBrightness || 5`, and this board declares no
/// override.
pub const MIN_LEVEL: u8 = 1;

pub const MAX_LEVEL: u8 = 5;

/// Shallowest actuation point the firmware accepts, in micrometres.
pub const MIN_TRIGGER_UM: u32 = 100;

/// Deepest actuation point the firmware accepts, in micrometres.
pub const MAX_TRIGGER_UM: u32 = 3400;

/// Smallest rapid-trigger delta the firmware accepts, in micrometres.
pub const MIN_RT_UM: u32 = 10;

/// Dead zones run 0..=0.5 mm. The vendor's own slider is bounded there.
pub const MAX_DEAD_ZONE_UM: u32 = 500;

/// The effect the backlight comes back to when nothing else was chosen.
pub const FIRST_EFFECT: u8 = 8;

/// The editable state behind the window.
pub struct Editor {
    /// Configuration interfaces the device thread last reported.
    pub devices: Vec<Candidate>,
    /// The connected keyboard's label, while one is connected.
    pub connected: Option<String>,
    pub info: Option<DeviceInfo>,
    pub game_mode: GameMode,
    /// One entry per firmware slot.
    pub rt: Vec<RtKey>,
    pub led: LedEffect,
    /// One colour per firmware slot.
    pub custom_led: Vec<Rgb>,
    /// One action per firmware slot.
    pub keys: Vec<KeyAction>,
    /// Selected slots; none selected means every key on the board.
    pub selection: HashSet<u8>,
    /// The latest travel frame for each key, while a live view runs.
    pub travel: HashMap<u8, KeyTelemetry>,
    pub monitoring: bool,
    pub calibrating: bool,
    pub connecting: bool,
    pub section: Section,
    pub pane: Pane,
    /// Whether the destructive actions are showing. Off every launch: a
    /// disclosure that remembers being open defeats the point of folding it.
    pub danger_open: bool,
    /// Effect to restore when the backlight is switched back on.
    pub last_mode: u8,
    pub status: String,
    pub error: Option<String>,
}

/// The board's own slots, in layout order.
pub open spec fn board_slot_seq() -> Seq<u8> {
    layout_keys().map_values(|k: KeyCap| k.slot)
}

/// The members of `sel` below `n`, in increasing order.
pub open spec fn members_below(sel: Set<u8>, n: nat) -> Seq<u8>
    decreases n,
{
    if n == 0 {
        Seq::empty()
    } else {
        let rest = members_below(sel, (n - 1) as nat);
        if sel.contains((n - 1) as u8) {
            rest.push((n - 1) as u8)
        } else {
            rest
        }
    }
}

/// The slots an edit reaches: the selection in increasing order, or every
/// key on the board when nothing is selected.
pub open spec fn targets(sel: Set<u8>) -> Seq<u8> {
    if sel.is_empty() {
        board_slot_seq()
    } else {
        members_below(sel, 256)
    }
}

/// An all-zero settings record, what the window shows before a keyboard
/// reports its own.
pub open spec fn blank_game_mode() -> GameMode {
    GameMode {
        game_mode: 0,
        fn_switch: 0,
        sleep_time: 0,
        key_delay: 0,
        report_rate: 0,
        system_mode: 0,
        tft_display_time: 0,
        top_dead_zone_um: 0,
        bottom_dead_zone_um: 0,
        stability_mode: 0,
        auto_calibration: 0,
        single_key_wakeup: 0,
    }
}

pub open spec fn black() -> Rgb {
    Rgb { r: 0, g: 0, b: 0 }
}

/// An all-zero lighting record: dark, until a keyboard reports its own.
pub open spec fn blank_led() -> LedEffect {
    LedEffect {
        mode: 0,
        primary: black(),
        secondary: black(),
        color_mode: 0,
        brightness: 0,
        speed: 0,
        direction: 0,
        effect_mode_type: 0,
    }
}

impl Editor {
    /// Every per-slot table holds one entry per firmware slot.
    pub open spec fn wf(self) -> bool {
        &&& self.rt@.len() == KEY_SLOTS
        &&& self.custom_led@.len() == KEY_SLOTS
        &&& self.keys@.len() == KEY_SLOTS
        &&& self.led.mode != LIGHTS_OFF ==> self.last_mode == self.led.mode
    }

    /// The state the window opens in: nothing connected, every slot at the
    /// firmware's defaults, nothing selected.
    pub fn new() -> (e: Self)
        ensures
            e.wf(),
            e.devices@.len() == 0,
            e.connected is None,
            e.info is None,
            e.game_mode == blank_game_mode(),
            e.rt@ == Seq::new(KEY_SLOTS as nat, |i: int| default_rt_key()),
            e.led == blank_led(),
            e.custom_led@ == Seq::new(KEY_SLOTS as nat, |i: int| black()),
            e.keys@ == Seq::new(KEY_SLOTS as nat, |i: int| default_action()),
            e.selection@ == Set::<u8>::empty(),
            e.travel@ == Map::<u8, KeyTelemetry>::empty(),
            !e.monitoring && !e.calibrating && !e.connecting && !e.danger_open,
            e.section == Section::Keyboard,
            e.pane == Pane::Actuation,
            e.last_mode == FIRST_EFFECT,
            e.status@ == "Searching for a keyboard"@,
            e.error is None,
    {
        let mut rt: Vec<RtKey> = Vec::new();
        let mut custom_led: Vec<Rgb> = Vec::new();
        let mut keys: Vec<KeyAction> = Vec::new();
        let mut i: usize = 0;
        while i < KEY_SLOTS
            invariant
                i <= KEY_SLOTS,
                rt@ == Seq::new(i as nat, |j: int| default_rt_key()),
                custom_led@ == Seq::new(i as nat, |j: int| black()),
                keys@ == Seq::new(i as nat, |j: int| default_action()),
            decreases KEY_SLOTS - i,
        {
            rt.push(RtKey::default());
            custom_led.push(Rgb::new(0, 0, 0));
            keys.push(KeyAction::default());
            i = i + 1;
            assert(rt@ =~= Seq::new(i as nat, |j: int| default_rt_key()));
            assert(custom_led@ =~= Seq::new(i as nat, |j: int| black()));
            assert(keys@ =~= Seq::new(i as nat, |j: int| default_action()));
        }
        Editor {
            devices: Vec::new(),
            connected: None,
            info: None,
            game_mode: GameMode {
                game_mode: 0,
                fn_switch: 0,
                sleep_time: 0,
                key_delay: 0,
                report_rate: 0,
                system_mode: 0,
                tft_display_time: 0,
                top_dead_zone_um: 0,
                bottom_dead_zone_um: 0,
                stability_mode: 0,
                auto_calibration: 0,
                single_key_wakeup: 0,
            },
            rt,
            led: LedEffect {
                mode: 0,
                primary: Rgb::new(0, 0, 0),
                secondary: Rgb::new(0, 0, 0),
                color_mode: 0,
                brightness: 0,
                speed: 0,
                direction: 0,
                effect_mode_type: 0,
            },
            custom_led,
            keys,
            selection: HashSet::new(),
            travel: HashMap::new(),
            monitoring: false,
            calibrating: false,
            connecting: false,
            section: Section::Keyboard,
            pane: Pane::Actuation,
            danger_open: false,
            last_mode: FIRST_EFFECT,
            status: String::from_str("Searching for a keyboard"),
            error: None,
        }
    }

    /// Every key on the board, in layout order.
    pub fn board_slots() -> (v: Vec<u8>)
        ensures
            v@ == board_slot_seq(),
    {
        let keys = all_keys();
        let mut v: Vec<u8> = Vec::new();
        let mut i: usize = 0;
        while i < keys.len()
            invariant
                keys@ == layout_keys(),
                i <= keys@.len(),
                v@ == keys@.take(i as int).map_values(|k: KeyCap| k.slot),
            decreases keys@.len() - i,
        {
            v.push(keys[i].slot);
            i = i + 1;
            assert(v@ =~= keys@.take(i as int).map_values(|k: KeyCap| k.slot));
        }
        assert(keys@.take(keys@.len() as int) =~= keys@);
        v
    }

    /// The slots an edit reaches now.
    pub fn target_slots(&self) -> (v: Vec<u8>)
        ensures
            v@ == targets(self.selection@),
    {
        if self.selection.is_empty() {
            return Self::board_slots();
        }
        let mut v: Vec<u8> = Vec::new();
        let mut n: u16 = 0;
        while n < 256
            invariant
                n <= 256,
                v@ == members_below(self.selection@, n as nat),
            decreases 256 - n,
        {
            let s = n as u8;
            if self.selection.contains(&s) {
                v.push(s);
            }
            n = n + 1;
        }
        v
    }

    /// Select `slot` if it is not selected, deselect it if it is.
    pub fn toggle_key(&mut self, slot: u8)
        ensures
            final(self).selection@ == toggled(old(self).selection@, slot),
            *final(self) == (Editor { selection: final(self).selection, ..*old(self) }),
    {
        if !self.selection.remove(&slot) {
            self.selection.insert(slot);
        }
    }
}


/// A change to a key's actuation settings.
#[derive(Debug, Clone, Copy, PartialEq, Eq)]
pub enum RtEdit {
    /// Set the actuation depth, in micrometres.
    Trigger(u32),
    /// Set the rapid-trigger press delta, in micrometres.
    PressRt(u32),
    /// Set the rapid-trigger release delta, in micrometres.
    ReleaseRt(u32),
    WholeFast(bool),
    Rampage(bool),
    /// Set the switch profile.
    Axis(u8),
    /// Move the actuation depth by this many micrometres, staying inside
    /// the range the firmware accepts.
    NudgeTrigger(i32),
}

/// `v` moved by `delta`, held to `lo..=hi`.
pub open spec fn nudged(v: u32, delta: i32, lo: u32, hi: u32) -> u32 {
    let t = v + delta;
    if t < lo {
        lo
    } else if t > hi {
        hi
    } else {
        t as u32
    }
}

/// What `e` makes of the key `k`.
pub open spec fn edited(k: RtKey, e: RtEdit) -> RtKey {
    match e {
        RtEdit::Trigger(v) => RtKey { trigger_um: v, ..k },
        RtEdit::PressRt(v) => RtKey { press_rt_um: v, ..k },
        RtEdit::ReleaseRt(v) => RtKey { release_rt_um: v, ..k },
        RtEdit::WholeFast(b) => RtKey { whole_fast: b, ..k },
        RtEdit::Rampage(b) => RtKey { rampage: b, ..k },
        RtEdit::Axis(a) => RtKey { axis_type: a, ..k },
        RtEdit::NudgeTrigger(d) => RtKey {
            trigger_um: nudged(k.trigger_um, d, MIN_TRIGGER_UM, MAX_TRIGGER_UM),
            ..k
        },
    }
}

/// `table` with the entries of the slots in `slots` replaced by `f` of
/// themselves; slots the table does not have are passed over.
pub open spec fn rewritten<T>(table: Seq<T>, slots: Seq<u8>, f: spec_fn(T) -> T) -> Seq<T> {
    Seq::new(
        table.len(),
        |i: int|
            if slots.contains(i as u8) {
                f(table[i])
            } else {
                table[i]
            },
    )
}

/// Each actuation edit changes the one setting it names and leaves every
/// other setting of the key as it was: a trigger, press or release edit of
/// `v` sets that distance to `v`; a continuous-rapid-trigger, rampage or
/// profile edit sets that flag or the profile; a nudge by `d` moves the
/// actuation depth by `d` micrometres, held to the range the firmware
/// accepts.
pub proof fn lemma_edit_changes_only_its_setting(k: RtKey, e: RtEdit)
    ensures
        ({
            let r = edited(k, e);
            match e {
                RtEdit::Trigger(v) => {
                    &&& r.trigger_um == v
                    &&& r.press_rt_um == k.press_rt_um && r.release_rt_um == k.release_rt_um
                    &&& r.axis_type == k.axis_type
                    &&& r.whole_fast == k.whole_fast && r.rampage == k.rampage
                },
                RtEdit::PressRt(v) => {
                    &&& r.press_rt_um == v
                    &&& r.trigger_um == k.trigger_um && r.release_rt_um == k.release_rt_um
                    &&& r.axis_type == k.axis_type
                    &&& r.whole_fast == k.whole_fast && r.rampage == k.rampage
                },
                RtEdit::ReleaseRt(v) => {
                    &&& r.release_rt_um == v
                    &&& r.trigger_um == k.trigger_um && r.press_rt_um == k.press_rt_um
                    &&& r.axis_type == k.axis_type
                    &&& r.whole_fast == k.whole_fast && r.rampage == k.rampage
                },
                RtEdit::WholeFast(f) => {
                    &&& r.whole_fast == f
                    &&& r.rampage == k.rampage
                    &&& r.axis_type == k.axis_type
                    &&& r.trigger_um == k.trigger_um && r.press_rt_um == k.press_rt_um
                    &&& r.release_rt_um == k.release_rt_um
                },
                RtEdit::Rampage(f) => {
                    &&& r.rampage == f
                    &&& r.whole_fast == k.whole_fast
                    &&& r.axis_type == k.axis_type
                    &&& r.trigger_um == k.trigger_um && r.press_rt_um == k.press_rt_um
                    &&& r.release_rt_um == k.release_rt_um
                },
                RtEdit::Axis(a) => {
                    &&& r.axis_type == a
                    &&& r.whole_fast == k.whole_fast && r.rampage == k.rampage
                    &&& r.trigger_um == k.trigger_um && r.press_rt_um == k.press_rt_um
                    &&& r.release_rt_um == k.release_rt_um
                },
                RtEdit::NudgeTrigger(d) => {
                    &&& MIN_TRIGGER_UM <= r.trigger_um <= MAX_TRIGGER_UM
                    &&& MIN_TRIGGER_UM <= k.trigger_um + d <= MAX_TRIGGER_UM ==> r.trigger_um
                        == k.trigger_um + d
                    &&& k.trigger_um + d < MIN_TRIGGER_UM ==> r.trigger_um == MIN_TRIGGER_UM
                    &&& k.trigger_um + d > MAX_TRIGGER_UM ==> r.trigger_um == MAX_TRIGGER_UM
                    &&& r.press_rt_um == k.press_rt_um && r.release_rt_um == k.release_rt_um
                    &&& r.axis_type == k.axis_type
                    &&& r.whole_fast == k.whole_fast && r.rampage == k.rampage
                },
            }
        }),
{
}

/// A release-sensitivity edit of `v` sets the release delta of every slot
/// it reaches to `v` and leaves that slot's press delta, actuation depth,
/// profile and flags as they were; slots it does not reach are unchanged.
pub proof fn lemma_release_edit_reaches_release_only(table: Seq<RtKey>, sel: Set<u8>, v: u32)
    ensures
        ({
            let t = rewritten(table, targets(sel), |k: RtKey| edited(k, RtEdit::ReleaseRt(v)));
            &&& t.len() == table.len()
            &&& forall|i: int|
                0 <= i < table.len() && targets(sel).contains(i as u8) ==> {
                    &&& (#[trigger] t[i]).release_rt_um == v
                    &&& t[i].press_rt_um == table[i].press_rt_um
                    &&& t[i].trigger_um == table[i].trigger_um
                    &&& t[i].axis_type == table[i].axis_type
                    &&& t[i].whole_fast == table[i].whole_fast
                    &&& t[i].rampage == table[i].rampage
                }
            &&& forall|i: int|
                0 <= i < table.len() && !targets(sel).contains(i as u8) ==> #[trigger] t[i]
                    == table[i]
        }),
{
}

/// A press-sensitivity edit of `v` sets the press delta of every slot it
/// reaches to `v` and leaves that slot's release delta, actuation depth,
/// profile and flags as they were; slots it does not reach are unchanged.
pub proof fn lemma_press_edit_reaches_press_only(table: Seq<RtKey>, sel: Set<u8>, v: u32)
    ensures
        ({
            let t = rewritten(table, targets(sel), |k: RtKey| edited(k, RtEdit::PressRt(v)));
            &&& t.len() == table.len()
            &&& forall|i: int|
                0 <= i < table.len() && targets(sel).contains(i as u8) ==> {
                    &&& (#[trigger] t[i]).press_rt_um == v
                    &&& t[i].release_rt_um == table[i].release_rt_um
                    &&& t[i].trigger_um == table[i].trigger_um
                    &&& t[i].axis_type == table[i].axis_type
                    &&& t[i].whole_fast == table[i].whole_fast
                    &&& t[i].rampage == table[i].rampage
                }
            &&& forall|i: int|
                0 <= i < table.len() && !targets(sel).contains(i as u8) ==> #[trigger] t[i]
                    == table[i]
        }),
{
}

/// The selection in increasing order, the board's slots in layout order:
/// either way, no slot comes twice.
pub proof fn lemma_targets_unique(sel: Set<u8>)
    ensures
        targets(sel).no_duplicates(),
{
    if sel.is_empty() {
        crate::layout::lemma_slots_unique_and_addressable();
    } else {
        lemma_members_below(sel, 256);
    }
}

/// With nothing selected, an edit reaches every key on the board and no
/// other slot.
pub proof fn lemma_no_selection_reaches_the_board(sel: Set<u8>)
    requires
        sel.is_empty(),
    ensures
        forall|s: u8|
            targets(sel).contains(s) <==> exists|i: int|
                0 <= i < layout_keys().len() && (#[trigger] layout_keys()[i]).slot == s,
{
    let t = targets(sel);
    assert forall|s: u8| t.contains(s) <==> exists|i: int|
        0 <= i < layout_keys().len() && (#[trigger] layout_keys()[i]).slot == s by {
        if t.contains(s) {
            let i = choose|i: int| 0 <= i < t.len() && t[i] == s;
            assert(layout_keys()[i].slot == s);
        }
        if exists|i: int| 0 <= i < layout_keys().len() && (#[trigger] layout_keys()[i]).slot == s {
            let i = choose|i: int|
                0 <= i < layout_keys().len() && (#[trigger] layout_keys()[i]).slot == s;
            assert(t[i] == s);
        }
    }
}

/// With keys selected, an edit reaches exactly the selected keys.
pub proof fn lemma_selection_reaches_itself(sel: Set<u8>)
    requires
        !sel.is_empty(),
    ensures
        forall|s: u8| targets(sel).contains(s) <==> sel.contains(s),
{
    lemma_members_below(sel, 256);
}

/// `members_below(sel, n)` lists exactly the members of `sel` below `n`, in
/// strictly increasing order.
pub proof fn lemma_members_below(sel: Set<u8>, n: nat)
    requires
        n <= 256,
    ensures
        forall|i: int| 0 <= i < members_below(sel, n).len() ==> (#[trigger] members_below(sel, n)[i]) < n,
        forall|i: int, j: int|
            0 <= i < j < members_below(sel, n).len() ==> (#[trigger] members_below(sel, n)[i]) < (
            #[trigger] members_below(sel, n)[j]),
        forall|x: u8| x < n ==> (members_below(sel, n).contains(x) <==> #[trigger] sel.contains(x)),
        members_below(sel, n).no_duplicates(),
    decreases n,
{
    if n > 0 {
        lemma_members_below(sel, (n - 1) as nat);
        let rest = members_below(sel, (n - 1) as nat);
        let m = members_below(sel, n);
        assert forall|x: u8| x < n implies (m.contains(x) <==> #[trigger] sel.contains(x)) by {
            if sel.contains((n - 1) as u8) {
                assert(m == rest.push((n - 1) as u8));
                if x == n - 1 {
                    assert(m[rest.len() as int] == x);
                } else if m.contains(x) {
                    let k = choose|k: int| 0 <= k < m.len() && m[k] == x;
                    assert(k < rest.len());
                    assert(rest[k] == x);
                } else if rest.contains(x) {
                    let k = choose|k: int| 0 <= k < rest.len() && rest[k] == x;
                    assert(m[k] == x);
                }
            } else {
                if x == n - 1 {
                    if rest.contains(x) {
                        let k = choose|k: int| 0 <= k < rest.len() && rest[k] == x;
                        assert(rest[k] < n - 1);
                    }
                }
            }
        }
    }
}

impl Editor {
    /// Select every key on the board.
    pub fn select_all(&mut self)
        ensures
            final(self).selection@ == board_slot_seq().to_set(),
            *final(self) == (Editor { selection: final(self).selection, ..*old(self) }),
    {
        let slots = Self::board_slots();
        let mut sel: HashSet<u8> = HashSet::new();
        let mut i: usize = 0;
        while i < slots.len()
            invariant
                slots@ == board_slot_seq(),
                i <= slots@.len(),
                sel@ == slots@.take(i as int).to_set(),
            decreases slots@.len() - i,
        {
            sel.insert(slots[i]);
            proof {
                lemma_take_one_more(slots@, i as int);
            }
            i = i + 1;
            assert(sel@ =~= slots@.take(i as int).to_set());
        }
        assert(slots@.take(slots@.len() as int) =~= slots@);
        self.selection = sel;
    }

    /// Apply `edit` to every key the edit reaches.
    pub fn edit_rt(&mut self, edit: RtEdit)
        requires
            old(self).wf(),
        ensures
            final(self).wf(),
            final(self).rt@ == rewritten(
                old(self).rt@,
                targets(old(self).selection@),
                |k: RtKey| edited(k, edit),
            ),
            edit matches RtEdit::ReleaseRt(v) ==> forall|i: int|
                0 <= i < old(self).rt@.len() && targets(old(self).selection@).contains(i as u8)
                    ==> (#[trigger] final(self).rt@[i]).release_rt_um == v
                    && final(self).rt@[i].press_rt_um == old(self).rt@[i].press_rt_um,
            edit matches RtEdit::PressRt(v) ==> forall|i: int|
                0 <= i < old(self).rt@.len() && targets(old(self).selection@).contains(i as u8)
                    ==> (#[trigger] final(self).rt@[i]).press_rt_um == v
                    && final(self).rt@[i].release_rt_um == old(self).rt@[i].release_rt_um,
            *final(self) == (Editor { rt: final(self).rt, ..*old(self) }),
    {
        proof {
            if let RtEdit::ReleaseRt(v) = edit {
                lemma_release_edit_reaches_release_only(self.rt@, self.selection@, v);
            }
            if let RtEdit::PressRt(v) = edit {
                lemma_press_edit_reaches_press_only(self.rt@, self.selection@, v);
            }
        }
        let slots = self.target_slots();
        proof {
            lemma_targets_unique(self.selection@);
        }
        let ghost before = self.rt@;
        let ghost f = |k: RtKey| edited(k, edit);
        let mut j: usize = 0;
        while j < slots.len()
            invariant
                slots@ == targets(old(self).selection@),
                slots@.no_duplicates(),
                j <= slots@.len(),
                before == old(self).rt@,
                before.len() == KEY_SLOTS,
                f == (|k: RtKey| edited(k, edit)),
                self.rt@ == rewritten(before, slots@.take(j as int), f),
                *self == (Editor { rt: self.rt, ..*old(self) }),
            decreases slots@.len() - j,
        {
            let s = slots[j] as usize;
            proof {
                lemma_take_one_more(slots@, j as int);
                if slots@.take(j as int).contains(slots@[j as int]) {
                    let m = choose|m: int|
                        0 <= m < j && slots@.take(j as int)[m] == slots@[j as int];
                    assert(slots@[m] == slots@[j as int]);
                }
            }
            let ghost prev = self.rt@;
            if s < self.rt.len() {
                let k = self.rt[s];
                let k2 = apply_rt_edit(k, edit);
                self.rt.set(s, k2);
            }
            j = j + 1;
            assert forall|i: int| 0 <= i < before.len() implies #[trigger] self.rt@[i]
                == rewritten(before, slots@.take(j as int), f)[i] by {
                if i == s {
                    assert(slots@.take(j as int)[j - 1] == i as u8);
                    assert(!slots@.take(j - 1).contains(i as u8));
                } else {
                    assert((i as u8) != slots@[j - 1]);
                }
            }
            assert(self.rt@ =~= rewritten(before, slots@.take(j as int), f));
        }
        assert(slots@.take(slots@.len() as int) =~= slots@);
    }

    /// Move the actuation depth of every key the edit reaches by `delta_um`,
    /// held to the range the firmware accepts.
    pub fn nudge_trigger(&mut self, delta_um: i32)
        requires
            old(self).wf(),
        ensures
            final(self).wf(),
            final(self).rt@ == rewritten(
                old(self).rt@,
                targets(old(self).selection@),
                |k: RtKey| edited(k, RtEdit::NudgeTrigger(delta_um)),
            ),
            *final(self) == (Editor { rt: final(self).rt, ..*old(self) }),
    {
        self.edit_rt(RtEdit::NudgeTrigger(delta_um));
    }
}

/// One more element of `s` taken adds exactly that element.
proof fn lemma_take_one_more<T>(s: Seq<T>, j: int)
    requires
        0 <= j < s.len(),
    ensures
        forall|x: T|
            s.take(j + 1).contains(x) <==> (s.take(j).contains(x) || x == s[j]),
{
    assert forall|x: T| s.take(j + 1).contains(x) <==> (s.take(j).contains(x) || x == s[j]) by {
        if s.take(j + 1).contains(x) {
            let m = choose|m: int| 0 <= m < j + 1 && #[trigger] s.take(j + 1)[m] == x;
            if m < j {
                assert(s.take(j)[m] == x);
            }
        }
        if s.take(j).contains(x) {
            let m = choose|m: int| 0 <= m < j && #[trigger] s.take(j)[m] == x;
            assert(s.take(j + 1)[m] == x);
        }
        if x == s[j] {
            assert(s.take(j + 1)[j] == x);
        }
    }
}

fn apply_rt_edit(k: RtKey, e: RtEdit) -> (r: RtKey)
    ensures
        r == edited(k, e),
{
    match e {
        RtEdit::Trigger(v) => RtKey { trigger_um: v, ..k },
        RtEdit::PressRt(v) => RtKey { press_rt_um: v, ..k },
        RtEdit::ReleaseRt(v) => RtKey { release_rt_um: v, ..k },
        RtEdit::WholeFast(b) => RtKey { whole_fast: b, ..k },
        RtEdit::Rampage(b) => RtKey { rampage: b, ..k },
        RtEdit::Axis(a) => RtKey { axis_type: a, ..k },
        RtEdit::NudgeTrigger(d) => {
            let t: i64 = k.trigger_um as i64 + d as i64;
            let v: u32 = if t < MIN_TRIGGER_UM as i64 {
                MIN_TRIGGER_UM
            } else if t > MAX_TRIGGER_UM as i64 {
                MAX_TRIGGER_UM
            } else {
                t as u32
            };
            RtKey { trigger_um: v, ..k }
        },
    }
}


/// Which distance of a key a readout shows.
#[derive(Debug, Clone, Copy, PartialEq, Eq)]
pub enum RtField {
    Trigger,
    PressRt,
    ReleaseRt,
}

pub open spec fn field_um(k: RtKey, f: RtField) -> u32 {
    match f {
        RtField::Trigger => k.trigger_um,
        RtField::PressRt => k.press_rt_um,
        RtField::ReleaseRt => k.release_rt_um,
    }
}

/// The values `f` takes over the slots of `slots` that `rt` has, in order.
pub open spec fn slot_values(rt: Seq<RtKey>, slots: Seq<u8>, f: RtField) -> Seq<u32>
    decreases slots.len(),
{
    if slots.len() == 0 {
        Seq::empty()
    } else {
        let rest = slot_values(rt, slots.drop_last(), f);
        let s = slots.last() as int;
        if s < rt.len() {
            rest.push(field_um(rt[s], f))
        } else {
            rest
        }
    }
}

/// A distance in micrometres, in hundredths of a millimetre, halves rounded
/// up.
pub open spec fn hundredths(um: u32) -> nat {
    ((um + 5) / 10) as nat
}

/// A distance as millimetres with two decimals, such as `1.20 mm`.
pub open spec fn mm_text(um: u32) -> Seq<char> {
    let h = hundredths(um);
    decimal(h / 100) + seq!['.', digit_char((h % 100) / 10), digit_char(h % 10)] + " mm"@
}

/// A distance readout is the distance in hundredths of a millimetre,
/// rounded half up: the decimal digits before the point give the whole
/// millimetres, the two after it the hundredths, and ` mm` ends it.
pub proof fn lemma_mm_text_reads_back(um: u32)
    ensures
        ({
            let t = mm_text(um);
            let n = t.len() as int;
            &&& n >= 7
            &&& t[n - 6] == '.'
            &&& t.subrange(n - 3, n) == " mm"@
            &&& digits_value(t.take(n - 6), 10) * 100 + digits_value(t.subrange(n - 5, n - 3), 10)
                == (um + 5) / 10
        }),
{
    reveal_strlit(" mm");
    let h = hundredths(um);
    let d = decimal(h / 100);
    let t = mm_text(um);
    let n = t.len() as int;
    lemma_decimal_reads_back(h / 100);
    lemma_digit_chars((h % 100) / 10);
    lemma_digit_chars(h % 10);
    assert(t.take(n - 6) =~= d);
    assert(t.subrange(n - 3, n) =~= " mm"@);
    let two = t.subrange(n - 5, n - 3);
    assert(two =~= Seq::<char>::empty() + seq![digit_char((h % 100) / 10)] + seq![digit_char(h % 10)]);
    lemma_digits_value_push(Seq::<char>::empty(), digit_char((h % 100) / 10), 10);
    lemma_digits_value_push(
        Seq::<char>::empty() + seq![digit_char((h % 100) / 10)],
        digit_char(h % 10),
        10,
    );
}

/// What a readout says of the values it covers: a dash for none, `Mixed`
/// when they disagree rather than whichever happens to come first, and the
/// shared value otherwise.
pub open spec fn readout_text(vals: Seq<u32>) -> Seq<char> {
    if vals.len() == 0 {
        "\u{2014}"@
    } else if exists|i: int| 0 <= i < vals.len() && #[trigger] vals[i] != vals[0] {
        "Mixed"@
    } else {
        mm_text(vals[0])
    }
}

/// The key whose settings the controls show: the first the edit reaches,
/// or the firmware's defaults when that is not a slot.
pub open spec fn probe_of(rt: Seq<RtKey>, sel: Set<u8>) -> RtKey {
    let t = targets(sel);
    if t.len() > 0 && (t[0] as int) < rt.len() {
        rt[t[0] as int]
    } else {
        default_rt_key()
    }
}

/// `v` held to the lighting levels the firmware honours.
pub open spec fn clamp_level(v: u8) -> u8 {
    if v < MIN_LEVEL {
        MIN_LEVEL
    } else if v > MAX_LEVEL {
        MAX_LEVEL
    } else {
        v
    }
}

/// `e` with its brightness and speed held to the levels the firmware
/// honours. A board can come back holding a level outside that range; one
/// of those is never written back.
pub open spec fn held_to_levels(e: LedEffect) -> LedEffect {
    LedEffect { brightness: clamp_level(e.brightness), speed: clamp_level(e.speed), ..e }
}

/// Whether `err` tells the user that no keyboard is connected.
pub open spec fn says_no_keyboard(err: Option<String>) -> bool {
    err matches Some(m) && m@ == "No keyboard connected"@
}

/// Whether `err` asks the user to select a key.
pub open spec fn says_select_a_key(err: Option<String>) -> bool {
    err matches Some(m) && m@ == "Select a key first"@
}

/// The lighting record after the backlight switch is set to `on`: the
/// remembered effect when switched on, the firmware's own "off" otherwise.
pub open spec fn backlight(led: LedEffect, last: u8, on: bool) -> LedEffect {
    held_to_levels(
        LedEffect {
            mode: if on {
                last
            } else {
                LIGHTS_OFF
            },
            ..led
        },
    )
}

/// A selection with `slot` toggled.
pub open spec fn toggled(sel: Set<u8>, slot: u8) -> Set<u8> {
    if sel.contains(slot) {
        sel.remove(slot)
    } else {
        sel.insert(slot)
    }
}

/// Switching the backlight off and on again brings back the effect that was
/// showing, at levels the firmware honours.
pub proof fn lemma_backlight_off_on_restores(led: LedEffect, last: u8)
    requires
        led.mode != LIGHTS_OFF,
        last == led.mode,
    ensures
        backlight(backlight(led, last, false), last, true) == held_to_levels(led),
{
}

/// Clicking a key twice leaves the selection as it was.
pub proof fn lemma_toggle_twice(sel: Set<u8>, slot: u8)
    ensures
        toggled(toggled(sel, slot), slot) == sel,
{
    if sel.contains(slot) {
        assert(sel.remove(slot).insert(slot) =~= sel);
    } else {
        assert(sel.insert(slot).remove(slot) =~= sel);
    }
}

/// Set every entry of `table` that `slots` names to `value`.
fn fill_targets<T: Copy>(table: &mut Vec<T>, slots: &Vec<u8>, value: T)
    requires
        old(table)@.len() == KEY_SLOTS,
    ensures
        final(table)@ == rewritten(old(table)@, slots@, |x: T| value),
{
    let ghost before = table@;
    let mut j: usize = 0;
    while j < slots.len()
        invariant
            j <= slots@.len(),
            before == old(table)@,
            before.len() == KEY_SLOTS,
            table@ == rewritten(before, slots@.take(j as int), |x: T| value),
        decreases slots@.len() - j,
    {
        let s = slots[j] as usize;
        proof {
            lemma_take_one_more(slots@, j as int);
        }
        let ghost prev = table@;
        if s < table.len() {
            table.set(s, value);
        }
        j = j + 1;
        assert forall|i: int| 0 <= i < before.len() implies #[trigger] table@[i] == rewritten(
            before,
            slots@.take(j as int),
            |x: T| value,
        )[i] by {
            if i == s {
                assert(slots@.take(j as int)[j - 1] == i as u8);
            } else {
                assert((i as u8) != slots@[j - 1]);
            }
        }
        assert(table@ =~= rewritten(before, slots@.take(j as int), |x: T| value));
    }
    assert(slots@.take(slots@.len() as int) =~= slots@);
}

fn field_value(k: RtKey, f: RtField) -> (v: u32)
    ensures
        v == field_um(k, f),
{
    match f {
        RtField::Trigger => k.trigger_um,
        RtField::PressRt => k.press_rt_um,
        RtField::ReleaseRt => k.release_rt_um,
    }
}

/// A distance as millimetres with two decimals and the unit.
pub fn mm_string(um: u32) -> (s: String)
    ensures
        s@ == mm_text(um),
{
    let mut s = String::new();
    push_mm(&mut s, um);
    s
}

/// Append `um` as millimetres with two decimals and the unit.
fn push_mm(s: &mut String, um: u32)
    ensures
        final(s)@ == old(s)@ + mm_text(um),
{
    let h: u64 = (um as u64 + 5) / 10;
    push_decimal(s, h / 100);
    s.append(".");
    s.append(digit_str(((h % 100) / 10) as u8));
    s.append(digit_str((h % 10) as u8));
    s.append(" mm");
    proof {
        reveal_strlit(".");
    }
    assert(s@ =~= old(s)@ + mm_text(um));
}

impl Editor {
    /// The key whose settings the actuation controls show.
    pub fn rt_probe(&self) -> (k: RtKey)
        ensures
            k == probe_of(self.rt@, self.selection@),
    {
        let slots = self.target_slots();
        if slots.len() > 0 && (slots[0] as usize) < self.rt.len() {
            self.rt[slots[0] as usize]
        } else {
            RtKey::default()
        }
    }

    /// The actuation depth the controls show, in micrometres.
    pub fn probe_trigger_um(&self) -> (um: u32)
        ensures
            um == probe_of(self.rt@, self.selection@).trigger_um,
    {
        self.rt_probe().trigger_um
    }

    /// The readout of one distance over every key the edit reaches.
    pub fn readout(&self, field: RtField) -> (s: String)
        ensures
            s@ == readout_text(slot_values(self.rt@, targets(self.selection@), field)),
    {
        let slots = self.target_slots();
        let mut first: Option<u32> = None;
        let mut mixed = false;
        let mut j: usize = 0;
        while j < slots.len()
            invariant
                j <= slots@.len(),
                ({
                    let vals = slot_values(self.rt@, slots@.take(j as int), field);
                    &&& (vals.len() == 0 <==> first is None)
                    &&& (first matches Some(f0) ==> f0 == vals[0])
                    &&& mixed == exists|i: int| 0 <= i < vals.len() && #[trigger] vals[i] != vals[0]
                }),
            decreases slots@.len() - j,
        {
            let ghost vals = slot_values(self.rt@, slots@.take(j as int), field);
            assert(slots@.take(j + 1).drop_last() =~= slots@.take(j as int));
            let s = slots[j] as usize;
            if s < self.rt.len() {
                let v = field_value(self.rt[s], field);
                let ghost nv = vals.push(v);
                match first {
                    None => {
                        first = Some(v);
                        assert(!exists|i: int| 0 <= i < nv.len() && #[trigger] nv[i] != nv[0]);
                    },
                    Some(f0) => {
                        if v != f0 {
                            mixed = true;
                            assert(nv[vals.len() as int] != nv[0]);
                        } else {
                            proof {
                                if exists|i: int| 0 <= i < nv.len() && #[trigger] nv[i] != nv[0] {
                                    let i = choose|i: int| 0 <= i < nv.len() && #[trigger] nv[i] != nv[0];
                                    assert(vals[i] != vals[0]);
                                }
                                if exists|i: int| 0 <= i < vals.len() && #[trigger] vals[i] != vals[0] {
                                    let i = choose|i: int|
                                        0 <= i < vals.len() && #[trigger] vals[i] != vals[0];
                                    assert(nv[i] != nv[0]);
                                }
                            }
                        }
                    },
                }
                assert(slot_values(self.rt@, slots@.take(j + 1), field) == nv);
            }
            j = j + 1;
        }
        assert(slots@.take(slots@.len() as int) =~= slots@);
        match first {
            None => String::from_str("\u{2014}"),
            Some(f0) => if mixed {
                String::from_str("Mixed")
            } else {
                let mut s = String::new();
                push_mm(&mut s, f0);
                s
            },
        }
    }

    /// Whether a keyboard is connected; when none is, say so.
    pub fn require_device(&mut self) -> (ok: bool)
        ensures
            ok == old(self).connected is Some,
            ok ==> *final(self) == *old(self),
            !ok ==> says_no_keyboard(final(self).error) && *final(self) == (Editor {
                error: final(self).error,
                ..*old(self)
            }),
    {
        if self.connected.is_some() {
            true
        } else {
            self.error = Some(String::from_str("No keyboard connected"));
            false
        }
    }

    /// Send the lighting record to the keyboard, with its levels held to the
    /// range the firmware honours.
    pub fn push_led(&mut self) -> (c: Option<Cmd>)
        requires
            old(self).wf(),
        ensures
            final(self).wf(),
            final(self).led == held_to_levels(old(self).led),
            old(self).connected is Some ==> c == Some(Cmd::ApplyLed(final(self).led))
                && final(self).error == old(self).error,
            old(self).connected is None ==> c is None && says_no_keyboard(final(self).error),
            c matches Some(Cmd::ApplyLed(l)) ==> MIN_LEVEL <= l.brightness <= MAX_LEVEL
                && MIN_LEVEL <= l.speed <= MAX_LEVEL,
            *final(self) == (Editor {
                led: final(self).led,
                error: final(self).error,
                ..*old(self)
            }),
    {
        self.led.brightness = hold_level(self.led.brightness);
        self.led.speed = hold_level(self.led.speed);
        if self.connected.is_some() {
            Some(Cmd::ApplyLed(self.led))
        } else {
            self.error = Some(String::from_str("No keyboard connected"));
            None
        }
    }

    /// Colour every key the edit reaches, and send the per-key table.
    pub fn paint(&mut self, color: Rgb) -> (c: Option<Cmd>)
        requires
            old(self).wf(),
        ensures
            final(self).wf(),
            final(self).custom_led@ == rewritten(
                old(self).custom_led@,
                targets(old(self).selection@),
                |x: Rgb| color,
            ),
            old(self).connected is Some ==> (c matches Some(Cmd::ApplyCustomLed(v)) && v@
                == final(self).custom_led@) && final(self).error == old(self).error,
            old(self).connected is None ==> c is None && says_no_keyboard(final(self).error),
            *final(self) == (Editor {
                custom_led: final(self).custom_led,
                error: final(self).error,
                ..*old(self)
            }),
    {
        let slots = self.target_slots();
        fill_targets(&mut self.custom_led, &slots, color);
        if self.connected.is_some() {
            let v = copy_table(&self.custom_led);
            Some(Cmd::ApplyCustomLed(v))
        } else {
            self.error = Some(String::from_str("No keyboard connected"));
            None
        }
    }

    /// Apply a chosen colour wherever the current effect says it belongs:
    /// to the selected keys in per-key mode, to the effect otherwise. The
    /// firmware ignores an effect's colour unless told to use it, so the
    /// effect is switched to its own colour too.
    pub fn choose_color(&mut self, color: Rgb) -> (c: Option<Cmd>)
        requires
            old(self).wf(),
        ensures
            final(self).wf(),
            old(self).led.mode == CUSTOM_LIGHTING ==> {
                &&& final(self).custom_led@ == rewritten(
                    old(self).custom_led@,
                    targets(old(self).selection@),
                    |x: Rgb| color,
                )
                &&& old(self).connected is Some ==> (c matches Some(Cmd::ApplyCustomLed(v)) && v@
                    == final(self).custom_led@) && final(self).error == old(self).error
                &&& *final(self) == (Editor {
                    custom_led: final(self).custom_led,
                    error: final(self).error,
                    ..*old(self)
                })
            },
            old(self).led.mode != CUSTOM_LIGHTING ==> {
                &&& final(self).led == held_to_levels(
                    LedEffect { color_mode: COLOR_CUSTOM, primary: color, ..old(self).led },
                )
                &&& old(self).connected is Some ==> c == Some(Cmd::ApplyLed(final(self).led))
                    && final(self).error == old(self).error
                &&& *final(self) == (Editor {
                    led: final(self).led,
                    error: final(self).error,
                    ..*old(self)
                })
            },
            old(self).connected is None ==> c is None && says_no_keyboard(final(self).error),
    {
        if self.led.mode == CUSTOM_LIGHTING {
            self.paint(color)
        } else {
            self.led.color_mode = COLOR_CUSTOM;
            self.led.primary = color;
            self.push_led()
        }
    }

    /// Give every selected key `action`. With nothing selected this would
    /// remap the whole board, so it asks for a selection instead.
    pub fn assign(&mut self, action: KeyAction)
        requires
            old(self).wf(),
        ensures
            final(self).wf(),
            old(self).selection@.is_empty() ==> says_select_a_key(final(self).error)
                && *final(self) == (Editor { error: final(self).error, ..*old(self) }),
            !old(self).selection@.is_empty() ==> {
                &&& final(self).keys@ == rewritten(
                    old(self).keys@,
                    targets(old(self).selection@),
                    |a: KeyAction| action,
                )
                &&& final(self).error is None
                &&& *final(self) == (Editor {
                    keys: final(self).keys,
                    error: final(self).error,
                    ..*old(self)
                })
            },
    {
        if self.selection.is_empty() {
            self.error = Some(String::from_str("Select a key first"));
            return;
        }
        self.error = None;
        let slots = self.target_slots();
        fill_targets(&mut self.keys, &slots, action);
    }

    /// Put every selected key back to what its legend says.
    pub fn restore_default_keys(&mut self)
        requires
            old(self).wf(),
        ensures
            final(self).wf(),
            old(self).selection@.is_empty() ==> says_select_a_key(final(self).error)
                && *final(self) == (Editor { error: final(self).error, ..*old(self) }),
            !old(self).selection@.is_empty() ==> {
                &&& final(self).keys@ == rewritten(
                    old(self).keys@,
                    targets(old(self).selection@),
                    |a: KeyAction| default_action(),
                )
                &&& final(self).error is None
                &&& *final(self) == (Editor {
                    keys: final(self).keys,
                    error: final(self).error,
                    ..*old(self)
                })
            },
    {
        self.assign(KeyAction::disabled());
    }

    /// Switch the backlight on, to the effect it last showed, or off.
    pub fn set_backlight(&mut self, on: bool) -> (c: Option<Cmd>)
        requires
            old(self).wf(),
        ensures
            final(self).wf(),
            final(self).led == backlight(old(self).led, old(self).last_mode, on),
            old(self).connected is Some ==> c == Some(Cmd::ApplyLed(final(self).led))
                && final(self).error == old(self).error,
            old(self).connected is None ==> c is None && says_no_keyboard(final(self).error),
            *final(self) == (Editor {
                led: final(self).led,
                error: final(self).error,
                ..*old(self)
            }),
    {
        self.led.mode = if on {
            self.last_mode
        } else {
            LIGHTS_OFF
        };
        self.push_led()
    }

    /// Show effect `mode`, and remember it for when the backlight comes back
    /// on.
    pub fn choose_effect(&mut self, mode: u8) -> (c: Option<Cmd>)
        requires
            old(self).wf(),
        ensures
            final(self).wf(),
            final(self).led == held_to_levels(LedEffect { mode, ..old(self).led }),
            final(self).last_mode == mode,
            old(self).connected is Some ==> c == Some(Cmd::ApplyLed(final(self).led))
                && final(self).error == old(self).error,
            old(self).connected is None ==> c is None && says_no_keyboard(final(self).error),
            *final(self) == (Editor {
                led: final(self).led,
                last_mode: mode,
                error: final(self).error,
                ..*old(self)
            }),
    {
        self.led.mode = mode;
        self.last_mode = mode;
        self.push_led()
    }

    /// Let the keyboard pick its own colours, or use the effect's.
    pub fn set_auto_color(&mut self, auto: bool) -> (c: Option<Cmd>)
        requires
            old(self).wf(),
        ensures
            final(self).wf(),
            final(self).led == held_to_levels(
                LedEffect {
                    color_mode: if auto {
                        COLOR_AUTO
                    } else {
                        COLOR_CUSTOM
                    },
                    ..old(self).led
                },
            ),
            old(self).connected is Some ==> c == Some(Cmd::ApplyLed(final(self).led))
                && final(self).error == old(self).error,
            old(self).connected is None ==> c is None && says_no_keyboard(final(self).error),
            *final(self) == (Editor {
                led: final(self).led,
                error: final(self).error,
                ..*old(self)
            }),
    {
        self.led.color_mode = if auto {
            COLOR_AUTO
        } else {
            COLOR_CUSTOM
        };
        self.push_led()
    }

    /// Set the direction a directional effect travels in.
    pub fn set_direction(&mut self, direction: u8) -> (c: Option<Cmd>)
        requires
            old(self).wf(),
        ensures
            final(self).wf(),
            final(self).led == held_to_levels(LedEffect { direction, ..old(self).led }),
            old(self).connected is Some ==> c == Some(Cmd::ApplyLed(final(self).led))
                && final(self).error == old(self).error,
            old(self).connected is None ==> c is None && says_no_keyboard(final(self).error),
            *final(self) == (Editor {
                led: final(self).led,
                error: final(self).error,
                ..*old(self)
            }),
    {
        self.led.direction = direction;
        self.push_led()
    }
}

/// Which way a key press moves a stepped lighting control: to either end,
/// one level down or up, or nowhere.
#[derive(Debug, Clone, Copy, PartialEq, Eq)]
pub enum LevelStep {
    First,
    Last,
    Down,
    Up,
    Stay,
}

/// The level a key press leaves a stepped control at. Taking the direction
/// rather than the track position steps reliably: a track divided one way
/// for the keyboard and another for the pointer would otherwise round an
/// arrow press back to where it started.
pub open spec fn stepped(current: u8, step: LevelStep) -> u8 {
    match step {
        LevelStep::First => MIN_LEVEL,
        LevelStep::Last => MAX_LEVEL,
        LevelStep::Down => if current <= MIN_LEVEL {
            MIN_LEVEL
        } else {
            (current - 1) as u8
        },
        LevelStep::Up => if current >= MAX_LEVEL {
            MAX_LEVEL
        } else {
            (current + 1) as u8
        },
        LevelStep::Stay => current,
    }
}

pub fn step_level(current: u8, step: LevelStep) -> (v: u8)
    ensures
        v == stepped(current, step),
{
    match step {
        LevelStep::First => MIN_LEVEL,
        LevelStep::Last => MAX_LEVEL,
        LevelStep::Down => if current <= MIN_LEVEL {
            MIN_LEVEL
        } else {
            current - 1
        },
        LevelStep::Up => if current >= MAX_LEVEL {
            MAX_LEVEL
        } else {
            current + 1
        },
        LevelStep::Stay => current,
    }
}

/// A level read off a dragged track, held to the levels the firmware
/// honours.
pub fn hold_level(v: u8) -> (r: u8)
    ensures
        r == clamp_level(v),
{
    if v < MIN_LEVEL {
        MIN_LEVEL
    } else if v > MAX_LEVEL {
        MAX_LEVEL
    } else {
        v
    }
}

/// After a batch of travel frames, a key shows the last frame the batch held
/// for it.
pub proof fn lemma_latest_frame_wins(m: Map<u8, KeyTelemetry>, frames: Seq<KeyTelemetry>, i: int)
    requires
        0 <= i < frames.len(),
        forall|j: int| i < j < frames.len() ==> (#[trigger] frames[j]).key_index != frames[i].key_index,
    ensures
        with_frames(m, frames).dom().contains(frames[i].key_index),
        with_frames(m, frames)[frames[i].key_index] == frames[i],
    decreases frames.len(),
{
    if i < frames.len() - 1 {
        let rest = frames.drop_last();
        assert forall|j: int| i < j < rest.len() implies (#[trigger] rest[j]).key_index
            != rest[i].key_index by {
            assert(rest[j] == frames[j]);
        }
        lemma_latest_frame_wins(m, rest, i);
        assert(frames.last().key_index != frames[i].key_index);
    }
}

/// A batch of travel frames leaves every key it does not mention as it was.
pub proof fn lemma_unmentioned_keys_keep_their_travel(
    m: Map<u8, KeyTelemetry>,
    frames: Seq<KeyTelemetry>,
    key: u8,
)
    requires
        forall|j: int| 0 <= j < frames.len() ==> (#[trigger] frames[j]).key_index != key,
    ensures
        with_frames(m, frames).dom().contains(key) == m.dom().contains(key),
        m.dom().contains(key) ==> with_frames(m, frames)[key] == m[key],
    decreases frames.len(),
{
    if frames.len() > 0 {
        let rest = frames.drop_last();
        assert forall|j: int| 0 <= j < rest.len() implies (#[trigger] rest[j]).key_index != key by {
            assert(rest[j] == frames[j]);
        }
        lemma_unmentioned_keys_keep_their_travel(m, rest, key);
        assert(frames.last().key_index != key);
    }
}

/// A copy of a per-slot table, to hand to the device thread.
fn copy_table<T: Copy>(v: &Vec<T>) -> (c: Vec<T>)
    ensures
        c@ == v@,
{
    let mut c: Vec<T> = Vec::new();
    let mut i: usize = 0;
    while i < v.len()
        invariant
            i <= v@.len(),
            c@ == v@.take(i as int),
        decreases v@.len() - i,
    {
        c.push(v[i]);
        i = i + 1;
        assert(c@ =~= v@.take(i as int));
    }
    assert(v@.take(v@.len() as int) =~= v@);
    c
}


/// What the window shows for a key the keyboard reports: the entry itself,
/// or the firmware's defaults for a never-configured one, so a 0.00 mm
/// actuation point can never be shown or written back.
pub open spec fn usable_key(k: RtKey) -> RtKey {
    if k.unconfigured() {
        default_rt_key()
    } else {
        k
    }
}

/// Whether `after` shows what `snap` reported, one entry per firmware slot,
/// with the effect it showed remembered for the backlight switch.
pub open spec fn shows_snapshot(after: Editor, before: Editor, snap: Snapshot) -> bool {
    &&& after.info == Some(snap.info)
    &&& after.game_mode == snap.game_mode
    &&& after.rt@ == fill_slots(snap.rt@.map_values(|k: RtKey| usable_key(k)), default_rt_key())
    &&& after.led == snap.led
    &&& after.custom_led@ == fill_slots(snap.custom_led@, black())
    &&& after.keys@ == fill_slots(snap.keys@, default_action())
    &&& after.last_mode == (if snap.led.mode != LIGHTS_OFF {
        snap.led.mode
    } else {
        before.last_mode
    })
}

/// `m` with each frame of `frames` recorded under its key, later frames
/// replacing earlier ones.
pub open spec fn with_frames(m: Map<u8, KeyTelemetry>, frames: Seq<KeyTelemetry>) -> Map<
    u8,
    KeyTelemetry,
>
    decreases frames.len(),
{
    if frames.len() == 0 {
        m
    } else {
        with_frames(m, frames.drop_last()).insert(frames.last().key_index, frames.last())
    }
}

/// `snap`'s table held to one entry per firmware slot.
fn slot_table<T: Copy>(items: &Vec<T>, filler: T) -> (v: Vec<T>)
    ensures
        v@ == fill_slots(items@, filler),
{
    let mut v: Vec<T> = Vec::new();
    let mut i: usize = 0;
    while i < KEY_SLOTS
        invariant
            i <= KEY_SLOTS,
            v@ == fill_slots(items@, filler).take(i as int),
        decreases KEY_SLOTS - i,
    {
        if i < items.len() {
            v.push(items[i]);
        } else {
            v.push(filler);
        }
        i = i + 1;
        assert(v@ =~= fill_slots(items@, filler).take(i as int));
    }
    assert(fill_slots(items@, filler).take(KEY_SLOTS as int) =~= fill_slots(items@, filler));
    v
}

impl Editor {
    /// Take on everything a read of the keyboard reported. A never-configured
    /// board reports zeros; those slots show the firmware's defaults.
    pub fn apply_snapshot(&mut self, snap: Snapshot)
        requires
            old(self).wf(),
        ensures
            final(self).wf(),
            shows_snapshot(*final(self), *old(self), snap),
            forall|i: int| 0 <= i < final(self).rt@.len() ==> !(#[trigger] final(self).rt@[i]).unconfigured(),
            *final(self) == (Editor {
                info: final(self).info,
                game_mode: final(self).game_mode,
                rt: final(self).rt,
                led: final(self).led,
                custom_led: final(self).custom_led,
                keys: final(self).keys,
                last_mode: final(self).last_mode,
                ..*old(self)
            }),
    {
        let ghost shown = snap.rt@.map_values(|k: RtKey| usable_key(k));
        let mut rt: Vec<RtKey> = Vec::new();
        let mut i: usize = 0;
        while i < KEY_SLOTS
            invariant
                i <= KEY_SLOTS,
                shown == snap.rt@.map_values(|k: RtKey| usable_key(k)),
                rt@ == fill_slots(shown, default_rt_key()).take(i as int),
            decreases KEY_SLOTS - i,
        {
            if i < snap.rt.len() {
                rt.push(snap.rt[i].or_default());
            } else {
                rt.push(RtKey::default());
            }
            i = i + 1;
            assert(rt@ =~= fill_slots(shown, default_rt_key()).take(i as int));
        }
        assert(fill_slots(shown, default_rt_key()).take(KEY_SLOTS as int) =~= fill_slots(
            shown,
            default_rt_key(),
        ));
        self.info = Some(snap.info);
        self.game_mode = snap.game_mode;
        self.rt = rt;
        self.led = snap.led;
        self.custom_led = slot_table(&snap.custom_led, Rgb::new(0, 0, 0));
        self.keys = slot_table(&snap.keys, KeyAction::default());
        if self.led.mode != LIGHTS_OFF {
            self.last_mode = self.led.mode;
        }
    }

    /// Take in one report from the device thread, and say what to ask of it
    /// in return. A keyboard that turns up is connected on sight: hunting
    /// for a button is busywork.
    pub fn handle_event(&mut self, evt: Event) -> (c: Option<Cmd>)
        requires
            old(self).wf(),
        ensures
            final(self).wf(),
            match evt {
                Event::Devices(list) => {
                    &&& final(self).devices == list
                    &&& old(self).connected is Some ==> c is None && final(self).status
                        == old(self).status && final(self).connecting == old(self).connecting
                    &&& old(self).connected is None && list@.len() == 0 ==> c is None
                        && final(self).status@ == "No keyboard found"@ && final(self).connecting
                        == old(self).connecting
                    &&& old(self).connected is None && list@.len() > 0 && old(self).connecting
                        ==> c is None && final(self).status@ == "Keyboard found"@
                        && final(self).connecting
                    &&& old(self).connected is None && list@.len() > 0 && !old(self).connecting
                        ==> c == Some(Cmd::Connect(list@[0])) && final(self).status@
                        == "Connecting"@ && final(self).connecting
                    &&& *final(self) == (Editor {
                        devices: final(self).devices,
                        status: final(self).status,
                        connecting: final(self).connecting,
                        ..*old(self)
                    })
                },
                Event::Connected(snap, label) => {
                    &&& c is None
                    &&& shows_snapshot(*final(self), *old(self), *snap)
                    &&& final(self).connected == Some(label)
                    &&& final(self).status@ == "Connected"@
                    &&& *final(self) == (Editor {
                        info: final(self).info,
                        game_mode: final(self).game_mode,
                        rt: final(self).rt,
                        led: final(self).led,
                        custom_led: final(self).custom_led,
                        keys: final(self).keys,
                        last_mode: final(self).last_mode,
                        connected: final(self).connected,
                        connecting: false,
                        status: final(self).status,
                        error: None,
                        ..*old(self)
                    })
                },
                Event::Loaded(snap) => {
                    &&& c is None
                    &&& shows_snapshot(*final(self), *old(self), *snap)
                    &&& final(self).status@ == "Reloaded from the keyboard"@
                    &&& *final(self) == (Editor {
                        info: final(self).info,
                        game_mode: final(self).game_mode,
                        rt: final(self).rt,
                        led: final(self).led,
                        custom_led: final(self).custom_led,
                        keys: final(self).keys,
                        last_mode: final(self).last_mode,
                        status: final(self).status,
                        ..*old(self)
                    })
                },
                Event::Disconnected => {
                    &&& c is None
                    &&& final(self).travel@ == Map::<u8, KeyTelemetry>::empty()
                    &&& final(self).status@ == "Released the keyboard"@
                    &&& *final(self) == (Editor {
                        connected: None,
                        connecting: false,
                        info: None,
                        monitoring: false,
                        calibrating: false,
                        travel: final(self).travel,
                        status: final(self).status,
                        ..*old(self)
                    })
                },
                Event::Telemetry(frames) => {
                    &&& c is None
                    &&& final(self).travel@ == with_frames(old(self).travel@, frames@)
                    &&& *final(self) == (Editor { travel: final(self).travel, ..*old(self) })
                },
                Event::Status(text) => {
                    &&& c is None
                    &&& *final(self) == (Editor { status: text, ..*old(self) })
                },
                Event::Error(text) => {
                    &&& c is None
                    &&& *final(self) == (Editor {
                        connecting: false,
                        error: Some(text),
                        ..*old(self)
                    })
                },
            },
    {
        match evt {
            Event::Devices(list) => {
                let mut c: Option<Cmd> = None;
                if self.connected.is_none() {
                    self.status = if list.len() == 0 {
                        String::from_str("No keyboard found")
                    } else {
                        String::from_str("Keyboard found")
                    };
                    if list.len() > 0 && !self.connecting {
                        self.connecting = true;
                        self.status = String::from_str("Connecting");
                        c = Some(Cmd::Connect(copy_candidate(&list[0])));
                    }
                }
                self.devices = list;
                c
            },
            Event::Connected(snap, label) => {
                self.connecting = false;
                self.apply_snapshot(*snap);
                self.connected = Some(label);
                self.status = String::from_str("Connected");
                self.error = None;
                None
            },
            Event::Loaded(snap) => {
                self.apply_snapshot(*snap);
                self.status = String::from_str("Reloaded from the keyboard");
                None
            },
            Event::Disconnected => {
                self.connected = None;
                self.connecting = false;
                self.info = None;
                self.monitoring = false;
                self.calibrating = false;
                self.travel.clear();
                self.status = String::from_str("Released the keyboard");
                None
            },
            Event::Telemetry(frames) => {
                let mut i: usize = 0;
                while i < frames.len()
                    invariant
                        i <= frames@.len(),
                        self.travel@ == with_frames(old(self).travel@, frames@.take(i as int)),
                        *self == (Editor { travel: self.travel, ..*old(self) }),
                    decreases frames@.len() - i,
                {
                    let f = frames[i];
                    self.travel.insert(f.key_index, f);
                    i = i + 1;
                    assert(frames@.take(i as int).drop_last() =~= frames@.take(i - 1));
                }
                assert(frames@.take(frames@.len() as int) =~= frames@);
                None
            },
            Event::Status(text) => {
                self.status = text;
                None
            },
            Event::Error(text) => {
                self.connecting = false;
                self.error = Some(text);
                None
            },
        }
    }
}


/// What the status line says about which keys an edit reaches.
pub open spec fn scope_text(sel: Set<u8>) -> Seq<char> {
    if sel.is_empty() {
        "Every key"@
    } else {
        decimal(sel.len()) + " keys selected"@
    }
}

/// What the window is titled after: the first keyboard found, or that there
/// is none.
pub open spec fn title_text(devices: Seq<Candidate>) -> Seq<char> {
    if devices.len() > 0 {
        display_text(devices[0].vid, devices[0].pid, devices[0].product@)
    } else {
        "No keyboard"@
    }
}

/// The action of the first key an edit reaches, which is what each group
/// of choices marks as current.
pub open spec fn assigned_of(keys: Seq<KeyAction>, sel: Set<u8>) -> KeyAction {
    let t = targets(sel);
    if t.len() > 0 && (t[0] as int) < keys.len() {
        keys[t[0] as int]
    } else {
        default_action()
    }
}

impl Editor {
    /// Write the actuation table to the keyboard.
    pub fn apply_rt(&mut self) -> (c: Option<Cmd>)
        ensures
            old(self).connected is Some ==> (c matches Some(Cmd::ApplyRt(v)) && v@ == old(
                self,
            ).rt@) && final(self).status@ == "Writing actuation"@ && *final(self) == (Editor {
                status: final(self).status,
                ..*old(self)
            }),
            old(self).connected is None ==> c is None && says_no_keyboard(final(self).error)
                && *final(self) == (Editor { error: final(self).error, ..*old(self) }),
    {
        if self.require_device() {
            let v = copy_table(&self.rt);
            self.status = String::from_str("Writing actuation");
            Some(Cmd::ApplyRt(v))
        } else {
            None
        }
    }

    /// Write the keymap to the keyboard.
    pub fn apply_keys(&mut self) -> (c: Option<Cmd>)
        ensures
            old(self).connected is Some ==> (c matches Some(Cmd::ApplyKeys(v)) && v@ == old(
                self,
            ).keys@) && final(self).status@ == "Writing keymap"@ && *final(self) == (Editor {
                status: final(self).status,
                ..*old(self)
            }),
            old(self).connected is None ==> c is None && says_no_keyboard(final(self).error)
                && *final(self) == (Editor { error: final(self).error, ..*old(self) }),
    {
        if self.require_device() {
            let v = copy_table(&self.keys);
            self.status = String::from_str("Writing keymap");
            Some(Cmd::ApplyKeys(v))
        } else {
            None
        }
    }

    /// Write the settings record to the keyboard.
    pub fn apply_settings(&mut self) -> (c: Option<Cmd>)
        ensures
            old(self).connected is Some ==> c == Some(Cmd::ApplyGameMode(old(self).game_mode))
                && *final(self) == *old(self),
            old(self).connected is None ==> c is None && says_no_keyboard(final(self).error)
                && *final(self) == (Editor { error: final(self).error, ..*old(self) }),
    {
        if self.require_device() {
            Some(Cmd::ApplyGameMode(self.game_mode))
        } else {
            None
        }
    }

    /// Start or stop the live view of key travel.
    pub fn toggle_monitor(&mut self) -> (c: Option<Cmd>)
        ensures
            old(self).connected is Some ==> c == Some(Cmd::SetMonitor(!old(self).monitoring))
                && final(self).travel@ == Map::<u8, KeyTelemetry>::empty() && *final(self) == (
            Editor { monitoring: !old(self).monitoring, travel: final(self).travel, ..*old(self) }),
            old(self).connected is None ==> c is None && says_no_keyboard(final(self).error)
                && *final(self) == (Editor { error: final(self).error, ..*old(self) }),
    {
        if self.require_device() {
            self.monitoring = !self.monitoring;
            self.travel.clear();
            Some(Cmd::SetMonitor(self.monitoring))
        } else {
            None
        }
    }

    /// Start or finish calibration.
    pub fn toggle_calibration(&mut self) -> (c: Option<Cmd>)
        ensures
            old(self).connected is Some ==> c == Some(Cmd::SetCalibration(!old(self).calibrating))
                && final(self).travel@ == Map::<u8, KeyTelemetry>::empty() && *final(self) == (
            Editor {
                calibrating: !old(self).calibrating,
                travel: final(self).travel,
                ..*old(self)
            }),
            old(self).connected is None ==> c is None && says_no_keyboard(final(self).error)
                && *final(self) == (Editor { error: final(self).error, ..*old(self) }),
    {
        if self.require_device() {
            self.calibrating = !self.calibrating;
            self.travel.clear();
            Some(Cmd::SetCalibration(self.calibrating))
        } else {
            None
        }
    }

    /// Restore part of the firmware's own defaults.
    pub fn factory_reset(&mut self, scope: ResetScope) -> (c: Option<Cmd>)
        ensures
            old(self).connected is Some ==> c == Some(Cmd::FactoryReset(scope)) && *final(self)
                == *old(self),
            old(self).connected is None ==> c is None && says_no_keyboard(final(self).error)
                && *final(self) == (Editor { error: final(self).error, ..*old(self) }),
    {
        if self.require_device() {
            Some(Cmd::FactoryReset(scope))
        } else {
            None
        }
    }

    /// Read everything back from the keyboard.
    pub fn reload(&mut self) -> (c: Option<Cmd>)
        ensures
            old(self).connected is Some ==> c == Some(Cmd::Reload) && *final(self) == *old(self),
            old(self).connected is None ==> c is None && says_no_keyboard(final(self).error)
                && *final(self) == (Editor { error: final(self).error, ..*old(self) }),
    {
        if self.require_device() {
            Some(Cmd::Reload)
        } else {
            None
        }
    }

    /// Fit the switch profile at position `index` of the offered list to
    /// every key the edit reaches; a position past the list changes nothing.
    pub fn choose_axis(&mut self, index: usize)
        requires
            old(self).wf(),
        ensures
            final(self).wf(),
            index < axis_profile_table().len() ==> final(self).rt@ == rewritten(
                old(self).rt@,
                targets(old(self).selection@),
                |k: RtKey| edited(k, RtEdit::Axis(axis_profile_table()[index as int].value)),
            ),
            index >= axis_profile_table().len() ==> final(self).rt == old(self).rt,
            *final(self) == (Editor { rt: final(self).rt, ..*old(self) }),
    {
        let profiles = axis_profiles();
        if index < profiles.len() {
            self.edit_rt(RtEdit::Axis(profiles[index].value));
        }
    }

    /// Choose the polling rate at position `index` of the offered list; a
    /// position past the list changes nothing.
    pub fn choose_report_rate(&mut self, index: usize)
        ensures
            index < report_rate_table().len() ==> final(self).game_mode == (GameMode {
                report_rate: report_rate_table()[index as int].0,
                ..old(self).game_mode
            }),
            index >= report_rate_table().len() ==> final(self).game_mode == old(self).game_mode,
            *final(self) == (Editor { game_mode: final(self).game_mode, ..*old(self) }),
    {
        let rates = report_rates();
        if index < rates.len() {
            self.game_mode.report_rate = rates[index].0;
        }
    }

    /// Switch stability mode on or off.
    pub fn set_stability(&mut self, on: bool)
        ensures
            *final(self) == (Editor {
                game_mode: GameMode {
                    stability_mode: if on {
                        1u8
                    } else {
                        0u8
                    },
                    ..old(self).game_mode
                },
                ..*old(self)
            }),
    {
        self.game_mode.stability_mode = if on {
            1
        } else {
            0
        };
    }

    /// Set the lighting brightness the sliders show; it is held to the
    /// firmware's range when the record is written.
    pub fn set_brightness(&mut self, level: u8)
        ensures
            *final(self) == (Editor {
                led: LedEffect { brightness: level, ..old(self).led },
                ..*old(self)
            }),
    {
        self.led.brightness = level;
    }

    /// Set the effect speed the sliders show; it is held to the firmware's
    /// range when the record is written.
    pub fn set_speed(&mut self, level: u8)
        ensures
            *final(self) == (Editor { led: LedEffect { speed: level, ..old(self).led }, ..*old(self) }),
    {
        self.led.speed = level;
    }

    /// Set the travel ignored at the top of the stroke, in micrometres.
    pub fn set_top_dead_zone(&mut self, um: u32)
        ensures
            *final(self) == (Editor {
                game_mode: GameMode { top_dead_zone_um: um, ..old(self).game_mode },
                ..*old(self)
            }),
    {
        self.game_mode.top_dead_zone_um = um;
    }

    /// Set the travel ignored at the bottom of the stroke, in micrometres.
    pub fn set_bottom_dead_zone(&mut self, um: u32)
        ensures
            *final(self) == (Editor {
                game_mode: GameMode { bottom_dead_zone_um: um, ..old(self).game_mode },
                ..*old(self)
            }),
    {
        self.game_mode.bottom_dead_zone_um = um;
    }

    /// Switch automatic calibration on or off.
    pub fn set_auto_calibration(&mut self, on: bool)
        ensures
            *final(self) == (Editor {
                game_mode: GameMode {
                    auto_calibration: if on {
                        1u8
                    } else {
                        0u8
                    },
                    ..old(self).game_mode
                },
                ..*old(self)
            }),
    {
        self.game_mode.auto_calibration = if on {
            1
        } else {
            0
        };
    }

    pub fn set_section(&mut self, section: Section)
        ensures
            *final(self) == (Editor { section, ..*old(self) }),
    {
        self.section = section;
    }

    pub fn set_pane(&mut self, pane: Pane)
        ensures
            *final(self) == (Editor { pane, ..*old(self) }),
    {
        self.pane = pane;
    }

    /// The status line's account of which keys an edit reaches.
    pub fn scope(&self) -> (s: String)
        ensures
            s@ == scope_text(self.selection@),
    {
        if self.selection.is_empty() {
            String::from_str("Every key")
        } else {
            let mut s = String::new();
            push_decimal(&mut s, self.selection.len() as u64);
            s.append(" keys selected");
            assert(s@ =~= scope_text(self.selection@));
            s
        }
    }

    /// The window's title.
    pub fn title(&self) -> (s: String)
        ensures
            s@ == title_text(self.devices@),
    {
        if self.devices.len() > 0 {
            self.devices[0].display_name()
        } else {
            String::from_str("No keyboard")
        }
    }

    /// The action of the first key an edit reaches.
    pub fn assigned(&self) -> (a: KeyAction)
        ensures
            a == assigned_of(self.keys@, self.selection@),
    {
        let slots = self.target_slots();
        if slots.len() > 0 && (slots[0] as usize) < self.keys.len() {
            self.keys[slots[0] as usize]
        } else {
            KeyAction::default()
        }
    }

    /// Whether a swatch of `color` shows as the current colour: the first
    /// targeted key's in per-key mode, the effect's own otherwise, and none
    /// while the keyboard picks its own colours.
    pub fn swatch_active(&self, color: Rgb) -> (b: bool)
        ensures
            b == (if self.led.mode == CUSTOM_LIGHTING {
                let t = targets(self.selection@);
                t.len() > 0 && (t[0] as int) < self.custom_led@.len() && self.custom_led@[t[0] as int]
                    == color
            } else {
                self.led.color_mode != COLOR_AUTO && self.led.primary == color
            }),
    {
        if self.led.mode == CUSTOM_LIGHTING {
            let slots = self.target_slots();
            slots.len() > 0 && (slots[0] as usize) < self.custom_led.len() && self.custom_led[slots[0]
                as usize] == color
        } else {
            self.led.color_mode != COLOR_AUTO && self.led.primary == color
        }
    }

    /// What a key cap says: in the keys pane, what the key does now if it
    /// was remapped to something with a name; its printed legend otherwise.
    pub fn cap_label(&self, slot: u8, legend: &'static str) -> (s: &'static str)
        ensures
            s == (if self.pane == Pane::Keys && (slot as int) < self.keys@.len() {
                match assignment_name(self.keys@[slot as int]) {
                    Some(n) => n,
                    None => legend,
                }
            } else {
                legend
            }),
    {
        if self.pane == Pane::Keys && (slot as usize) < self.keys.len() {
            match assigned_label(&self.keys[slot as usize]) {
                Some(n) => n,
                None => legend,
            }
        } else {
            legend
        }
    }
}

} // verus!
