//! Messages between the interface and the device thread, and the decisions
//! the device thread takes about them. The thread itself, which owns the HID
//! handle and blocks on it, lives outside this crate; it asks these
//! functions what each command needs, what it reports and what state follows.
use vstd::prelude::*;

use crate::candidate::Candidate;
use crate::model::{DeviceInfo, GameMode, KeyAction, KeyTelemetry, LedEffect, Rgb, RtKey};
use crate::text::{decimal, push_decimal};
use crate::ResetScope;

verus! {

/// A complete read of everything the interface shows, taken in one pass.
#[derive(Debug, Clone)]
pub struct Snapshot {
    pub info: DeviceInfo,
    pub game_mode: GameMode,
    pub rt: Vec<RtKey>,
    pub led: LedEffect,
    pub custom_led: Vec<Rgb>,
    pub keys: Vec<KeyAction>,
}

/// Requests from the interface to the device thread.
#[derive(Debug, Clone)]
pub enum Cmd {
    Rescan,
    Connect(Candidate),
    Disconnect,
    Reload,
    ApplyRt(Vec<RtKey>),
    ApplyLed(LedEffect),
    ApplyCustomLed(Vec<Rgb>),
    ApplyGameMode(GameMode),
    ApplyKeys(Vec<KeyAction>),
    SetMonitor(bool),
    SetCalibration(bool),
    FactoryReset(ResetScope),
    Shutdown,
}

/// Notifications from the device thread to the interface.
#[derive(Debug, Clone)]
pub enum Event {
    Devices(Vec<Candidate>),
    Connected(Box<Snapshot>, String),
    Disconnected,
    Loaded(Box<Snapshot>),
    Telemetry(Vec<KeyTelemetry>),
    Status(String),
    Error(String),
}

/// Whether `cmd` can only be carried out against an open keyboard. Scanning,
/// connecting, letting go and shutting down make sense without one.
pub open spec fn needs_keyboard(cmd: Cmd) -> bool {
    !(cmd is Rescan || cmd is Connect || cmd is Disconnect || cmd is Shutdown)
}

/// Whether the device thread must refuse `cmd` when no keyboard is open.
pub fn requires_keyboard(cmd: &Cmd) -> (b: bool)
    ensures
        b == needs_keyboard(*cmd),
{
    match cmd {
        Cmd::Rescan | Cmd::Connect(_) | Cmd::Disconnect | Cmd::Shutdown => false,
        _ => true,
    }
}

/// The status line a successful `cmd` ends with, if it announces one.
pub open spec fn completion_text(cmd: Cmd) -> Option<&'static str> {
    match cmd {
        Cmd::ApplyRt(_) => Some("Actuation applied"),
        Cmd::ApplyLed(_) => Some("Lighting applied"),
        Cmd::ApplyCustomLed(_) => Some("Per-key colours applied"),
        Cmd::ApplyGameMode(_) => Some("Settings applied"),
        Cmd::ApplyKeys(_) => Some("Keymap applied"),
        Cmd::SetCalibration(on) => if on {
            Some("Calibration running \u{2014} press every key to its bottom")
        } else {
            Some("Calibration finished")
        },
        Cmd::FactoryReset(_) => Some("Reset complete"),
        _ => None,
    }
}

/// What the device thread reports once `cmd` has gone through.
pub fn completion_status(cmd: &Cmd) -> (s: Option<&'static str>)
    ensures
        s == completion_text(*cmd),
{
    match cmd {
        Cmd::ApplyRt(_) => Some("Actuation applied"),
        Cmd::ApplyLed(_) => Some("Lighting applied"),
        Cmd::ApplyCustomLed(_) => Some("Per-key colours applied"),
        Cmd::ApplyGameMode(_) => Some("Settings applied"),
        Cmd::ApplyKeys(_) => Some("Keymap applied"),
        Cmd::SetCalibration(on) => if *on {
            Some("Calibration running \u{2014} press every key to its bottom")
        } else {
            Some("Calibration finished")
        },
        Cmd::FactoryReset(_) => Some("Reset complete"),
        _ => None,
    }
}

/// Whether telemetry is being streamed after `cmd` succeeded, given whether
/// it was before. A new or released keyboard starts quiet; the live view and
/// calibration both stream travel while they run.
pub open spec fn streaming_after(cmd: Cmd, was: bool) -> bool {
    match cmd {
        Cmd::Connect(_) => false,
        Cmd::Disconnect => false,
        Cmd::SetMonitor(on) => on,
        Cmd::SetCalibration(on) => on,
        _ => was,
    }
}

/// The monitoring flag once `cmd` has succeeded.
pub fn monitoring_after(cmd: &Cmd, was: bool) -> (now: bool)
    ensures
        now == streaming_after(*cmd, was),
{
    match cmd {
        Cmd::Connect(_) => false,
        Cmd::Disconnect => false,
        Cmd::SetMonitor(on) => *on,
        Cmd::SetCalibration(on) => *on,
        _ => was,
    }
}

/// How a freshly opened keyboard is described: its name, its firmware
/// version and the report size the transport settled on.
pub open spec fn connection_text(name: Seq<char>, version: Seq<char>, packet_len: usize) -> Seq<
    char,
> {
    name + " \u{2014} firmware "@ + version + " \u{2014} "@ + decimal(packet_len as nat)
        + "-byte reports"@
}

/// The label the interface shows for a keyboard it has connected to.
pub fn connection_label(name: &str, version: &str, packet_len: usize) -> (s: String)
    ensures
        s@ == connection_text(name@, version@, packet_len),
{
    let mut s = String::new();
    s.append(name);
    s.append(" \u{2014} firmware ");
    s.append(version);
    s.append(" \u{2014} ");
    push_decimal(&mut s, packet_len as u64);
    s.append("-byte reports");
    assert(s@ =~= connection_text(name@, version@, packet_len));
    s
}

/// Whether two interface lists name the same interfaces in the same order.
pub open spec fn same_interfaces(a: Seq<Candidate>, b: Seq<Candidate>) -> bool {
    &&& a.len() == b.len()
    &&& forall|i: int|
        0 <= i < a.len() ==> {
            &&& (#[trigger] a[i]).path@ == b[i].path@
            &&& a[i].vid == b[i].vid
            &&& a[i].pid == b[i].pid
            &&& a[i].usage_page == b[i].usage_page
            &&& a[i].product@ == b[i].product@
        }
}

/// Whether a rescan found something other than what the interface was last
/// told about; only then is it worth telling it again.
pub fn devices_changed(found: &Vec<Candidate>, known: &Vec<Candidate>) -> (changed: bool)
    ensures
        changed == !same_interfaces(found@, known@),
{
    if found.len() != known.len() {
        return true;
    }
    let mut i: usize = 0;
    while i < found.len()
        invariant
            found@.len() == known@.len(),
            i <= found@.len(),
            forall|k: int|
                0 <= k < i ==> {
                    &&& (#[trigger] found@[k]).path@ == known@[k].path@
                    &&& found@[k].vid == known@[k].vid
                    &&& found@[k].pid == known@[k].pid
                    &&& found@[k].usage_page == known@[k].usage_page
                    &&& found@[k].product@ == known@[k].product@
                },
        decreases found@.len() - i,
    {
        let a = &found[i];
        let b = &known[i];
        if !(a.path == b.path && a.vid == b.vid && a.pid == b.pid && a.usage_page == b.usage_page
            && a.product == b.product) {
            assert(!same_interfaces(found@, known@)) by {
                assert(found@[i as int] == *a);
            }
            return true;
        }
        i = i + 1;
    }
    false
}

/// The event that carries telemetry collected while a command ran, if any
/// arrived; an empty batch is not worth a message.
pub fn telemetry_event(frames: Vec<KeyTelemetry>) -> (e: Option<Event>)
    ensures
        frames@.len() == 0 ==> e is None,
        frames@.len() > 0 ==> e == Some(Event::Telemetry(frames)),
{
    if frames.len() == 0 {
        None
    } else {
        Some(Event::Telemetry(frames))
    }
}

} // verus!
