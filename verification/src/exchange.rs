//! The decisions of the request/response exchange the firmware expects: one
//! packet out, one matching packet in, retry on silence. The transport that
//! moves the bytes lives outside this crate and asks these functions what to
//! do with each report it reads and each timeout it sees.
use vstd::prelude::*;

use crate::codec::{parse_response, Response};
use crate::model::{telemetry_from, KeyTelemetry};
use crate::Cmd;

verus! {

/// Resends of one packet before an exchange is reported as failed.
pub const MAX_RETRIES: u32 = 3;

/// What an inbound report is, for an exchange waiting on `cmd`.
#[derive(Debug, Clone, PartialEq, Eq)]
pub enum Inbound {
    /// An unsolicited calibration frame; it goes to the telemetry sink, not
    /// to the exchange.
    Telemetry(KeyTelemetry),
    /// The reply the exchange is waiting for.
    Reply(Response),
    /// Anything else on the wire, which is for someone else.
    Unrelated,
}

impl Inbound {
    /// Whether `self` is how the exchange for `cmd` should treat `raw`:
    /// calibration frames first, then a well-formed response to `cmd`,
    /// everything else ignored.
    pub open spec fn classifies(self, raw: Seq<u8>, cmd: Cmd) -> bool {
        match telemetry_from(raw) {
            Some(t) => self == Inbound::Telemetry(t),
            None => match parse_response(raw) {
                Ok(r) => if r.cmd == cmd.code() {
                    self matches Inbound::Reply(resp) && resp@ == r
                } else {
                    self is Unrelated
                },
                Err(_) => self is Unrelated,
            },
        }
    }
}

/// Sort one inbound report for an exchange waiting on `cmd`.
pub fn classify_inbound(raw: &[u8], cmd: Cmd) -> (i: Inbound)
    ensures
        i.classifies(raw@, cmd),
{
    if let Some(t) = KeyTelemetry::parse(raw) {
        return Inbound::Telemetry(t);
    }
    match Response::parse(raw) {
        Ok(r) => if r.cmd == cmd.raw() {
            Inbound::Reply(r)
        } else {
            Inbound::Unrelated
        },
        Err(_) => Inbound::Unrelated,
    }
}

/// After a packet went unanswered on attempt `attempt` (0 for the first
/// send), the attempt to make next, or `None` once the retries are spent.
pub fn retry_after_timeout(attempt: u32) -> (next: Option<u32>)
    ensures
        attempt < MAX_RETRIES ==> next == Some((attempt + 1) as u32),
        attempt >= MAX_RETRIES ==> next is None,
{
    if attempt < MAX_RETRIES {
        Some(attempt + 1)
    } else {
        None
    }
}


/// Whether `needle` occurs in `hay`.
pub open spec fn contains_text(hay: Seq<char>, needle: Seq<char>) -> bool {
    exists|i: int| 0 <= i && i + needle.len() <= hay.len() && #[trigger] hay.subrange(i, i + needle.len()) == needle
}

/// Whether `needle` occurs in `hay`.
pub fn has_text(hay: &str, needle: &str) -> (r: bool)
    ensures
        r == contains_text(hay@, needle@),
{
    let n = needle.unicode_len();
    let h = hay.unicode_len();
    if n > h {
        return false;
    }
    let mut i: usize = 0;
    while i <= h - n
        invariant
            n == needle@.len(),
            h == hay@.len(),
            n <= h,
            i <= h - n + 1,
            forall|k: int| 0 <= k < i ==> #[trigger] hay@.subrange(k, k + n) != needle@,
        decreases h - n + 1 - i,
    {
        let mut j: usize = 0;
        let mut same = true;
        while j < n
            invariant
                n == needle@.len(),
                h == hay@.len(),
                i + n <= h,
                j <= n,
                same == forall|m: int| 0 <= m < j ==> hay@[i + m] == needle@[m],
            decreases n - j,
        {
            if hay.get_char(i + j) != needle.get_char(j) {
                same = false;
            }
            j = j + 1;
        }
        if same {
            assert(hay@.subrange(i as int, i + n) =~= needle@);
            return true;
        }
        proof {
            let m = choose|m: int| 0 <= m < n && hay@[i + m] != needle@[m];
            assert(hay@.subrange(i as int, i + n)[m] != needle@[m]);
        }
        i = i + 1;
    }
    false
}

/// What the user is told when the configuration interface cannot be
/// opened. Some platforms hand out HID devices exclusively and report that
/// with an opaque code; where the raw message names the cause, the user is
/// told it in plain words instead.
pub open spec fn open_failure_text(raw: Seq<char>) -> Seq<char> {
    if contains_text(raw, "already open"@) || contains_text(raw, "exclusive"@) {
        "the keyboard is already open in another program \u{2014} close the other copy of this app, or the vendor software, and try again"@
    } else if contains_text(raw, "Permission"@) || contains_text(raw, "permission"@) {
        "not allowed to open the keyboard \u{2014} on Linux install packaging/99-spawn.rules and replug the device"@
    } else {
        "could not open the keyboard: "@ + raw
    }
}

pub fn open_failure_message(raw: &str) -> (s: String)
    ensures
        s@ == open_failure_text(raw@),
{
    if has_text(raw, "already open") || has_text(raw, "exclusive") {
        String::from_str(
            "the keyboard is already open in another program \u{2014} close the other copy of this app, or the vendor software, and try again",
        )
    } else if has_text(raw, "Permission") || has_text(raw, "permission") {
        String::from_str(
            "not allowed to open the keyboard \u{2014} on Linux install packaging/99-spawn.rules and replug the device",
        )
    } else {
        let mut s = String::from_str("could not open the keyboard: ");
        s.append(raw);
        s
    }
}

} // verus!
