//! What the command-line diagnostics say about a keyboard's state: the
//! names, counts and renderings they print. Reading the keyboard and
//! printing stay with the program; the wording and the arithmetic are here.
use vstd::prelude::*;

use crate::model::{KeyAction, Page, Rgb, RtKey};
use crate::text::{
    decimal, digits_value, lemma_digit_chars, lemma_digits_value_push, lower_digit_char,
    lower_digit_str, push_decimal,
};

verus! {

/// The name of a polling-rate code, as the probe prints it.
pub open spec fn polling_text(code: u8) -> &'static str {
    if code == 3 {
        "1000 Hz"
    } else if code == 4 {
        "2000 Hz"
    } else if code == 5 {
        "4000 Hz"
    } else if code == 6 {
        "8000 Hz"
    } else {
        "unknown"
    }
}

pub fn polling_name(code: u8) -> (s: &'static str)
    ensures
        s == polling_text(code),
{
    match code {
        3 => "1000 Hz",
        4 => "2000 Hz",
        5 => "4000 Hz",
        6 => "8000 Hz",
        _ => "unknown",
    }
}

/// The travel resolution a device-info precision flag stands for.
pub open spec fn resolution_text(precision: u8) -> &'static str {
    if precision == 1 {
        "0.001 mm"
    } else {
        "0.01 mm"
    }
}

pub fn travel_resolution(precision: u8) -> (s: &'static str)
    ensures
        s == resolution_text(precision),
{
    if precision == 1 {
        "0.001 mm"
    } else {
        "0.01 mm"
    }
}

/// How many entries of `s` satisfy `p`.
pub open spec fn count<T>(s: Seq<T>, p: spec_fn(T) -> bool) -> nat
    decreases s.len(),
{
    if s.len() == 0 {
        0
    } else {
        count(s.drop_last(), p) + if p(s.last()) {
            1nat
        } else {
            0nat
        }
    }
}

/// Whether a colour lights its LED at all.
pub open spec fn lit(c: Rgb) -> bool {
    c.r != 0 || c.g != 0 || c.b != 0
}

/// Slots whose actuation entry was never configured.
pub fn count_unconfigured(rt: &[RtKey]) -> (n: usize)
    ensures
        n == count(rt@, |k: RtKey| k.unconfigured()),
{
    let mut n: usize = 0;
    let mut i: usize = 0;
    while i < rt.len()
        invariant
            i <= rt@.len(),
            n == count(rt@.take(i as int), |k: RtKey| k.unconfigured()),
            n <= i,
        decreases rt@.len() - i,
    {
        assert(rt@.take(i + 1).drop_last() =~= rt@.take(i as int));
        if rt[i].is_unconfigured() {
            n = n + 1;
        }
        i = i + 1;
    }
    assert(rt@.take(rt@.len() as int) =~= rt@);
    n
}

/// LEDs that show any colour.
pub fn count_lit(colors: &[Rgb]) -> (n: usize)
    ensures
        n == count(colors@, |c: Rgb| lit(c)),
{
    let mut n: usize = 0;
    let mut i: usize = 0;
    while i < colors.len()
        invariant
            i <= colors@.len(),
            n == count(colors@.take(i as int), |c: Rgb| lit(c)),
            n <= i,
        decreases colors@.len() - i,
    {
        assert(colors@.take(i + 1).drop_last() =~= colors@.take(i as int));
        let c = colors[i];
        if c.r != 0 || c.g != 0 || c.b != 0 {
            n = n + 1;
        }
        i = i + 1;
    }
    assert(colors@.take(colors@.len() as int) =~= colors@);
    n
}

/// Keys that do something other than what their legend says.
pub fn count_remapped(keys: &[KeyAction]) -> (n: usize)
    ensures
        n == count(keys@, |a: KeyAction| a.page != Page::Default),
{
    let mut n: usize = 0;
    let mut i: usize = 0;
    while i < keys.len()
        invariant
            i <= keys@.len(),
            n == count(keys@.take(i as int), |a: KeyAction| a.page != Page::Default),
            n <= i,
        decreases keys@.len() - i,
    {
        assert(keys@.take(i + 1).drop_last() =~= keys@.take(i as int));
        if keys[i].page != Page::Default {
            n = n + 1;
        }
        i = i + 1;
    }
    assert(keys@.take(keys@.len() as int) =~= keys@);
    n
}

/// Whether every actuation entry is the same as the first.
pub fn all_alike(rt: &[RtKey]) -> (b: bool)
    requires
        rt@.len() > 0,
    ensures
        b == forall|i: int| 0 <= i < rt@.len() ==> #[trigger] rt@[i] == rt@[0],
{
    let first = rt[0];
    let mut i: usize = 1;
    while i < rt.len()
        invariant
            1 <= i <= rt@.len(),
            first == rt@[0],
            forall|k: int| 0 <= k < i ==> #[trigger] rt@[k] == rt@[0],
        decreases rt@.len() - i,
    {
        let k = rt[i];
        if !(k.axis_type == first.axis_type && k.whole_fast == first.whole_fast && k.rampage
            == first.rampage && k.trigger_um == first.trigger_um && k.press_rt_um
            == first.press_rt_um && k.release_rt_um == first.release_rt_um) {
            assert(rt@[i as int] != rt@[0]);
            return false;
        }
        i = i + 1;
    }
    true
}

/// A colour as `rgb(r,g,b)`.
pub open spec fn rgb_text(c: Rgb) -> Seq<char> {
    "rgb("@ + decimal(c.r as nat) + ","@ + decimal(c.g as nat) + ","@ + decimal(c.b as nat) + ")"@
}

pub fn rgb_string(c: Rgb) -> (s: String)
    ensures
        s@ == rgb_text(c),
{
    let mut s = String::from_str("rgb(");
    push_decimal(&mut s, c.r as u64);
    s.append(",");
    push_decimal(&mut s, c.g as u64);
    s.append(",");
    push_decimal(&mut s, c.b as u64);
    s.append(")");
    assert(s@ =~= rgb_text(c));
    s
}

/// Bytes as two lower-case hex digits each, every one followed by a space.
pub open spec fn hex_dump_text(b: Seq<u8>) -> Seq<char>
    decreases b.len(),
{
    if b.len() == 0 {
        Seq::empty()
    } else {
        hex_dump_text(b.drop_last()) + seq![
            lower_digit_char((b.last() / 16) as nat),
            lower_digit_char((b.last() % 16) as nat),
            ' ',
        ]
    }
}

/// A hex dump gives each byte three characters in order: byte `k` is
/// spelled by the two lower-case hexadecimal digits at `3k` and `3k + 1`,
/// and a space follows it at `3k + 2`.
pub proof fn lemma_hex_dump_layout(b: Seq<u8>)
    ensures
        hex_dump_text(b).len() == 3 * b.len(),
        forall|k: int|
            0 <= k < b.len() ==> digits_value(hex_dump_text(b).subrange(3 * k, 3 * k + 2), 16)
                == #[trigger] b[k] && hex_dump_text(b)[3 * k + 2] == ' ',
    decreases b.len(),
{
    if b.len() > 0 {
        let p = b.drop_last();
        lemma_hex_dump_layout(p);
        let t0 = hex_dump_text(p);
        let t = hex_dump_text(b);
        let x = b.last();
        let hi = lower_digit_char((x / 16) as nat);
        let lo = lower_digit_char((x % 16) as nat);
        lemma_digit_chars((x / 16) as nat);
        lemma_digit_chars((x % 16) as nat);
        assert forall|k: int| 0 <= k < b.len() implies digits_value(
            t.subrange(3 * k, 3 * k + 2),
            16,
        ) == #[trigger] b[k] && t[3 * k + 2] == ' ' by {
            if k < p.len() {
                assert(t.subrange(3 * k, 3 * k + 2) =~= t0.subrange(3 * k, 3 * k + 2));
                assert(p[k] == b[k]);
                assert(t[3 * k + 2] == t0[3 * k + 2]);
            } else {
                assert(t.subrange(3 * k, 3 * k + 2) =~= Seq::<char>::empty() + seq![hi] + seq![lo]);
                lemma_digits_value_push(Seq::<char>::empty(), hi, 16);
                lemma_digits_value_push(Seq::<char>::empty() + seq![hi], lo, 16);
            }
        }
    }
}

pub fn hex_dump(b: &[u8]) -> (s: String)
    ensures
        s@ == hex_dump_text(b@),
{
    let mut s = String::new();
    let mut i: usize = 0;
    while i < b.len()
        invariant
            i <= b@.len(),
            s@ == hex_dump_text(b@.take(i as int)),
        decreases b@.len() - i,
    {
        assert(b@.take(i + 1).drop_last() =~= b@.take(i as int));
        s.append(lower_digit_str(b[i] / 16));
        s.append(lower_digit_str(b[i] % 16));
        s.append(" ");
        proof {
            reveal_strlit(" ");
        }
        i = i + 1;
        assert(s@ =~= hex_dump_text(b@.take(i as int)));
    }
    assert(b@.take(b@.len() as int) =~= b@);
    s
}

} // verus!
