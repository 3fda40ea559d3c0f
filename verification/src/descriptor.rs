//! Minimal HID report-descriptor scan.
//!
//! The only thing we need from the descriptor is how many payload bytes an
//! output report carries, because that sets the chunk size. A full HID parser
//! is overkill: we walk the item stream tracking the two global items that
//! matter, add up the Output main items of each report, and close a report
//! at each Report ID item and where the walk stops.
use vstd::prelude::*;

use crate::DEFAULT_PACKET_LEN;

verus! {

/// Global item, tag 0b0111.
pub const ITEM_REPORT_SIZE: u8 = 0x74;

/// Global item, tag 0b1001.
pub const ITEM_REPORT_COUNT: u8 = 0x94;

/// Main item, tag 0b1001.
pub const ITEM_OUTPUT: u8 = 0x90;

/// Prefix of a long item: `[0xFE][dataSize][tag][data...]`.
pub const ITEM_LONG: u8 = 0xFE;

/// Data length of a short item: the low two bits of its prefix, where 3
/// stands for four bytes.
pub open spec fn short_item_len(prefix: u8) -> nat {
    let t = prefix % 4;
    if t == 0 {
        0
    } else if t == 1 {
        1
    } else if t == 2 {
        2
    } else {
        4
    }
}

/// The little-endian value of the `len` data bytes starting at `at`.
pub open spec fn item_value(desc: Seq<u8>, at: int, len: nat) -> u32 {
    if len == 0 {
        0
    } else if len == 1 {
        desc[at] as u32
    } else if len == 2 {
        (desc[at] + 256 * desc[at + 1]) as u32
    } else {
        (desc[at] + 256 * desc[at + 1] + 65536 * desc[at + 2] + 16777216 * desc[at + 3]) as u32
    }
}

/// `a * b`, saturating at `u32::MAX`.
pub open spec fn saturating_mul_u32(a: u32, b: u32) -> u32 {
    if a * b > u32::MAX {
        u32::MAX
    } else {
        (a * b) as u32
    }
}

/// Global item, tag 0b1000: starts a new report.
pub const ITEM_REPORT_ID: u8 = 0x84;

/// `a + b`, saturating at `u64::MAX`.
pub open spec fn saturating_add_u64(a: u64, b: u32) -> u64 {
    if a + b > u64::MAX {
        u64::MAX
    } else {
        (a + b) as u64
    }
}

/// `best` updated with an output report of `bytes` bytes.
pub open spec fn keep_largest(best: Option<usize>, bytes: usize) -> Option<usize> {
    match best {
        Some(b) => Some(
            if b < bytes {
                bytes
            } else {
                b
            },
        ),
        None => Some(bytes),
    }
}

/// `best` once a report whose Output items add up to `bits` bits has ended:
/// the report counts in whole bytes, and only if it has at least one.
pub open spec fn report_ended(best: Option<usize>, bits: u64) -> Option<usize> {
    let bytes = (bits / 8) as usize;
    if bytes > 0 {
        keep_largest(best, bytes)
    } else {
        best
    }
}

/// The largest output report found from position `i` on, given the current
/// Report Size and Report Count, the bits the Output items of the report
/// under way add up to so far, and the largest report found before it. A
/// report ends at a Report ID item or where the scan stops: at the end of the
/// descriptor or at an item that runs past it.
pub open spec fn scan(
    desc: Seq<u8>,
    i: nat,
    report_size: u32,
    report_count: u32,
    bits: u64,
    best: Option<usize>,
) -> Option<usize>
    decreases desc.len() - i,
{
    if i >= desc.len() {
        report_ended(best, bits)
    } else {
        let prefix = desc[i as int];
        let at = i + 1;
        if prefix == ITEM_LONG {
            if at >= desc.len() {
                report_ended(best, bits)
            } else {
                let next = (at + 2 + desc[at as int]) as nat;
                if next >= desc.len() {
                    report_ended(best, bits)
                } else {
                    scan(desc, next, report_size, report_count, bits, best)
                }
            }
        } else {
            let len = short_item_len(prefix);
            if at + len > desc.len() {
                report_ended(best, bits)
            } else {
                let value = item_value(desc, at as int, len);
                let tag = (prefix - prefix % 4) as u8;
                let next = at + len;
                if tag == ITEM_REPORT_SIZE {
                    scan(desc, next, value, report_count, bits, best)
                } else if tag == ITEM_REPORT_COUNT {
                    scan(desc, next, report_size, value, bits, best)
                } else if tag == ITEM_OUTPUT {
                    scan(
                        desc,
                        next,
                        report_size,
                        report_count,
                        saturating_add_u64(bits, saturating_mul_u32(report_size, report_count)),
                        best,
                    )
                } else if tag == ITEM_REPORT_ID {
                    scan(desc, next, report_size, report_count, 0, report_ended(best, bits))
                } else {
                    scan(desc, next, report_size, report_count, bits, best)
                }
            }
        }
    }
}

/// Size in bytes of the largest output report declared by `desc`.
pub open spec fn largest_output_report(desc: Seq<u8>) -> Option<usize> {
    scan(desc, 0, 0, 0, 0, None)
}

/// A descriptor that sets Report Size to `size` bits and Report Count to
/// `count`, then declares one Output item, describes one output report of
/// `size * count` bits counted in whole bytes; under one byte, it declares
/// none.
pub proof fn lemma_one_output_item(size: u8, count: u8, flags: u8)
    ensures
        largest_output_report(seq![0x75u8, size, 0x95u8, count, 0x91u8, flags]) == (if size
            * count >= 8 {
            Some(((size * count) / 8) as usize)
        } else {
            None::<usize>
        }),
{
    let d = seq![0x75u8, size, 0x95u8, count, 0x91u8, flags];
    let bits = saturating_add_u64(0, saturating_mul_u32(size as u32, count as u32));
    assert(size * count <= 255 * 255) by (nonlinear_arith)
        requires
            size <= 255,
            count <= 255,
    ;
    assert(bits == size * count);
    assert(scan(d, 6, size as u32, count as u32, bits, None) == report_ended(None, bits));
    assert(scan(d, 4, size as u32, count as u32, 0, None) == scan(
        d,
        6,
        size as u32,
        count as u32,
        bits,
        None,
    ));
    assert(scan(d, 2, size as u32, 0, 0, None) == scan(d, 4, size as u32, count as u32, 0, None));
    assert(scan(d, 0, 0, 0, 0, None) == scan(d, 2, size as u32, 0, 0, None));
}

/// Reports are measured one by one, and Report Size and Report Count carry
/// over from one report to the next: a descriptor with a report of
/// `count1` fields and then, after a Report ID item, one of `count2`
/// fields, both of `size` bits, declares the larger of the two in whole
/// bytes, and none when neither reaches a byte.
pub proof fn lemma_reports_measured_apart(size: u8, count1: u8, count2: u8, id: u8)
    ensures
        largest_output_report(
            seq![0x75u8, size, 0x95u8, count1, 0x91u8, 0x02u8, 0x85u8, id, 0x95u8, count2, 0x91u8, 0x02u8],
        ) == ({
            let a = (size * count1) / 8;
            let b = (size * count2) / 8;
            if a == 0 && b == 0 {
                None::<usize>
            } else if a < b {
                Some(b as usize)
            } else {
                Some(a as usize)
            }
        }),
{
    let d = seq![0x75u8, size, 0x95u8, count1, 0x91u8, 0x02u8, 0x85u8, id, 0x95u8, count2, 0x91u8, 0x02u8];
    assert(size * count1 <= 255 * 255) by (nonlinear_arith)
        requires
            size <= 255,
            count1 <= 255,
    ;
    assert(size * count2 <= 255 * 255) by (nonlinear_arith)
        requires
            size <= 255,
            count2 <= 255,
    ;
    let s = size as u32;
    let b1 = saturating_add_u64(0, saturating_mul_u32(s, count1 as u32));
    let b2 = saturating_add_u64(0, saturating_mul_u32(s, count2 as u32));
    assert(b1 == size * count1);
    assert(b2 == size * count2);
    let best = report_ended(None, b1);
    assert(scan(d, 12, s, count2 as u32, b2, best) == report_ended(best, b2));
    assert(scan(d, 10, s, count2 as u32, 0, best) == scan(d, 12, s, count2 as u32, b2, best));
    assert(scan(d, 8, s, count1 as u32, 0, best) == scan(d, 10, s, count2 as u32, 0, best));
    assert(scan(d, 6, s, count1 as u32, b1, None) == scan(d, 8, s, count1 as u32, 0, best));
    assert(scan(d, 4, s, count1 as u32, 0, None) == scan(d, 6, s, count1 as u32, b1, None));
    assert(scan(d, 2, s, 0, 0, None) == scan(d, 4, s, count1 as u32, 0, None));
    assert(scan(d, 0, 0, 0, 0, None) == scan(d, 2, s, 0, 0, None));
}

/// The Output items of one report add up: with Report Size `size`, an
/// Output item of `count1` fields followed, with no Report ID between them,
/// by one of `count2` fields describes a single report of
/// `size * (count1 + count2)` bits, counted in whole bytes.
pub proof fn lemma_output_items_add_up(size: u8, count1: u8, count2: u8)
    ensures
        largest_output_report(
            seq![0x75u8, size, 0x95u8, count1, 0x91u8, 0x02u8, 0x95u8, count2, 0x91u8, 0x02u8],
        ) == (if size * (count1 + count2) >= 8 {
            Some(((size * (count1 + count2)) / 8) as usize)
        } else {
            None::<usize>
        }),
{
    let d = seq![0x75u8, size, 0x95u8, count1, 0x91u8, 0x02u8, 0x95u8, count2, 0x91u8, 0x02u8];
    assert(size * count1 <= 255 * 255 && size * count2 <= 255 * 255 && size * (count1 + count2)
        == size * count1 + size * count2) by (nonlinear_arith)
        requires
            size <= 255,
            count1 <= 255,
            count2 <= 255,
    ;
    let s = size as u32;
    let b1 = saturating_add_u64(0, saturating_mul_u32(s, count1 as u32));
    let b2 = saturating_add_u64(b1, saturating_mul_u32(s, count2 as u32));
    assert(b1 == size * count1);
    assert(b2 == size * count1 + size * count2);
    assert(scan(d, 10, s, count2 as u32, b2, None) == report_ended(None, b2));
    assert(scan(d, 8, s, count2 as u32, b1, None) == scan(d, 10, s, count2 as u32, b2, None));
    assert(scan(d, 6, s, count1 as u32, b1, None) == scan(d, 8, s, count2 as u32, b1, None));
    assert(scan(d, 4, s, count1 as u32, 0, None) == scan(d, 6, s, count1 as u32, b1, None));
    assert(scan(d, 2, s, 0, 0, None) == scan(d, 4, s, count1 as u32, 0, None));
    assert(scan(d, 0, 0, 0, 0, None) == scan(d, 2, s, 0, 0, None));
}

fn end_report(best: Option<usize>, bits: u64) -> (r: Option<usize>)
    requires
        best matches Some(n) ==> n > 0,
    ensures
        r == report_ended(best, bits),
        r matches Some(n) ==> n > 0,
{
    let bytes = (bits / 8) as usize;
    if bytes > 0 {
        match best {
            Some(b) => Some(
                if b < bytes {
                    bytes
                } else {
                    b
                },
            ),
            None => Some(bytes),
        }
    } else {
        best
    }
}

/// Size in bytes of the largest output report in `desc`: the Output items
/// of each report added up, in whole bytes.
///
/// Returns `None` when the descriptor declares no output report, so the
/// caller can decide on a fallback.
pub fn output_report_len(desc: &[u8]) -> (r: Option<usize>)
    ensures
        r == largest_output_report(desc@),
        r matches Some(n) ==> n > 0,
{
    let mut report_size: u32 = 0;
    let mut report_count: u32 = 0;
    let mut bits: u64 = 0;
    let mut best: Option<usize> = None;

    let mut i: usize = 0;
    while i < desc.len()
        invariant_except_break
            i <= desc@.len(),
        invariant
            scan(desc@, i as nat, report_size, report_count, bits, best) == largest_output_report(
                desc@,
            ),
            best matches Some(n) ==> n > 0,
        ensures
            report_ended(best, bits) == largest_output_report(desc@),
        decreases desc@.len() - i,
    {
        let prefix = desc[i];
        let at = i + 1;

        if prefix == ITEM_LONG {
            // Long items: [0xFE][dataSize][tag][data...]
            if at >= desc.len() {
                break ;
            }
            let data_size = desc[at] as usize;
            if data_size + 2 >= desc.len() - at {
                break ;
            }
            i = at + 2 + data_size;
            continue ;
        }
        // Short item: low two bits give the data length (3 means 4 bytes).

        let len: usize = if prefix % 4 == 0 {
            0
        } else if prefix % 4 == 1 {
            1
        } else if prefix % 4 == 2 {
            2
        } else {
            4
        };
        if len > desc.len() - at {
            break ;
        }
        let value: u32 = if len == 0 {
            0
        } else if len == 1 {
            desc[at] as u32
        } else if len == 2 {
            desc[at] as u32 + 256 * (desc[at + 1] as u32)
        } else {
            desc[at] as u32 + 256 * (desc[at + 1] as u32) + 65536 * (desc[at + 2] as u32)
                + 16777216 * (desc[at + 3] as u32)
        };
        let tag = prefix - prefix % 4;
        if tag == ITEM_REPORT_SIZE {
            report_size = value;
        } else if tag == ITEM_REPORT_COUNT {
            report_count = value;
        } else if tag == ITEM_OUTPUT {
            let item = match report_size.checked_mul(report_count) {
                Some(b) => b,
                None => u32::MAX,
            };
            bits = match bits.checked_add(item as u64) {
                Some(b) => b,
                None => u64::MAX,
            };
        } else if tag == ITEM_REPORT_ID {
            best = end_report(best, bits);
            bits = 0;
        }
        i = at + len;
    }
    end_report(best, bits)
}

/// Output report length, falling back to the 32-byte default.
pub fn output_report_len_or_default(desc: &[u8]) -> (n: usize)
    ensures
        n == match largest_output_report(desc@) {
            Some(m) => if m == 32 || m == 64 {
                m
            } else {
                DEFAULT_PACKET_LEN
            },
            None => DEFAULT_PACKET_LEN,
        },
{
    match output_report_len(desc) {
        // Only 32 and 64 are plausible for this family; anything else is a
        // misparse or a different collection, so keep the safe default.
        Some(n) => if n == 32 || n == 64 {
            n
        } else {
            DEFAULT_PACKET_LEN
        },
        None => DEFAULT_PACKET_LEN,
    }
}

} // verus!
