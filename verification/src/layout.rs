//! Physical layout of the SPAWN 65% board.
//!
//! `slot` is the index the firmware uses to address a key in every table
//! (keymap, rapid trigger, per-key LED). Widths are in quarters of a
//! standard key, so every row is [`BOARD_QUARTERS`] wide.
use vstd::prelude::*;

use crate::KEY_SLOTS;

verus! {

/// One physical key.
#[derive(Debug, Clone, Copy, PartialEq, Eq)]
pub struct KeyCap {
    /// Index into the firmware's 126-slot tables.
    pub slot: u8,
    /// Legend shown in the UI.
    pub label: &'static str,
    /// Width in quarters of a keyboard unit (4 = one standard key).
    pub width_quarters: u8,
    /// Default HID Keyboard/Keypad usage ID for this position.
    pub usage: u8,
}

/// Total width of the board: 16 keyboard units, in quarters.
pub const BOARD_QUARTERS: u32 = 64;

/// Number of rows on the board.
pub const ROWS: usize = 5;

/// Row `r` of the board, left to right.
pub open spec fn layout_row(r: int) -> Seq<KeyCap> {
    if r == 0 {
        seq![
            KeyCap { slot: 0, label: "Esc", width_quarters: 4, usage: 0x29 },
            KeyCap { slot: 17, label: "1", width_quarters: 4, usage: 0x1E },
            KeyCap { slot: 18, label: "2", width_quarters: 4, usage: 0x1F },
            KeyCap { slot: 19, label: "3", width_quarters: 4, usage: 0x20 },
            KeyCap { slot: 20, label: "4", width_quarters: 4, usage: 0x21 },
            KeyCap { slot: 21, label: "5", width_quarters: 4, usage: 0x22 },
            KeyCap { slot: 22, label: "6", width_quarters: 4, usage: 0x23 },
            KeyCap { slot: 23, label: "7", width_quarters: 4, usage: 0x24 },
            KeyCap { slot: 24, label: "8", width_quarters: 4, usage: 0x25 },
            KeyCap { slot: 25, label: "9", width_quarters: 4, usage: 0x26 },
            KeyCap { slot: 26, label: "0", width_quarters: 4, usage: 0x27 },
            KeyCap { slot: 27, label: "-", width_quarters: 4, usage: 0x2D },
            KeyCap { slot: 28, label: "=", width_quarters: 4, usage: 0x2E },
            KeyCap { slot: 92, label: "Backspace", width_quarters: 8, usage: 0x2A },
            KeyCap { slot: 103, label: "Ins", width_quarters: 4, usage: 0x49 },
        ]
    } else if r == 1 {
        seq![
            KeyCap { slot: 32, label: "Tab", width_quarters: 6, usage: 0x2B },
            KeyCap { slot: 33, label: "Q", width_quarters: 4, usage: 0x14 },
            KeyCap { slot: 34, label: "W", width_quarters: 4, usage: 0x1A },
            KeyCap { slot: 35, label: "E", width_quarters: 4, usage: 0x08 },
            KeyCap { slot: 36, label: "R", width_quarters: 4, usage: 0x15 },
            KeyCap { slot: 37, label: "T", width_quarters: 4, usage: 0x17 },
            KeyCap { slot: 38, label: "Y", width_quarters: 4, usage: 0x1C },
            KeyCap { slot: 39, label: "U", width_quarters: 4, usage: 0x18 },
            KeyCap { slot: 40, label: "I", width_quarters: 4, usage: 0x0C },
            KeyCap { slot: 41, label: "O", width_quarters: 4, usage: 0x12 },
            KeyCap { slot: 42, label: "P", width_quarters: 4, usage: 0x13 },
            KeyCap { slot: 43, label: "[", width_quarters: 4, usage: 0x2F },
            KeyCap { slot: 44, label: "]", width_quarters: 4, usage: 0x30 },
            KeyCap { slot: 60, label: "\\", width_quarters: 6, usage: 0x31 },
            KeyCap { slot: 106, label: "Del", width_quarters: 4, usage: 0x4C },
        ]
    } else if r == 2 {
        seq![
            KeyCap { slot: 48, label: "Caps", width_quarters: 7, usage: 0x39 },
            KeyCap { slot: 49, label: "A", width_quarters: 4, usage: 0x04 },
            KeyCap { slot: 50, label: "S", width_quarters: 4, usage: 0x16 },
            KeyCap { slot: 51, label: "D", width_quarters: 4, usage: 0x07 },
            KeyCap { slot: 52, label: "F", width_quarters: 4, usage: 0x09 },
            KeyCap { slot: 53, label: "G", width_quarters: 4, usage: 0x0A },
            KeyCap { slot: 54, label: "H", width_quarters: 4, usage: 0x0B },
            KeyCap { slot: 55, label: "J", width_quarters: 4, usage: 0x0D },
            KeyCap { slot: 56, label: "K", width_quarters: 4, usage: 0x0E },
            KeyCap { slot: 57, label: "L", width_quarters: 4, usage: 0x0F },
            KeyCap { slot: 58, label: ";", width_quarters: 4, usage: 0x33 },
            KeyCap { slot: 59, label: "'", width_quarters: 4, usage: 0x34 },
            KeyCap { slot: 76, label: "Enter", width_quarters: 9, usage: 0x28 },
            KeyCap { slot: 105, label: "PgUp", width_quarters: 4, usage: 0x4B },
        ]
    } else if r == 3 {
        seq![
            KeyCap { slot: 64, label: "Shift", width_quarters: 9, usage: 0xE1 },
            KeyCap { slot: 65, label: "Z", width_quarters: 4, usage: 0x1D },
            KeyCap { slot: 66, label: "X", width_quarters: 4, usage: 0x1B },
            KeyCap { slot: 67, label: "C", width_quarters: 4, usage: 0x06 },
            KeyCap { slot: 68, label: "V", width_quarters: 4, usage: 0x19 },
            KeyCap { slot: 69, label: "B", width_quarters: 4, usage: 0x05 },
            KeyCap { slot: 70, label: "N", width_quarters: 4, usage: 0x11 },
            KeyCap { slot: 71, label: "M", width_quarters: 4, usage: 0x10 },
            KeyCap { slot: 72, label: ",", width_quarters: 4, usage: 0x36 },
            KeyCap { slot: 73, label: ".", width_quarters: 4, usage: 0x37 },
            KeyCap { slot: 74, label: "/", width_quarters: 4, usage: 0x38 },
            KeyCap { slot: 75, label: "Shift", width_quarters: 7, usage: 0xE5 },
            KeyCap { slot: 90, label: "\u{2191}", width_quarters: 4, usage: 0x52 },
            KeyCap { slot: 108, label: "PgDn", width_quarters: 4, usage: 0x4E },
        ]
    } else {
        seq![
            KeyCap { slot: 80, label: "Ctrl", width_quarters: 5, usage: 0xE0 },
            KeyCap { slot: 81, label: "Win", width_quarters: 5, usage: 0xE3 },
            KeyCap { slot: 82, label: "Alt", width_quarters: 5, usage: 0xE2 },
            KeyCap { slot: 83, label: "Space", width_quarters: 25, usage: 0x2C },
            KeyCap { slot: 84, label: "Alt", width_quarters: 4, usage: 0xE6 },
            KeyCap { slot: 85, label: "Fn", width_quarters: 4, usage: 0x00 },
            KeyCap { slot: 87, label: "Ctrl", width_quarters: 4, usage: 0xE4 },
            KeyCap { slot: 88, label: "\u{2190}", width_quarters: 4, usage: 0x50 },
            KeyCap { slot: 89, label: "\u{2193}", width_quarters: 4, usage: 0x51 },
            KeyCap { slot: 91, label: "\u{2192}", width_quarters: 4, usage: 0x4F },
        ]
    }
}

/// The keys of the first `n` rows, in row order.
pub open spec fn keys_of_rows(n: nat) -> Seq<KeyCap>
    decreases n,
{
    if n == 0 {
        Seq::empty()
    } else {
        keys_of_rows((n - 1) as nat) + layout_row(n - 1)
    }
}

/// Every key on the board, in row order.
pub open spec fn layout_keys() -> Seq<KeyCap> {
    keys_of_rows(ROWS as nat)
}

/// Total width of a row, in quarters.
pub open spec fn row_width(row: Seq<KeyCap>) -> nat
    decreases row.len(),
{
    if row.len() == 0 {
        0
    } else {
        row_width(row.drop_last()) + row.last().width_quarters as nat
    }
}

fn row_keys(r: usize) -> (v: Vec<KeyCap>)
    requires
        r < ROWS,
    ensures
        v@ == layout_row(r as int),
{
    let mut v: Vec<KeyCap> = Vec::new();
    if r == 0 {
        v.push(KeyCap { slot: 0, label: "Esc", width_quarters: 4, usage: 0x29 });
        v.push(KeyCap { slot: 17, label: "1", width_quarters: 4, usage: 0x1E });
        v.push(KeyCap { slot: 18, label: "2", width_quarters: 4, usage: 0x1F });
        v.push(KeyCap { slot: 19, label: "3", width_quarters: 4, usage: 0x20 });
        v.push(KeyCap { slot: 20, label: "4", width_quarters: 4, usage: 0x21 });
        v.push(KeyCap { slot: 21, label: "5", width_quarters: 4, usage: 0x22 });
        v.push(KeyCap { slot: 22, label: "6", width_quarters: 4, usage: 0x23 });
        v.push(KeyCap { slot: 23, label: "7", width_quarters: 4, usage: 0x24 });
        v.push(KeyCap { slot: 24, label: "8", width_quarters: 4, usage: 0x25 });
        v.push(KeyCap { slot: 25, label: "9", width_quarters: 4, usage: 0x26 });
        v.push(KeyCap { slot: 26, label: "0", width_quarters: 4, usage: 0x27 });
        v.push(KeyCap { slot: 27, label: "-", width_quarters: 4, usage: 0x2D });
        v.push(KeyCap { slot: 28, label: "=", width_quarters: 4, usage: 0x2E });
        v.push(KeyCap { slot: 92, label: "Backspace", width_quarters: 8, usage: 0x2A });
        v.push(KeyCap { slot: 103, label: "Ins", width_quarters: 4, usage: 0x49 });
    } else if r == 1 {
        v.push(KeyCap { slot: 32, label: "Tab", width_quarters: 6, usage: 0x2B });
        v.push(KeyCap { slot: 33, label: "Q", width_quarters: 4, usage: 0x14 });
        v.push(KeyCap { slot: 34, label: "W", width_quarters: 4, usage: 0x1A });
        v.push(KeyCap { slot: 35, label: "E", width_quarters: 4, usage: 0x08 });
        v.push(KeyCap { slot: 36, label: "R", width_quarters: 4, usage: 0x15 });
        v.push(KeyCap { slot: 37, label: "T", width_quarters: 4, usage: 0x17 });
        v.push(KeyCap { slot: 38, label: "Y", width_quarters: 4, usage: 0x1C });
        v.push(KeyCap { slot: 39, label: "U", width_quarters: 4, usage: 0x18 });
        v.push(KeyCap { slot: 40, label: "I", width_quarters: 4, usage: 0x0C });
        v.push(KeyCap { slot: 41, label: "O", width_quarters: 4, usage: 0x12 });
        v.push(KeyCap { slot: 42, label: "P", width_quarters: 4, usage: 0x13 });
        v.push(KeyCap { slot: 43, label: "[", width_quarters: 4, usage: 0x2F });
        v.push(KeyCap { slot: 44, label: "]", width_quarters: 4, usage: 0x30 });
        v.push(KeyCap { slot: 60, label: "\\", width_quarters: 6, usage: 0x31 });
        v.push(KeyCap { slot: 106, label: "Del", width_quarters: 4, usage: 0x4C });
    } else if r == 2 {
        v.push(KeyCap { slot: 48, label: "Caps", width_quarters: 7, usage: 0x39 });
        v.push(KeyCap { slot: 49, label: "A", width_quarters: 4, usage: 0x04 });
        v.push(KeyCap { slot: 50, label: "S", width_quarters: 4, usage: 0x16 });
        v.push(KeyCap { slot: 51, label: "D", width_quarters: 4, usage: 0x07 });
        v.push(KeyCap { slot: 52, label: "F", width_quarters: 4, usage: 0x09 });
        v.push(KeyCap { slot: 53, label: "G", width_quarters: 4, usage: 0x0A });
        v.push(KeyCap { slot: 54, label: "H", width_quarters: 4, usage: 0x0B });
        v.push(KeyCap { slot: 55, label: "J", width_quarters: 4, usage: 0x0D });
        v.push(KeyCap { slot: 56, label: "K", width_quarters: 4, usage: 0x0E });
        v.push(KeyCap { slot: 57, label: "L", width_quarters: 4, usage: 0x0F });
        v.push(KeyCap { slot: 58, label: ";", width_quarters: 4, usage: 0x33 });
        v.push(KeyCap { slot: 59, label: "'", width_quarters: 4, usage: 0x34 });
        v.push(KeyCap { slot: 76, label: "Enter", width_quarters: 9, usage: 0x28 });
        v.push(KeyCap { slot: 105, label: "PgUp", width_quarters: 4, usage: 0x4B });
    } else if r == 3 {
        v.push(KeyCap { slot: 64, label: "Shift", width_quarters: 9, usage: 0xE1 });
        v.push(KeyCap { slot: 65, label: "Z", width_quarters: 4, usage: 0x1D });
        v.push(KeyCap { slot: 66, label: "X", width_quarters: 4, usage: 0x1B });
        v.push(KeyCap { slot: 67, label: "C", width_quarters: 4, usage: 0x06 });
        v.push(KeyCap { slot: 68, label: "V", width_quarters: 4, usage: 0x19 });
        v.push(KeyCap { slot: 69, label: "B", width_quarters: 4, usage: 0x05 });
        v.push(KeyCap { slot: 70, label: "N", width_quarters: 4, usage: 0x11 });
        v.push(KeyCap { slot: 71, label: "M", width_quarters: 4, usage: 0x10 });
        v.push(KeyCap { slot: 72, label: ",", width_quarters: 4, usage: 0x36 });
        v.push(KeyCap { slot: 73, label: ".", width_quarters: 4, usage: 0x37 });
        v.push(KeyCap { slot: 74, label: "/", width_quarters: 4, usage: 0x38 });
        v.push(KeyCap { slot: 75, label: "Shift", width_quarters: 7, usage: 0xE5 });
        v.push(KeyCap { slot: 90, label: "\u{2191}", width_quarters: 4, usage: 0x52 });
        v.push(KeyCap { slot: 108, label: "PgDn", width_quarters: 4, usage: 0x4E });
    } else {
        v.push(KeyCap { slot: 80, label: "Ctrl", width_quarters: 5, usage: 0xE0 });
        v.push(KeyCap { slot: 81, label: "Win", width_quarters: 5, usage: 0xE3 });
        v.push(KeyCap { slot: 82, label: "Alt", width_quarters: 5, usage: 0xE2 });
        v.push(KeyCap { slot: 83, label: "Space", width_quarters: 25, usage: 0x2C });
        v.push(KeyCap { slot: 84, label: "Alt", width_quarters: 4, usage: 0xE6 });
        v.push(KeyCap { slot: 85, label: "Fn", width_quarters: 4, usage: 0x00 });
        v.push(KeyCap { slot: 87, label: "Ctrl", width_quarters: 4, usage: 0xE4 });
        v.push(KeyCap { slot: 88, label: "\u{2190}", width_quarters: 4, usage: 0x50 });
        v.push(KeyCap { slot: 89, label: "\u{2193}", width_quarters: 4, usage: 0x51 });
        v.push(KeyCap { slot: 91, label: "\u{2192}", width_quarters: 4, usage: 0x4F });
    }
    assert(v@ =~= layout_row(r as int));
    v
}

/// The board's keys, row by row, each row left to right.
pub fn spawn_rows() -> (rows: Vec<Vec<KeyCap>>)
    ensures
        rows@.len() == ROWS,
        forall|r: int| 0 <= r < ROWS ==> (#[trigger] rows@[r])@ == layout_row(r),
{
    let mut rows: Vec<Vec<KeyCap>> = Vec::new();
    let mut r: usize = 0;
    while r < ROWS
        invariant
            r <= ROWS,
            rows@.len() == r,
            forall|k: int| 0 <= k < r ==> (#[trigger] rows@[k])@ == layout_row(k),
        decreases ROWS - r,
    {
        rows.push(row_keys(r));
        r = r + 1;
    }
    rows
}

/// Every key on the board, row order.
pub fn all_keys() -> (keys: Vec<KeyCap>)
    ensures
        keys@ == layout_keys(),
{
    let mut keys: Vec<KeyCap> = Vec::new();
    let mut r: usize = 0;
    while r < ROWS
        invariant
            r <= ROWS,
            keys@ == keys_of_rows(r as nat),
        decreases ROWS - r,
    {
        let row = row_keys(r);
        let mut c: usize = 0;
        let ghost before = keys@;
        while c < row.len()
            invariant
                c <= row@.len(),
                row@ == layout_row(r as int),
                keys@ == before + row@.take(c as int),
            decreases row@.len() - c,
        {
            keys.push(row[c]);
            c = c + 1;
            assert(keys@ =~= before + row@.take(c as int));
        }
        assert(row@.take(row@.len() as int) =~= row@);
        r = r + 1;
    }
    keys
}

/// Look up a key by its firmware slot.
pub fn key_by_slot(slot: u8) -> (k: Option<KeyCap>)
    ensures
        k matches Some(key) ==> layout_keys().contains(key) && key.slot == slot,
        k is None ==> forall|i: int| 0 <= i < layout_keys().len() ==> (#[trigger] layout_keys()[i]).slot != slot,
{
    let keys = all_keys();
    let mut i: usize = 0;
    while i < keys.len()
        invariant
            keys@ == layout_keys(),
            i <= keys@.len(),
            forall|j: int| 0 <= j < i ==> (#[trigger] keys@[j]).slot != slot,
        decreases keys@.len() - i,
    {
        if keys[i].slot == slot {
            assert(keys@[i as int] == keys[i as int]);
            assert(layout_keys().contains(keys[i as int]));
            return Some(keys[i]);
        }
        i = i + 1;
    }
    None
}


/// Where a slot sits in [`layout_keys`], or -1 when no key uses it.
spec fn slot_position(slot: u8) -> int {
    if slot == 0 {
        0
    } else if slot == 17 {
        1
    } else if slot == 18 {
        2
    } else if slot == 19 {
        3
    } else if slot == 20 {
        4
    } else if slot == 21 {
        5
    } else if slot == 22 {
        6
    } else if slot == 23 {
        7
    } else if slot == 24 {
        8
    } else if slot == 25 {
        9
    } else if slot == 26 {
        10
    } else if slot == 27 {
        11
    } else if slot == 28 {
        12
    } else if slot == 92 {
        13
    } else if slot == 103 {
        14
    } else if slot == 32 {
        15
    } else if slot == 33 {
        16
    } else if slot == 34 {
        17
    } else if slot == 35 {
        18
    } else if slot == 36 {
        19
    } else if slot == 37 {
        20
    } else if slot == 38 {
        21
    } else if slot == 39 {
        22
    } else if slot == 40 {
        23
    } else if slot == 41 {
        24
    } else if slot == 42 {
        25
    } else if slot == 43 {
        26
    } else if slot == 44 {
        27
    } else if slot == 60 {
        28
    } else if slot == 106 {
        29
    } else if slot == 48 {
        30
    } else if slot == 49 {
        31
    } else if slot == 50 {
        32
    } else if slot == 51 {
        33
    } else if slot == 52 {
        34
    } else if slot == 53 {
        35
    } else if slot == 54 {
        36
    } else if slot == 55 {
        37
    } else if slot == 56 {
        38
    } else if slot == 57 {
        39
    } else if slot == 58 {
        40
    } else if slot == 59 {
        41
    } else if slot == 76 {
        42
    } else if slot == 105 {
        43
    } else if slot == 64 {
        44
    } else if slot == 65 {
        45
    } else if slot == 66 {
        46
    } else if slot == 67 {
        47
    } else if slot == 68 {
        48
    } else if slot == 69 {
        49
    } else if slot == 70 {
        50
    } else if slot == 71 {
        51
    } else if slot == 72 {
        52
    } else if slot == 73 {
        53
    } else if slot == 74 {
        54
    } else if slot == 75 {
        55
    } else if slot == 90 {
        56
    } else if slot == 108 {
        57
    } else if slot == 80 {
        58
    } else if slot == 81 {
        59
    } else if slot == 82 {
        60
    } else if slot == 83 {
        61
    } else if slot == 84 {
        62
    } else if slot == 85 {
        63
    } else if slot == 87 {
        64
    } else if slot == 88 {
        65
    } else if slot == 89 {
        66
    } else if slot == 91 {
        67
    } else {
        -1
    }
}

/// Every row of the board is the same width: 16 keyboard units.
pub proof fn lemma_rows_same_width()
    ensures
        forall|r: int| 0 <= r < ROWS ==> row_width(#[trigger] layout_row(r)) == BOARD_QUARTERS,
{
    assert(row_width(layout_row(0)) == BOARD_QUARTERS) by {
        reveal_with_fuel(row_width, 16);
    }
    assert(row_width(layout_row(1)) == BOARD_QUARTERS) by {
        reveal_with_fuel(row_width, 16);
    }
    assert(row_width(layout_row(2)) == BOARD_QUARTERS) by {
        reveal_with_fuel(row_width, 16);
    }
    assert(row_width(layout_row(3)) == BOARD_QUARTERS) by {
        reveal_with_fuel(row_width, 16);
    }
    assert(row_width(layout_row(4)) == BOARD_QUARTERS) by {
        reveal_with_fuel(row_width, 16);
    }
    assert forall|r: int| 0 <= r < ROWS implies row_width(#[trigger] layout_row(r)) == BOARD_QUARTERS by {
        if r == 0 {
        } else if r == 1 {
        } else if r == 2 {
        } else if r == 3 {
        } else {
        }
    }
}

/// The board has 68 keys.
pub proof fn lemma_key_count()
    ensures
        layout_keys().len() == 68,
{
    reveal_with_fuel(keys_of_rows, 6);
}

/// Every key has its own slot, and every slot is one the firmware's tables
/// address.
pub proof fn lemma_slots_unique_and_addressable()
    ensures
        forall|i: int, j: int|
            0 <= i < j < layout_keys().len() ==> (#[trigger] layout_keys()[i]).slot != (
            #[trigger] layout_keys()[j]).slot,
        forall|i: int| 0 <= i < layout_keys().len() ==> ((#[trigger] layout_keys()[i]).slot as int) < KEY_SLOTS,
{
    reveal_with_fuel(keys_of_rows, 6);
    let ks = layout_keys();
    assert(ks =~= layout_row(0) + layout_row(1) + layout_row(2) + layout_row(3) + layout_row(4));
    assert(ks.len() == 68);
    assert forall|i: int| 0 <= i < 68 implies slot_position((#[trigger] ks[i]).slot) == i && (ks[i].slot as int) < KEY_SLOTS by {
        if i == 0 {
            assert(ks[0] == layout_row(0)[0]);
        } else if i == 1 {
            assert(ks[1] == layout_row(0)[1]);
        } else if i == 2 {
            assert(ks[2] == layout_row(0)[2]);
        } else if i == 3 {
            assert(ks[3] == layout_row(0)[3]);
        } else if i == 4 {
            assert(ks[4] == layout_row(0)[4]);
        } else if i == 5 {
            assert(ks[5] == layout_row(0)[5]);
        } else if i == 6 {
            assert(ks[6] == layout_row(0)[6]);
        } else if i == 7 {
            assert(ks[7] == layout_row(0)[7]);
        } else if i == 8 {
            assert(ks[8] == layout_row(0)[8]);
        } else if i == 9 {
            assert(ks[9] == layout_row(0)[9]);
        } else if i == 10 {
            assert(ks[10] == layout_row(0)[10]);
        } else if i == 11 {
            assert(ks[11] == layout_row(0)[11]);
        } else if i == 12 {
            assert(ks[12] == layout_row(0)[12]);
        } else if i == 13 {
            assert(ks[13] == layout_row(0)[13]);
        } else if i == 14 {
            assert(ks[14] == layout_row(0)[14]);
        } else if i == 15 {
            assert(ks[15] == layout_row(1)[0]);
        } else if i == 16 {
            assert(ks[16] == layout_row(1)[1]);
        } else if i == 17 {
            assert(ks[17] == layout_row(1)[2]);
        } else if i == 18 {
            assert(ks[18] == layout_row(1)[3]);
        } else if i == 19 {
            assert(ks[19] == layout_row(1)[4]);
        } else if i == 20 {
            assert(ks[20] == layout_row(1)[5]);
        } else if i == 21 {
            assert(ks[21] == layout_row(1)[6]);
        } else if i == 22 {
            assert(ks[22] == layout_row(1)[7]);
        } else if i == 23 {
            assert(ks[23] == layout_row(1)[8]);
        } else if i == 24 {
            assert(ks[24] == layout_row(1)[9]);
        } else if i == 25 {
            assert(ks[25] == layout_row(1)[10]);
        } else if i == 26 {
            assert(ks[26] == layout_row(1)[11]);
        } else if i == 27 {
            assert(ks[27] == layout_row(1)[12]);
        } else if i == 28 {
            assert(ks[28] == layout_row(1)[13]);
        } else if i == 29 {
            assert(ks[29] == layout_row(1)[14]);
        } else if i == 30 {
            assert(ks[30] == layout_row(2)[0]);
        } else if i == 31 {
            assert(ks[31] == layout_row(2)[1]);
        } else if i == 32 {
            assert(ks[32] == layout_row(2)[2]);
        } else if i == 33 {
            assert(ks[33] == layout_row(2)[3]);
        } else if i == 34 {
            assert(ks[34] == layout_row(2)[4]);
        } else if i == 35 {
            assert(ks[35] == layout_row(2)[5]);
        } else if i == 36 {
            assert(ks[36] == layout_row(2)[6]);
        } else if i == 37 {
            assert(ks[37] == layout_row(2)[7]);
        } else if i == 38 {
            assert(ks[38] == layout_row(2)[8]);
        } else if i == 39 {
            assert(ks[39] == layout_row(2)[9]);
        } else if i == 40 {
            assert(ks[40] == layout_row(2)[10]);
        } else if i == 41 {
            assert(ks[41] == layout_row(2)[11]);
        } else if i == 42 {
            assert(ks[42] == layout_row(2)[12]);
        } else if i == 43 {
            assert(ks[43] == layout_row(2)[13]);
        } else if i == 44 {
            assert(ks[44] == layout_row(3)[0]);
        } else if i == 45 {
            assert(ks[45] == layout_row(3)[1]);
        } else if i == 46 {
            assert(ks[46] == layout_row(3)[2]);
        } else if i == 47 {
            assert(ks[47] == layout_row(3)[3]);
        } else if i == 48 {
            assert(ks[48] == layout_row(3)[4]);
        } else if i == 49 {
            assert(ks[49] == layout_row(3)[5]);
        } else if i == 50 {
            assert(ks[50] == layout_row(3)[6]);
        } else if i == 51 {
            assert(ks[51] == layout_row(3)[7]);
        } else if i == 52 {
            assert(ks[52] == layout_row(3)[8]);
        } else if i == 53 {
            assert(ks[53] == layout_row(3)[9]);
        } else if i == 54 {
            assert(ks[54] == layout_row(3)[10]);
        } else if i == 55 {
            assert(ks[55] == layout_row(3)[11]);
        } else if i == 56 {
            assert(ks[56] == layout_row(3)[12]);
        } else if i == 57 {
            assert(ks[57] == layout_row(3)[13]);
        } else if i == 58 {
            assert(ks[58] == layout_row(4)[0]);
        } else if i == 59 {
            assert(ks[59] == layout_row(4)[1]);
        } else if i == 60 {
            assert(ks[60] == layout_row(4)[2]);
        } else if i == 61 {
            assert(ks[61] == layout_row(4)[3]);
        } else if i == 62 {
            assert(ks[62] == layout_row(4)[4]);
        } else if i == 63 {
            assert(ks[63] == layout_row(4)[5]);
        } else if i == 64 {
            assert(ks[64] == layout_row(4)[6]);
        } else if i == 65 {
            assert(ks[65] == layout_row(4)[7]);
        } else if i == 66 {
            assert(ks[66] == layout_row(4)[8]);
        } else if i == 67 {
            assert(ks[67] == layout_row(4)[9]);
        } else {
        }
    }
}

} // verus!
