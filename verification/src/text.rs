//! Decimal and hexadecimal renderings of small numbers, for the few labels
//! the protocol layer produces.
use vstd::prelude::*;

verus! {

/// The digit for `d` in bases up to 16, upper case.
pub open spec fn digit_char(d: nat) -> char {
    seq!['0', '1', '2', '3', '4', '5', '6', '7', '8', '9', 'A', 'B', 'C', 'D', 'E', 'F'][d as int]
}

/// `n` in decimal, without leading zeros.
pub open spec fn decimal(n: nat) -> Seq<char>
    decreases n,
{
    if n < 10 {
        seq![digit_char(n)]
    } else {
        decimal(n / 10) + seq![digit_char(n % 10)]
    }
}

/// `n` as exactly four upper-case hexadecimal digits (`{:04X}`).
pub open spec fn hex4(n: u16) -> Seq<char> {
    seq![
        digit_char((n / 4096) as nat),
        digit_char(((n / 256) % 16) as nat),
        digit_char(((n / 16) % 16) as nat),
        digit_char((n % 16) as nat),
    ]
}

/// A one-character string holding the digit for `d`.
pub fn digit_str(d: u8) -> (s: &'static str)
    requires
        d < 16,
    ensures
        s@ == seq![digit_char(d as nat)],
{
    match d {
        0 => {
            proof {
                reveal_strlit("0");
            }
            "0"
        },
        1 => {
            proof {
                reveal_strlit("1");
            }
            "1"
        },
        2 => {
            proof {
                reveal_strlit("2");
            }
            "2"
        },
        3 => {
            proof {
                reveal_strlit("3");
            }
            "3"
        },
        4 => {
            proof {
                reveal_strlit("4");
            }
            "4"
        },
        5 => {
            proof {
                reveal_strlit("5");
            }
            "5"
        },
        6 => {
            proof {
                reveal_strlit("6");
            }
            "6"
        },
        7 => {
            proof {
                reveal_strlit("7");
            }
            "7"
        },
        8 => {
            proof {
                reveal_strlit("8");
            }
            "8"
        },
        9 => {
            proof {
                reveal_strlit("9");
            }
            "9"
        },
        10 => {
            proof {
                reveal_strlit("A");
            }
            "A"
        },
        11 => {
            proof {
                reveal_strlit("B");
            }
            "B"
        },
        12 => {
            proof {
                reveal_strlit("C");
            }
            "C"
        },
        13 => {
            proof {
                reveal_strlit("D");
            }
            "D"
        },
        14 => {
            proof {
                reveal_strlit("E");
            }
            "E"
        },
        _ => {
            proof {
                reveal_strlit("F");
            }
            "F"
        },
    }
}

/// Append `n` in decimal to `s`.
pub fn push_decimal(s: &mut String, n: u64)
    ensures
        final(s)@ == old(s)@ + decimal(n as nat),
    decreases n,
{
    if n >= 10 {
        push_decimal(s, n / 10);
    }
    s.append(digit_str((n % 10) as u8));
    proof {
        assert(n < 10 ==> (n % 10) == n);
    }
    assert(s@ =~= old(s)@ + decimal(n as nat));
}

/// Append `n` as four upper-case hexadecimal digits to `s`.
pub fn push_hex4(s: &mut String, n: u16)
    ensures
        final(s)@ == old(s)@ + hex4(n),
{
    s.append(digit_str((n / 4096) as u8));
    s.append(digit_str(((n / 256) % 16) as u8));
    s.append(digit_str(((n / 16) % 16) as u8));
    s.append(digit_str((n % 16) as u8));
    assert(s@ =~= old(s)@ + hex4(n));
}

/// The lower-case digit for `d` in bases up to 16.
pub open spec fn lower_digit_char(d: nat) -> char {
    seq!['0', '1', '2', '3', '4', '5', '6', '7', '8', '9', 'a', 'b', 'c', 'd', 'e', 'f'][d as int]
}

/// `n` as `0x` and two lower-case hexadecimal digits (`{:#04x}`).
pub open spec fn hex_byte_text(n: u8) -> Seq<char> {
    seq!['0', 'x', lower_digit_char((n / 16) as nat), lower_digit_char((n % 16) as nat)]
}

/// `n` as `0x` and four lower-case hexadecimal digits (`{:#06x}`).
pub open spec fn hex_word_text(n: u16) -> Seq<char> {
    seq![
        '0',
        'x',
        lower_digit_char((n / 4096) as nat),
        lower_digit_char(((n / 256) % 16) as nat),
        lower_digit_char(((n / 16) % 16) as nat),
        lower_digit_char((n % 16) as nat),
    ]
}

/// A one-character string holding the lower-case digit for `d`.
pub fn lower_digit_str(d: u8) -> (s: &'static str)
    requires
        d < 16,
    ensures
        s@ == seq![lower_digit_char(d as nat)],
{
    match d {
        0 => {
            proof {
                reveal_strlit("0");
            }
            "0"
        },
        1 => {
            proof {
                reveal_strlit("1");
            }
            "1"
        },
        2 => {
            proof {
                reveal_strlit("2");
            }
            "2"
        },
        3 => {
            proof {
                reveal_strlit("3");
            }
            "3"
        },
        4 => {
            proof {
                reveal_strlit("4");
            }
            "4"
        },
        5 => {
            proof {
                reveal_strlit("5");
            }
            "5"
        },
        6 => {
            proof {
                reveal_strlit("6");
            }
            "6"
        },
        7 => {
            proof {
                reveal_strlit("7");
            }
            "7"
        },
        8 => {
            proof {
                reveal_strlit("8");
            }
            "8"
        },
        9 => {
            proof {
                reveal_strlit("9");
            }
            "9"
        },
        10 => {
            proof {
                reveal_strlit("a");
            }
            "a"
        },
        11 => {
            proof {
                reveal_strlit("b");
            }
            "b"
        },
        12 => {
            proof {
                reveal_strlit("c");
            }
            "c"
        },
        13 => {
            proof {
                reveal_strlit("d");
            }
            "d"
        },
        14 => {
            proof {
                reveal_strlit("e");
            }
            "e"
        },
        _ => {
            proof {
                reveal_strlit("f");
            }
            "f"
        },
    }
}

/// Append `n` as `0x` and two lower-case hexadecimal digits to `s`.
pub fn push_hex_byte(s: &mut String, n: u8)
    ensures
        final(s)@ == old(s)@ + hex_byte_text(n),
{
    s.append("0x");
    s.append(lower_digit_str(n / 16));
    s.append(lower_digit_str(n % 16));
    proof {
        reveal_strlit("0x");
    }
    assert(s@ =~= old(s)@ + hex_byte_text(n));
}

/// Append `n` as `0x` and four lower-case hexadecimal digits to `s`.
pub fn push_hex_word(s: &mut String, n: u16)
    ensures
        final(s)@ == old(s)@ + hex_word_text(n),
{
    s.append("0x");
    s.append(lower_digit_str((n / 4096) as u8));
    s.append(lower_digit_str(((n / 256) % 16) as u8));
    s.append(lower_digit_str(((n / 16) % 16) as u8));
    s.append(lower_digit_str((n % 16) as u8));
    proof {
        reveal_strlit("0x");
    }
    assert(s@ =~= old(s)@ + hex_word_text(n));
}

/// The value of a digit character: `0` to `9`, then `A` to `F` or `a` to
/// `f` for ten to fifteen.
pub open spec fn digit_value(c: char) -> int {
    let v = c as int;
    if 48 <= v <= 57 {
        v - 48
    } else if 65 <= v <= 70 {
        v - 55
    } else if 97 <= v <= 102 {
        v - 87
    } else {
        0
    }
}

/// The number the digits of `s` spell in base `base`, most significant
/// first.
pub open spec fn digits_value(s: Seq<char>, base: int) -> int
    decreases s.len(),
{
    if s.len() == 0 {
        0
    } else {
        digits_value(s.drop_last(), base) * base + digit_value(s.last())
    }
}

/// Each digit character stands for its own value: `0` to `9`, then `A` to
/// `F` (upper case) or `a` to `f` (lower case).
pub proof fn lemma_digit_chars(d: nat)
    requires
        d < 16,
    ensures
        digit_value(digit_char(d)) == d,
        digit_value(lower_digit_char(d)) == d,
        d < 10 ==> digit_char(d) == lower_digit_char(d) && 48 <= digit_char(d) as int <= 57,
        d >= 10 ==> 65 <= digit_char(d) as int <= 70 && 97 <= lower_digit_char(d) as int <= 102,
{
    if d == 0 {
    } else if d == 1 {
    } else if d == 2 {
    } else if d == 3 {
    } else if d == 4 {
    } else if d == 5 {
    } else if d == 6 {
    } else if d == 7 {
    } else if d == 8 {
    } else if d == 9 {
    } else if d == 10 {
    } else if d == 11 {
    } else if d == 12 {
    } else if d == 13 {
    } else if d == 14 {
    } else {
    }
}

/// One more digit at the end multiplies what came before by the base and
/// adds its own value.
pub proof fn lemma_digits_value_push(s: Seq<char>, c: char, base: int)
    ensures
        digits_value(s + seq![c], base) == digits_value(s, base) * base + digit_value(c),
{
    assert((s + seq![c]).drop_last() =~= s);
}

/// `decimal(n)` spells `n`: it reads back as `n` in base ten, every
/// character is a decimal digit, and it has no leading zero.
pub proof fn lemma_decimal_reads_back(n: nat)
    ensures
        digits_value(decimal(n), 10) == n,
        decimal(n).len() >= 1,
        forall|k: int| 0 <= k < decimal(n).len() ==> 48 <= #[trigger] decimal(n)[k] as int <= 57,
        n > 0 ==> decimal(n)[0] != '0',
    decreases n,
{
    if n < 10 {
        lemma_digit_chars(n);
        assert(digits_value(seq![digit_char(n)], 10) == digits_value(Seq::<char>::empty(), 10) * 10
            + digit_value(digit_char(n))) by {
            assert(seq![digit_char(n)].drop_last() =~= Seq::<char>::empty());
        }
        if n > 0 {
            assert(digit_value(decimal(n)[0]) != 0);
        }
    } else {
        lemma_decimal_reads_back(n / 10);
        lemma_digit_chars(n % 10);
        lemma_digits_value_push(decimal(n / 10), digit_char(n % 10), 10);
        let s = decimal(n / 10);
        assert forall|k: int| 0 <= k < decimal(n).len() implies 48 <= #[trigger] decimal(n)[k] as int
            <= 57 by {
            if k < s.len() {
                assert(decimal(n)[k] == s[k]);
            }
        }
        assert(decimal(n)[0] == s[0]);
    }
}

/// `hex4(n)` spells `n` in exactly four upper-case hexadecimal digits.
pub proof fn lemma_hex4_reads_back(n: u16)
    ensures
        hex4(n).len() == 4,
        digits_value(hex4(n), 16) == n,
        forall|k: int|
            0 <= k < 4 ==> {
                let v = #[trigger] hex4(n)[k] as int;
                48 <= v <= 57 || 65 <= v <= 70
            },
{
    let a = (n / 4096) as nat;
    let b = ((n / 256) % 16) as nat;
    let c = ((n / 16) % 16) as nat;
    let d = (n % 16) as nat;
    lemma_digit_chars(a);
    lemma_digit_chars(b);
    lemma_digit_chars(c);
    lemma_digit_chars(d);
    let s = hex4(n);
    assert(s.take(3) + seq![s[3]] =~= s);
    assert(s.take(2) + seq![s[2]] =~= s.take(3));
    assert(s.take(1) + seq![s[1]] =~= s.take(2));
    assert(Seq::<char>::empty() + seq![s[0]] =~= s.take(1));
    lemma_digits_value_push(Seq::<char>::empty(), s[0], 16);
    lemma_digits_value_push(s.take(1), s[1], 16);
    lemma_digits_value_push(s.take(2), s[2], 16);
    lemma_digits_value_push(s.take(3), s[3], 16);
    assert(((a * 16 + b) * 16 + c) * 16 + d == n);
}

/// `hex_word_text(n)` is `0x` followed by `n` in exactly four lower-case
/// hexadecimal digits.
pub proof fn lemma_hex_word_reads_back(n: u16)
    ensures
        hex_word_text(n).len() == 6,
        hex_word_text(n)[0] == '0' && hex_word_text(n)[1] == 'x',
        digits_value(hex_word_text(n).skip(2), 16) == n,
        forall|k: int|
            2 <= k < 6 ==> {
                let v = #[trigger] hex_word_text(n)[k] as int;
                48 <= v <= 57 || 97 <= v <= 102
            },
{
    let a = (n / 4096) as nat;
    let b = ((n / 256) % 16) as nat;
    let c = ((n / 16) % 16) as nat;
    let d = (n % 16) as nat;
    lemma_digit_chars(a);
    lemma_digit_chars(b);
    lemma_digit_chars(c);
    lemma_digit_chars(d);
    let s = hex_word_text(n).skip(2);
    assert(s.take(3) + seq![s[3]] =~= s);
    assert(s.take(2) + seq![s[2]] =~= s.take(3));
    assert(s.take(1) + seq![s[1]] =~= s.take(2));
    assert(Seq::<char>::empty() + seq![s[0]] =~= s.take(1));
    lemma_digits_value_push(Seq::<char>::empty(), s[0], 16);
    lemma_digits_value_push(s.take(1), s[1], 16);
    lemma_digits_value_push(s.take(2), s[2], 16);
    lemma_digits_value_push(s.take(3), s[3], 16);
    assert(((a * 16 + b) * 16 + c) * 16 + d == n);
}

/// `hex_byte_text(n)` is `0x` followed by `n` in exactly two lower-case
/// hexadecimal digits.
pub proof fn lemma_hex_byte_reads_back(n: u8)
    ensures
        hex_byte_text(n).len() == 4,
        hex_byte_text(n)[0] == '0' && hex_byte_text(n)[1] == 'x',
        digits_value(hex_byte_text(n).skip(2), 16) == n,
        forall|k: int|
            2 <= k < 4 ==> {
                let v = #[trigger] hex_byte_text(n)[k] as int;
                48 <= v <= 57 || 97 <= v <= 102
            },
{
    let a = (n / 16) as nat;
    let d = (n % 16) as nat;
    lemma_digit_chars(a);
    lemma_digit_chars(d);
    let s = hex_byte_text(n).skip(2);
    assert(s.take(1) + seq![s[1]] =~= s);
    assert(Seq::<char>::empty() + seq![s[0]] =~= s.take(1));
    lemma_digits_value_push(Seq::<char>::empty(), s[0], 16);
    lemma_digits_value_push(s.take(1), s[1], 16);
}

} // verus!
