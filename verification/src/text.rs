//! Digits and numbers as text.

use vstd::prelude::*;
use vstd::string::*;

verus! {

/// The lower-case character for a digit below sixteen.
pub open spec fn digit_char(d: int) -> char {
    if d == 0 {
        '0'
    } else if d == 1 {
        '1'
    } else if d == 2 {
        '2'
    } else if d == 3 {
        '3'
    } else if d == 4 {
        '4'
    } else if d == 5 {
        '5'
    } else if d == 6 {
        '6'
    } else if d == 7 {
        '7'
    } else if d == 8 {
        '8'
    } else if d == 9 {
        '9'
    } else if d == 10 {
        'a'
    } else if d == 11 {
        'b'
    } else if d == 12 {
        'c'
    } else if d == 13 {
        'd'
    } else if d == 14 {
        'e'
    } else {
        'f'
    }
}

/// `c` is one of `0` to `9`.
pub open spec fn is_decimal_digit(c: char) -> bool {
    exists|d: int| 0 <= d < 10 && c == #[trigger] digit_char(d)
}

/// `c` is one of `0` to `9` or `a` to `f`.
pub open spec fn is_hex_digit(c: char) -> bool {
    exists|d: int| 0 <= d < 16 && c == #[trigger] digit_char(d)
}

/// `n` in decimal, without leading zeros.
pub open spec fn decimal_text(n: nat) -> Seq<char>
    decreases n,
{
    if n < 10 {
        seq![digit_char(n as int)]
    } else {
        decimal_text(n / 10).push(digit_char((n % 10) as int))
    }
}

/// `n` in lower-case hexadecimal, without leading zeros.
pub open spec fn hex_text(n: nat) -> Seq<char>
    decreases n,
{
    if n < 16 {
        seq![digit_char(n as int)]
    } else {
        hex_text(n / 16).push(digit_char((n % 16) as int))
    }
}

/// The last two decimal digits of `n`, tens first.
pub open spec fn two_digit_text(n: nat) -> Seq<char> {
    seq![digit_char(((n / 10) % 10) as int), digit_char((n % 10) as int)]
}

/// Decimal text is never empty and holds decimal digits only.
pub proof fn lemma_decimal_text_digits(n: nat)
    ensures
        decimal_text(n).len() >= 1,
        forall|i: int| 0 <= i < decimal_text(n).len() ==> is_decimal_digit(#[trigger] decimal_text(n)[i]),
    decreases n,
{
    let t = decimal_text(n);
    if n < 10 {
        assert forall|i: int| 0 <= i < t.len() implies is_decimal_digit(#[trigger] t[i]) by {
            assert(t[i] == digit_char(n as int));
        }
    } else {
        lemma_decimal_text_digits(n / 10);
        let head = decimal_text(n / 10);
        assert forall|i: int| 0 <= i < t.len() implies is_decimal_digit(#[trigger] t[i]) by {
            if i < head.len() {
                assert(t[i] == head[i]);
            } else {
                assert(t[i] == digit_char((n % 10) as int));
            }
        }
    }
}

/// Hexadecimal text is never empty and holds hexadecimal digits only.
pub proof fn lemma_hex_text_digits(n: nat)
    ensures
        hex_text(n).len() >= 1,
        forall|i: int| 0 <= i < hex_text(n).len() ==> is_hex_digit(#[trigger] hex_text(n)[i]),
    decreases n,
{
    let t = hex_text(n);
    if n < 16 {
        assert forall|i: int| 0 <= i < t.len() implies is_hex_digit(#[trigger] t[i]) by {
            assert(t[i] == digit_char(n as int));
        }
    } else {
        lemma_hex_text_digits(n / 16);
        let head = hex_text(n / 16);
        assert forall|i: int| 0 <= i < t.len() implies is_hex_digit(#[trigger] t[i]) by {
            if i < head.len() {
                assert(t[i] == head[i]);
            } else {
                assert(t[i] == digit_char((n % 16) as int));
            }
        }
    }
}

/// The one-character string for a digit below sixteen.
pub(crate) fn digit_str(d: u8) -> (s: &'static str)
    requires
        d < 16,
    ensures
        s@ == seq![digit_char(d as int)],
{
    proof {
        reveal_strlit("0");
        reveal_strlit("1");
        reveal_strlit("2");
        reveal_strlit("3");
        reveal_strlit("4");
        reveal_strlit("5");
        reveal_strlit("6");
        reveal_strlit("7");
        reveal_strlit("8");
        reveal_strlit("9");
        reveal_strlit("a");
        reveal_strlit("b");
        reveal_strlit("c");
        reveal_strlit("d");
        reveal_strlit("e");
        reveal_strlit("f");
    }
    let s = match d {
        0 => "0",
        1 => "1",
        2 => "2",
        3 => "3",
        4 => "4",
        5 => "5",
        6 => "6",
        7 => "7",
        8 => "8",
        9 => "9",
        10 => "a",
        11 => "b",
        12 => "c",
        13 => "d",
        14 => "e",
        _ => "f",
    };
    assert(s@ =~= seq![digit_char(d as int)]);
    s
}

/// Appends `n` in decimal to `out`.
pub(crate) fn push_decimal(out: &mut String, n: u8)
    ensures
        final(out)@ == old(out)@ + decimal_text(n as nat),
{
    proof {
        reveal_with_fuel(decimal_text, 3);
    }
    let ghost start = out@;
    if n >= 100 {
        out.append(digit_str(n / 100));
        out.append(digit_str((n / 10) % 10));
        out.append(digit_str(n % 10));
    } else if n >= 10 {
        out.append(digit_str(n / 10));
        out.append(digit_str(n % 10));
    } else {
        out.append(digit_str(n));
    }
    assert(out@ =~= start + decimal_text(n as nat));
}

/// Appends `n` in lower-case hexadecimal to `out`.
pub(crate) fn push_hex(out: &mut String, n: u16)
    ensures
        final(out)@ == old(out)@ + hex_text(n as nat),
{
    proof {
        reveal_with_fuel(hex_text, 4);
    }
    let ghost start = out@;
    let d3: u8 = (n / 4096) as u8;
    let d2: u8 = ((n / 256) % 16) as u8;
    let d1: u8 = ((n / 16) % 16) as u8;
    let d0: u8 = (n % 16) as u8;
    if n >= 4096 {
        out.append(digit_str(d3));
    }
    if n >= 256 {
        out.append(digit_str(d2));
    }
    if n >= 16 {
        out.append(digit_str(d1));
    }
    out.append(digit_str(d0));
    assert(out@ =~= start + hex_text(n as nat));
}

/// Appends the last two decimal digits of `n` to `out`.
pub(crate) fn push_two_digits(out: &mut String, n: u32)
    ensures
        final(out)@ == old(out)@ + two_digit_text(n as nat),
{
    let ghost start = out@;
    let tens: u8 = ((n / 10) % 10) as u8;
    let units: u8 = (n % 10) as u8;
    out.append(digit_str(tens));
    out.append(digit_str(units));
    assert(out@ =~= start + two_digit_text(n as nat));
}

} // verus!
