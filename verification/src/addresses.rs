//! Addresses as text: how header bytes are written, and what a text says of
//! the address it stands for.

use crate::text::{
    decimal_text, digit_char, hex_text, is_decimal_digit, is_hex_digit, lemma_decimal_text_digits,
    lemma_hex_text_digits, push_decimal, push_hex,
};
use vstd::prelude::*;
use vstd::string::*;
use vstd::utf8::is_ascii_chars;

verus! {

/// The text of an IPv4 address: its four bytes in decimal, joined by dots.
pub open spec fn ipv4_text(octets: Seq<u8>) -> Seq<char>
    recommends
        octets.len() == 4,
{
    decimal_text(octets[0] as nat) + seq!['.'] + decimal_text(octets[1] as nat) + seq!['.']
        + decimal_text(octets[2] as nat) + seq!['.'] + decimal_text(octets[3] as nat)
}

/// The `i`-th group of sixteen bits of an IPv6 address, first byte high.
pub open spec fn ipv6_group(octets: Seq<u8>, i: int) -> nat
    recommends
        octets.len() == 16,
        0 <= i < 8,
{
    (octets[2 * i] as nat) * 256 + (octets[2 * i + 1] as nat)
}

/// The text of the groups of an IPv6 address from `from` up to `to`, the
/// latter left out: each group in hexadecimal without leading zeros, joined
/// by colons.
pub open spec fn ipv6_groups_text(octets: Seq<u8>, from: int, to: int) -> Seq<char>
    recommends
        octets.len() == 16,
        0 <= from <= to <= 8,
    decreases to - from,
{
    if from >= to {
        Seq::empty()
    } else if from + 1 == to {
        hex_text(ipv6_group(octets, from))
    } else {
        ipv6_groups_text(octets, from, to - 1) + seq![':'] + hex_text(ipv6_group(octets, to - 1))
    }
}

/// The number of groups in a row that are zero, counted from `start` on.
pub open spec fn zero_run(octets: Seq<u8>, start: int) -> nat
    recommends
        octets.len() == 16,
    decreases 8 - start,
{
    if start < 0 || start >= 8 || ipv6_group(octets, start) != 0 {
        0
    } else {
        1 + zero_run(octets, start + 1)
    }
}

/// The longest run of zero groups among those that start before `upto`,
/// as its start and its length; of several longest ones the first.
pub open spec fn longest_zero_run(octets: Seq<u8>, upto: int) -> (int, nat)
    recommends
        octets.len() == 16,
        0 <= upto <= 8,
    decreases upto,
{
    if upto <= 0 {
        (0, 0)
    } else {
        let (start, length) = longest_zero_run(octets, upto - 1);
        if zero_run(octets, upto - 1) > length {
            (upto - 1, zero_run(octets, upto - 1))
        } else {
            (start, length)
        }
    }
}

/// The text of an IPv6 address: its eight groups joined by colons, with the
/// longest run of two or more zero groups, the first of them if there are
/// several, written as `::`.
pub open spec fn ipv6_text(octets: Seq<u8>) -> Seq<char>
    recommends
        octets.len() == 16,
{
    let (start, length) = longest_zero_run(octets, 8);
    if length < 2 {
        ipv6_groups_text(octets, 0, 8)
    } else {
        ipv6_groups_text(octets, 0, start) + seq![':', ':'] + ipv6_groups_text(
            octets,
            start + length,
            8,
        )
    }
}

/// The value of a decimal digit, or -1 for any other character.
pub open spec fn decimal_value(c: char) -> int {
    if '0' <= c <= '9' {
        c as int - '0' as int
    } else {
        -1
    }
}

/// The value of a hexadecimal digit of either case, or -1 for any other
/// character.
pub open spec fn hex_value(c: char) -> int {
    if '0' <= c <= '9' {
        c as int - '0' as int
    } else if 'a' <= c <= 'f' {
        c as int - 'a' as int + 10
    } else if 'A' <= c <= 'F' {
        c as int - 'A' as int + 10
    } else {
        -1
    }
}

/// The text starts with a first IPv4 byte from 224 to 239: three decimal
/// digits of that value, then a dot.
pub open spec fn has_multicast_ipv4_prefix(text: Seq<char>) -> bool {
    &&& text.len() >= 4
    &&& decimal_value(text[0]) >= 0
    &&& decimal_value(text[1]) >= 0
    &&& decimal_value(text[2]) >= 0
    &&& 224 <= 100 * decimal_value(text[0]) + 10 * decimal_value(text[1]) + decimal_value(
        text[2],
    ) <= 239
    &&& text[3] == '.'
}

/// The text starts with a first IPv6 group from ff00 to ffff: four
/// hexadecimal digits, the first two of them `f`, then a colon.
pub open spec fn has_multicast_ipv6_prefix(text: Seq<char>) -> bool {
    &&& text.len() >= 5
    &&& hex_value(text[0]) == 15
    &&& hex_value(text[1]) == 15
    &&& hex_value(text[2]) >= 0
    &&& hex_value(text[3]) >= 0
    &&& text[4] == ':'
}

/// The text stands for a multicast address. A text with a colon is read as
/// IPv6, any other as IPv4; a text with a character outside ASCII stands for
/// no address.
pub open spec fn is_multicast_text(text: Seq<char>) -> bool {
    &&& is_ascii_chars(text)
    &&& if text.contains(':') {
        has_multicast_ipv6_prefix(text)
    } else {
        has_multicast_ipv4_prefix(text)
    }
}

/// The text of the IPv4 limited broadcast address.
pub open spec fn broadcast_text() -> Seq<char> {
    seq!['2', '5', '5', '.', '2', '5', '5', '.', '2', '5', '5', '.', '2', '5', '5']
}

/// A digit character has the value of its digit, in both readings.
pub proof fn lemma_digit_values()
    ensures
        forall|d: int| 0 <= d < 10 ==> decimal_value(#[trigger] digit_char(d)) == d,
        forall|d: int| 0 <= d < 16 ==> hex_value(#[trigger] digit_char(d)) == d,
        forall|d: int| 0 <= d < 16 ==> '0' <= #[trigger] digit_char(d) <= 'f',
        decimal_value('.') == -1,
        hex_value(':') == -1,
{
}

/// The text of an IPv4 address holds decimal digits and dots only.
pub proof fn lemma_ipv4_text_chars(octets: Seq<u8>)
    requires
        octets.len() == 4,
    ensures
        forall|i: int|
            0 <= i < ipv4_text(octets).len() ==> is_decimal_digit(#[trigger] ipv4_text(octets)[i])
                || ipv4_text(octets)[i] == '.',
{
    lemma_decimal_text_digits(octets[0] as nat);
    lemma_decimal_text_digits(octets[1] as nat);
    lemma_decimal_text_digits(octets[2] as nat);
    lemma_decimal_text_digits(octets[3] as nat);
}

/// What is read from the text of an IPv4 address agrees with its bytes:
/// the text stands for a multicast address exactly if the first byte is
/// from 224 to 239.
pub proof fn lemma_ipv4_text_multicast(octets: Seq<u8>)
    requires
        octets.len() == 4,
    ensures
        is_multicast_text(ipv4_text(octets)) <==> 224 <= octets[0] <= 239,
{
    let text = ipv4_text(octets);
    let first = decimal_text(octets[0] as nat);
    lemma_digit_values();
    lemma_ipv4_text_chars(octets);
    lemma_decimal_text_digits(octets[1] as nat);
    reveal_with_fuel(decimal_text, 3);
    assert forall|i: int| 0 <= i < text.len() implies '\0' <= #[trigger] text[i] <= '\u{7f}' && text[i]
        != ':' by {
        if is_decimal_digit(text[i]) {
            let d = choose|d: int| 0 <= d < 10 && text[i] == digit_char(d);
            assert(text[i] == digit_char(d));
        }
    }
    assert(!text.contains(':'));
    assert(forall|i: int| 0 <= i < first.len() ==> text[i] == first[i]);
    assert(text[first.len() as int] == '.');
    let n = octets[0] as int;
    if n >= 100 {
        assert(first.len() == 3);
        assert(text[0] == digit_char(n / 100));
        assert(text[1] == digit_char((n / 10) % 10));
        assert(text[2] == digit_char(n % 10));
        assert(100 * decimal_value(text[0]) + 10 * decimal_value(text[1]) + decimal_value(text[2])
            == n);
    } else if n >= 10 {
        assert(first.len() == 2);
        assert(decimal_value(text[2]) == -1);
    } else {
        assert(first.len() == 1);
        assert(decimal_value(text[1]) == -1);
    }
}

/// The text of a run of groups holds hexadecimal digits and colons only.
/// Where the run is not empty, the text starts with its first group, and a
/// colon follows that group where there are more.
pub proof fn lemma_ipv6_groups_text_chars(octets: Seq<u8>, from: int, to: int)
    requires
        octets.len() == 16,
        0 <= from <= to <= 8,
    ensures
        ({
            let text = ipv6_groups_text(octets, from, to);
            let first = hex_text(ipv6_group(octets, from));
            &&& forall|i: int| 0 <= i < text.len() ==> is_hex_digit(#[trigger] text[i]) || text[i] == ':'
            &&& from < to ==> text.len() >= first.len() && text.subrange(0, first.len() as int)
                == first
            &&& from + 1 < to ==> text.len() > first.len() && text[first.len() as int] == ':'
        }),
    decreases to - from,
{
    let text = ipv6_groups_text(octets, from, to);
    let first = hex_text(ipv6_group(octets, from));
    if from >= to {
    } else if from + 1 == to {
        lemma_hex_text_digits(ipv6_group(octets, from));
        assert(text.subrange(0, first.len() as int) =~= first);
    } else {
        lemma_ipv6_groups_text_chars(octets, from, to - 1);
        lemma_hex_text_digits(ipv6_group(octets, to - 1));
        let head = ipv6_groups_text(octets, from, to - 1);
        let last = hex_text(ipv6_group(octets, to - 1));
        assert(text =~= head + seq![':'] + last);
        assert(text.subrange(0, first.len() as int) =~= head.subrange(0, first.len() as int));
        assert forall|i: int| 0 <= i < text.len() implies is_hex_digit(#[trigger] text[i]) || text[i]
            == ':' by {
            if i < head.len() {
                assert(text[i] == head[i]);
            } else if i == head.len() {
                assert(text[i] == ':');
            } else {
                assert(text[i] == last[i - head.len() - 1]);
            }
        }
        if from + 2 == to {
            assert(head == first);
            assert(text[first.len() as int] == ':');
        } else {
            assert(text[first.len() as int] == head[first.len() as int]);
        }
    }
}

/// The run that `longest_zero_run` gives lies within the groups before
/// `upto` and is a run of zeros of that very length; no run that starts
/// before `upto` is longer, and none that starts before it is as long.
pub proof fn lemma_longest_zero_run(octets: Seq<u8>, upto: int)
    requires
        octets.len() == 16,
        0 <= upto <= 8,
    ensures
        ({
            let (start, length) = longest_zero_run(octets, upto);
            &&& 0 <= start
            &&& start + length <= 8
            &&& length > 0 ==> start < upto
            &&& length == zero_run(octets, start) || length == 0
            &&& forall|i: int| 0 <= i < upto ==> zero_run(octets, i) <= length
            &&& forall|i: int| 0 <= i < start ==> zero_run(octets, i) < length
        }),
    decreases upto,
{
    if upto > 0 {
        lemma_longest_zero_run(octets, upto - 1);
        lemma_zero_run_bound(octets, upto - 1);
    }
}

/// A run of zero groups ends with the address at the latest.
pub proof fn lemma_zero_run_bound(octets: Seq<u8>, start: int)
    requires
        0 <= start <= 8,
    ensures
        start + zero_run(octets, start) <= 8,
    decreases 8 - start,
{
    if start < 8 && ipv6_group(octets, start) == 0 {
        lemma_zero_run_bound(octets, start + 1);
    }
}

/// What is read from the text of an IPv6 address agrees with its bytes:
/// the text stands for a multicast address exactly if the first byte is
/// 255.
pub proof fn lemma_ipv6_text_multicast(octets: Seq<u8>)
    requires
        octets.len() == 16,
    ensures
        is_multicast_text(ipv6_text(octets)) <==> octets[0] == 255,
{
    let text = ipv6_text(octets);
    let group = ipv6_group(octets, 0);
    let first = hex_text(group);
    let (start, length) = longest_zero_run(octets, 8);
    lemma_digit_values();
    lemma_longest_zero_run(octets, 8);
    lemma_hex_text_digits(group);
    reveal_with_fuel(hex_text, 4);
    let head = ipv6_groups_text(octets, 0, if length < 2 { 8 } else { start });
    lemma_ipv6_groups_text_chars(octets, 0, if length < 2 { 8 } else { start });
    if length >= 2 {
        let tail = ipv6_groups_text(octets, start + length, 8);
        lemma_ipv6_groups_text_chars(octets, start + length, 8);
        assert(text =~= head + seq![':', ':'] + tail);
        assert forall|i: int| 0 <= i < text.len() implies is_hex_digit(#[trigger] text[i]) || text[i]
            == ':' by {
            if i < head.len() {
                assert(text[i] == head[i]);
            } else if i < head.len() + 2 {
                assert(text[i] == ':');
            } else {
                assert(text[i] == tail[i - head.len() - 2]);
            }
        }
        assert(text[head.len() as int] == ':');
        if start == 0 {
            assert(zero_run(octets, 0) >= 2);
            assert(group == 0);
            assert(text[0] == ':');
        } else {
            assert(text.subrange(0, first.len() as int) =~= head.subrange(0, first.len() as int));
            if start == 1 {
                assert(head == first);
            } else {
                assert(text[first.len() as int] == head[first.len() as int]);
            }
            assert(text[first.len() as int] == ':');
        }
    } else {
        assert(text == head);
        assert(text[first.len() as int] == ':');
    }
    assert forall|i: int| 0 <= i < text.len() implies '\0' <= #[trigger] text[i] <= '\u{7f}' by {
        if is_hex_digit(text[i]) {
            let d = choose|d: int| 0 <= d < 16 && text[i] == digit_char(d);
            assert(text[i] == digit_char(d));
        }
    }
    assert(text.contains(':')) by {
        if length >= 2 {
            assert(text[head.len() as int] == ':');
        } else {
            assert(text[first.len() as int] == ':');
        }
    }
    let high = octets[0] as int;
    let low = octets[1] as int;
    assert(group == high * 256 + low);
    if length >= 2 && start == 0 {
        assert(hex_value(text[0]) == -1);
        assert(high == 0) by (nonlinear_arith)
            requires
                high * 256 + low == 0,
                0 <= low,
                0 <= high,
        ;
    } else {
        assert forall|i: int| 0 <= i < first.len() implies text[i] == first[i] by {
            assert(text.subrange(0, first.len() as int)[i] == text[i]);
        }
        if group >= 4096 {
            assert(first.len() == 4);
            assert(group / 4096 == high / 16) by (nonlinear_arith)
                requires
                    group == high * 256 + low,
                    0 <= low < 256,
                    0 <= high,
            ;
            assert((group / 256) % 16 == high % 16) by (nonlinear_arith)
                requires
                    group == high * 256 + low,
                    0 <= low < 256,
                    0 <= high,
            ;
            assert(text[0] == digit_char(group as int / 4096));
            assert(text[1] == digit_char((group as int / 256) % 16));
            assert(text[2] == digit_char((group as int / 16) % 16));
            assert(text[3] == digit_char(group as int % 16));
            assert(hex_value(text[0]) == high / 16);
            assert(hex_value(text[1]) == high % 16);
            assert(hex_value(text[2]) >= 0);
            assert(hex_value(text[3]) >= 0);
        } else {
            assert(first.len() < 4);
            assert(hex_value(text[first.len() as int]) == -1);
            assert(high < 16);
        }
    }
}

/// Writes an IPv4 address as text.
pub fn ipv4_to_string(octets: &[u8; 4]) -> (text: String)
    ensures
        text@ == ipv4_text(octets@),
{
    proof {
        reveal_strlit(".");
    }
    let mut text = String::new();
    push_decimal(&mut text, octets[0]);
    text.append(".");
    push_decimal(&mut text, octets[1]);
    text.append(".");
    push_decimal(&mut text, octets[2]);
    text.append(".");
    push_decimal(&mut text, octets[3]);
    assert(text@ =~= ipv4_text(octets@));
    text
}

/// Reads the `i`-th group of an IPv6 address.
fn group_at(octets: &[u8; 16], i: usize) -> (group: u16)
    requires
        i < 8,
    ensures
        group == ipv6_group(octets@, i as int),
{
    (octets[2 * i] as u16) * 256 + (octets[2 * i + 1] as u16)
}

/// Counts the zero groups in a row from `start` on.
fn zero_run_length(octets: &[u8; 16], start: usize) -> (length: usize)
    requires
        start <= 8,
    ensures
        length == zero_run(octets@, start as int),
        start + length <= 8,
{
    let mut end = start;
    while end < 8 && group_at(octets, end) == 0
        invariant
            start <= end <= 8,
            zero_run(octets@, start as int) == (end - start) + zero_run(octets@, end as int),
        decreases 8 - end,
    {
        end = end + 1;
    }
    end - start
}

/// Appends the groups from `from` up to `to`, joined by colons.
fn push_groups(out: &mut String, octets: &[u8; 16], from: usize, to: usize)
    requires
        from <= to <= 8,
    ensures
        final(out)@ == old(out)@ + ipv6_groups_text(octets@, from as int, to as int),
{
    proof {
        reveal_strlit(":");
    }
    let ghost start = out@;
    let mut i = from;
    assert(out@ =~= start + ipv6_groups_text(octets@, from as int, from as int));
    while i < to
        invariant
            from <= i <= to <= 8,
            out@ == start + ipv6_groups_text(octets@, from as int, i as int),
            ":"@ == seq![':'],
        decreases to - i,
    {
        let ghost before = ipv6_groups_text(octets@, from as int, i as int);
        if i > from {
            out.append(":");
        }
        push_hex(out, group_at(octets, i));
        i = i + 1;
        assert(out@ =~= start + ipv6_groups_text(octets@, from as int, i as int));
    }
}

/// Writes an IPv6 address as text.
pub fn ipv6_to_string(octets: &[u8; 16]) -> (text: String)
    ensures
        text@ == ipv6_text(octets@),
{
    proof {
        reveal_strlit("::");
    }
    let mut start: usize = 0;
    let mut length: usize = 0;
    let mut i: usize = 0;
    while i < 8
        invariant
            i <= 8,
            start + length <= 8,
            longest_zero_run(octets@, i as int) == (start as int, length as nat),
        decreases 8 - i,
    {
        let here = zero_run_length(octets, i);
        if here > length {
            start = i;
            length = here;
        }
        i = i + 1;
    }
    let mut text = String::new();
    if length < 2 {
        push_groups(&mut text, octets, 0, 8);
    } else {
        push_groups(&mut text, octets, 0, start);
        text.append("::");
        push_groups(&mut text, octets, start + length, 8);
    }
    assert(text@ =~= ipv6_text(octets@));
    text
}

/// Tells whether the text stands for a multicast address.
pub fn is_multicast_address(address: &str) -> (multicast: bool)
    ensures
        multicast == is_multicast_text(address@),
{
    if !address.is_ascii() {
        return false;
    }
    let n = address.unicode_len();
    let mut i: usize = 0;
    let mut has_colon = false;
    while i < n
        invariant
            i <= n,
            n == address@.len(),
            address.is_ascii(),
            has_colon == address@.subrange(0, i as int).contains(':'),
        decreases n - i,
    {
        let b = address.get_ascii(i);
        let ghost before = address@.subrange(0, i as int);
        let ghost after = address@.subrange(0, i as int + 1);
        proof {
            assert(after =~= before.push(address@[i as int]));
            if before.contains(':') {
                let j = choose|j: int| 0 <= j < before.len() && before[j] == ':';
                assert(after[j] == ':');
            }
            if after.contains(':') && !before.contains(':') {
                let j = choose|j: int| 0 <= j < after.len() && after[j] == ':';
                assert(j == i);
            }
            if address@[i as int] == ':' {
                assert(after[i as int] == ':');
            }
        }
        if b == 58 {
            has_colon = true;
        }
        i = i + 1;
    }
    assert(address@.subrange(0, n as int) =~= address@);
    if has_colon {
        if n < 5 {
            return false;
        }
        let c0 = address.get_ascii(0);
        let c1 = address.get_ascii(1);
        let c2 = address.get_ascii(2);
        let c3 = address.get_ascii(3);
        let c4 = address.get_ascii(4);
        (c0 == 102 || c0 == 70) && (c1 == 102 || c1 == 70) && is_hex_byte(c2) && is_hex_byte(c3)
            && c4 == 58
    } else {
        if n < 4 {
            return false;
        }
        let c0 = address.get_ascii(0);
        let c1 = address.get_ascii(1);
        let c2 = address.get_ascii(2);
        let c3 = address.get_ascii(3);
        if !(is_decimal_byte(c0) && is_decimal_byte(c1) && is_decimal_byte(c2)) {
            return false;
        }
        let value: u16 = 100 * ((c0 - 48) as u16) + 10 * ((c1 - 48) as u16) + ((c2 - 48) as u16);
        224 <= value && value <= 239 && c3 == 46
    }
}

/// Tells whether the text is that of the IPv4 limited broadcast address,
/// `255.255.255.255`.
pub fn is_broadcast_address(address: &str) -> (broadcast: bool)
    ensures
        broadcast == (address@ == broadcast_text()),
{
    let expected = "255.255.255.255";
    proof {
        reveal_strlit("255.255.255.255");
        assert(expected@ =~= broadcast_text());
    }
    if !address.is_ascii() {
        assert(expected.is_ascii());
        return false;
    }
    let n = address.unicode_len();
    if n != 15 {
        return false;
    }
    let mut i: usize = 0;
    while i < 15
        invariant
            i <= 15,
            address@.len() == 15,
            address.is_ascii(),
            expected.is_ascii(),
            expected@ == broadcast_text(),
            forall|j: int| 0 <= j < i ==> address@[j] == broadcast_text()[j],
        decreases 15 - i,
    {
        if address.get_ascii(i) != expected.get_ascii(i) {
            assert(address@[i as int] != broadcast_text()[i as int]);
            return false;
        }
        i = i + 1;
    }
    assert(address@ =~= broadcast_text());
    true
}

/// The byte is an ASCII decimal digit.
fn is_decimal_byte(b: u8) -> (r: bool)
    ensures
        r == (48 <= b <= 57),
{
    48 <= b && b <= 57
}

/// The byte is an ASCII hexadecimal digit of either case.
fn is_hex_byte(b: u8) -> (r: bool)
    ensures
        r == (48 <= b <= 57 || 97 <= b <= 102 || 65 <= b <= 70),
{
    (48 <= b && b <= 57) || (97 <= b && b <= 102) || (65 <= b && b <= 70)
}

} // verus!
