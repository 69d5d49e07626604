//! Numbers as text: decimal and lowercase hexadecimal digits, and padding
//! to a least width.

use vstd::prelude::*;

verus! {

/// `String::push`, which appends one character to the string. Trusted:
/// that the string afterwards is the string before with the character at
/// its end.
pub assume_specification[ String::push ](s: &mut String, c: char)
    ensures
        final(s)@ == old(s)@.push(c),
;

/// The character for a digit below sixteen, lowercase from ten on.
pub open spec fn digit_char(d: nat) -> char {
    if d < 10 {
        ('0' as nat + d) as char
    } else {
        ('a' as nat + d - 10) as char
    }
}

/// The digits of `n` in the given base, most significant first, with no
/// leading zero; the number 0 is the single digit 0.
pub open spec fn digits(n: nat, base: nat) -> Seq<char>
    recommends
        2 <= base <= 16,
    decreases n,
    via digits_decreases
{
    if base < 2 || n < base {
        seq![digit_char(n)]
    } else {
        digits(n / base, base).push(digit_char(n % base))
    }
}

#[via_fn]
proof fn digits_decreases(n: nat, base: nat) {
    if !(base < 2 || n < base) {
        lemma_quotient_smaller(n, base);
    }
}

/// Division by two or more makes a number that is not below the divisor
/// smaller.
pub proof fn lemma_quotient_smaller(n: nat, base: nat)
    requires
        2 <= base <= n,
    ensures
        0 < n / base < n,
{
    assert(0 < n / base < n) by (nonlinear_arith)
        requires
            2 <= base <= n,
    ;
}

/// `n` in decimal.
pub open spec fn decimal(n: nat) -> Seq<char> {
    digits(n, 10)
}

/// `n` in lowercase hexadecimal, without a prefix.
pub open spec fn hex(n: nat) -> Seq<char> {
    digits(n, 16)
}

/// `count` copies of one character.
pub open spec fn filler(count: int, fill: char) -> Seq<char> {
    Seq::new(if count > 0 { count as nat } else { 0 }, |i: int| fill)
}

/// The text, with fill characters in front of it up to the given width.
pub open spec fn pad_left(text: Seq<char>, width: nat, fill: char) -> Seq<char> {
    filler(width - text.len(), fill) + text
}

/// The text, with fill characters behind it up to the given width.
pub open spec fn pad_right(text: Seq<char>, width: nat, fill: char) -> Seq<char> {
    text + filler(width - text.len(), fill)
}

/// The character for a digit below sixteen.
pub fn digit(d: usize) -> (c: char)
    requires
        d < 16,
    ensures
        c == digit_char(d as nat),
{
    match d {
        0 => '0',
        1 => '1',
        2 => '2',
        3 => '3',
        4 => '4',
        5 => '5',
        6 => '6',
        7 => '7',
        8 => '8',
        9 => '9',
        10 => 'a',
        11 => 'b',
        12 => 'c',
        13 => 'd',
        14 => 'e',
        _ => 'f',
    }
}

/// The digits of `n` in the given base.
pub fn digits_of(n: usize, base: usize) -> (text: Vec<char>)
    requires
        2 <= base <= 16,
    ensures
        text@ == digits(n as nat, base as nat),
    decreases n,
{
    if n < base {
        let mut text: Vec<char> = Vec::new();
        text.push(digit(n));
        text
    } else {
        proof {
            lemma_quotient_smaller(n as nat, base as nat);
        }
        let mut text = digits_of(n / base, base);
        text.push(digit(n % base));
        text
    }
}

/// The characters of a text.
pub fn chars_of(line: &str) -> (chars: Vec<char>)
    ensures
        chars@ == line@,
{
    let mut chars: Vec<char> = Vec::new();
    for c in it: line.chars()
        invariant
            it.seq() == line@,
            chars@ == line@.take(it.index() as int),
    {
        chars.push(c);
        assert(line@.take(it.index() + 1) =~= line@.take(it.index() as int).push(c));
    }
    assert(line@.take(line@.len() as int) =~= line@);
    chars
}

/// Appends the characters to the string.
pub fn push_chars(s: &mut String, chars: &Vec<char>)
    ensures
        final(s)@ == old(s)@ + chars@,
{
    let mut i: usize = 0;
    while i < chars.len()
        invariant
            i <= chars@.len(),
            s@ == old(s)@ + chars@.take(i as int),
        decreases chars@.len() - i,
    {
        s.push(chars[i]);
        i += 1;
        assert(chars@.take(i as int) =~= chars@.take(i - 1).push(chars@[i - 1]));
    }
    assert(chars@.take(i as int) =~= chars@);
}

/// Appends `count` copies of one character to the string.
pub fn push_filler(s: &mut String, count: usize, fill: char)
    ensures
        final(s)@ == old(s)@ + filler(count as int, fill),
{
    let mut i: usize = 0;
    while i < count
        invariant
            i <= count,
            s@ =~= old(s)@ + filler(i as int, fill),
        decreases count - i,
    {
        s.push(fill);
        i += 1;
    }
}

/// Appends the characters, with fill characters in front of them up to
/// the given width.
pub fn push_padded_left(s: &mut String, chars: &Vec<char>, width: usize, fill: char)
    ensures
        final(s)@ == old(s)@ + pad_left(chars@, width as nat, fill),
{
    if chars.len() < width {
        push_filler(s, width - chars.len(), fill);
    }
    push_chars(s, chars);
    assert(s@ =~= old(s)@ + pad_left(chars@, width as nat, fill));
}

/// Appends the characters, with fill characters behind them up to the
/// given width.
pub fn push_padded_right(s: &mut String, chars: &Vec<char>, width: usize, fill: char)
    ensures
        final(s)@ == old(s)@ + pad_right(chars@, width as nat, fill),
{
    push_chars(s, chars);
    if chars.len() < width {
        push_filler(s, width - chars.len(), fill);
    }
    assert(s@ =~= old(s)@ + pad_right(chars@, width as nat, fill));
}

/// Appends `n` in the given base, with fill characters in front of the
/// digits up to the given width.
pub fn push_number(s: &mut String, n: usize, base: usize, width: usize, fill: char)
    requires
        2 <= base <= 16,
    ensures
        final(s)@ == old(s)@ + pad_left(digits(n as nat, base as nat), width as nat, fill),
{
    let text = digits_of(n, base);
    push_padded_left(s, &text, width, fill);
}

/// The value of a hexadecimal digit, in either case.
pub open spec fn hex_value(c: char) -> Option<nat> {
    if '0' <= c <= '9' {
        Some((c as u32 - '0' as u32) as nat)
    } else if 'a' <= c <= 'f' {
        Some((c as u32 - 'a' as u32 + 10) as nat)
    } else if 'A' <= c <= 'F' {
        Some((c as u32 - 'A' as u32 + 10) as nat)
    } else {
        None
    }
}

/// The number that the hexadecimal digits stand for, most significant
/// first. There is none for no digits, or where another character
/// stands among them.
pub open spec fn hex_number(digits: Seq<char>) -> Option<nat>
    decreases digits.len(),
{
    if digits.len() == 0 {
        None
    } else if digits.len() == 1 {
        hex_value(digits[0])
    } else {
        match (hex_number(digits.drop_last()), hex_value(digits.last())) {
            (Some(high), Some(low)) => Some(16 * high + low),
            _ => None,
        }
    }
}

/// A number in hexadecimal digits is at least the number that its
/// leading digits stand for.
pub proof fn lemma_hex_number_grows(digits: Seq<char>, count: int)
    requires
        0 < count <= digits.len(),
        hex_number(digits) is Some,
    ensures
        hex_number(digits.take(count)) is Some,
        hex_number(digits.take(count)).unwrap() <= hex_number(digits).unwrap(),
    decreases digits.len(),
{
    if count == digits.len() {
        assert(digits.take(count) =~= digits);
    } else {
        assert(digits.drop_last().take(count) =~= digits.take(count));
        lemma_hex_number_grows(digits.drop_last(), count);
    }
}

/// Whether the character is a decimal digit or a lowercase hexadecimal
/// digit.
pub open spec fn is_digit_char(c: char) -> bool {
    '0' <= c <= '9' || 'a' <= c <= 'f'
}

/// The digits of a number are digits: at least one, and no other
/// character among them.
pub proof fn lemma_digits_are_digits(n: nat, base: nat)
    requires
        2 <= base <= 16,
    ensures
        digits(n, base).len() >= 1,
        forall|k: int| 0 <= k < digits(n, base).len() ==> is_digit_char(#[trigger] digits(n, base)[k]),
    decreases n,
{
    if n >= base {
        lemma_quotient_smaller(n, base);
        lemma_digits_are_digits(n / base, base);
        assert(n % base < base) by (nonlinear_arith)
            requires
                base >= 2,
        ;
    }
}

/// Reading hexadecimal digits undoes writing them.
pub proof fn lemma_hex_number_of_hex(n: nat)
    ensures
        hex_number(hex(n)) == Some(n),
    decreases n,
{
    if n >= 16 {
        lemma_hex_number_of_hex(n / 16);
        lemma_digits_are_digits(n / 16, 16);
        let written = hex(n);
        assert(written.drop_last() =~= hex(n / 16));
        assert(written.last() == digit_char(n % 16));
    }
}

/// The number that hexadecimal digits stand for, if it fits the machine
/// word.
pub open spec fn hex_word(digits: Seq<char>) -> Option<usize> {
    match hex_number(digits) {
        Some(n) => if n <= usize::MAX {
            Some(n as usize)
        } else {
            None
        },
        None => None,
    }
}

/// The value of a hexadecimal digit, in either case.
pub fn digit_value(c: char) -> (value: Option<usize>)
    ensures
        value is Some <==> hex_value(c) is Some,
        value matches Some(v) ==> v == hex_value(c).unwrap() && v < 16,
{
    let code = c as u32;
    if 0x30 <= code && code <= 0x39 {
        Some((code - 0x30) as usize)
    } else if 0x61 <= code && code <= 0x66 {
        Some((code - 0x61 + 10) as usize)
    } else if 0x41 <= code && code <= 0x46 {
        Some((code - 0x41 + 10) as usize)
    } else {
        None
    }
}

/// Reads the characters from `from` up to, not including, `to` as a
/// number in hexadecimal digits.
pub fn read_hex(chars: &Vec<char>, from: usize, to: usize) -> (value: Option<usize>)
    requires
        from <= to <= chars@.len(),
    ensures
        value == hex_word(chars@.subrange(from as int, to as int)),
{
    let ghost digits = chars@.subrange(from as int, to as int);
    if from == to {
        return None;
    }
    let mut value: usize = 0;
    let mut i: usize = from;
    while i < to
        invariant
            from <= i <= to <= chars@.len(),
            from < to,
            digits == chars@.subrange(from as int, to as int),
            i > from ==> hex_number(digits.take(i - from)) == Some(value as nat),
            i == from ==> value == 0,
        decreases to - i,
    {
        let ghost seen = digits.take(i - from);
        let ghost next = digits.take(i - from + 1);
        proof {
            assert(next.drop_last() =~= seen);
            assert(next.last() == chars@[i as int]);
            if i == from {
                assert(next.len() == 1);
                assert(hex_number(next) == hex_value(chars@[i as int]));
            } else {
                assert(hex_number(next) == match (hex_number(seen), hex_value(chars@[i as int])) {
                    (Some(high), Some(low)) => Some(16 * high + low),
                    _ => None::<nat>,
                });
            }
            if hex_number(digits) is Some {
                lemma_hex_number_grows(digits, i - from + 1);
            }
        }
        match digit_value(chars[i]) {
            None => {
                return None;
            },
            Some(d) => {
                if value > (usize::MAX - d) / 16 {
                    return None;
                }
                value = value * 16 + d;
            },
        }
        i += 1;
    }
    assert(digits.take(i - from) =~= digits);
    Some(value)
}

} // verus!
