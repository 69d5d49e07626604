//! Reading a line of assembly back: the class of the instruction that
//! it was written for, and the word behind a line of raw data.

use crate::parser::{decode, opcode_class, register_text, Instruction};
use crate::text::{
    chars_of, decimal, hex, hex_number, is_digit_char, lemma_digits_are_digits,
    lemma_hex_number_of_hex, read_hex,
};
use vstd::prelude::*;

verus! {

/// The first position from `start` on that holds the character, or the
/// length of the text if none does.
pub open spec fn find_from(text: Seq<char>, c: char, start: int) -> int
    decreases text.len() - start,
{
    if start < 0 || start >= text.len() || text[start] == c {
        start
    } else {
        find_from(text, c, start + 1)
    }
}

/// The mnemonic of a line: what stands before its first tab.
pub open spec fn mnemonic_of(line: Seq<char>) -> Seq<char> {
    line.subrange(0, find_from(line, '\t', 0))
}

/// The opcode class that a mnemonic belongs to. `SETT` names two classes
/// and stands here for the first of them.
pub open spec fn name_class(name: Seq<char>) -> Option<int> {
    if name == "STOPP"@ {
        Some(0int)
    } else if name == "SETT"@ {
        Some(1int)
    } else if name == "FINN"@ {
        Some(3int)
    } else if name == "LAST"@ {
        Some(4int)
    } else if name == "LAGR"@ {
        Some(4int)
    } else if name == "OG"@ {
        Some(5int)
    } else if name == "ELLER"@ {
        Some(5int)
    } else if name == "XELLER"@ {
        Some(5int)
    } else if name == "VSKIFT"@ {
        Some(5int)
    } else if name == "HSKIFT"@ {
        Some(5int)
    } else if name == "PLUSS"@ {
        Some(5int)
    } else if name == "MINUS"@ {
        Some(5int)
    } else if name == "LES"@ {
        Some(6int)
    } else if name == "SKRIV"@ {
        Some(6int)
    } else if name == "LIK"@ {
        Some(7int)
    } else if name == "ULIK"@ {
        Some(7int)
    } else if name == "ME"@ {
        Some(7int)
    } else if name == "MEL"@ {
        Some(7int)
    } else if name == "SE"@ {
        Some(7int)
    } else if name == "SEL"@ {
        Some(7int)
    } else if name == "HOPP"@ {
        Some(8int)
    } else if name == "BHOPP"@ {
        Some(9int)
    } else if name == "TUR"@ {
        Some(10int)
    } else if name == "RETUR"@ {
        Some(11int)
    } else if name == "NOPE"@ {
        Some(12int)
    } else {
        None
    }
}

/// The opcode class of the instruction that a line was written for. A
/// `SETT` whose second operand, two places behind the first comma, is a
/// register belongs to class 2, any other to class 1. A line of raw data
/// has no class.
pub open spec fn class_of_text(line: Seq<char>) -> Option<int> {
    let name = mnemonic_of(line);
    let second = find_from(line, ',', 0) + 2;
    if name == "SETT"@ && second < line.len() && line[second] == 'r' {
        Some(2)
    } else {
        name_class(name)
    }
}

/// The word behind a line of raw data: `.DATA`, a tab, and the high and
/// the low byte, each as `0x` and hexadecimal digits, with a comma
/// between them.
pub open spec fn raw_word_of(line: Seq<char>) -> Option<u16> {
    let comma = find_from(line, ',', 0);
    if line.len() >= comma + 3 && comma >= 8 && line.subrange(0, 8) == ".DATA\t0x"@
        && line.subrange(comma, comma + 3) == ",0x"@ {
        match (hex_number(line.subrange(8, comma)), hex_number(line.skip(comma + 3))) {
            (Some(high), Some(low)) => if high < 256 && low < 256 {
                Some((256 * high + low) as u16)
            } else {
                None
            },
            _ => None,
        }
    } else {
        None
    }
}

/// The first position from `start` on that holds the character, or the
/// number of characters if none does.
pub fn position(chars: &Vec<char>, c: char, start: usize) -> (found: usize)
    requires
        start <= chars@.len(),
    ensures
        found == find_from(chars@, c, start as int),
        start <= found <= chars@.len(),
{
    let mut i: usize = start;
    while i < chars.len() && chars[i] != c
        invariant
            start <= i <= chars@.len(),
            find_from(chars@, c, start as int) == find_from(chars@, c, i as int),
        decreases chars@.len() - i,
    {
        i += 1;
    }
    i
}

/// Whether the characters from `from` up to, not including, `to` spell
/// the text.
pub fn spells(chars: &Vec<char>, from: usize, to: usize, text: &str) -> (same: bool)
    requires
        from <= to <= chars@.len(),
    ensures
        same == (chars@.subrange(from as int, to as int) == text@),
{
    let letters = chars_of(text);
    let ghost stretch = chars@.subrange(from as int, to as int);
    if letters.len() != to - from {
        return false;
    }
    let mut i: usize = 0;
    while i < letters.len()
        invariant
            from <= to <= chars@.len(),
            letters@ == text@,
            letters@.len() == to - from,
            i <= letters@.len(),
            stretch == chars@.subrange(from as int, to as int),
            forall|k: int| 0 <= k < i ==> stretch[k] == letters@[k],
        decreases letters@.len() - i,
    {
        if chars[from + i] != letters[i] {
            assert(stretch[i as int] != letters@[i as int]);
            return false;
        }
        i += 1;
    }
    assert(stretch =~= letters@);
    true
}

/// The opcode class that the mnemonic in the first `end` characters
/// belongs to.
fn class_of_name(chars: &Vec<char>, end: usize) -> (class: Option<u8>)
    requires
        end <= chars@.len(),
    ensures
        match class {
            Some(c) => name_class(chars@.subrange(0, end as int)) == Some(c as int),
            None => name_class(chars@.subrange(0, end as int)) is None,
        },
{
    if spells(chars, 0, end, "STOPP") {
        Some(0)
    } else if spells(chars, 0, end, "SETT") {
        Some(1)
    } else if spells(chars, 0, end, "FINN") {
        Some(3)
    } else if spells(chars, 0, end, "LAST") {
        Some(4)
    } else if spells(chars, 0, end, "LAGR") {
        Some(4)
    } else if spells(chars, 0, end, "OG") {
        Some(5)
    } else if spells(chars, 0, end, "ELLER") {
        Some(5)
    } else if spells(chars, 0, end, "XELLER") {
        Some(5)
    } else if spells(chars, 0, end, "VSKIFT") {
        Some(5)
    } else if spells(chars, 0, end, "HSKIFT") {
        Some(5)
    } else if spells(chars, 0, end, "PLUSS") {
        Some(5)
    } else if spells(chars, 0, end, "MINUS") {
        Some(5)
    } else if spells(chars, 0, end, "LES") {
        Some(6)
    } else if spells(chars, 0, end, "SKRIV") {
        Some(6)
    } else if spells(chars, 0, end, "LIK") {
        Some(7)
    } else if spells(chars, 0, end, "ULIK") {
        Some(7)
    } else if spells(chars, 0, end, "ME") {
        Some(7)
    } else if spells(chars, 0, end, "MEL") {
        Some(7)
    } else if spells(chars, 0, end, "SE") {
        Some(7)
    } else if spells(chars, 0, end, "SEL") {
        Some(7)
    } else if spells(chars, 0, end, "HOPP") {
        Some(8)
    } else if spells(chars, 0, end, "BHOPP") {
        Some(9)
    } else if spells(chars, 0, end, "TUR") {
        Some(10)
    } else if spells(chars, 0, end, "RETUR") {
        Some(11)
    } else if spells(chars, 0, end, "NOPE") {
        Some(12)
    } else {
        None
    }
}

/// The opcode class of the instruction that a line was written for, if
/// its mnemonic is that of an instruction.
pub fn class_of_line(line: &str) -> (class: Option<u8>)
    ensures
        match class {
            Some(c) => class_of_text(line@) == Some(c as int),
            None => class_of_text(line@) is None,
        },
{
    let chars = chars_of(line);
    let end = position(&chars, '\t', 0);
    let comma = position(&chars, ',', 0);
    if spells(&chars, 0, end, "SETT") && chars.len() - comma > 2 && chars[comma + 2] == 'r' {
        Some(2)
    } else {
        class_of_name(&chars, end)
    }
}

/// The word behind a line of raw data, if the line is one.
pub fn raw_word_of_line(line: &str) -> (word: Option<u16>)
    ensures
        word == raw_word_of(line@),
{
    let chars = chars_of(line);
    let comma = position(&chars, ',', 0);
    if chars.len() - comma >= 3 && comma >= 8 && spells(&chars, 0, 8, ".DATA\t0x") && spells(
        &chars,
        comma,
        comma + 3,
        ",0x",
    ) {
        assert(chars@.skip(comma + 3) =~= chars@.subrange(comma + 3, chars@.len() as int));
        match (read_hex(&chars, 8, comma), read_hex(&chars, comma + 3, chars.len())) {
            (Some(high), Some(low)) => {
                if high < 256 && low < 256 {
                    Some((256 * high + low) as u16)
                } else {
                    None
                }
            },
            _ => None,
        }
    } else {
        None
    }
}

/// Where a character is found first: behind a stretch without it.
pub proof fn lemma_find_from(text: Seq<char>, c: char, start: int, found: int)
    requires
        0 <= start <= found <= text.len(),
        forall|k: int| start <= k < found ==> text[k] != c,
        found < text.len() ==> text[found] == c,
    ensures
        find_from(text, c, start) == found,
    decreases found - start,
{
    if start < found {
        lemma_find_from(text, c, start + 1, found);
    }
}

/// The mnemonics letter by letter.
proof fn lemma_mnemonic_letters()
    ensures
        "STOPP"@.len() == 5,
        "STOPP"@[0] == 'S',
        "STOPP"@[1] == 'T',
        "STOPP"@[2] == 'O',
        "STOPP"@[3] == 'P',
        "STOPP"@[4] == 'P',
        "SETT"@.len() == 4,
        "SETT"@[0] == 'S',
        "SETT"@[1] == 'E',
        "SETT"@[2] == 'T',
        "SETT"@[3] == 'T',
        "FINN"@.len() == 4,
        "FINN"@[0] == 'F',
        "FINN"@[1] == 'I',
        "FINN"@[2] == 'N',
        "FINN"@[3] == 'N',
        "LAST"@.len() == 4,
        "LAST"@[0] == 'L',
        "LAST"@[1] == 'A',
        "LAST"@[2] == 'S',
        "LAST"@[3] == 'T',
        "LAGR"@.len() == 4,
        "LAGR"@[0] == 'L',
        "LAGR"@[1] == 'A',
        "LAGR"@[2] == 'G',
        "LAGR"@[3] == 'R',
        "OG"@.len() == 2,
        "OG"@[0] == 'O',
        "OG"@[1] == 'G',
        "ELLER"@.len() == 5,
        "ELLER"@[0] == 'E',
        "ELLER"@[1] == 'L',
        "ELLER"@[2] == 'L',
        "ELLER"@[3] == 'E',
        "ELLER"@[4] == 'R',
        "XELLER"@.len() == 6,
        "XELLER"@[0] == 'X',
        "XELLER"@[1] == 'E',
        "XELLER"@[2] == 'L',
        "XELLER"@[3] == 'L',
        "XELLER"@[4] == 'E',
        "XELLER"@[5] == 'R',
        "VSKIFT"@.len() == 6,
        "VSKIFT"@[0] == 'V',
        "VSKIFT"@[1] == 'S',
        "VSKIFT"@[2] == 'K',
        "VSKIFT"@[3] == 'I',
        "VSKIFT"@[4] == 'F',
        "VSKIFT"@[5] == 'T',
        "HSKIFT"@.len() == 6,
        "HSKIFT"@[0] == 'H',
        "HSKIFT"@[1] == 'S',
        "HSKIFT"@[2] == 'K',
        "HSKIFT"@[3] == 'I',
        "HSKIFT"@[4] == 'F',
        "HSKIFT"@[5] == 'T',
        "PLUSS"@.len() == 5,
        "PLUSS"@[0] == 'P',
        "PLUSS"@[1] == 'L',
        "PLUSS"@[2] == 'U',
        "PLUSS"@[3] == 'S',
        "PLUSS"@[4] == 'S',
        "MINUS"@.len() == 5,
        "MINUS"@[0] == 'M',
        "MINUS"@[1] == 'I',
        "MINUS"@[2] == 'N',
        "MINUS"@[3] == 'U',
        "MINUS"@[4] == 'S',
        "LES"@.len() == 3,
        "LES"@[0] == 'L',
        "LES"@[1] == 'E',
        "LES"@[2] == 'S',
        "SKRIV"@.len() == 5,
        "SKRIV"@[0] == 'S',
        "SKRIV"@[1] == 'K',
        "SKRIV"@[2] == 'R',
        "SKRIV"@[3] == 'I',
        "SKRIV"@[4] == 'V',
        "LIK"@.len() == 3,
        "LIK"@[0] == 'L',
        "LIK"@[1] == 'I',
        "LIK"@[2] == 'K',
        "ULIK"@.len() == 4,
        "ULIK"@[0] == 'U',
        "ULIK"@[1] == 'L',
        "ULIK"@[2] == 'I',
        "ULIK"@[3] == 'K',
        "ME"@.len() == 2,
        "ME"@[0] == 'M',
        "ME"@[1] == 'E',
        "MEL"@.len() == 3,
        "MEL"@[0] == 'M',
        "MEL"@[1] == 'E',
        "MEL"@[2] == 'L',
        "SE"@.len() == 2,
        "SE"@[0] == 'S',
        "SE"@[1] == 'E',
        "SEL"@.len() == 3,
        "SEL"@[0] == 'S',
        "SEL"@[1] == 'E',
        "SEL"@[2] == 'L',
        "HOPP"@.len() == 4,
        "HOPP"@[0] == 'H',
        "HOPP"@[1] == 'O',
        "HOPP"@[2] == 'P',
        "HOPP"@[3] == 'P',
        "BHOPP"@.len() == 5,
        "BHOPP"@[0] == 'B',
        "BHOPP"@[1] == 'H',
        "BHOPP"@[2] == 'O',
        "BHOPP"@[3] == 'P',
        "BHOPP"@[4] == 'P',
        "TUR"@.len() == 3,
        "TUR"@[0] == 'T',
        "TUR"@[1] == 'U',
        "TUR"@[2] == 'R',
        "RETUR"@.len() == 5,
        "RETUR"@[0] == 'R',
        "RETUR"@[1] == 'E',
        "RETUR"@[2] == 'T',
        "RETUR"@[3] == 'U',
        "RETUR"@[4] == 'R',
        "NOPE"@.len() == 4,
        "NOPE"@[0] == 'N',
        "NOPE"@[1] == 'O',
        "NOPE"@[2] == 'P',
        "NOPE"@[3] == 'E',
{
    reveal_strlit("STOPP");
    reveal_strlit("SETT");
    reveal_strlit("FINN");
    reveal_strlit("LAST");
    reveal_strlit("LAGR");
    reveal_strlit("OG");
    reveal_strlit("ELLER");
    reveal_strlit("XELLER");
    reveal_strlit("VSKIFT");
    reveal_strlit("HSKIFT");
    reveal_strlit("PLUSS");
    reveal_strlit("MINUS");
    reveal_strlit("LES");
    reveal_strlit("SKRIV");
    reveal_strlit("LIK");
    reveal_strlit("ULIK");
    reveal_strlit("ME");
    reveal_strlit("MEL");
    reveal_strlit("SE");
    reveal_strlit("SEL");
    reveal_strlit("HOPP");
    reveal_strlit("BHOPP");
    reveal_strlit("TUR");
    reveal_strlit("RETUR");
    reveal_strlit("NOPE");
}

/// The class of each mnemonic.
proof fn lemma_mnemonic_classes()
    ensures
        name_class("STOPP"@) == Some(0int),
        name_class("SETT"@) == Some(1int),
        name_class("FINN"@) == Some(3int),
        name_class("LAST"@) == Some(4int),
        name_class("LAGR"@) == Some(4int),
        name_class("OG"@) == Some(5int),
        name_class("ELLER"@) == Some(5int),
        name_class("XELLER"@) == Some(5int),
        name_class("VSKIFT"@) == Some(5int),
        name_class("HSKIFT"@) == Some(5int),
        name_class("PLUSS"@) == Some(5int),
        name_class("MINUS"@) == Some(5int),
        name_class("LES"@) == Some(6int),
        name_class("SKRIV"@) == Some(6int),
        name_class("LIK"@) == Some(7int),
        name_class("ULIK"@) == Some(7int),
        name_class("ME"@) == Some(7int),
        name_class("MEL"@) == Some(7int),
        name_class("SE"@) == Some(7int),
        name_class("SEL"@) == Some(7int),
        name_class("HOPP"@) == Some(8int),
        name_class("BHOPP"@) == Some(9int),
        name_class("TUR"@) == Some(10int),
        name_class("RETUR"@) == Some(11int),
        name_class("NOPE"@) == Some(12int),
{
    lemma_mnemonic_letters();
    assert(name_class("STOPP"@) == Some(0int));
    assert(name_class("SETT"@) == Some(1int));
    assert(name_class("FINN"@) == Some(3int));
    assert(name_class("LAST"@) == Some(4int));
    assert(name_class("LAGR"@) == Some(4int));
    assert(name_class("OG"@) == Some(5int));
    assert(name_class("ELLER"@) == Some(5int));
    assert(name_class("XELLER"@) == Some(5int));
    assert(name_class("VSKIFT"@) == Some(5int));
    assert(name_class("HSKIFT"@) == Some(5int));
    assert(name_class("PLUSS"@) == Some(5int));
    assert(name_class("MINUS"@) == Some(5int));
    assert(name_class("LES"@) == Some(6int));
    assert(name_class("SKRIV"@) == Some(6int));
    assert(name_class("LIK"@) == Some(7int));
    assert(name_class("ULIK"@) == Some(7int));
    assert(name_class("ME"@) == Some(7int));
    assert(name_class("MEL"@) == Some(7int));
    assert(name_class("SE"@) == Some(7int));
    assert(name_class("SEL"@) == Some(7int));
    assert(name_class("HOPP"@) == Some(8int));
    assert(name_class("BHOPP"@) == Some(9int));
    assert(name_class("TUR"@) == Some(10int));
    assert(name_class("RETUR"@) == Some(11int));
    assert(name_class("NOPE"@) == Some(12int));
}

/// Whether the text holds neither a tab nor a comma.
pub open spec fn is_plain(text: Seq<char>) -> bool {
    forall|k: int| 0 <= k < text.len() ==> text[k] != '\t' && text[k] != ','
}

/// No mnemonic holds a tab or a comma, and each but that of raw data
/// names the class of its instruction.
pub proof fn lemma_mnemonic(instruction: Instruction)
    ensures
        is_plain(instruction.mnemonic()),
        instruction.mnemonic() == "SETT"@ <==> instruction is Sett || instruction is SettImmediate,
        instruction is Data ==> name_class(instruction.mnemonic()) is None,
        instruction is Stopp ==> name_class(instruction.mnemonic()) == Some(0int),
        instruction is SettImmediate ==> name_class(instruction.mnemonic()) == Some(1int),
        instruction is Sett ==> name_class(instruction.mnemonic()) == Some(1int),
        instruction is Finn ==> name_class(instruction.mnemonic()) == Some(3int),
        instruction is Last || instruction is Lagr ==> name_class(instruction.mnemonic()) == Some(
            4int,
        ),
        instruction is ALE ==> name_class(instruction.mnemonic()) == Some(5int),
        instruction is Les || instruction is Skriv ==> name_class(instruction.mnemonic()) == Some(
            6int,
        ),
        instruction is Sammenligne ==> name_class(instruction.mnemonic()) == Some(7int),
        instruction is Hopp ==> name_class(instruction.mnemonic()) == Some(8int),
        instruction is BHopp ==> name_class(instruction.mnemonic()) == Some(9int),
        instruction is Tur ==> name_class(instruction.mnemonic()) == Some(10int),
        instruction is Retur ==> name_class(instruction.mnemonic()) == Some(11int),
        instruction is Nope ==> name_class(instruction.mnemonic()) == Some(12int),
{
    lemma_mnemonic_letters();
    lemma_mnemonic_classes();
    reveal_strlit(".DATA");
    assert(".DATA"@[0] == '.');
    assert(".DATA"@[1] == 'D');
    assert(".DATA"@[2] == 'A');
    assert(".DATA"@[3] == 'T');
    assert(".DATA"@[4] == 'A');
}

/// The mnemonic of an instruction can be read off its line.
pub proof fn lemma_mnemonic_of_text(instruction: Instruction)
    ensures
        mnemonic_of(instruction.text()) == instruction.mnemonic(),
{
    let name = instruction.mnemonic();
    let line = instruction.text();
    lemma_mnemonic(instruction);
    reveal_strlit("\t");
    assert forall|k: int| 0 <= k < name.len() implies line[k] != '\t' by {
        assert(line[k] == name[k]);
    }
    lemma_find_from(line, '\t', 0, name.len() as int);
    assert(line.subrange(0, name.len() as int) =~= name);
}

/// A register operand is `r` and digits.
proof fn lemma_register_text(index: usize)
    ensures
        register_text(index).len() >= 2,
        register_text(index)[0] == 'r',
        forall|k: int|
            1 <= k < register_text(index).len() ==> is_digit_char(#[trigger] register_text(index)[k]),
{
    reveal_strlit("r");
    lemma_digits_are_digits(index as nat, 10);
    assert forall|k: int| 1 <= k < register_text(index).len() implies is_digit_char(
        #[trigger] register_text(index)[k],
    ) by {
        assert(register_text(index)[k] == decimal(index as nat)[k - 1]);
    }
}

/// In a line with two operands of which the first is a register, the
/// second operand stands two places behind the first comma.
proof fn lemma_second_operand(name: Seq<char>, ra: usize, second: Seq<char>)
    requires
        is_plain(name),
        second.len() > 0,
    ensures
        ({
            let line = name + "\t"@ + (register_text(ra) + ", "@ + second);
            let at = find_from(line, ',', 0) + 2;
            at < line.len() && line[at] == second[0]
        }),
{
    let first = register_text(ra);
    let line = name + "\t"@ + (first + ", "@ + second);
    let comma = (name.len() + 1 + first.len()) as int;
    reveal_strlit("\t");
    reveal_strlit(", ");
    lemma_register_text(ra);
    assert forall|k: int| 0 <= k < comma implies line[k] != ',' by {
        if k < name.len() {
            assert(line[k] == name[k]);
        } else if k == name.len() {
            assert(line[k] == '\t');
        } else {
            assert(line[k] == first[k - name.len() - 1]);
        }
    }
    assert(line[comma] == ", "@[0]);
    lemma_find_from(line, ',', 0, comma);
    assert(line[comma + 2] == second[0]);
}

/// A line of raw data gives its word back.
pub proof fn lemma_raw_word_of_text(word: u16)
    ensures
        raw_word_of(Instruction::Data(word).text()) == Some(word),
{
    let high = word as nat / 256;
    let low = word as nat % 256;
    let line = Instruction::Data(word).text();
    reveal_strlit(".DATA");
    reveal_strlit("\t");
    reveal_strlit("0x");
    reveal_strlit(",");
    reveal_strlit(",0x");
    reveal_strlit(".DATA\t0x");
    lemma_digits_are_digits(high, 16);
    lemma_digits_are_digits(low, 16);
    lemma_hex_number_of_hex(high);
    lemma_hex_number_of_hex(low);
    let comma = (8 + hex(high).len()) as int;
    assert(line =~= ".DATA\t0x"@ + hex(high) + ",0x"@ + hex(low));
    assert forall|k: int| 0 <= k < comma implies line[k] != ',' by {
        if k >= 8 {
            assert(line[k] == hex(high)[k - 8]);
        }
    }
    assert(line[comma] == ",0x"@[0]);
    lemma_find_from(line, ',', 0, comma);
    assert(line.subrange(0, 8) =~= ".DATA\t0x"@);
    assert(line.subrange(comma, comma + 3) =~= ",0x"@);
    assert(line.subrange(8, comma) =~= hex(high));
    assert(line.skip(comma + 3) =~= hex(low));
}

/// Every word can be found again in the text of its instruction: the
/// line of an instruction names the word's opcode class, and a line of
/// raw data holds the whole word.
pub proof fn lemma_text_round_trip(op: u16)
    ensures
        decode(op) is Data ==> raw_word_of(decode(op).text()) == Some(op),
        decode(op) is Data ==> class_of_text(decode(op).text()) is None,
        !(decode(op) is Data) ==> class_of_text(decode(op).text()) == Some(opcode_class(op)),
{
    let instruction = decode(op);
    lemma_mnemonic(instruction);
    lemma_mnemonic_of_text(instruction);
    match instruction {
        Instruction::Data(word) => {
            lemma_raw_word_of_text(op);
        },
        Instruction::Sett(ra, rb) => {
            lemma_register_text(rb);
            lemma_second_operand("SETT"@, ra, register_text(rb));
        },
        Instruction::SettImmediate(ra, value) => {
            lemma_digits_are_digits(value as nat, 10);
            lemma_second_operand("SETT"@, ra, decimal(value as nat));
        },
        _ => {},
    }
}

} // verus!
