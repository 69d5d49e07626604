//! Instruction words and their decoding.

use crate::text::{decimal, hex, pad_left, push_number};
use crate::word::{read_u16_le, word_le};
use vstd::prelude::*;
use vstd::slice::slice_subrange;
use vstd::string::StringExecFns;

verus! {

/// The operations of the arithmetic-logic unit.
#[derive(Clone, Copy, Debug, PartialEq, Eq, Structural)]
pub enum ALEOp {
    Og,
    Eller,
    XEller,
    Vskift,
    Hskift,
    Pluss,
    Minus,
}

/// The relations that a comparison can test.
#[derive(Clone, Copy, Debug, PartialEq, Eq, Structural)]
pub enum CMPOp {
    Lik,
    Ulik,
    Me,
    Mel,
    Se,
    Sel,
}

/// One line of a listing: where the word lies, the word, and what it
/// stands for.
#[derive(Clone, Copy, Debug, PartialEq, Eq, Structural)]
pub struct Line {
    pub pos: usize,
    pub op: u16,
    pub instruction: Instruction,
}

/// The file does not begin with the seven bytes `.SLEDE8`.
#[derive(Clone, Copy, Debug, PartialEq, Eq, Structural)]
pub struct FormatError;

/// The length of the header that every program file begins with.
pub const HEADER_SIZE: usize = 7;

/// One decoded instruction with its operands.
#[derive(Clone, Copy, Debug, PartialEq, Eq, Structural)]
pub enum Instruction {
    SettImmediate(usize, u8),
    Sett(usize, usize),
    Nope,
    Stopp,
    ALE(ALEOp, usize, usize),
    Sammenligne(CMPOp, usize, usize),
    Hopp(u16),
    BHopp(u16),
    Les(usize),
    Skriv(usize),
    Finn(u16),
    Last(usize),
    Lagr(usize),
    Tur(u16),
    Retur,
    Data(u16),
}

/// Bits 0 to 3 of a word: the class that selects the instruction family.
pub open spec fn opcode_class(op: u16) -> int {
    op as int % 16
}

/// Bits 4 to 7 of a word: a sub-operation or a register, by class.
pub open spec fn operation_field(op: u16) -> int {
    (op as int / 16) % 16
}

/// Bits 8 to 11 of a word.
pub open spec fn arg1_field(op: u16) -> int {
    (op as int / 256) % 16
}

/// Bits 12 to 15 of a word.
pub open spec fn arg2_field(op: u16) -> int {
    op as int / 4096
}

/// Bits 8 to 15 of a word: an 8-bit immediate.
pub open spec fn value_field(op: u16) -> int {
    op as int / 256
}

/// Bits 4 to 15 of a word: a 12-bit address.
pub open spec fn address_field(op: u16) -> int {
    op as int / 16
}

/// The arithmetic-logic operation that a sub-operation number selects.
pub open spec fn operator_of(operation: int) -> Option<ALEOp> {
    if operation == 0 {
        Some(ALEOp::Og)
    } else if operation == 1 {
        Some(ALEOp::Eller)
    } else if operation == 2 {
        Some(ALEOp::XEller)
    } else if operation == 3 {
        Some(ALEOp::Vskift)
    } else if operation == 4 {
        Some(ALEOp::Hskift)
    } else if operation == 5 {
        Some(ALEOp::Pluss)
    } else if operation == 6 {
        Some(ALEOp::Minus)
    } else {
        None
    }
}

/// The comparison that a sub-operation number selects.
pub open spec fn relation_of(operation: int) -> Option<CMPOp> {
    if operation == 0 {
        Some(CMPOp::Lik)
    } else if operation == 1 {
        Some(CMPOp::Ulik)
    } else if operation == 2 {
        Some(CMPOp::Me)
    } else if operation == 3 {
        Some(CMPOp::Mel)
    } else if operation == 4 {
        Some(CMPOp::Se)
    } else if operation == 5 {
        Some(CMPOp::Sel)
    } else {
        None
    }
}

/// The instruction that a 16-bit word stands for. Every word has one; a
/// word with no assigned meaning is `Data` and keeps the word.
pub open spec fn decode(op: u16) -> Instruction {
    let class = opcode_class(op);
    let operation = operation_field(op);
    let arg1 = arg1_field(op) as usize;
    let arg2 = arg2_field(op) as usize;
    let address = address_field(op) as u16;
    if class == 0x0 {
        Instruction::Stopp
    } else if class == 0x1 {
        Instruction::SettImmediate(operation as usize, value_field(op) as u8)
    } else if class == 0x2 {
        Instruction::Sett(operation as usize, arg1)
    } else if class == 0x3 {
        Instruction::Finn(address)
    } else if class == 0x4 {
        if operation == 0 {
            Instruction::Last(arg1)
        } else if operation == 1 {
            Instruction::Lagr(arg1)
        } else {
            Instruction::Data(op)
        }
    } else if class == 0x5 {
        match operator_of(operation) {
            Some(operator) => Instruction::ALE(operator, arg1, arg2),
            None => Instruction::Data(op),
        }
    } else if class == 0x6 {
        if operation == 0 {
            Instruction::Les(arg1)
        } else if operation == 1 {
            Instruction::Skriv(arg1)
        } else {
            Instruction::Data(op)
        }
    } else if class == 0x7 {
        match relation_of(operation) {
            Some(relation) => Instruction::Sammenligne(relation, arg1, arg2),
            None => Instruction::Data(op),
        }
    } else if class == 0x8 {
        Instruction::Hopp(address)
    } else if class == 0x9 {
        Instruction::BHopp(address)
    } else if class == 0xa {
        Instruction::Tur(address)
    } else if class == 0xb {
        Instruction::Retur
    } else if class == 0xc {
        Instruction::Nope
    } else {
        Instruction::Data(op)
    }
}

impl Instruction {
    /// Whether the operands are in range: registers below 16, addresses
    /// below 4096.
    pub open spec fn in_range(self) -> bool {
        match self {
            Instruction::SettImmediate(ra, _) => ra < 16,
            Instruction::Sett(ra, rb) => ra < 16 && rb < 16,
            Instruction::ALE(_, ra, rb) => ra < 16 && rb < 16,
            Instruction::Sammenligne(_, ra, rb) => ra < 16 && rb < 16,
            Instruction::Hopp(address) => address < 4096,
            Instruction::BHopp(address) => address < 4096,
            Instruction::Finn(address) => address < 4096,
            Instruction::Tur(address) => address < 4096,
            Instruction::Les(r) => r < 16,
            Instruction::Skriv(r) => r < 16,
            Instruction::Last(r) => r < 16,
            Instruction::Lagr(r) => r < 16,
            Instruction::Nope => true,
            Instruction::Stopp => true,
            Instruction::Retur => true,
            Instruction::Data(_) => true,
        }
    }
}

/// Every word decodes to an instruction whose operands are in range.
pub proof fn lemma_decode_in_range(op: u16)
    ensures
        decode(op).in_range(),
{
}

/// Decodes one instruction word. Total: no word is refused.
pub fn decode_instruction(op: u16) -> (instruction: Instruction)
    ensures
        instruction == decode(op),
{
    let opclass: u16 = op & 0xf;
    let operation: usize = ((op >> 4) & 0xf) as usize;
    let value: u8 = (op >> 8) as u8;
    let address: u16 = op >> 4;
    let arg1: usize = ((op >> 8) & 0xf) as usize;
    let arg2: usize = ((op >> 12) & 0xf) as usize;
    proof {
        assert(op & 0xf == op % 16) by (bit_vector);
        assert((op >> 4) & 0xf == (op / 16) % 16) by (bit_vector);
        assert(op >> 8 == op / 256) by (bit_vector);
        assert(op >> 4 == op / 16) by (bit_vector);
        assert((op >> 8) & 0xf == (op / 256) % 16) by (bit_vector);
        assert((op >> 12) & 0xf == op / 4096) by (bit_vector);
    }
    let data = Instruction::Data(op);
    match opclass {
        0x0 => Instruction::Stopp,
        0x1 => Instruction::SettImmediate(operation, value),
        0x2 => Instruction::Sett(operation, arg1),
        0x3 => Instruction::Finn(address),
        0x4 => {
            if operation == 0 {
                Instruction::Last(arg1)
            } else if operation == 1 {
                Instruction::Lagr(arg1)
            } else {
                data
            }
        },
        0x5 => match operation {
            0 => Instruction::ALE(ALEOp::Og, arg1, arg2),
            1 => Instruction::ALE(ALEOp::Eller, arg1, arg2),
            2 => Instruction::ALE(ALEOp::XEller, arg1, arg2),
            3 => Instruction::ALE(ALEOp::Vskift, arg1, arg2),
            4 => Instruction::ALE(ALEOp::Hskift, arg1, arg2),
            5 => Instruction::ALE(ALEOp::Pluss, arg1, arg2),
            6 => Instruction::ALE(ALEOp::Minus, arg1, arg2),
            _ => data,
        },
        0x6 => match operation {
            0 => Instruction::Les(arg1),
            1 => Instruction::Skriv(arg1),
            _ => data,
        },
        0x7 => match operation {
            0 => Instruction::Sammenligne(CMPOp::Lik, arg1, arg2),
            1 => Instruction::Sammenligne(CMPOp::Ulik, arg1, arg2),
            2 => Instruction::Sammenligne(CMPOp::Me, arg1, arg2),
            3 => Instruction::Sammenligne(CMPOp::Mel, arg1, arg2),
            4 => Instruction::Sammenligne(CMPOp::Se, arg1, arg2),
            5 => Instruction::Sammenligne(CMPOp::Sel, arg1, arg2),
            _ => data,
        },
        0x8 => Instruction::Hopp(address),
        0x9 => Instruction::BHopp(address),
        0xa => Instruction::Tur(address),
        0xb => Instruction::Retur,
        0xc => Instruction::Nope,
        _ => data,
    }
}

impl ALEOp {
    /// The mnemonic of the operation.
    pub open spec fn text(self) -> Seq<char> {
        match self {
            ALEOp::Og => "OG"@,
            ALEOp::Eller => "ELLER"@,
            ALEOp::XEller => "XELLER"@,
            ALEOp::Vskift => "VSKIFT"@,
            ALEOp::Hskift => "HSKIFT"@,
            ALEOp::Pluss => "PLUSS"@,
            ALEOp::Minus => "MINUS"@,
        }
    }

    /// The mnemonic of the operation.
    pub fn mnemonic(&self) -> (name: &'static str)
        ensures
            name@ == self.text(),
    {
        match self {
            ALEOp::Og => "OG",
            ALEOp::Eller => "ELLER",
            ALEOp::XEller => "XELLER",
            ALEOp::Vskift => "VSKIFT",
            ALEOp::Hskift => "HSKIFT",
            ALEOp::Pluss => "PLUSS",
            ALEOp::Minus => "MINUS",
        }
    }
}

impl CMPOp {
    /// The mnemonic of the comparison.
    pub open spec fn text(self) -> Seq<char> {
        match self {
            CMPOp::Lik => "LIK"@,
            CMPOp::Ulik => "ULIK"@,
            CMPOp::Me => "ME"@,
            CMPOp::Mel => "MEL"@,
            CMPOp::Se => "SE"@,
            CMPOp::Sel => "SEL"@,
        }
    }

    /// The mnemonic of the comparison.
    pub fn mnemonic(&self) -> (name: &'static str)
        ensures
            name@ == self.text(),
    {
        match self {
            CMPOp::Lik => "LIK",
            CMPOp::Ulik => "ULIK",
            CMPOp::Me => "ME",
            CMPOp::Mel => "MEL",
            CMPOp::Se => "SE",
            CMPOp::Sel => "SEL",
        }
    }
}

/// A register operand: `r` and the index in decimal.
pub open spec fn register_text(index: usize) -> Seq<char> {
    "r"@ + decimal(index as nat)
}

/// An address operand: `0x` and at least four hexadecimal digits.
pub open spec fn address_text(address: nat) -> Seq<char> {
    "0x"@ + pad_left(hex(address), 4, '0')
}

/// A byte of raw data: `0x` and its hexadecimal digits.
pub open spec fn byte_text(byte: nat) -> Seq<char> {
    "0x"@ + hex(byte)
}

/// Two register operands with a comma between them.
pub open spec fn register_pair_text(ra: usize, rb: usize) -> Seq<char> {
    register_text(ra) + ", "@ + register_text(rb)
}

impl Instruction {
    /// The mnemonic of the instruction.
    pub open spec fn mnemonic(self) -> Seq<char> {
        match self {
            Instruction::Sett(_, _) => "SETT"@,
            Instruction::SettImmediate(_, _) => "SETT"@,
            Instruction::Nope => "NOPE"@,
            Instruction::Stopp => "STOPP"@,
            Instruction::ALE(op, _, _) => op.text(),
            Instruction::Sammenligne(op, _, _) => op.text(),
            Instruction::Hopp(_) => "HOPP"@,
            Instruction::BHopp(_) => "BHOPP"@,
            Instruction::Les(_) => "LES"@,
            Instruction::Skriv(_) => "SKRIV"@,
            Instruction::Finn(_) => "FINN"@,
            Instruction::Last(_) => "LAST"@,
            Instruction::Lagr(_) => "LAGR"@,
            Instruction::Tur(_) => "TUR"@,
            Instruction::Retur => "RETUR"@,
            Instruction::Data(_) => ".DATA"@,
        }
    }

    /// Whether the instruction has operands.
    pub open spec fn has_operands(self) -> bool {
        !(self is Nope || self is Stopp || self is Retur)
    }

    /// The operands of the instruction: registers as `r` and a number,
    /// immediate values in decimal, addresses as `0x` and four
    /// hexadecimal digits, the two bytes of raw data as `0x` and their
    /// digits, the high byte first.
    pub open spec fn operands(self) -> Seq<char> {
        match self {
            Instruction::Sett(ra, rb) => register_pair_text(ra, rb),
            Instruction::SettImmediate(ra, value) => register_text(ra) + ", "@ + decimal(
                value as nat,
            ),
            Instruction::Nope => Seq::empty(),
            Instruction::Stopp => Seq::empty(),
            Instruction::ALE(_, ra, rb) => register_pair_text(ra, rb),
            Instruction::Sammenligne(_, ra, rb) => register_pair_text(ra, rb),
            Instruction::Hopp(address) => address_text(address as nat),
            Instruction::BHopp(address) => address_text(address as nat),
            Instruction::Les(r) => register_text(r),
            Instruction::Skriv(r) => register_text(r),
            Instruction::Finn(address) => address_text(address as nat),
            Instruction::Last(r) => register_text(r),
            Instruction::Lagr(r) => register_text(r),
            Instruction::Tur(address) => address_text(address as nat),
            Instruction::Retur => Seq::empty(),
            Instruction::Data(word) => byte_text(word as nat / 256) + ","@ + byte_text(
                word as nat % 256,
            ),
        }
    }

    /// The instruction as a line of assembly: the mnemonic, and after a
    /// tab the operands, if there are any.
    pub open spec fn text(self) -> Seq<char> {
        if self.has_operands() {
            self.mnemonic() + "\t"@ + self.operands()
        } else {
            self.mnemonic()
        }
    }

    /// The mnemonic of the instruction.
    pub fn mnemonic_name(&self) -> (name: &'static str)
        ensures
            name@ == self.mnemonic(),
    {
        match self {
            Instruction::Sett(_, _) => "SETT",
            Instruction::SettImmediate(_, _) => "SETT",
            Instruction::Nope => "NOPE",
            Instruction::Stopp => "STOPP",
            Instruction::ALE(op, _, _) => op.mnemonic(),
            Instruction::Sammenligne(op, _, _) => op.mnemonic(),
            Instruction::Hopp(_) => "HOPP",
            Instruction::BHopp(_) => "BHOPP",
            Instruction::Les(_) => "LES",
            Instruction::Skriv(_) => "SKRIV",
            Instruction::Finn(_) => "FINN",
            Instruction::Last(_) => "LAST",
            Instruction::Lagr(_) => "LAGR",
            Instruction::Tur(_) => "TUR",
            Instruction::Retur => "RETUR",
            Instruction::Data(_) => ".DATA",
        }
    }

    /// The instruction as a line of assembly.
    pub fn render(&self) -> (line: String)
        ensures
            line@ == self.text(),
    {
        let mut line = String::new();
        line.append(self.mnemonic_name());
        match self {
            Instruction::Nope => {},
            Instruction::Stopp => {},
            Instruction::Retur => {},
            Instruction::Sett(ra, rb) => {
                line.append("\t");
                push_register_pair(&mut line, *ra, *rb);
            },
            Instruction::ALE(_, ra, rb) => {
                line.append("\t");
                push_register_pair(&mut line, *ra, *rb);
            },
            Instruction::Sammenligne(_, ra, rb) => {
                line.append("\t");
                push_register_pair(&mut line, *ra, *rb);
            },
            Instruction::SettImmediate(ra, value) => {
                line.append("\t");
                push_register(&mut line, *ra);
                line.append(", ");
                push_number(&mut line, *value as usize, 10, 0, ' ');
            },
            Instruction::Hopp(address) => {
                line.append("\t");
                push_address(&mut line, *address as usize);
            },
            Instruction::BHopp(address) => {
                line.append("\t");
                push_address(&mut line, *address as usize);
            },
            Instruction::Finn(address) => {
                line.append("\t");
                push_address(&mut line, *address as usize);
            },
            Instruction::Tur(address) => {
                line.append("\t");
                push_address(&mut line, *address as usize);
            },
            Instruction::Les(r) => {
                line.append("\t");
                push_register(&mut line, *r);
            },
            Instruction::Skriv(r) => {
                line.append("\t");
                push_register(&mut line, *r);
            },
            Instruction::Last(r) => {
                line.append("\t");
                push_register(&mut line, *r);
            },
            Instruction::Lagr(r) => {
                line.append("\t");
                push_register(&mut line, *r);
            },
            Instruction::Data(word) => {
                line.append("\t");
                push_byte(&mut line, (*word / 256) as usize);
                line.append(",");
                push_byte(&mut line, (*word % 256) as usize);
            },
        }
        assert(line@ =~= self.text());
        line
    }
}

/// Appends a register operand.
fn push_register(line: &mut String, index: usize)
    ensures
        final(line)@ == old(line)@ + register_text(index),
{
    line.append("r");
    push_number(line, index, 10, 0, ' ');
    assert(pad_left(decimal(index as nat), 0, ' ') =~= decimal(index as nat));
    assert(line@ =~= old(line)@ + register_text(index));
}

/// Appends an address operand.
fn push_address(line: &mut String, address: usize)
    ensures
        final(line)@ == old(line)@ + address_text(address as nat),
{
    line.append("0x");
    push_number(line, address, 16, 4, '0');
    assert(line@ =~= old(line)@ + address_text(address as nat));
}

/// Appends a byte of raw data.
fn push_byte(line: &mut String, byte: usize)
    ensures
        final(line)@ == old(line)@ + byte_text(byte as nat),
{
    line.append("0x");
    push_number(line, byte, 16, 0, '0');
    assert(pad_left(hex(byte as nat), 0, '0') =~= hex(byte as nat));
    assert(line@ =~= old(line)@ + byte_text(byte as nat));
}

/// Appends two register operands with a comma between them.
fn push_register_pair(line: &mut String, ra: usize, rb: usize)
    ensures
        final(line)@ == old(line)@ + register_pair_text(ra, rb),
{
    push_register(line, ra);
    line.append(", ");
    push_register(line, rb);
    assert(line@ =~= old(line)@ + register_pair_text(ra, rb));
}

/// The header that every program file begins with: `.SLEDE8` in ASCII.
pub open spec fn magic() -> Seq<u8> {
    seq![0x2eu8, 0x53u8, 0x4cu8, 0x45u8, 0x44u8, 0x45u8, 0x38u8]
}

/// Whether the file begins with the header.
pub open spec fn has_magic(input: Seq<u8>) -> bool {
    input.len() >= HEADER_SIZE && input.subrange(0, HEADER_SIZE as int) == magic()
}

/// Whether the file begins with the header.
pub fn check_magic(input: &[u8]) -> (found: bool)
    ensures
        found == has_magic(input@),
{
    if input.len() < HEADER_SIZE {
        return false;
    }
    let found = input[0] == 0x2e && input[1] == 0x53 && input[2] == 0x4c && input[3] == 0x45
        && input[4] == 0x44 && input[5] == 0x45 && input[6] == 0x38;
    proof {
        let head = input@.subrange(0, HEADER_SIZE as int);
        if found {
            assert(head =~= magic());
        } else {
            assert(head[0] == input@[0] && head[1] == input@[1] && head[2] == input@[2]
                && head[3] == input@[3] && head[4] == input@[4] && head[5] == input@[5]
                && head[6] == input@[6]);
        }
    }
    found
}

/// The number of whole words behind the header. A last odd byte belongs
/// to none.
pub open spec fn word_count(input: Seq<u8>) -> nat {
    if input.len() >= HEADER_SIZE {
        ((input.len() - HEADER_SIZE) / 2) as nat
    } else {
        0
    }
}

/// The line for the word with the given index behind the header. The
/// word's low byte comes first.
pub open spec fn line_at(input: Seq<u8>, index: int) -> Line {
    let op = word_le(input[HEADER_SIZE + 2 * index], input[HEADER_SIZE + 2 * index + 1]);
    Line { pos: (2 * index) as usize, op, instruction: decode(op) }
}

/// The listing of a program file: one line for each whole word behind
/// the header, in ascending order of address.
pub open spec fn listing(input: Seq<u8>) -> Seq<Line> {
    Seq::new(word_count(input), |index: int| line_at(input, index))
}

/// Decodes a program file word by word, without executing anything. A
/// file without the header is refused.
pub fn disassemble(input: &[u8]) -> (result: Result<Vec<Line>, FormatError>)
    ensures
        result is Ok <==> has_magic(input@),
        result matches Ok(lines) ==> lines@ == listing(input@),
{
    if !check_magic(input) {
        return Err(FormatError);
    }
    let count = (input.len() - HEADER_SIZE) / 2;
    let mut lines: Vec<Line> = Vec::new();
    let mut i: usize = 0;
    while i < count
        invariant
            HEADER_SIZE + 2 * count <= input@.len() <= usize::MAX,
            count == word_count(input@),
            i <= count,
            lines@.len() == i,
            forall|k: int| 0 <= k < i ==> lines@[k] == line_at(input@, k),
        decreases count - i,
    {
        let start = HEADER_SIZE + 2 * i;
        let combined = read_u16_le(slice_subrange(input, start, start + 2));
        lines.push(Line { pos: i * 2, op: combined, instruction: decode_instruction(combined) });
        i += 1;
    }
    assert(lines@ =~= listing(input@));
    Ok(lines)
}

/// A last odd byte changes nothing: a file with whole words behind its
/// header has the same listing with one more byte at its end.
pub proof fn lemma_odd_trailing_byte_dropped(input: Seq<u8>, byte: u8)
    requires
        has_magic(input),
        (input.len() - HEADER_SIZE) % 2 == 0,
    ensures
        has_magic(input.push(byte)),
        listing(input.push(byte)) == listing(input),
        listing(input).len() * 2 == input.len() - HEADER_SIZE,
{
    let longer = input.push(byte);
    assert(longer.subrange(0, HEADER_SIZE as int) =~= input.subrange(0, HEADER_SIZE as int));
    assert(word_count(longer) == word_count(input));
    assert forall|index: int| 0 <= index < word_count(input) implies line_at(longer, index)
        == line_at(input, index) by {
        assert(longer[HEADER_SIZE + 2 * index] == input[HEADER_SIZE + 2 * index]);
        assert(longer[HEADER_SIZE + 2 * index + 1] == input[HEADER_SIZE + 2 * index + 1]);
    }
    assert(listing(longer) =~= listing(input));
}

impl Line {
    /// The line as text. In the full form the address and the word lead,
    /// each as `0x` and at least four hexadecimal digits; in the clean
    /// form the instruction stands alone.
    pub open spec fn text(self, clean: bool) -> Seq<char> {
        if clean {
            self.instruction.text()
        } else {
            address_text(self.pos as nat) + ": "@ + address_text(self.op as nat) + "   "@
                + self.instruction.text()
        }
    }

    /// The line as text, with or without address and word.
    pub fn render(&self, clean: bool) -> (text: String)
        ensures
            text@ == self.text(clean),
    {
        if clean {
            self.instruction.render()
        } else {
            let mut text = String::new();
            push_address(&mut text, self.pos);
            text.append(": ");
            push_address(&mut text, self.op as usize);
            text.append("   ");
            let instruction = self.instruction.render();
            text.append(instruction.as_str());
            assert(text@ =~= self.text(clean));
            text
        }
    }
}

} // verus!
