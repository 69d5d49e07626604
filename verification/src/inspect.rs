//! The machine's state and memory as text, for a person to read.

use crate::text::{
    decimal, digit_char, digits_of, hex, pad_left, pad_right, push_number, push_padded_left,
    push_padded_right,
};
use vstd::prelude::*;
use vstd::string::StringExecFns;

verus! {

/// `true` or `false`.
pub open spec fn bool_text(value: bool) -> Seq<char> {
    if value {
        "true"@
    } else {
        "false"@
    }
}

/// The heading of one register: `r`, the index in a field of two
/// characters, and a space.
pub open spec fn register_name_cell(index: nat) -> Seq<char> {
    "r"@ + pad_right(decimal(index), 2, ' ') + " "@
}

/// One register's value: two hexadecimal digits, `h` and a space.
pub open spec fn register_value_cell(value: u8) -> Seq<char> {
    pad_left(hex(value as nat), 2, '0') + "h "@
}

/// The headings of the first `count` registers.
pub open spec fn register_names(count: nat) -> Seq<char>
    decreases count,
{
    if count == 0 {
        Seq::empty()
    } else {
        register_names((count - 1) as nat) + register_name_cell((count - 1) as nat)
    }
}

/// The values of the first `count` registers.
pub open spec fn register_values(registers: Seq<u8>, count: nat) -> Seq<char>
    decreases count,
{
    if count == 0 {
        Seq::empty()
    } else {
        register_values(registers, (count - 1) as nat) + register_value_cell(
            registers[count - 1],
        )
    }
}

/// The registers in two lines: their headings, and below each its value.
pub open spec fn registers_text(registers: Seq<u8>) -> Seq<char> {
    register_names(registers.len()) + "\n"@ + register_values(registers, registers.len())
}

/// The first line of the state: program counter, flag and cycle count.
pub open spec fn status_text(pc: nat, flag: bool, cycles: nat) -> Seq<char> {
    "pc: "@ + pad_left("0x"@ + hex(pc), 6, ' ') + " flagg: "@ + bool_text(flag) + " sykler: "@
        + decimal(cycles)
}

/// One byte of a memory dump. The first of every eight cells is led by
/// its address and a colon; the last of every eight is followed by a line
/// break.
pub open spec fn dump_cell(memory: Seq<u8>, from: nat, i: nat) -> Seq<char> {
    (if i % 8 == 0 {
        pad_left(hex(from + i), 4, '0') + ": "@
    } else {
        Seq::empty()
    }) + pad_left(hex(memory[from as int + i] as nat), 2, '0') + " "@ + (if i % 8 == 7 {
        "\n"@
    } else {
        Seq::empty()
    })
}

/// The first `count` cells of a memory dump that starts at `from`.
pub open spec fn dump_cells(memory: Seq<u8>, from: nat, count: nat) -> Seq<char>
    decreases count,
{
    if count == 0 {
        Seq::empty()
    } else {
        dump_cells(memory, from, (count - 1) as nat) + dump_cell(
            memory,
            from,
            (count - 1) as nat,
        )
    }
}

/// The dump of the memory from `from` up to, not including, `to`: eight
/// bytes to a line, and a line break at the end.
pub open spec fn dump_text(memory: Seq<u8>, from: nat, to: nat) -> Seq<char> {
    dump_cells(memory, from, (to - from) as nat) + "\n"@
}

/// Appends the registers in two lines.
pub fn push_registers(s: &mut String, registers: &[u8; 16])
    ensures
        final(s)@ == old(s)@ + registers_text(registers@),
{
    let mut r: usize = 0;
    while r < 16
        invariant
            r <= 16,
            s@ == old(s)@ + register_names(r as nat),
        decreases 16 - r,
    {
        s.append("r");
        let name = digits_of(r, 10);
        push_padded_right(s, &name, 2, ' ');
        s.append(" ");
        r += 1;
        assert(s@ =~= old(s)@ + register_names(r as nat));
    }
    s.append("\n");
    let ghost headed = s@;
    let mut r: usize = 0;
    while r < 16
        invariant
            r <= 16,
            s@ == headed + register_values(registers@, r as nat),
        decreases 16 - r,
    {
        push_number(s, registers[r] as usize, 16, 2, '0');
        s.append("h ");
        r += 1;
        assert(s@ =~= headed + register_values(registers@, r as nat));
    }
    assert(s@ =~= old(s)@ + registers_text(registers@));
}

/// Appends the first line of the state.
pub fn push_status(s: &mut String, pc: usize, flag: bool, cycles: usize)
    ensures
        final(s)@ == old(s)@ + status_text(pc as nat, flag, cycles as nat),
{
    s.append("pc: ");
    let mut counter: Vec<char> = Vec::new();
    counter.push('0');
    counter.push('x');
    let mut number = digits_of(pc, 16);
    counter.append(&mut number);
    proof {
        reveal_strlit("0x");
        assert(counter@ =~= "0x"@ + hex(pc as nat));
    }
    push_padded_left(s, &counter, 6, ' ');
    s.append(" flagg: ");
    s.append(if flag { "true" } else { "false" });
    s.append(" sykler: ");
    push_number(s, cycles, 10, 0, ' ');
    assert(pad_left(decimal(cycles as nat), 0, ' ') =~= decimal(cycles as nat));
    assert(s@ =~= old(s)@ + status_text(pc as nat, flag, cycles as nat));
}

/// The dump of the memory from `from` up to, not including, `to`.
pub fn render_dump(memory: &[u8; 4096], from: usize, to: usize) -> (dump: String)
    requires
        from <= to <= 4096,
    ensures
        dump@ == dump_text(memory@, from as nat, to as nat),
{
    let mut dump = String::new();
    let mut i: usize = 0;
    while i < to - from
        invariant
            from <= to <= 4096,
            i <= to - from,
            dump@ == dump_cells(memory@, from as nat, i as nat),
        decreases to - from - i,
    {
        let ghost before = dump@;
        if i % 8 == 0 {
            push_number(&mut dump, from + i, 16, 4, '0');
            dump.append(": ");
        }
        push_number(&mut dump, memory[from + i] as usize, 16, 2, '0');
        dump.append(" ");
        if i % 8 == 7 {
            dump.append("\n");
        }
        assert(dump@ =~= before + dump_cell(memory@, from as nat, i as nat));
        i += 1;
    }
    dump.append("\n");
    dump
}

/// The bytes as text: for each byte two lowercase hexadecimal digits, the
/// high one first.
pub open spec fn hex_pairs(bytes: Seq<u8>) -> Seq<char> {
    Seq::new(
        2 * bytes.len(),
        |i: int|
            if i % 2 == 0 {
                digit_char((bytes[i / 2] / 16) as nat)
            } else {
                digit_char((bytes[i / 2] % 16) as nat)
            },
    )
}

/// `hex::encode`, which writes each byte as two lowercase hexadecimal
/// digits. Trusted: that the string holds exactly those digits, byte by
/// byte in order, the high digit of each byte first.
#[verifier::external_body]
pub(crate) fn encode_hex(bytes: &[u8]) -> (text: String)
    ensures
        text@ == hex_pairs(bytes@),
{
    hex::encode(bytes)
}

} // verus!
