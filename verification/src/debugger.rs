//! The decisions of an interactive debugging shell: what a typed line
//! asks for, and when the shell stops to ask.

use crate::text::{chars_of, hex_word, read_hex};
use vstd::prelude::*;

verus! {

/// Whether the character separates words: one with the Unicode property
/// `White_Space`.
pub open spec fn is_space(c: char) -> bool {
    let code = c as u32;
    ||| 0x09 <= code <= 0x0d
    ||| code == 0x20
    ||| code == 0x85
    ||| code == 0xa0
    ||| code == 0x1680
    ||| 0x2000 <= code <= 0x200a
    ||| code == 0x2028
    ||| code == 0x2029
    ||| code == 0x202f
    ||| code == 0x205f
    ||| code == 0x3000
}

/// Where the word that starts at `start` ends: the first position from
/// there on that holds a space, or the end of the line.
pub open spec fn word_end(line: Seq<char>, start: int) -> int
    decreases line.len() - start,
{
    if start < 0 || start >= line.len() || is_space(line[start]) {
        start
    } else {
        word_end(line, start + 1)
    }
}

/// The words of the line from `start` on.
pub open spec fn tokens_from(line: Seq<char>, start: int) -> Seq<Seq<char>>
    decreases line.len() - start,
    via tokens_from_decreases
{
    if start < 0 || start >= line.len() {
        Seq::empty()
    } else if is_space(line[start]) {
        tokens_from(line, start + 1)
    } else {
        seq![line.subrange(start, word_end(line, start))] + tokens_from(
            line,
            word_end(line, start),
        )
    }
}

#[via_fn]
proof fn tokens_from_decreases(line: Seq<char>, start: int) {
    if 0 <= start < line.len() && !is_space(line[start]) {
        lemma_word_end(line, start);
    }
}

/// A word ends behind its first character, and within the line.
pub proof fn lemma_word_end(line: Seq<char>, start: int)
    requires
        0 <= start <= line.len(),
    ensures
        start <= word_end(line, start) <= line.len(),
        start < line.len() && !is_space(line[start]) ==> start < word_end(line, start),
        word_end(line, start) < line.len() ==> is_space(line[word_end(line, start)]),
        forall|k: int| start <= k < word_end(line, start) ==> !is_space(#[trigger] line[k]),
    decreases line.len() - start,
{
    if start < line.len() && !is_space(line[start]) {
        lemma_word_end(line, start + 1);
    }
}

/// The words of the line: the longest runs of characters that are no
/// spaces, in order.
pub open spec fn tokens(line: Seq<char>) -> Seq<Seq<char>> {
    tokens_from(line, 0)
}

/// The digits of an address: the word without a plus sign in front.
pub open spec fn address_digits(word: Seq<char>) -> Seq<char> {
    if word.len() > 0 && word[0] == '+' {
        word.skip(1)
    } else {
        word
    }
}

/// The address that a word stands for: hexadecimal digits, with or
/// without a plus sign in front, whose number fits the machine word.
pub open spec fn parse_address(word: Seq<char>) -> Option<usize> {
    hex_word(address_digits(word))
}

/// What a typed line asks the shell to do.
#[derive(Clone, Copy, Debug, PartialEq, Eq, Structural)]
pub enum Command {
    /// Leave stepping mode and execute.
    Continue,
    /// Dump the memory between two addresses.
    Memory(usize, usize),
    /// A memory dump without two addresses that can be read.
    MemoryMalformed,
    /// Set a breakpoint at an address.
    Breakpoint(usize),
    /// A breakpoint at an address that cannot be read.
    BreakpointMalformed,
    /// List the breakpoints.
    ListBreakpoints,
    /// Execute one instruction.
    Step,
}

/// What a line asks for. Its first character decides: `c` continues, `m`
/// dumps memory between the addresses in the second and third word, `b`
/// with one more word sets a breakpoint there and else lists them; any
/// other line is a single step.
pub open spec fn command_of(line: Seq<char>) -> Command {
    let words = tokens(line);
    if line.len() > 0 && line[0] == 'c' {
        Command::Continue
    } else if line.len() > 0 && line[0] == 'm' {
        if words.len() >= 3 {
            match (parse_address(words[1]), parse_address(words[2])) {
                (Some(from), Some(to)) => Command::Memory(from, to),
                _ => Command::MemoryMalformed,
            }
        } else {
            Command::MemoryMalformed
        }
    } else if line.len() > 0 && line[0] == 'b' {
        if words.len() == 2 {
            match parse_address(words[1]) {
                Some(address) => Command::Breakpoint(address),
                None => Command::BreakpointMalformed,
            }
        } else {
            Command::ListBreakpoints
        }
    } else {
        Command::Step
    }
}

/// Whether the character separates words.
pub fn separates(c: char) -> (space: bool)
    ensures
        space == is_space(c),
{
    let code = c as u32;
    (0x09 <= code && code <= 0x0d) || code == 0x20 || code == 0x85 || code == 0xa0 || code
        == 0x1680 || (0x2000 <= code && code <= 0x200a) || code == 0x2028 || code == 0x2029
        || code == 0x202f || code == 0x205f || code == 0x3000
}

/// Splits a line into its words.
pub fn split(line: &Vec<char>) -> (words: Vec<Vec<char>>)
    ensures
        words@.len() == tokens(line@).len(),
        forall|k: int| 0 <= k < words@.len() ==> (#[trigger] words@[k])@ == tokens(line@)[k],
{
    let mut words: Vec<Vec<char>> = Vec::new();
    let ghost mut done: Seq<Seq<char>> = Seq::empty();
    let mut i: usize = 0;
    while i < line.len()
        invariant
            i <= line@.len(),
            tokens(line@) == done + tokens_from(line@, i as int),
            words@.len() == done.len(),
            forall|k: int| 0 <= k < words@.len() ==> (#[trigger] words@[k])@ == done[k],
        decreases line@.len() - i,
    {
        if separates(line[i]) {
            i += 1;
        } else {
            let start = i;
            let mut word: Vec<char> = Vec::new();
            while i < line.len() && !separates(line[i])
                invariant
                    start <= i <= line@.len(),
                    word@ == line@.subrange(start as int, i as int),
                    word_end(line@, start as int) == word_end(line@, i as int),
                decreases line@.len() - i,
            {
                word.push(line[i]);
                i += 1;
                assert(word@ =~= line@.subrange(start as int, i as int));
            }
            proof {
                assert(word_end(line@, i as int) == i);
                done = done.push(word@);
                assert(tokens(line@) =~= done + tokens_from(line@, i as int));
            }
            words.push(word);
        }
    }
    assert(done + tokens_from(line@, i as int) =~= done);
    words
}

/// Reads a word as an address.
pub fn read_address(word: &Vec<char>) -> (address: Option<usize>)
    ensures
        address == parse_address(word@),
{
    let first: usize = if word.len() > 0 && word[0] == '+' {
        1
    } else {
        0
    };
    assert(address_digits(word@) =~= word@.subrange(first as int, word@.len() as int));
    read_hex(word, first, word.len())
}

/// Reads a line as a command.
pub fn parse_command(line: &str) -> (command: Command)
    ensures
        command == command_of(line@),
{
    let chars = chars_of(line);
    if chars.len() == 0 {
        return Command::Step;
    }
    let first = chars[0];
    if first == 'c' {
        Command::Continue
    } else if first == 'm' {
        let words = split(&chars);
        if words.len() < 3 {
            return Command::MemoryMalformed;
        }
        match (read_address(&words[1]), read_address(&words[2])) {
            (Some(from), Some(to)) => Command::Memory(from, to),
            _ => Command::MemoryMalformed,
        }
    } else if first == 'b' {
        let words = split(&chars);
        if words.len() != 2 {
            return Command::ListBreakpoints;
        }
        match read_address(&words[1]) {
            Some(address) => Command::Breakpoint(address),
            None => Command::BreakpointMalformed,
        }
    } else {
        Command::Step
    }
}

/// The state of the shell: whether it asks before each instruction, and
/// the addresses at which it starts to ask again.
#[derive(Debug)]
pub struct Debugger {
    pub stepping: bool,
    pub breakpoints: Vec<usize>,
}

impl Debugger {
    /// A shell that asks before the first instruction, with no
    /// breakpoints.
    pub fn new() -> (shell: Debugger)
        ensures
            shell.stepping,
            shell.breakpoints@ == Seq::<usize>::empty(),
    {
        Debugger { stepping: true, breakpoints: Vec::new() }
    }

    /// Looks at the program counter before an instruction is executed.
    /// At a breakpoint the shell starts to ask again, and says so.
    pub fn arrive(&mut self, pc: usize) -> (hit: bool)
        ensures
            hit == old(self).breakpoints@.contains(pc),
            final(self).stepping == (old(self).stepping || hit),
            final(self).breakpoints@ == old(self).breakpoints@,
    {
        let mut hit = false;
        let mut i: usize = 0;
        while i < self.breakpoints.len()
            invariant
                i <= self.breakpoints@.len(),
                self.breakpoints@ == old(self).breakpoints@,
                self.stepping == old(self).stepping,
                hit <==> exists|k: int| 0 <= k < i && self.breakpoints@[k] == pc,
            decreases self.breakpoints@.len() - i,
        {
            if self.breakpoints[i] == pc {
                hit = true;
            }
            i += 1;
        }
        if hit {
            self.stepping = true;
        }
        hit
    }

    /// Takes a command to heart, and says whether an instruction is to be
    /// executed now. To continue ends the asking; a breakpoint is added
    /// to the list.
    pub fn obey(&mut self, command: Command) -> (execute: bool)
        ensures
            execute == (command is Continue || command is Step),
            final(self).stepping == (old(self).stepping && !(command is Continue)),
            final(self).breakpoints@ == match command {
                Command::Breakpoint(address) => old(self).breakpoints@.push(address),
                _ => old(self).breakpoints@,
            },
    {
        match command {
            Command::Continue => {
                self.stepping = false;
                true
            },
            Command::Step => true,
            Command::Breakpoint(address) => {
                self.breakpoints.push(address);
                false
            },
            _ => false,
        }
    }
}

} // verus!
