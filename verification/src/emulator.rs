//! The machine state and the execution of one instruction after another.

use crate::inspect::{
    dump_text, encode_hex, hex_pairs, push_registers, push_status, registers_text, render_dump,
    status_text,
};
use crate::parser::{decode, decode_instruction, ALEOp, CMPOp, Instruction};
use crate::theorems::lemma_step_wf;
use crate::word::{read_u16_le, word_le};
use vstd::prelude::*;
use vstd::string::StringExecFns;

verus! {

/// The number of bytes of memory.
pub const MEMORY_SIZE: usize = 4096;

/// The number of registers.
pub const REGISTER_COUNT: usize = 16;

/// Why an instruction could not be executed.
#[derive(Clone, Copy, Debug, PartialEq, Eq, Structural)]
pub enum MachineError {
    /// An input byte was asked for after the last one had been read.
    InputExhausted,
    /// A return was executed with no call outstanding.
    CallStackUnderflow,
}

/// A memory dump was asked for a range that ends before it starts, or
/// beyond the last address.
#[derive(Clone, Copy, Debug, PartialEq, Eq, Structural)]
pub struct InvalidRange;

/// Why a run came to its end.
#[derive(Clone, Copy, Debug, PartialEq, Eq, Structural)]
pub enum Halt {
    /// The machine is finished: it has executed a stop, or its program
    /// counter has left the memory.
    Finished,
    /// The instruction at the program counter failed.
    Fault(MachineError),
    /// No whole instruction lies at the program counter: it stands on the
    /// last byte of memory, or behind it.
    NoInstruction,
    /// The cycle counter cannot count one more instruction.
    CycleLimit,
}

/// The machine as a mathematical value.
pub struct Machine {
    pub cycles: nat,
    pub memory: Seq<u8>,
    pub pc: nat,
    pub flag: bool,
    pub return_stack: Seq<nat>,
    pub finished: bool,
    pub registers: Seq<u8>,
    pub input: Seq<u8>,
    pub cursor: nat,
    pub output: Seq<u8>,
}

/// What an arithmetic-logic operation gives for the operands `a` and `b`.
/// Sums and differences wrap modulo 256; a shift by eight or more gives 0.
pub open spec fn alu(op: ALEOp, a: u8, b: u8) -> u8 {
    match op {
        ALEOp::Og => a & b,
        ALEOp::Eller => a | b,
        ALEOp::XEller => a ^ b,
        ALEOp::Vskift => if b < 8 { a << b } else { 0 },
        ALEOp::Hskift => if b < 8 { a >> b } else { 0 },
        ALEOp::Pluss => ((a + b) % 256) as u8,
        ALEOp::Minus => ((a - b) % 256) as u8,
    }
}

/// Whether the relation holds between `a` and `b`, both unsigned.
pub open spec fn relation_holds(op: CMPOp, a: u8, b: u8) -> bool {
    match op {
        CMPOp::Lik => a == b,
        CMPOp::Ulik => a != b,
        CMPOp::Me => a < b,
        CMPOp::Mel => a <= b,
        CMPOp::Se => a > b,
        CMPOp::Sel => a >= b,
    }
}

impl Machine {
    /// The machine before its first instruction: everything zero or empty
    /// but the memory image and the input.
    pub open spec fn initial(memory: Seq<u8>, input: Seq<u8>) -> Machine {
        Machine {
            cycles: 0,
            memory,
            pc: 0,
            flag: false,
            return_stack: Seq::empty(),
            finished: false,
            registers: Seq::new(REGISTER_COUNT as nat, |i: int| 0u8),
            input,
            cursor: 0,
            output: Seq::empty(),
        }
    }

    /// What holds of every machine that the emulator builds or reaches.
    pub open spec fn wf(self) -> bool {
        &&& self.memory.len() == MEMORY_SIZE
        &&& self.registers.len() == REGISTER_COUNT
        &&& self.pc <= MEMORY_SIZE
        &&& self.cursor <= self.input.len()
        &&& forall|i: int| 0 <= i < self.return_stack.len() ==> self.return_stack[i] <= MEMORY_SIZE
    }

    /// Whether a whole instruction lies at the program counter.
    pub open spec fn can_fetch(self) -> bool {
        self.pc + 2 <= MEMORY_SIZE
    }

    /// The word at the program counter.
    pub open spec fn next_word(self) -> u16 {
        word_le(self.memory[self.pc as int], self.memory[self.pc as int + 1])
    }

    /// The instruction at the program counter.
    pub open spec fn next_instruction(self) -> Instruction {
        decode(self.next_word())
    }

    /// The address that registers 1 and 0 hold together, cut to 12 bits.
    pub open spec fn address(self) -> int {
        (self.registers[1] % 16) * 256 + self.registers[0]
    }

    /// The machine with one register replaced.
    pub open spec fn with_register(self, index: usize, value: u8) -> Machine {
        Machine { registers: self.registers.update(index as int, value), ..self }
    }

    /// The machine after the fetch: past the instruction, one cycle later.
    pub open spec fn fetched(self) -> Machine {
        Machine { pc: self.pc + 2, cycles: self.cycles + 1, ..self }
    }

    /// The effect of an instruction on a machine that has fetched it.
    pub open spec fn apply(self, instruction: Instruction) -> Result<Machine, MachineError> {
        match instruction {
            Instruction::Sett(ra, rb) => Ok(self.with_register(ra, self.registers[rb as int])),
            Instruction::SettImmediate(ra, value) => Ok(self.with_register(ra, value)),
            Instruction::Stopp => Ok(Machine { finished: true, ..self }),
            Instruction::Hopp(loc) => Ok(Machine { pc: loc as nat, ..self }),
            Instruction::BHopp(loc) => Ok(
                if self.flag {
                    Machine { pc: loc as nat, ..self }
                } else {
                    self
                },
            ),
            Instruction::Les(r) => if self.cursor < self.input.len() {
                Ok(
                    Machine {
                        cursor: self.cursor + 1,
                        ..self.with_register(r, self.input[self.cursor as int])
                    },
                )
            } else {
                Err(MachineError::InputExhausted)
            },
            Instruction::Skriv(r) => Ok(
                Machine { output: self.output.push(self.registers[r as int]), ..self },
            ),
            Instruction::Tur(adr) => Ok(
                Machine { return_stack: self.return_stack.push(self.pc), pc: adr as nat, ..self },
            ),
            Instruction::Retur => if self.return_stack.len() > 0 {
                Ok(
                    Machine {
                        pc: self.return_stack.last(),
                        return_stack: self.return_stack.drop_last(),
                        ..self
                    },
                )
            } else {
                Err(MachineError::CallStackUnderflow)
            },
            Instruction::Finn(adr) => Ok(
                self.with_register(0, (adr % 256) as u8).with_register(1, (adr / 256) as u8),
            ),
            Instruction::Last(n) => Ok(self.with_register(n, self.memory[self.address()])),
            Instruction::Lagr(n) => Ok(
                Machine {
                    memory: self.memory.update(self.address(), self.registers[n as int]),
                    ..self
                },
            ),
            Instruction::ALE(op, ra, rb) => Ok(
                self.with_register(ra, alu(op, self.registers[ra as int], self.registers[rb as int])),
            ),
            Instruction::Sammenligne(op, ra, rb) => Ok(
                Machine {
                    flag: relation_holds(op, self.registers[ra as int], self.registers[rb as int]),
                    ..self
                },
            ),
            Instruction::Nope => Ok(self),
            Instruction::Data(_) => Ok(self),
        }
    }

    /// The machine, flagged as finished if the program counter has left
    /// the memory.
    pub open spec fn settled(self) -> Machine {
        if self.pc >= MEMORY_SIZE {
            Machine { finished: true, ..self }
        } else {
            self
        }
    }

    /// One step: fetch, apply, settle. A failing instruction gives its
    /// error and no machine.
    pub open spec fn step(self) -> Result<Machine, MachineError> {
        match self.fetched().apply(self.next_instruction()) {
            Ok(next) => Ok(next.settled()),
            Err(e) => Err(e),
        }
    }

    /// Why the machine cannot take a step, if it cannot.
    pub open spec fn halt(self) -> Option<Halt> {
        if self.finished {
            Some(Halt::Finished)
        } else if !self.can_fetch() {
            Some(Halt::NoInstruction)
        } else if self.cycles >= usize::MAX {
            Some(Halt::CycleLimit)
        } else {
            match self.step() {
                Ok(_) => None,
                Err(e) => Some(Halt::Fault(e)),
            }
        }
    }

    /// The machine after as many steps as it can take.
    pub open spec fn run(self) -> Machine
        decreases usize::MAX - self.cycles,
    {
        if self.halt() is None {
            self.step().unwrap().run()
        } else {
            self
        }
    }

    /// The state as text: the status line, the registers in two lines,
    /// and the instruction at the program counter.
    pub open spec fn display_text(self) -> Seq<char> {
        status_text(self.pc, self.flag, self.cycles) + "\n"@ + registers_text(self.registers)
            + "\n"@ + self.next_instruction().text()
    }
}

/// The sixteen registers.
#[derive(Debug)]
struct Registers {
    data: [u8; 16],
}

impl Registers {
    fn get(&self, index: usize) -> (value: u8)
        requires
            index < REGISTER_COUNT,
        ensures
            value == self.data@[index as int],
    {
        self.data[index]
    }

    fn set(&mut self, index: usize, value: u8)
        requires
            index < REGISTER_COUNT,
        ensures
            final(self).data@ == old(self).data@.update(index as int, value),
    {
        self.data[index] = value;
    }
}

/// A machine: registers, memory, program counter, flag, return stack,
/// input and output.
#[derive(Debug)]
pub struct State {
    cycles: usize,
    memory: [u8; 4096],
    pc: usize,
    flagg: bool,
    returnpointers: Vec<usize>,
    finished: bool,
    registers: Registers,
    stdin: Vec<u8>,
    stdinpointer: usize,
    stdout: Vec<u8>,
}

impl View for State {
    type V = Machine;

    closed spec fn view(&self) -> Machine {
        Machine {
            cycles: self.cycles as nat,
            memory: self.memory@,
            pc: self.pc as nat,
            flag: self.flagg,
            return_stack: self.returnpointers@.map_values(|p: usize| p as nat),
            finished: self.finished,
            registers: self.registers.data@,
            input: self.stdin@,
            cursor: self.stdinpointer as nat,
            output: self.stdout@,
        }
    }
}

impl State {
    /// A machine at address 0 with the given memory image and input.
    pub fn new(mem: [u8; 4096], stdin: Vec<u8>) -> (state: State)
        ensures
            state@ == Machine::initial(mem@, stdin@),
            state@.wf(),
    {
        let state = State {
            cycles: 0,
            memory: mem,
            pc: 0,
            flagg: false,
            finished: false,
            registers: Registers { data: [0;16] },
            stdin,
            returnpointers: Vec::new(),
            stdinpointer: 0,
            stdout: Vec::new(),
        };
        assert(state@.registers =~= Machine::initial(mem@, stdin@).registers);
        assert(state@.return_stack =~= Machine::initial(mem@, stdin@).return_stack);
        state
    }

    /// The state as text: program counter, flag and cycle count, the
    /// registers, and the instruction that is executed next.
    pub fn display(&self) -> (text: String)
        requires
            self@.can_fetch(),
        ensures
            text@ == self@.display_text(),
    {
        let mut text = String::new();
        push_status(&mut text, self.pc, self.flagg, self.cycles);
        text.append("\n");
        push_registers(&mut text, &self.registers.data);
        text.append("\n");
        let line = self.next_instruction().render();
        text.append(line.as_str());
        assert(text@ =~= self@.display_text());
        text
    }

    /// The program counter.
    pub fn pc(&self) -> (pc: usize)
        ensures
            pc == self@.pc,
    {
        self.pc
    }

    /// The memory from `from` up to, not including, `to`, as text. A
    /// range that ends before it starts, or beyond the last address, is
    /// refused.
    pub fn dump_memory(&self, from: usize, to: usize) -> (result: Result<String, InvalidRange>)
        ensures
            result is Err <==> from > to || to > 0xfff,
            result matches Ok(dump) ==> dump@ == dump_text(self@.memory, from as nat, to as nat),
    {
        if from > to || to > 0xfff {
            Err(InvalidRange)
        } else {
            Ok(render_dump(&self.memory, from, to))
        }
    }

    /// The instruction at the program counter, which is executed next.
    pub fn next_instruction(&self) -> (instruction: Instruction)
        requires
            self@.can_fetch(),
        ensures
            instruction == self@.next_instruction(),
    {
        let op = read_u16_le(&self.memory[self.pc..self.pc + 2]);
        decode_instruction(op)
    }

    /// The bytes written so far.
    pub fn stdout(&self) -> (output: &[u8])
        ensures
            output@ == self@.output,
    {
        self.stdout.as_slice()
    }

    /// The bytes written so far, as hexadecimal text.
    pub fn stdout_hex(&self) -> (text: String)
        ensures
            text@ == hex_pairs(self@.output),
    {
        encode_hex(self.stdout())
    }

    /// Whether the machine has executed a stop, or its program counter
    /// has left the memory.
    pub fn finished(&self) -> (finished: bool)
        ensures
            finished == self@.finished,
    {
        self.finished
    }

    /// The flag that the last comparison has set.
    pub fn flag(&self) -> (flag: bool)
        ensures
            flag == self@.flag,
    {
        self.flagg
    }

    /// The number of instructions executed so far.
    pub fn cycles(&self) -> (cycles: usize)
        ensures
            cycles == self@.cycles,
    {
        self.cycles
    }

    /// The sixteen registers.
    pub fn registers(&self) -> (registers: [u8; 16])
        ensures
            registers@ == self@.registers,
    {
        self.registers.data
    }

    /// Executes the instruction at the program counter. On an error the
    /// machine is left as it was.
    pub fn execute(&mut self) -> (result: Result<(), MachineError>)
        requires
            old(self)@.can_fetch(),
            old(self)@.cycles < usize::MAX,
        ensures
            result is Ok ==> old(self)@.step() is Ok && final(self)@ == old(self)@.step().unwrap(),
            result matches Err(e) ==> old(self)@.step() == Err::<Machine, MachineError>(e)
                && final(self)@ == old(self)@,
            old(self)@.wf() ==> final(self)@.wf(),
    {
        let instruction = self.next_instruction();
        match instruction {
            Instruction::Les(_) => if self.stdinpointer >= self.stdin.len() {
                return Err(MachineError::InputExhausted);
            },
            Instruction::Retur => if self.returnpointers.len() == 0 {
                return Err(MachineError::CallStackUnderflow);
            },
            _ => {},
        }
        self.pc += 2;
        self.cycles += 1;
        match instruction {
            Instruction::Sett(ra, rb) => {
                let value = self.registers.get(rb);
                self.registers.set(ra, value);
            },
            Instruction::SettImmediate(ra, val) => self.registers.set(ra, val),
            Instruction::Stopp => self.finished = true,
            Instruction::Hopp(loc) => self.pc = loc as usize,
            Instruction::BHopp(loc) => {
                if self.flagg {
                    self.pc = loc as usize;
                }
            },
            Instruction::Les(r) => {
                self.registers.set(r, self.stdin[self.stdinpointer]);
                self.stdinpointer += 1;
            },
            Instruction::Skriv(r) => self.stdout.push(self.registers.get(r)),
            Instruction::Tur(adr) => {
                self.returnpointers.push(self.pc);
                self.pc = adr as usize;
            },
            Instruction::Retur => self.pc = self.returnpointers.pop().unwrap(),
            Instruction::Finn(adr) => {
                self.registers.set(0, (adr % 256) as u8);
                self.registers.set(1, (adr / 256) as u8);
            },
            Instruction::Last(n) => {
                let adr = self.effective_address();
                self.registers.set(n, self.memory[adr]);
            },
            Instruction::Lagr(n) => {
                let adr = self.effective_address();
                self.memory[adr] = self.registers.get(n);
            },
            Instruction::ALE(op, ra, rb) => {
                let value = compute(op, self.registers.get(ra), self.registers.get(rb));
                self.registers.set(ra, value);
            },
            Instruction::Sammenligne(op, ra, rb) => {
                self.flagg = compare(op, self.registers.get(ra), self.registers.get(rb));
            },
            Instruction::Nope => (),
            Instruction::Data(_) => (),
        }
        if self.pc >= MEMORY_SIZE {
            self.finished = true;
        }
        proof {
            let expected = old(self)@.step().unwrap();
            assert(self@.registers =~= expected.registers);
            assert(self@.return_stack =~= expected.return_stack);
            if old(self)@.wf() {
                lemma_step_wf(old(self)@);
            }
        }
        Ok(())
    }

    /// Executes instructions until the machine cannot take another step,
    /// and says why it cannot.
    pub fn run(&mut self) -> (halt: Halt)
        ensures
            final(self)@ == old(self)@.run(),
            final(self)@.halt() == Some(halt),
            old(self)@.wf() ==> final(self)@.wf(),
    {
        loop
            invariant
                self@.run() == old(self)@.run(),
                old(self)@.wf() ==> self@.wf(),
            decreases usize::MAX - self.cycles,
        {
            if self.finished {
                return Halt::Finished;
            }
            if self.pc > MEMORY_SIZE - 2 {
                return Halt::NoInstruction;
            }
            if self.cycles == usize::MAX {
                return Halt::CycleLimit;
            }
            match self.execute() {
                Ok(()) => {},
                Err(e) => {
                    return Halt::Fault(e);
                },
            }
        }
    }

    /// The address that registers 1 and 0 hold together, cut to 12 bits.
    fn effective_address(&self) -> (adr: usize)
        ensures
            adr == self@.address(),
            adr < MEMORY_SIZE,
    {
        let low = self.registers.get(0);
        let high = self.registers.get(1);
        let adr: u16 = ((high as u16) << 8 | low as u16) & 0xfff;
        assert(((high as u16) << 8 | low as u16) & 0xfff == (high % 16) * 256 + low) by (bit_vector);
        adr as usize
    }
}

/// Computes an arithmetic-logic operation on two register values.
fn compute(op: ALEOp, a: u8, b: u8) -> (value: u8)
    ensures
        value == alu(op, a, b),
{
    match op {
        ALEOp::Pluss => ((a as u16 + b as u16) % 0x100) as u8,
        ALEOp::Minus => ((0x100 + a as u16 - b as u16) % 0x100) as u8,
        ALEOp::Eller => a | b,
        ALEOp::XEller => a ^ b,
        ALEOp::Og => a & b,
        ALEOp::Vskift => if b < 8 { a << b } else { 0 },
        ALEOp::Hskift => if b < 8 { a >> b } else { 0 },
    }
}

/// Tests a relation between two register values.
fn compare(op: CMPOp, a: u8, b: u8) -> (holds: bool)
    ensures
        holds == relation_holds(op, a, b),
{
    match op {
        CMPOp::Lik => a == b,
        CMPOp::Me => a < b,
        CMPOp::Mel => a <= b,
        CMPOp::Se => a > b,
        CMPOp::Sel => a >= b,
        CMPOp::Ulik => a != b,
    }
}

} // verus!
