use slede8::emulator::{Halt, InvalidRange, MachineError, State};
use slede8::loader::{emulate, load};
use slede8::parser::{FormatError, Instruction};

const MAGIC: [u8; 7] = [0x2e, 0x53, 0x4c, 0x45, 0x44, 0x45, 0x38];

fn set(register: u16, value: u16) -> u16 {
    0x1 | (register << 4) | (value << 8)
}

fn copy(to: u16, from: u16) -> u16 {
    0x2 | (to << 4) | (from << 8)
}

fn find(address: u16) -> u16 {
    0x3 | (address << 4)
}

fn load_from_memory(register: u16) -> u16 {
    0x4 | (register << 8)
}

fn store(register: u16) -> u16 {
    0x14 | (register << 8)
}

fn alu(operation: u16, ra: u16, rb: u16) -> u16 {
    0x5 | (operation << 4) | (ra << 8) | (rb << 12)
}

fn read(register: u16) -> u16 {
    0x06 | (register << 8)
}

fn write(register: u16) -> u16 {
    0x16 | (register << 8)
}

fn relation(operation: u16, ra: u16, rb: u16) -> u16 {
    0x7 | (operation << 4) | (ra << 8) | (rb << 12)
}

fn jump(address: u16) -> u16 {
    0x8 | (address << 4)
}

fn jump_if(address: u16) -> u16 {
    0x9 | (address << 4)
}

fn call(address: u16) -> u16 {
    0xa | (address << 4)
}

const RETURN: u16 = 0xb;
const NOP: u16 = 0xc;
const STOP: u16 = 0x0;

fn memory(words: &[u16]) -> [u8; 4096] {
    let mut image: [u8; 4096] = [0; 4096];
    let mut at: usize = 0;
    for w in words {
        image[at] = (*w & 0xff) as u8;
        image[at + 1] = (*w >> 8) as u8;
        at += 2;
    }
    image
}

fn file(words: &[u16]) -> Vec<u8> {
    let mut bytes: Vec<u8> = MAGIC.to_vec();
    for w in words {
        bytes.push((*w & 0xff) as u8);
        bytes.push((*w >> 8) as u8);
    }
    bytes
}

fn machine(words: &[u16], input: &[u8]) -> State {
    State::new(memory(words), input.to_vec())
}

fn ran(words: &[u16], input: &[u8]) -> (State, Halt) {
    let mut state: State = machine(words, input);
    let halt: Halt = state.run();
    (state, halt)
}

#[test]
fn a_new_machine_is_all_zero() {
    let state: State = machine(&[set(0, 5)], &[1, 2]);
    assert_eq!(state.pc(), 0);
    assert_eq!(state.cycles(), 0);
    assert!(!state.flag());
    assert!(!state.finished());
    assert_eq!(state.registers(), [0u8; 16]);
    assert_eq!(state.stdout(), &[] as &[u8]);
    assert_eq!(state.next_instruction(), Instruction::SettImmediate(0, 5));
}

#[test]
fn set_write_halt() {
    let (state, halt) = emulate(&file(&[set(0, 5), write(0), STOP]), vec![]).unwrap();
    assert_eq!(halt, Halt::Finished);
    assert_eq!(state.stdout(), &[0x05]);
    assert!(state.finished());
    assert_eq!(state.cycles(), 3);
    assert_eq!(state.pc(), 6);
    assert_eq!(state.stdout_hex(), "05");
}

fn echo_unless_zero() -> Vec<u16> {
    // 0: read r0; 2: set r1 = 0; 4: r0 == r1?; 6: jump if so to 12; 8: write r0; 10: stop; 12: stop
    vec![read(0), set(1, 0), relation(0, 0, 1), jump_if(12), write(0), STOP, STOP]
}

#[test]
fn compare_and_branch_taken() {
    let (state, halt) = emulate(&file(&echo_unless_zero()), vec![0x00]).unwrap();
    assert_eq!(halt, Halt::Finished);
    assert_eq!(state.stdout(), &[] as &[u8]);
    assert!(state.flag());
    assert_eq!(state.pc(), 14);
    assert_eq!(state.cycles(), 5);
}

#[test]
fn compare_and_branch_not_taken() {
    let (state, halt) = emulate(&file(&echo_unless_zero()), vec![0x07]).unwrap();
    assert_eq!(halt, Halt::Finished);
    assert_eq!(state.stdout(), &[0x07]);
    assert!(!state.flag());
    assert_eq!(state.pc(), 12);
    assert_eq!(state.cycles(), 6);
}

#[test]
fn addition_wraps() {
    let (state, _) = ran(&[set(0, 0xff), set(1, 0x01), alu(5, 0, 1), STOP], &[]);
    assert_eq!(state.registers()[0], 0x00);
    let (state, _) = ran(&[set(0, 200), set(1, 100), alu(5, 0, 1), STOP], &[]);
    assert_eq!(state.registers()[0], 44);
    let (state, _) = ran(&[set(0, 3), set(1, 4), alu(5, 0, 1), STOP], &[]);
    assert_eq!(state.registers()[0], 7);
    assert_eq!(state.registers()[1], 4);
}

#[test]
fn subtraction_wraps() {
    let (state, _) = ran(&[set(0, 0x00), set(1, 0x01), alu(6, 0, 1), STOP], &[]);
    assert_eq!(state.registers()[0], 0xff);
    let (state, _) = ran(&[set(0, 9), set(1, 4), alu(6, 0, 1), STOP], &[]);
    assert_eq!(state.registers()[0], 5);
}

#[test]
fn bitwise_operations() {
    let (state, _) = ran(&[set(0, 0b1100), set(1, 0b1010), alu(0, 0, 1), STOP], &[]);
    assert_eq!(state.registers()[0], 0b1000);
    let (state, _) = ran(&[set(0, 0b1100), set(1, 0b1010), alu(1, 0, 1), STOP], &[]);
    assert_eq!(state.registers()[0], 0b1110);
    let (state, _) = ran(&[set(0, 0b1100), set(1, 0b1010), alu(2, 0, 1), STOP], &[]);
    assert_eq!(state.registers()[0], 0b0110);
}

#[test]
fn shifts() {
    let (state, _) = ran(&[set(0, 0x81), set(1, 1), alu(3, 0, 1), STOP], &[]);
    assert_eq!(state.registers()[0], 0x02);
    let (state, _) = ran(&[set(0, 0x81), set(1, 1), alu(4, 0, 1), STOP], &[]);
    assert_eq!(state.registers()[0], 0x40);
    let (state, _) = ran(&[set(0, 0x01), set(1, 7), alu(3, 0, 1), STOP], &[]);
    assert_eq!(state.registers()[0], 0x80);
    let (state, _) = ran(&[set(0, 0xff), set(1, 0), alu(3, 0, 1), STOP], &[]);
    assert_eq!(state.registers()[0], 0xff);
}

#[test]
fn a_shift_by_eight_or_more_gives_zero() {
    let (state, halt) = ran(&[set(0, 0xff), set(1, 8), alu(3, 0, 1), STOP], &[]);
    assert_eq!(halt, Halt::Finished);
    assert_eq!(state.registers()[0], 0);
    let (state, _) = ran(&[set(0, 0xff), set(1, 8), alu(4, 0, 1), STOP], &[]);
    assert_eq!(state.registers()[0], 0);
    let (state, _) = ran(&[set(0, 0xff), set(1, 255), alu(3, 0, 1), STOP], &[]);
    assert_eq!(state.registers()[0], 0);
    let (state, _) = ran(&[set(0, 0xff), set(1, 255), alu(4, 0, 1), STOP], &[]);
    assert_eq!(state.registers()[0], 0);
}

fn flag_after(operation: u16, a: u16, b: u16) -> bool {
    let (state, _) = ran(&[set(0, a), set(1, b), relation(operation, 0, 1), STOP], &[]);
    state.flag()
}

#[test]
fn comparisons_are_unsigned() {
    assert!(flag_after(0, 7, 7));
    assert!(!flag_after(0, 7, 8));
    assert!(flag_after(1, 7, 8));
    assert!(!flag_after(1, 7, 7));
    assert!(flag_after(2, 1, 200));
    assert!(!flag_after(2, 200, 1));
    assert!(!flag_after(2, 5, 5));
    assert!(flag_after(3, 5, 5));
    assert!(flag_after(3, 4, 5));
    assert!(!flag_after(3, 6, 5));
    assert!(flag_after(4, 200, 1));
    assert!(!flag_after(4, 5, 5));
    assert!(flag_after(5, 5, 5));
    assert!(flag_after(5, 255, 5));
    assert!(!flag_after(5, 4, 5));
}

#[test]
fn copies_a_register() {
    let (state, _) = ran(&[set(3, 42), copy(9, 3), STOP], &[]);
    assert_eq!(state.registers()[9], 42);
    assert_eq!(state.registers()[3], 42);
}

#[test]
fn find_splits_an_address() {
    let (state, _) = ran(&[find(0xabc), STOP], &[]);
    assert_eq!(state.registers()[0], 0xbc);
    assert_eq!(state.registers()[1], 0x0a);
}

#[test]
fn stores_and_loads_through_the_address_registers() {
    let (state, _) = ran(&[find(0x123), set(5, 0x77), store(5), load_from_memory(6), STOP], &[]);
    assert_eq!(state.registers()[6], 0x77);
    assert_eq!(state.dump_memory(0x123, 0x124).unwrap(), "0123: 77 \n");
}

#[test]
fn addresses_are_cut_to_twelve_bits() {
    let (state, halt) =
        ran(&[set(0, 0xff), set(1, 0xff), set(2, 0x5a), store(2), load_from_memory(3), STOP], &[]);
    assert_eq!(halt, Halt::Finished);
    assert_eq!(state.registers()[3], 0x5a);
    assert_eq!(state.dump_memory(0xffe, 0xfff).unwrap(), "0ffe: 00 \n");
    let mut image: [u8; 4096] = memory(&[set(0, 0xff), set(1, 0xff), load_from_memory(3), STOP]);
    image[0xfff] = 0xa5;
    let mut state: State = State::new(image, vec![]);
    assert_eq!(state.run(), Halt::Finished);
    assert_eq!(state.registers()[3], 0xa5);
}

#[test]
fn jumps() {
    let (state, _) = ran(&[jump(6), set(0, 1), STOP, set(1, 2), STOP], &[]);
    assert_eq!(state.registers()[0], 0);
    assert_eq!(state.registers()[1], 2);
    assert_eq!(state.pc(), 10);
    assert_eq!(state.cycles(), 3);
}

#[test]
fn a_conditional_jump_without_the_flag_goes_on() {
    let (state, _) = ran(&[jump_if(6), set(0, 1), STOP, set(1, 2), STOP], &[]);
    assert_eq!(state.registers()[0], 1);
    assert_eq!(state.registers()[1], 0);
    assert_eq!(state.pc(), 6);
}

#[test]
fn reads_input_in_order() {
    let (state, halt) = ran(&[read(0), read(1), read(2), write(2), write(0), STOP], &[9, 8, 7]);
    assert_eq!(halt, Halt::Finished);
    assert_eq!(state.registers()[0], 9);
    assert_eq!(state.registers()[1], 8);
    assert_eq!(state.stdout(), &[7, 9]);
    assert_eq!(state.stdout_hex(), "0709");
}

#[test]
fn exhausted_input_is_a_fault_and_changes_nothing() {
    let mut state: State = machine(&[read(0), read(1), STOP], &[9]);
    assert_eq!(state.execute(), Ok(()));
    assert_eq!(state.execute(), Err(MachineError::InputExhausted));
    assert_eq!(state.pc(), 2);
    assert_eq!(state.cycles(), 1);
    assert!(!state.finished());
    assert_eq!(state.registers()[0], 9);
    assert_eq!(state.registers()[1], 0);
    assert_eq!(state.run(), Halt::Fault(MachineError::InputExhausted));
    assert_eq!(state.pc(), 2);
}

#[test]
fn a_return_without_a_call_is_a_fault() {
    let mut state: State = machine(&[RETURN, STOP], &[]);
    assert_eq!(state.execute(), Err(MachineError::CallStackUnderflow));
    assert_eq!(state.pc(), 0);
    assert_eq!(state.cycles(), 0);
    assert!(!state.finished());
    let (_, halt) = ran(&[NOP, RETURN], &[]);
    assert_eq!(halt, Halt::Fault(MachineError::CallStackUnderflow));
}

#[test]
fn a_call_returns_behind_itself() {
    // 0: call 6; 2: write r0; 4: stop; 6: set r0 = 3; 8: return
    let mut state: State = machine(&[call(6), write(0), STOP, set(0, 3), RETURN], &[]);
    assert_eq!(state.execute(), Ok(()));
    assert_eq!(state.pc(), 6);
    assert_eq!(state.execute(), Ok(()));
    assert_eq!(state.execute(), Ok(()));
    assert_eq!(state.pc(), 2);
    assert_eq!(state.run(), Halt::Finished);
    assert_eq!(state.stdout(), &[3]);
}

#[test]
fn nested_calls_and_returns_balance() {
    // Calls at 0, 8, 16 and 24; the returns that belong to them at 10, 18, 26 and 32.
    let mut words: Vec<u16> = vec![NOP; 24];
    words[0] = call(8);
    words[4] = call(16);
    words[8] = call(24);
    words[12] = call(32);
    words[16] = RETURN;
    words[13] = RETURN;
    words[9] = RETURN;
    words[5] = RETURN;
    words[1] = STOP;
    let mut state: State = machine(&words, &[]);
    let mut visited: Vec<usize> = vec![];
    while !state.finished() {
        assert_eq!(state.execute(), Ok(()));
        visited.push(state.pc());
    }
    assert_eq!(visited, vec![8, 16, 24, 32, 26, 18, 10, 2, 4]);
    assert_eq!(state.cycles(), 9);
}

#[test]
fn no_calls_and_no_returns_balance() {
    let mut state: State = machine(&[NOP, RETURN], &[]);
    assert_eq!(state.execute(), Ok(()));
    assert_eq!(state.pc(), 2);
    assert_eq!(state.execute(), Err(MachineError::CallStackUnderflow));
}

#[test]
fn stop_advances_the_program_counter_first() {
    let mut state: State = machine(&[NOP, STOP], &[]);
    assert_eq!(state.execute(), Ok(()));
    assert!(!state.finished());
    assert_eq!(state.execute(), Ok(()));
    assert!(state.finished());
    assert_eq!(state.pc(), 4);
    assert_eq!(state.cycles(), 2);
}

#[test]
fn raw_data_and_no_operation_only_advance() {
    let mut state: State = machine(&[0xffff, NOP, 0x0724], &[5]);
    assert_eq!(state.execute(), Ok(()));
    assert_eq!(state.execute(), Ok(()));
    assert_eq!(state.execute(), Ok(()));
    assert_eq!(state.pc(), 6);
    assert_eq!(state.cycles(), 3);
    assert_eq!(state.registers(), [0u8; 16]);
    assert!(!state.flag());
    assert!(!state.finished());
    assert_eq!(state.stdout(), &[] as &[u8]);
}

#[test]
fn running_off_the_end_finishes() {
    let mut words: Vec<u16> = vec![NOP; 2048];
    words[0] = jump(4092);
    let (state, halt) = ran(&words, &[]);
    assert_eq!(halt, Halt::Finished);
    assert!(state.finished());
    assert_eq!(state.pc(), 4096);
    assert_eq!(state.cycles(), 3);
}

#[test]
fn a_jump_to_the_last_byte_leaves_no_instruction() {
    let (state, halt) = ran(&[jump(0xfff)], &[]);
    assert_eq!(halt, Halt::NoInstruction);
    assert!(!state.finished());
    assert_eq!(state.pc(), 0xfff);
    assert_eq!(state.cycles(), 1);
}

#[test]
fn a_run_is_repeatable() {
    let words: Vec<u16> = vec![
        read(2),
        read(3),
        alu(5, 2, 3),
        find(0x200),
        store(2),
        write(2),
        relation(2, 3, 2),
        jump_if(18),
        write(3),
        STOP,
    ];
    let (first, why_first) = emulate(&file(&words), vec![200, 100]).unwrap();
    let (second, why_second) = emulate(&file(&words), vec![200, 100]).unwrap();
    assert_eq!(why_first, why_second);
    assert_eq!(first.registers(), second.registers());
    assert_eq!(first.dump_memory(0, 0xfff), second.dump_memory(0, 0xfff));
    assert_eq!(first.stdout(), second.stdout());
    assert_eq!(first.cycles(), second.cycles());
    assert_eq!(first.stdout(), &[44, 100]);
    assert_eq!(first.cycles(), 10);
    assert_eq!(first.dump_memory(0x200, 0x201).unwrap(), "0200: 2c \n");
}

#[test]
fn loads_a_file_into_memory() {
    let image: [u8; 4096] = load(&file(&[set(0, 5), write(0)])).unwrap();
    assert_eq!(&image[0..6], &[0x01, 0x05, 0x16, 0x00, 0x00, 0x00]);
    assert!(image.iter().skip(4).all(|b| *b == 0));
}

#[test]
fn loading_cuts_a_long_file_at_the_end_of_memory() {
    let mut bytes: Vec<u8> = MAGIC.to_vec();
    let mut i: usize = 0;
    while i < 5000 {
        bytes.push((i % 251) as u8 + 1);
        i += 1;
    }
    let image: [u8; 4096] = load(&bytes).unwrap();
    assert_eq!(image[0], 1);
    assert_eq!(image[4095], (4095 % 251) as u8 + 1);
    assert_eq!(image[4089], (4089 % 251) as u8 + 1);
    let exact: [u8; 4096] = load(&bytes[0..7 + 4096]).unwrap();
    assert_eq!(exact, image);
}

#[test]
fn loading_refuses_a_file_without_the_header() {
    assert_eq!(load(&[]), Err(FormatError));
    assert_eq!(load(&[0x2e, 0x53, 0x4c, 0x45, 0x44, 0x45, 0x37, 1, 2]), Err(FormatError));
    assert!(matches!(emulate(&[1, 2, 3], vec![]), Err(FormatError)));
    assert!(load(&MAGIC).is_ok());
}

#[test]
fn displays_the_state() {
    let mut state: State = machine(&[set(10, 0xab), relation(1, 10, 0), jump(0xabc)], &[]);
    assert_eq!(
        state.display(),
        "pc:    0x0 flagg: false sykler: 0\n\
         r0  r1  r2  r3  r4  r5  r6  r7  r8  r9  r10 r11 r12 r13 r14 r15 \n\
         00h 00h 00h 00h 00h 00h 00h 00h 00h 00h 00h 00h 00h 00h 00h 00h \n\
         SETT\tr10, 171"
    );
    assert_eq!(state.execute(), Ok(()));
    assert_eq!(state.execute(), Ok(()));
    assert_eq!(
        state.display(),
        "pc:    0x4 flagg: true sykler: 2\n\
         r0  r1  r2  r3  r4  r5  r6  r7  r8  r9  r10 r11 r12 r13 r14 r15 \n\
         00h 00h 00h 00h 00h 00h 00h 00h 00h 00h abh 00h 00h 00h 00h 00h \n\
         HOPP\t0x0abc"
    );
    assert_eq!(state.execute(), Ok(()));
    assert!(state.display().starts_with("pc:  0xabc flagg: true sykler: 3\n"));
}

#[test]
fn dumps_memory_eight_bytes_to_a_line() {
    let state: State = machine(&[set(0, 5), write(0), STOP], &[]);
    assert_eq!(
        state.dump_memory(0, 10).unwrap(),
        "0000: 01 05 16 00 00 00 00 00 \n0008: 00 00 \n"
    );
    assert_eq!(state.dump_memory(1, 9).unwrap(), "0001: 05 16 00 00 00 00 00 00 \n\n");
    assert_eq!(state.dump_memory(3, 3).unwrap(), "\n");
    assert_eq!(state.dump_memory(0xffe, 0xfff).unwrap(), "0ffe: 00 \n");
}

#[test]
fn a_dump_of_a_range_that_ends_before_it_starts_is_refused() {
    let state: State = machine(&[set(0, 5), write(0), STOP], &[7]);
    assert_eq!(state.dump_memory(0x10, 0x05), Err(InvalidRange));
    assert_eq!(state.pc(), 0);
    assert_eq!(state.cycles(), 0);
    assert_eq!(state.registers(), [0u8; 16]);
    assert_eq!(state.next_instruction(), Instruction::SettImmediate(0, 5));
    assert_eq!(state.stdout(), &[] as &[u8]);
}

#[test]
fn a_dump_beyond_the_last_address_is_refused() {
    let state: State = machine(&[], &[]);
    assert_eq!(state.dump_memory(0, 0x1000), Err(InvalidRange));
    assert_eq!(state.dump_memory(0x1000, 0x1000), Err(InvalidRange));
    assert!(state.dump_memory(0, 0xfff).is_ok());
    assert!(state.dump_memory(0xfff, 0xfff).is_ok());
}

#[test]
fn output_as_hexadecimal_text() {
    let (state, _) = ran(&[set(0, 0xf9), write(0), set(0, 0x0a), write(0), write(1), STOP], &[]);
    assert_eq!(state.stdout(), &[0xf9, 0x0a, 0x00]);
    assert_eq!(state.stdout_hex(), "f90a00");
}
