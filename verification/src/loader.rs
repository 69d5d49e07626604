//! From a program file to a machine, and to the end of its run.

use crate::emulator::{Halt, Machine, State, MEMORY_SIZE};
use crate::parser::{check_magic, has_magic, FormatError, HEADER_SIZE};
use vstd::prelude::*;

verus! {

/// The memory image of a program file: the bytes behind the header from
/// address 0 on, cut off at the end of memory, and zeros behind them.
pub open spec fn image(input: Seq<u8>) -> Seq<u8> {
    Seq::new(
        MEMORY_SIZE as nat,
        |address: int|
            if HEADER_SIZE + address < input.len() {
                input[HEADER_SIZE + address]
            } else {
                0u8
            },
    )
}

/// Builds the memory image of a program file. A file without the header
/// is refused.
pub fn load(input: &[u8]) -> (result: Result<[u8; 4096], FormatError>)
    ensures
        result is Ok <==> has_magic(input@),
        result matches Ok(memory) ==> memory@ == image(input@),
{
    if !check_magic(input) {
        return Err(FormatError);
    }
    let mut memory: [u8; 4096] = [0;4096];
    let mut length = input.len() - HEADER_SIZE;
    if length > MEMORY_SIZE {
        length = MEMORY_SIZE;
    }
    let mut address: usize = 0;
    while address < length
        invariant
            address <= length <= MEMORY_SIZE,
            HEADER_SIZE + length <= input@.len(),
            forall|a: int| 0 <= a < address ==> memory@[a] == input@[HEADER_SIZE + a],
            forall|a: int| address <= a < MEMORY_SIZE ==> memory@[a] == 0,
        decreases length - address,
    {
        memory[address] = input[HEADER_SIZE + address];
        address += 1;
    }
    assert(memory@ =~= image(input@));
    Ok(memory)
}

/// Loads a program file, and runs it on the input until the machine
/// cannot take another step. Gives the machine at that point, and why it
/// went no further.
pub fn emulate(input: &[u8], stdin: Vec<u8>) -> (result: Result<(State, Halt), FormatError>)
    ensures
        result is Ok <==> has_magic(input@),
        result matches Ok((state, halt)) ==> {
            &&& state@ == Machine::initial(image(input@), stdin@).run()
            &&& state@.halt() == Some(halt)
        },
{
    match load(input) {
        Ok(memory) => {
            let mut state = State::new(memory, stdin);
            let halt = state.run();
            Ok((state, halt))
        },
        Err(e) => Err(e),
    }
}

} // verus!
