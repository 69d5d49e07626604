//! What holds of every machine, whatever program it runs.

use crate::emulator::{Machine, MachineError, MEMORY_SIZE, REGISTER_COUNT};
use crate::parser::{lemma_decode_in_range, Instruction};
use vstd::prelude::*;

verus! {

/// The machine after `count` steps, if each of them could be taken: a
/// whole instruction lay at the program counter, and it did not fail.
pub open spec fn steps(machine: Machine, count: nat) -> Option<Machine>
    decreases count,
{
    if count == 0 {
        Some(machine)
    } else {
        match steps(machine, (count - 1) as nat) {
            Some(before) => if before.can_fetch() {
                match before.step() {
                    Ok(after) => Some(after),
                    Err(_) => None,
                }
            } else {
                None
            },
            None => None,
        }
    }
}

/// The addresses behind the instructions that the machine executes
/// first, second and so on, up to `count` of them.
pub open spec fn return_addresses(machine: Machine, count: nat) -> Seq<nat> {
    Seq::new(count, |i: int| steps(machine, i as nat).unwrap().pc + 2)
}

/// A machine made from a memory image of the full size is well formed.
pub proof fn lemma_initial_wf(memory: Seq<u8>, input: Seq<u8>)
    requires
        memory.len() == MEMORY_SIZE,
    ensures
        Machine::initial(memory, input).wf(),
{
}

/// A step keeps a machine well formed. It never moves the input cursor
/// back, never shortens the output, and counts one cycle.
pub proof fn lemma_step_wf(machine: Machine)
    requires
        machine.wf(),
        machine.can_fetch(),
        machine.step() is Ok,
    ensures
        machine.step().unwrap().wf(),
        machine.step().unwrap().cycles == machine.cycles + 1,
        machine.step().unwrap().cursor >= machine.cursor,
        machine.step().unwrap().input == machine.input,
        machine.output.is_prefix_of(machine.step().unwrap().output),
{
    lemma_decode_in_range(machine.next_word());
}

/// A run keeps a machine well formed, and ends where no step can be
/// taken.
pub proof fn lemma_run_wf(machine: Machine)
    requires
        machine.wf(),
    ensures
        machine.run().wf(),
        machine.run().halt() is Some,
        machine.run().cycles >= machine.cycles,
    decreases usize::MAX - machine.cycles,
{
    if machine.halt() is None {
        lemma_step_wf(machine);
        lemma_run_wf(machine.step().unwrap());
    }
}

/// Two runs of the same program on the same input end in the same
/// registers, memory, output and cycle count, and for the same reason.
pub proof fn lemma_run_deterministic(
    first: Machine,
    second: Machine,
    memory: Seq<u8>,
    input: Seq<u8>,
)
    requires
        first == Machine::initial(memory, input).run(),
        second == Machine::initial(memory, input).run(),
    ensures
        first.registers == second.registers,
        first.memory == second.memory,
        first.output == second.output,
        first.cycles == second.cycles,
        first.halt() == second.halt(),
{
}

/// A return with no call outstanding fails, and only such a return fails
/// so.
pub proof fn lemma_return_underflow(machine: Machine)
    requires
        machine.next_instruction() is Retur,
    ensures
        machine.return_stack.len() == 0 <==> machine.step() == Err::<Machine, MachineError>(
            MachineError::CallStackUnderflow,
        ),
{
}

/// While the machine executes calls, each puts the address behind itself
/// on the return stack.
proof fn lemma_calls_stack(machine: Machine, depth: nat, count: nat)
    requires
        count <= depth,
        forall|i: nat|
            i < depth ==> (#[trigger] steps(machine, i) matches Some(at) && at.can_fetch()
                && at.next_instruction() is Tur),
    ensures
        steps(machine, count) is Some,
        steps(machine, count).unwrap().return_stack == machine.return_stack + return_addresses(
            machine,
            count,
        ),
    decreases count,
{
    if count == 0 {
        assert(machine.return_stack + return_addresses(machine, 0) =~= machine.return_stack);
    } else {
        let before_count = (count - 1) as nat;
        lemma_calls_stack(machine, depth, before_count);
        let before = steps(machine, before_count).unwrap();
        assert(steps(machine, before_count) is Some && before.can_fetch()
            && before.next_instruction() is Tur);
        assert(return_addresses(machine, count) =~= return_addresses(machine, before_count).push(
            before.pc + 2,
        ));
        assert(steps(machine, count).unwrap().return_stack =~= machine.return_stack
            + return_addresses(machine, count));
    }
}

/// While the machine then executes returns, each takes the last address
/// from the return stack and goes there.
proof fn lemma_returns_stack(machine: Machine, depth: nat, count: nat)
    requires
        count <= depth,
        forall|i: nat|
            i < depth ==> (#[trigger] steps(machine, i) matches Some(at) && at.can_fetch()
                && at.next_instruction() is Tur),
        forall|j: nat|
            depth <= j < 2 * depth ==> (#[trigger] steps(machine, j) matches Some(at) ==> at.can_fetch()
                && at.next_instruction() is Retur),
    ensures
        steps(machine, depth + count) is Some,
        steps(machine, depth + count).unwrap().return_stack == machine.return_stack
            + return_addresses(machine, (depth - count) as nat),
        count > 0 ==> steps(machine, depth + count).unwrap().pc == return_addresses(
            machine,
            depth,
        )[depth - count],
    decreases count,
{
    if count == 0 {
        lemma_calls_stack(machine, depth, depth);
    } else {
        let before_count = (depth + count - 1) as nat;
        lemma_returns_stack(machine, depth, (count - 1) as nat);
        let before = steps(machine, before_count).unwrap();
        assert(steps(machine, before_count) is Some);
        assert(before.can_fetch() && before.next_instruction() is Retur);
        let left = (depth - count) as nat;
        assert(return_addresses(machine, left + 1).drop_last() =~= return_addresses(
            machine,
            left,
        ));
        assert(before.return_stack.drop_last() =~= machine.return_stack + return_addresses(
            machine,
            left,
        ));
        assert(before.return_stack.last() == return_addresses(machine, depth)[depth - count]);
    }
}

/// Calls and returns balance. Where the machine executes `depth` calls
/// and then as many returns, every return succeeds and leads to the
/// address behind the call that it belongs to: the first return to the
/// last call, the last return to the first. In the end the return stack
/// is what it was.
pub proof fn lemma_call_return_balance(machine: Machine, depth: nat)
    requires
        forall|i: nat|
            i < depth ==> (#[trigger] steps(machine, i) matches Some(at) && at.can_fetch()
                && at.next_instruction() is Tur),
        forall|j: nat|
            depth <= j < 2 * depth ==> (#[trigger] steps(machine, j) matches Some(at) ==> at.can_fetch()
                && at.next_instruction() is Retur),
    ensures
        forall|k: nat|
            0 < k <= depth ==> (#[trigger] steps(machine, depth + k) matches Some(after)
                && after.pc == steps(machine, (depth - k) as nat).unwrap().pc + 2),
        steps(machine, 2 * depth) matches Some(end) && end.return_stack == machine.return_stack,
{
    assert forall|k: nat| 0 < k <= depth implies (#[trigger] steps(machine, depth + k) matches Some(
        after,
    ) && after.pc == steps(machine, (depth - k) as nat).unwrap().pc + 2) by {
        lemma_returns_stack(machine, depth, k);
    }
    lemma_returns_stack(machine, depth, depth);
    assert(machine.return_stack + return_addresses(machine, 0) =~= machine.return_stack);
}

} // verus!
