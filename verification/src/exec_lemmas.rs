//! What holds of every step of the engine, whatever the program.

use vstd::prelude::*;
use crate::codec::lemma_label_table_points_at_marker;
use crate::exec::{ErrorKind, Value, CAPACITY};
use crate::model::{arith, comparison, text_cells, MachineView, OutcomeView, Transition};
use crate::inst::{ExprKind, InstView, Jump, MemOpView, StackOp};
use crate::parser::label_table;
use crate::syscall::{syscall_of, Syscall};

verus! {

/// Every entry of the table is the index of an instruction of a program of
/// `len` instructions.
pub open spec fn labels_within(labels: Map<u32, u32>, len: nat) -> bool {
    forall|id: u32| labels.contains_key(id) ==> #[trigger] labels[id] < len
}

/// The label table of a program points into the program.
pub proof fn lemma_label_table_within(program: Seq<InstView>)
    requires
        program.len() <= u32::MAX,
    ensures
        labels_within(label_table(program), program.len()),
{
    assert forall|id: u32| label_table(program).contains_key(id) implies #[trigger] label_table(
        program,
    )[id] < program.len() by {
        lemma_label_table_points_at_marker(program, id);
    }
}

/// No step changes the number of memory cells.
pub proof fn lemma_step_keeps_capacity(
    state: MachineView,
    inst: InstView,
    labels: Map<u32, u32>,
    ip: u32,
    len: nat,
)
    requires
        state.wf(),
    ensures
        state.step(inst, labels, ip, len).state.wf(),
{
}

/// With a label table that points into the program, a step from an index
/// within the program leaves the instruction pointer within the program or
/// at its end.
pub proof fn lemma_step_keeps_ip_within(
    state: MachineView,
    inst: InstView,
    labels: Map<u32, u32>,
    ip: u32,
    len: nat,
)
    requires
        ip < len <= u32::MAX,
        labels_within(labels, len),
    ensures
        state.step(inst, labels, ip, len).ip <= len,
{
}

/// With a label table that points into the program, a run from an index
/// within the program or at its end stops at such an index, and it keeps the
/// number of memory cells.
pub proof fn lemma_run_keeps_ip_within(
    state: MachineView,
    program: Seq<InstView>,
    labels: Map<u32, u32>,
    ip: u32,
    budget: nat,
)
    requires
        state.wf(),
        ip <= program.len() <= u32::MAX,
        labels_within(labels, program.len()),
    ensures
        state.run(program, labels, ip, budget).ip <= program.len(),
        state.run(program, labels, ip, budget).state.wf(),
    decreases budget,
{
    if budget > 0 && ip < program.len() {
        let first = state.step(program[ip as int], labels, ip, program.len());
        lemma_step_keeps_ip_within(state, program[ip as int], labels, ip, program.len());
        lemma_step_keeps_capacity(state, program[ip as int], labels, ip, program.len());
        match first.result {
            Ok(OutcomeView::Next) | Ok(OutcomeView::Jumped) => {
                lemma_run_keeps_ip_within(first.state, program, labels, first.ip, (budget - 1) as nat);
            },
            _ => {},
        }
    }
}

/// `Halt` ends the run at once: the state and the instruction pointer stay,
/// and a run that meets it executes nothing after it.
pub proof fn lemma_halt_ends_run(
    state: MachineView,
    program: Seq<InstView>,
    labels: Map<u32, u32>,
    ip: u32,
    budget: nat,
)
    requires
        ip < program.len(),
        program[ip as int] == InstView::Halt,
        budget > 0,
    ensures
        state.run(program, labels, ip, budget) == (Transition {
            state,
            ip,
            result: Ok(OutcomeView::Halted),
        }),
{
}

/// Two pushes, an arithmetic instruction and `Dump` emit the result of the
/// operation on the first value pushed and the second, where it has one, and
/// leave the stack as it was.
pub proof fn lemma_arithmetic_emits_result(
    state: MachineView,
    kind: ExprKind,
    lhs: u32,
    rhs: u32,
    labels: Map<u32, u32>,
    ip: u32,
    len: nat,
)
    requires
        arith(kind, lhs, rhs) is Some,
        ip + 4 <= u32::MAX,
    ensures
        ({
            let first = state.step(InstView::StackOp(StackOp::Push(lhs)), labels, ip, len);
            let second = first.state.step(
                InstView::StackOp(StackOp::Push(rhs)),
                labels,
                first.ip,
                len,
            );
            let third = second.state.step(InstView::BinaryExpr(kind), labels, second.ip, len);
            let last = third.state.step(InstView::StackOp(StackOp::Dump), labels, third.ip, len);
            &&& last.result == Ok::<OutcomeView, ErrorKind>(
                OutcomeView::Emit(Value::Int(arith(kind, lhs, rhs)->0)),
            )
            &&& last.state == state
            &&& last.ip == ip + 4
        }),
{
    let first = state.step(InstView::StackOp(StackOp::Push(lhs)), labels, ip, len);
    let second = first.state.step(InstView::StackOp(StackOp::Push(rhs)), labels, first.ip, len);
    let third = second.state.step(InstView::BinaryExpr(kind), labels, second.ip, len);
    let last = third.state.step(InstView::StackOp(StackOp::Dump), labels, third.ip, len);
    assert(second.state.below(2) =~= state.stack);
    assert(third.state.below(1) =~= state.stack);
    assert(last.state =~= state);
}

/// A run of the program `Push(lhs); Push(rhs); op; Dump` from its start stops
/// at the `Dump` and emits the result of the operation, where it has one.
pub proof fn lemma_run_emits_result(
    state: MachineView,
    kind: ExprKind,
    lhs: u32,
    rhs: u32,
    labels: Map<u32, u32>,
    budget: nat,
)
    requires
        arith(kind, lhs, rhs) is Some,
        budget >= 4,
    ensures
        ({
            let program = seq![
                InstView::StackOp(StackOp::Push(lhs)),
                InstView::StackOp(StackOp::Push(rhs)),
                InstView::BinaryExpr(kind),
                InstView::StackOp(StackOp::Dump),
            ];
            state.run(program, labels, 0, budget) == (Transition {
                state,
                ip: 4,
                result: Ok(OutcomeView::Emit(Value::Int(arith(kind, lhs, rhs)->0))),
            })
        }),
{
    let program = seq![
        InstView::StackOp(StackOp::Push(lhs)),
        InstView::StackOp(StackOp::Push(rhs)),
        InstView::BinaryExpr(kind),
        InstView::StackOp(StackOp::Dump),
    ];
    lemma_arithmetic_emits_result(state, kind, lhs, rhs, labels, 0, 4);
    let first = state.step(program[0], labels, 0, 4);
    let second = first.state.step(program[1], labels, 1, 4);
    let third = second.state.step(program[2], labels, 2, 4);
    let last = third.state.step(program[3], labels, 3, 4);
    assert(third.state.run(program, labels, 3, (budget - 3) as nat) == last);
    assert(second.state.run(program, labels, 2, (budget - 2) as nat) == last);
    assert(first.state.run(program, labels, 1, (budget - 1) as nat) == last);
    assert(state.run(program, labels, 0, budget) == last);
}

/// `Cmp` replaces the two top values by their comparison code, which is 0, 1 or 2.
pub proof fn lemma_comparison_leaves_code(state: MachineView, labels: Map<u32, u32>, ip: u32, len: nat)
    requires
        state.stack.len() >= 2,
    ensures
        ({
            let after = state.step(InstView::StackOp(StackOp::Cmp), labels, ip, len);
            let code = comparison(state.peek(1).as_int(), state.peek(0).as_int());
            &&& after.result == Ok::<OutcomeView, ErrorKind>(OutcomeView::Next)
            &&& after.state.stack == state.below(2).push(Value::Int(code))
            &&& code == 0 <==> state.peek(1).as_int() == state.peek(0).as_int()
            &&& code == 1 <==> state.peek(1).as_int() > state.peek(0).as_int()
            &&& code == 2 <==> state.peek(1).as_int() < state.peek(0).as_int()
        }),
{
}

/// After `Cmp` on two equal values, `Jump(Equal, target)` to a declared label
/// goes to that label's instruction index, and `Jump(NotEqual, target)` falls
/// through to the instruction behind it. Either way the stack is left
/// without the two values and without the code.
pub proof fn lemma_equal_values_then_jump(
    state: MachineView,
    target: u32,
    labels: Map<u32, u32>,
    ip: u32,
    len: nat,
)
    requires
        state.stack.len() >= 2,
        state.peek(0).as_int() == state.peek(1).as_int(),
        labels.contains_key(target),
        ip + 2 <= u32::MAX,
    ensures
        ({
            let compared = state.step(InstView::StackOp(StackOp::Cmp), labels, ip, len);
            let equal = compared.state.step(
                InstView::Jump(Jump::Equal, target),
                labels,
                compared.ip,
                len,
            );
            let not_equal = compared.state.step(
                InstView::Jump(Jump::NotEqual, target),
                labels,
                compared.ip,
                len,
            );
            &&& compared.ip == ip + 1
            &&& equal.result == Ok::<OutcomeView, ErrorKind>(OutcomeView::Jumped)
            &&& equal.ip == labels[target]
            &&& not_equal.result == Ok::<OutcomeView, ErrorKind>(OutcomeView::Next)
            &&& not_equal.ip == ip + 2
            &&& equal.state.stack == state.below(2)
            &&& not_equal.state.stack == state.below(2)
        }),
{
    let compared = state.step(InstView::StackOp(StackOp::Cmp), labels, ip, len);
    assert(compared.state.stack.last() == Value::Int(0));
    assert(compared.state.below(1) =~= state.below(2));
}

/// `Pop` on an empty value stack and `Return` on an empty return-address
/// stack fail with `StackUnderflow`.
pub proof fn lemma_underflow(state: MachineView, labels: Map<u32, u32>, ip: u32, len: nat)
    ensures
        state.stack.len() == 0 ==> state.step(
            InstView::StackOp(StackOp::Pop),
            labels,
            ip,
            len,
        ).result == Err::<OutcomeView, ErrorKind>(ErrorKind::StackUnderflow),
        state.ret_stack.len() == 0 ==> state.step(InstView::Return, labels, ip, len).result
            == Err::<OutcomeView, ErrorKind>(ErrorKind::StackUnderflow),
{
}

/// An instruction that pops more values than the stack holds fails with
/// `StackUnderflow` and leaves the stack empty. `Dup` pops only where there
/// is a value, and an unconditional jump pops nothing.
pub proof fn lemma_underflow_empties_stack(
    state: MachineView,
    inst: InstView,
    labels: Map<u32, u32>,
    ip: u32,
    len: nat,
)
    requires
        state.step(inst, labels, ip, len).result == Err::<OutcomeView, ErrorKind>(
            ErrorKind::StackUnderflow,
        ),
        !(inst is Return),
    ensures
        state.step(inst, labels, ip, len).state.stack == Seq::<Value>::empty(),
        state.step(inst, labels, ip, len).ip == ip,
{
}

/// Every memory operation on an address at or above the capacity fails with
/// `OutOfBounds`, whatever else the stack holds.
pub proof fn lemma_address_out_of_bounds(
    state: MachineView,
    op: MemOpView,
    labels: Map<u32, u32>,
    ip: u32,
    len: nat,
)
    requires
        state.stack.len() >= 1,
        state.peek(0).as_int() >= CAPACITY,
    ensures
        state.step(InstView::MemOp(op), labels, ip, len).result == Err::<OutcomeView, ErrorKind>(
            ErrorKind::OutOfBounds,
        ),
{
}

/// A memory operation on an address below the capacity succeeds where the
/// rest of what it needs is there: `Load` always, `Store` with a value
/// beneath the address, a text insertion whose text ends within the memory.
pub proof fn lemma_address_within_bounds(
    state: MachineView,
    op: MemOpView,
    labels: Map<u32, u32>,
    ip: u32,
    len: nat,
)
    requires
        state.stack.len() >= 1,
        state.peek(0).as_int() < CAPACITY,
        op is Store ==> state.stack.len() >= 2,
        op matches MemOpView::InsertStr(text) ==> state.peek(0).as_int() + text.len()
            <= CAPACITY,
    ensures
        state.step(InstView::MemOp(op), labels, ip, len).result == Ok::<OutcomeView, ErrorKind>(
            OutcomeView::Next,
        ),
{
}

/// `Load` puts the cell at the address on the stack in place of the address,
/// and `Store` puts the value beneath the address into that cell; neither
/// touches another cell.
pub proof fn lemma_load_and_store(state: MachineView, labels: Map<u32, u32>, ip: u32, len: nat)
    requires
        state.wf(),
        state.stack.len() >= 2,
        state.peek(0).as_int() < CAPACITY,
    ensures
        ({
            let addr = state.peek(0).as_int() as int;
            let loaded = state.step(InstView::MemOp(MemOpView::Load), labels, ip, len).state;
            let written = state.step(InstView::MemOp(MemOpView::Store), labels, ip, len).state;
            &&& loaded.stack == state.below(1).push(state.memory[addr])
            &&& loaded.memory == state.memory
            &&& written.stack == state.below(2)
            &&& written.memory[addr] == state.peek(1)
            &&& forall|other: int|
                0 <= other < CAPACITY && other != addr ==> written.memory[other]
                    == state.memory[other]
        }),
{
}

/// A jump that is taken and a call fail with `UnknownLabel` of their target
/// where the table does not hold it.
pub proof fn lemma_unknown_label(
    state: MachineView,
    kind: Jump,
    target: u32,
    labels: Map<u32, u32>,
    ip: u32,
    len: nat,
)
    requires
        !labels.contains_key(target),
        kind is Unconditional || (state.stack.len() >= 1 && kind.spec_taken(
            state.peek(0).as_int(),
        )),
    ensures
        state.step(InstView::Jump(kind, target), labels, ip, len).result == Err::<
            OutcomeView,
            ErrorKind,
        >(ErrorKind::UnknownLabel(target)),
        state.step(InstView::Call(target), labels, ip, len).result == Err::<
            OutcomeView,
            ErrorKind,
        >(ErrorKind::UnknownLabel(target)),
{
}

/// `Syscall` on a code above 3 fails with `UnknownSyscall`.
pub proof fn lemma_unknown_syscall(state: MachineView, labels: Map<u32, u32>, ip: u32, len: nat)
    requires
        state.stack.len() >= 1,
        state.peek(0).as_int() > 3,
    ensures
        syscall_of(state.peek(0).as_int()) == Syscall::Unknown,
        state.step(InstView::Syscall, labels, ip, len).result == Err::<OutcomeView, ErrorKind>(
            ErrorKind::UnknownSyscall,
        ),
{
}

/// A call followed by a return comes back to the instruction behind the
/// call, with both stacks as they were.
pub proof fn lemma_call_then_return(
    state: MachineView,
    target: u32,
    labels: Map<u32, u32>,
    ip: u32,
    len: nat,
)
    requires
        labels.contains_key(target),
        ip + 1 < len <= u32::MAX,
    ensures
        ({
            let called = state.step(InstView::Call(target), labels, ip, len);
            let returned = called.state.step(InstView::Return, labels, called.ip, len);
            &&& called.ip == labels[target]
            &&& called.result == Ok::<OutcomeView, ErrorKind>(OutcomeView::Jumped)
            &&& returned.ip == ip + 1
            &&& returned.result == Ok::<OutcomeView, ErrorKind>(OutcomeView::Jumped)
            &&& returned.state == state
        }),
{
    let called = state.step(InstView::Call(target), labels, ip, len);
    let returned = called.state.step(InstView::Return, labels, called.ip, len);
    assert(returned.state =~= state);
}

/// The text at `ptr` is the longest run of cells from `ptr` on that holds no
/// zero: it ends at the first zero cell or at the end of the memory.
pub proof fn lemma_text_cells(memory: Seq<Value>, ptr: int)
    requires
        0 <= ptr <= memory.len(),
    ensures
        ptr + text_cells(memory, ptr) <= memory.len(),
        forall|i: int| ptr <= i < ptr + text_cells(memory, ptr) ==> memory[i].as_int() != 0,
        ptr + text_cells(memory, ptr) < memory.len() ==> memory[ptr + text_cells(
            memory,
            ptr,
        )].as_int() == 0,
    decreases memory.len() - ptr,
{
    if ptr < memory.len() && memory[ptr].as_int() != 0 {
        lemma_text_cells(memory, ptr + 1);
    }
}

} // verus!
