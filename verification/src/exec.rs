//! The execution engine: the machine's state and what each instruction does to it.

use std::collections::HashMap;
use vstd::prelude::*;
use vstd::string::StrSliceExecFns;
use crate::inst::{ExprKind, Inst, Jump, MemOp, StackOp, program_view};
use crate::model::{
    cells_text, read_cells, stored, text_as_cells, text_cells, MachineView, OutcomeView,
    Transition,
};
use crate::syscall::{value_to_u8, write_temp, Request, Syscall};

verus! {

broadcast use vstd::std_specs::hash::group_hash_axioms;

/// The number of cells of a machine's memory.
pub const CAPACITY: usize = 10000;

/// A cell on the stacks and in memory. One kind today; a consumer outside
/// this crate cannot rely on there being no other.
#[derive(Clone, Copy, Debug, PartialEq, Eq)]
#[non_exhaustive]
pub enum Value {
    Int(u32),
}

impl Value {
    pub open spec fn spec_as_int(&self) -> u32 {
        match self {
            Value::Int(integer) => *integer,
        }
    }

    /// The integer that the cell holds.
    #[verifier::when_used_as_spec(spec_as_int)]
    pub fn as_int(&self) -> (integer: u32)
        ensures
            integer == self.spec_as_int(),
    {
        match self {
            Value::Int(integer) => *integer,
        }
    }
}

/// Why a run ended before its program did. Each is fatal to the run.
#[derive(Clone, Debug, PartialEq, Eq)]
pub enum ErrorKind {
    /// A jump or call named a label that the program does not declare.
    UnknownLabel(u32),
    /// The host could not carry out a system call; the text says why.
    Syscall(String),
    /// The code popped for a system call names none.
    UnknownSyscall,
    /// A pop found its stack empty.
    StackUnderflow,
    /// An address, a range or a return address lies outside what it indexes.
    OutOfBounds,
    /// A sum, difference or product left the 32-bit range, or a divisor was zero.
    ArithmeticFault,
}

/// One machine: two stacks and a memory of `CAPACITY` cells.
pub struct Machine {
    ret_stack: Vec<u32>,
    stack: Vec<Value>,
    memory: Vec<Value>,
    debug: bool,
}

impl View for Machine {
    type V = MachineView;

    closed spec fn view(&self) -> MachineView {
        MachineView {
            stack: self.stack@,
            ret_stack: self.ret_stack@,
            memory: self.memory@,
            debug: self.debug,
        }
    }
}

/// What executing one instruction came to, and what it leaves for the host to do.
#[derive(Clone, Debug, PartialEq, Eq)]
pub enum Outcome {
    /// Control fell through to the next instruction; nothing to do.
    Next,
    /// Control went to a label or a return address; nothing to do.
    Jumped,
    /// Control fell through; the value is to be printed.
    Emit(Value),
    /// Control fell through; the request is to be carried out and its result
    /// handed to `Machine::complete`.
    Syscall(Request),
    /// The run is over.
    Halted,
}

impl View for Outcome {
    type V = OutcomeView;

    open spec fn view(&self) -> OutcomeView {
        match self {
            Outcome::Next => OutcomeView::Next,
            Outcome::Jumped => OutcomeView::Jumped,
            Outcome::Emit(value) => OutcomeView::Emit(*value),
            Outcome::Syscall(request) => OutcomeView::Syscall(request@),
            Outcome::Halted => OutcomeView::Halted,
        }
    }
}

/// The view of what a step returned.
pub open spec fn result_view(result: Result<Outcome, ErrorKind>) -> Result<OutcomeView, ErrorKind> {
    match result {
        Ok(outcome) => Ok(outcome@),
        Err(error) => Err(error),
    }
}

/// Whether a machine in state `post`, with its instruction pointer at `ip`
/// and `result` in hand, is where `transition` leaves it.
pub open spec fn reaches(
    post: MachineView,
    ip: u32,
    result: Result<Outcome, ErrorKind>,
    transition: Transition,
) -> bool {
    &&& post =~= transition.state
    &&& ip == transition.ip
    &&& result_view(result) == transition.result
}

/// The view of what the host answered.
pub open spec fn reply_view(reply: Result<Vec<u8>, String>) -> Result<Seq<u8>, String> {
    match reply {
        Ok(data) => Ok(data@),
        Err(text) => Err(text),
    }
}

/// How many cells from address 0 on a debugging host shows on request.
pub const DEBUG_CELLS: usize = 30;

impl Machine {
    /// A machine with empty stacks and a memory of zeros.
    pub fn new(debug: bool) -> (machine: Machine)
        ensures
            machine@.wf(),
            machine@.stack == Seq::<Value>::empty(),
            machine@.ret_stack == Seq::<u32>::empty(),
            machine@.memory == Seq::new(CAPACITY as nat, |i: int| Value::Int(0)),
            machine@.debug == debug,
    {
        let mut memory: Vec<Value> = Vec::new();
        while memory.len() < CAPACITY
            invariant
                memory@.len() <= CAPACITY,
                forall|i: int| 0 <= i < memory@.len() ==> memory@[i] == Value::Int(0),
            decreases CAPACITY - memory@.len(),
        {
            memory.push(Value::Int(0));
        }
        assert(memory@ =~= Seq::new(CAPACITY as nat, |i: int| Value::Int(0)));
        Machine { ret_stack: Vec::new(), stack: Vec::new(), memory, debug }
    }

    /// Takes the top of the value stack.
    pub fn pop(&mut self) -> (result: Result<Value, ErrorKind>)
        ensures
            old(self)@.stack.len() > 0 ==> result == Ok::<Value, ErrorKind>(
                old(self)@.stack.last(),
            ) && final(self)@ == (MachineView {
                stack: old(self)@.stack.drop_last(),
                ..old(self)@
            }),
            old(self)@.stack.len() == 0 ==> result == Err::<Value, ErrorKind>(
                ErrorKind::StackUnderflow,
            ) && final(self)@ == old(self)@,
    {
        if self.stack.len() > 0 {
            let top = self.stack.pop();
            assert(self@ =~= (MachineView { stack: old(self)@.stack.drop_last(), ..old(self)@ }));
            Ok(top.unwrap())
        } else {
            Err(ErrorKind::StackUnderflow)
        }
    }

    /// Sets `ip` to the instruction index of label `addr`.
    pub fn jump(&mut self, labels: &HashMap<u32, u32>, ip: &mut u32, addr: u32) -> (result: Result<
        (),
        ErrorKind,
    >)
        ensures
            final(self)@ == old(self)@,
            labels@.contains_key(addr) ==> result == Ok::<(), ErrorKind>(()) && *final(ip)
                == labels@[addr],
            !labels@.contains_key(addr) ==> result == Err::<(), ErrorKind>(
                ErrorKind::UnknownLabel(addr),
            ) && *final(ip) == *old(ip),
    {
        match labels.get(&addr) {
            Some(index) => {
                *ip = *index;
                Ok(())
            },
            None => Err(ErrorKind::UnknownLabel(addr)),
        }
    }

    /// Whether `addr` is the address of a memory cell.
    pub fn bound_check(&self, addr: u32) -> (result: Result<(), ErrorKind>)
        ensures
            addr < CAPACITY ==> result == Ok::<(), ErrorKind>(()),
            addr >= CAPACITY ==> result == Err::<(), ErrorKind>(ErrorKind::OutOfBounds),
    {
        if (addr as usize) < CAPACITY {
            Ok(())
        } else {
            Err(ErrorKind::OutOfBounds)
        }
    }

    /// The length of the text at `ptr`: the number of cells before the first
    /// zero cell, or up to the end of memory.
    pub fn strlen(&self, ptr: usize) -> (len: usize)
        ensures
            len == text_cells(self@.memory, ptr as int),
            ptr <= self@.memory.len() ==> ptr + len <= self@.memory.len(),
    {
        let mut end = ptr;
        while end < self.memory.len() && self.memory[end].as_int() != 0
            invariant
                ptr <= end,
                ptr <= self.memory@.len() ==> end <= self.memory@.len(),
                text_cells(self.memory@, ptr as int) == (end - ptr) + text_cells(
                    self.memory@,
                    end as int,
                ),
            decreases self.memory@.len() - end,
        {
            end += 1;
        }
        end - ptr
    }

    /// The text that `bytes` stands for, a character for each cell.
    pub fn to_string(&self, bytes: &[Value]) -> (text: String)
        ensures
            text@ == cells_text(bytes@),
    {
        let mut text = String::new();
        let mut at: usize = 0;
        while at < bytes.len()
            invariant
                at <= bytes@.len(),
                text@ == cells_text(bytes@.take(at as int)),
            decreases bytes@.len() - at,
        {
            let value = bytes[at].as_int();
            let byte: u8 = if value > 255 {
                255
            } else {
                value as u8
            };
            text.push(byte as char);
            assert(text@ =~= cells_text(bytes@.take(at + 1)));
            at += 1;
        }
        assert(bytes@.take(at as int) =~= bytes@);
        text
    }

    /// The value stack, its top last.
    pub fn stack(&self) -> (stack: &Vec<Value>)
        ensures
            stack@ == self@.stack,
    {
        &self.stack
    }

    /// The return-address stack, its top last.
    pub fn ret_stack(&self) -> (ret_stack: &Vec<u32>)
        ensures
            ret_stack@ == self@.ret_stack,
    {
        &self.ret_stack
    }

    /// The memory cells, by address.
    pub fn memory(&self) -> (memory: &Vec<Value>)
        ensures
            memory@ == self@.memory,
    {
        &self.memory
    }

    /// Whether the machine was made for debugging.
    pub fn debug(&self) -> (debug: bool)
        ensures
            debug == self@.debug,
    {
        self.debug
    }

    /// Takes the top of the value stack as an integer.
    fn pop_int(&mut self) -> (result: Result<u32, ErrorKind>)
        ensures
            old(self)@.stack.len() > 0 ==> result == Ok::<u32, ErrorKind>(
                old(self)@.peek(0).as_int(),
            ) && final(self)@ == old(self)@.with_stack(old(self)@.below(1)),
            old(self)@.stack.len() == 0 ==> result == Err::<u32, ErrorKind>(
                ErrorKind::StackUnderflow,
            ) && final(self)@ == old(self)@,
    {
        let value = self.pop()?;
        assert(old(self)@.below(1) =~= old(self)@.stack.drop_last());
        Ok(value.as_int())
    }

    /// Puts `value` on top of the value stack.
    fn push(&mut self, value: Value)
        ensures
            final(self)@ == old(self)@.with_stack(old(self)@.stack.push(value)),
    {
        self.stack.push(value);
        assert(self@ =~= old(self)@.with_stack(old(self)@.stack.push(value)));
    }

    /// Stores `cells` in memory from `addr` on.
    fn store(&mut self, addr: usize, cells: &[Value])
        requires
            addr + cells@.len() <= old(self)@.memory.len(),
        ensures
            final(self)@ == (MachineView {
                memory: stored(old(self)@.memory, addr as int, cells@),
                ..old(self)@
            }),
    {
        let mut offset: usize = 0;
        let total = self.memory.len();
        while offset < cells.len()
            invariant
                offset <= cells@.len(),
                addr + cells@.len() <= total,
                self@.memory.len() == total,
                self@ == (MachineView {
                    memory: stored(old(self)@.memory, addr as int, cells@.take(offset as int)),
                    ..old(self)@
                }),
            decreases cells@.len() - offset,
        {
            self.memory[addr + offset] = cells[offset];
            assert(self@ =~= (MachineView {
                memory: stored(old(self)@.memory, addr as int, cells@.take(offset + 1)),
                ..old(self)@
            }));
            offset += 1;
        }
        assert(cells@.take(offset as int) =~= cells@);
    }

    /// Executes an arithmetic instruction.
    fn binary(&mut self, kind: ExprKind, ip: &mut u32) -> (result: Result<Outcome, ErrorKind>)
        requires
            *old(ip) < u32::MAX,
        ensures
            reaches(final(self)@, *final(ip), result, old(self)@.step_binary(kind, *old(ip))),
    {
        let rhs = self.pop_int()?;
        let lhs = self.pop_int()?;
        let value = match kind {
            ExprKind::Add => lhs.checked_add(rhs),
            ExprKind::Sub => lhs.checked_sub(rhs),
            ExprKind::Mul => lhs.checked_mul(rhs),
            ExprKind::Div => lhs.checked_div(rhs),
        };
        match value {
            Some(value) => {
                self.push(Value::Int(value));
                *ip += 1;
                Ok(Outcome::Next)
            },
            None => Err(ErrorKind::ArithmeticFault),
        }
    }

    /// Executes a stack operation.
    fn stack_op(&mut self, op: &StackOp, ip: &mut u32) -> (result: Result<Outcome, ErrorKind>)
        requires
            *old(ip) < u32::MAX,
        ensures
            reaches(final(self)@, *final(ip), result, old(self)@.step_stack(*op, *old(ip))),
    {
        match op {
            StackOp::Push(integer) => {
                self.push(Value::Int(*integer));
            },
            StackOp::Pop => {
                self.pop()?;
            },
            StackOp::Dup => {
                if !self.stack.is_empty() {
                    let value = self.pop()?;
                    self.push(value);
                    self.push(value);
                }
            },
            StackOp::Swap => {
                let first = self.pop()?;
                let second = self.pop()?;
                self.push(first);
                self.push(second);
            },
            StackOp::Rot => {
                let first = self.pop()?;
                let second = self.pop()?;
                let third = self.pop()?;
                self.push(first);
                self.push(second);
                self.push(third);
            },
            StackOp::Dump => {
                let value = self.pop()?;
                *ip += 1;
                return Ok(Outcome::Emit(value));
            },
            StackOp::Cmp => {
                let rhs = self.pop_int()?;
                let lhs = self.pop_int()?;
                if lhs == rhs {
                    self.push(Value::Int(0));
                } else if lhs > rhs {
                    self.push(Value::Int(1));
                } else {
                    self.push(Value::Int(2));
                }
            },
        }
        *ip += 1;
        Ok(Outcome::Next)
    }

    /// The cells that the characters of `text` are stored as.
    fn cells_of(text: &String) -> (cells: Vec<Value>)
        ensures
            cells@ == text_as_cells(text@),
    {
        let mut cells: Vec<Value> = Vec::new();
        for character in chars: text.as_str().chars()
            invariant
                chars.seq() == text@,
                cells@ == text_as_cells(text@.take(chars.index())),
        {
            let code = character as u32;
            cells.push(Value::Int(if code > 255 { 255 } else { code }));
            assert(cells@ =~= text_as_cells(text@.take(chars.index() + 1)));
        }
        assert(text@.take(text@.len() as int) =~= text@);
        cells
    }

    /// Executes a memory operation.
    fn mem_op(&mut self, op: &MemOp, ip: &mut u32) -> (result: Result<Outcome, ErrorKind>)
        requires
            *old(ip) < u32::MAX,
            old(self)@.wf(),
        ensures
            reaches(final(self)@, *final(ip), result, old(self)@.step_mem(op@, *old(ip))),
    {
        let addr = self.pop_int()?;
        self.bound_check(addr)?;
        match op {
            MemOp::InsertStr(string) => {
                let cells = Machine::cells_of(string);
                if cells.len() > CAPACITY - addr as usize {
                    return Err(ErrorKind::OutOfBounds);
                }
                self.store(addr as usize, cells.as_slice());
            },
            MemOp::Load => {
                let value = self.memory[addr as usize];
                self.push(value);
            },
            MemOp::Store => {
                let value = self.pop()?;
                self.memory[addr as usize] = value;
            },
        }
        *ip += 1;
        Ok(Outcome::Next)
    }

    /// Executes a jump.
    fn jump_op(
        &mut self,
        kind: &Jump,
        target: u32,
        labels: &HashMap<u32, u32>,
        ip: &mut u32,
    ) -> (result: Result<Outcome, ErrorKind>)
        requires
            *old(ip) < u32::MAX,
        ensures
            reaches(
                final(self)@,
                *final(ip),
                result,
                old(self)@.step_jump(*kind, target, labels@, *old(ip)),
            ),
    {
        let code = match kind {
            Jump::Unconditional => 0,
            _ => self.pop_int()?,
        };
        if kind.taken(code) {
            self.jump(labels, ip, target)?;
            Ok(Outcome::Jumped)
        } else {
            *ip += 1;
            Ok(Outcome::Next)
        }
    }

    /// Executes a call.
    fn call(&mut self, target: u32, labels: &HashMap<u32, u32>, ip: &mut u32) -> (result: Result<
        Outcome,
        ErrorKind,
    >)
        requires
            *old(ip) < u32::MAX,
        ensures
            reaches(
                final(self)@,
                *final(ip),
                result,
                old(self)@.step_call(target, labels@, *old(ip)),
            ),
    {
        self.ret_stack.push(*ip + 1);
        assert(self@ =~= (MachineView {
            ret_stack: old(self)@.ret_stack.push((*old(ip) + 1) as u32),
            ..old(self)@
        }));
        self.jump(labels, ip, target)?;
        Ok(Outcome::Jumped)
    }

    /// Executes a return within a program of `len` instructions.
    fn ret(&mut self, len: usize, ip: &mut u32) -> (result: Result<Outcome, ErrorKind>)
        ensures
            reaches(
                final(self)@,
                *final(ip),
                result,
                old(self)@.step_return(*old(ip), len as nat),
            ),
    {
        match self.ret_stack.pop() {
            None => Err(ErrorKind::StackUnderflow),
            Some(addr) => {
                assert(self@ =~= (MachineView {
                    ret_stack: old(self)@.ret_stack.drop_last(),
                    ..old(self)@
                }));
                if addr as usize >= len {
                    Err(ErrorKind::OutOfBounds)
                } else {
                    *ip = addr;
                    Ok(Outcome::Jumped)
                }
            },
        }
    }

    /// Executes `Syscall`: pops the arguments and builds the request.
    fn syscall(&mut self, ip: &mut u32) -> (result: Result<Outcome, ErrorKind>)
        requires
            *old(ip) < u32::MAX,
            old(self)@.wf(),
        ensures
            reaches(final(self)@, *final(ip), result, old(self)@.step_syscall(*old(ip))),
    {
        let code = self.pop_int()?;
        let kind = Syscall::from(code);
        let request = match kind {
            Syscall::Read | Syscall::Write => {
                let fd = self.pop_int()?;
                let buf = self.pop_int()?;
                let count = self.pop_int()?;
                if buf as usize > CAPACITY || count as usize > CAPACITY - buf as usize {
                    return Err(ErrorKind::OutOfBounds);
                }
                match kind {
                    Syscall::Read => Request::Read { fd, buf, count },
                    _ => {
                        let end = buf as usize + count as usize;
                        Request::Write { fd, bytes: value_to_u8(&self.memory[buf as usize..end]) }
                    },
                }
            },
            Syscall::Open => {
                let ptr = self.pop_int()?;
                let flags = self.pop_int()?;
                self.bound_check(ptr)?;
                let end = ptr as usize + self.strlen(ptr as usize);
                Request::Open { path: self.to_string(&self.memory[ptr as usize..end]), flags }
            },
            Syscall::Close => {
                let fd = self.pop_int()?;
                Request::Close { fd }
            },
            Syscall::Unknown => {
                return Err(ErrorKind::UnknownSyscall);
            },
        };
        *ip += 1;
        Ok(Outcome::Syscall(request))
    }

    /// Executes the instruction at index `ip` and moves `ip` to the
    /// instruction that comes next.
    ///
    /// The run is over when the outcome is `Halted` or `ip` has reached the
    /// end of the program. An error is fatal to the run.
    pub fn step(&mut self, instructions: &[Inst], labels: &HashMap<u32, u32>, ip: &mut u32) -> (result:
        Result<Outcome, ErrorKind>)
        requires
            old(self)@.wf(),
            *old(ip) < instructions@.len() <= u32::MAX,
        ensures
            final(self)@.wf(),
            reaches(
                final(self)@,
                *final(ip),
                result,
                old(self)@.step(
                    instructions@[*old(ip) as int]@,
                    labels@,
                    *old(ip),
                    instructions@.len(),
                ),
            ),
    {
        match &instructions[*ip as usize] {
            Inst::BinaryExpr(kind) => self.binary(*kind, ip),
            Inst::StackOp(op) => self.stack_op(op, ip),
            Inst::MemOp(op) => self.mem_op(op, ip),
            Inst::Jump(kind, target) => self.jump_op(kind, *target, labels, ip),
            Inst::Call(target) => self.call(*target, labels, ip),
            Inst::Return => self.ret(instructions.len(), ip),
            Inst::Syscall => self.syscall(ip),
            Inst::Halt => Ok(Outcome::Halted),
            Inst::Label(_) => {
                *ip += 1;
                Ok(Outcome::Next)
            },
        }
    }

    /// Takes in what the host answered to `request`: the bytes of a read, or
    /// the text of a failure. For any other call that succeeded the bytes
    /// count for nothing.
    pub fn complete(&mut self, request: &Request, reply: Result<Vec<u8>, String>) -> (result: Result<
        (),
        ErrorKind,
    >)
        requires
            old(self)@.wf(),
        ensures
            final(self)@.wf(),
            final(self)@ == old(self)@.completed(request@, reply_view(reply)).0,
            result == old(self)@.completed(request@, reply_view(reply)).1,
    {
        match reply {
            Err(text) => Err(ErrorKind::Syscall(text)),
            Ok(data) => match request {
                Request::Read { fd: _, buf, count } => {
                    let buf = *buf as usize;
                    let count = *count as usize;
                    if data.len() > count || buf > CAPACITY || count > CAPACITY - buf {
                        return Err(ErrorKind::OutOfBounds);
                    }
                    let mut cells: Vec<Value> = Vec::new();
                    while cells.len() < count
                        invariant
                            cells@.len() <= count,
                            forall|i: int| 0 <= i < cells@.len() ==> cells@[i] == Value::Int(0),
                        decreases count - cells@.len(),
                    {
                        cells.push(Value::Int(0));
                    }
                    write_temp(data.as_slice(), cells.as_mut_slice());
                    assert(cells@ =~= read_cells(data@, count as nat));
                    self.store(buf, cells.as_slice());
                    Ok(())
                },
                _ => Ok(()),
            },
        }
    }

    /// Runs the program from index `ip` until the host has something to do,
    /// the run is over, or `budget` instructions have been executed.
    ///
    /// Returns `Next` where it stopped with nothing left for the host: at the
    /// end of the program, where `ip` then stands, or with its budget spent.
    pub fn exec(
        &mut self,
        instructions: &[Inst],
        labels: &HashMap<u32, u32>,
        ip: &mut u32,
        budget: u64,
    ) -> (result: Result<Outcome, ErrorKind>)
        requires
            old(self)@.wf(),
            instructions@.len() <= u32::MAX,
        ensures
            final(self)@.wf(),
            reaches(
                final(self)@,
                *final(ip),
                result,
                old(self)@.run(program_view(instructions@), labels@, *old(ip), budget as nat),
            ),
    {
        let ghost program = program_view(instructions@);
        let ghost goal = self@.run(program, labels@, *ip, budget as nat);
        let mut left = budget;
        while left > 0 && (*ip as usize) < instructions.len()
            invariant
                self@.wf(),
                instructions@.len() <= u32::MAX,
                program == program_view(instructions@),
                goal == old(self)@.run(program, labels@, *old(ip), budget as nat),
                goal == self@.run(program, labels@, *ip, left as nat),
            decreases left,
        {
            let outcome = self.step(instructions, labels, ip)?;
            match outcome {
                Outcome::Next | Outcome::Jumped => {},
                _ => {
                    return Ok(outcome);
                },
            }
            left -= 1;
        }
        Ok(Outcome::Next)
    }

    /// Whether a debugging host stops for input once `outcome` is dealt
    /// with: after every instruction that fell through, on a machine made
    /// for debugging.
    pub fn pauses(&self, outcome: &Outcome) -> (pauses: bool)
        ensures
            pauses == (self@.debug && !(outcome@ is Jumped) && !(outcome@ is Halted)),
    {
        self.debug && match outcome {
            Outcome::Jumped | Outcome::Halted => false,
            _ => true,
        }
    }

    /// The first `DEBUG_CELLS` cells of memory, which a debugging host shows
    /// on request.
    pub fn debug_cells(&self) -> (cells: &[Value])
        requires
            self@.wf(),
        ensures
            cells@ == self@.memory.take(DEBUG_CELLS as int),
    {
        &self.memory[0..DEBUG_CELLS]
    }

    /// Whether a line typed at a pause asks for the memory cells: the line
    /// `mem` with its line feed, and nothing else.
    pub fn shows_memory(line: &str) -> (shows: bool)
        ensures
            shows == (line@ == seq!['m', 'e', 'm', '\n']),
    {
        let shows = line.unicode_len() == 4 && line.get_char(0) == 'm' && line.get_char(1) == 'e'
            && line.get_char(2) == 'm' && line.get_char(3) == '\n';
        assert(shows ==> line@ =~= seq!['m', 'e', 'm', '\n']);
        shows
    }
}

} // verus!
