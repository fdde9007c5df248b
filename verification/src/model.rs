//! The machine as contracts see it: its state as sequences, and what each
//! instruction, a run and the answer to a system call do to that state.

use vstd::prelude::*;
use crate::exec::{ErrorKind, Value, CAPACITY};
use crate::inst::{ExprKind, InstView, Jump, MemOpView, StackOp};
use crate::syscall::{low_bytes, syscall_of, widened, RequestView, Syscall};

verus! {

/// A machine's state as contracts see it.
#[verifier::ext_equal]
pub struct MachineView {
    /// The value stack, its top last.
    pub stack: Seq<Value>,
    /// The return-address stack, its top last.
    pub ret_stack: Seq<u32>,
    /// The memory cells, by address.
    pub memory: Seq<Value>,
    pub debug: bool,
}

/// How many cells the text at `ptr` takes: those before the first zero cell,
/// or all that are left where there is none.
pub open spec fn text_cells(memory: Seq<Value>, ptr: int) -> nat
    decreases memory.len() - ptr,
{
    if ptr < 0 || ptr >= memory.len() || memory[ptr].as_int() == 0 {
        0
    } else {
        1 + text_cells(memory, ptr + 1)
    }
}

/// The character that stands for a cell in a text: its value, or the last
/// character of the one-byte range where the value lies above it.
pub open spec fn cell_char(cell: Value) -> char {
    if cell.as_int() > 255 {
        255u8 as char
    } else {
        cell.as_int() as u8 as char
    }
}

/// The text that a run of cells stands for.
pub open spec fn cells_text(cells: Seq<Value>) -> Seq<char> {
    Seq::new(cells.len(), |i: int| cell_char(cells[i]))
}

/// An outcome as contracts see it.
pub enum OutcomeView {
    Next,
    Jumped,
    Emit(Value),
    Syscall(RequestView),
    Halted,
}

/// Where a step leaves the machine: its state, the instruction pointer, and
/// the outcome or the error.
pub struct Transition {
    pub state: MachineView,
    pub ip: u32,
    pub result: Result<OutcomeView, ErrorKind>,
}

/// The result of `lhs op rhs` in 32 bits, or `None` where it has none: the
/// exact result lies outside the 32-bit range, or the divisor is zero.
pub open spec fn arith(kind: ExprKind, lhs: u32, rhs: u32) -> Option<u32> {
    match kind {
        ExprKind::Add => if lhs + rhs <= u32::MAX {
            Some((lhs + rhs) as u32)
        } else {
            None
        },
        ExprKind::Sub => if lhs >= rhs {
            Some((lhs - rhs) as u32)
        } else {
            None
        },
        ExprKind::Mul => if lhs * rhs <= u32::MAX {
            Some((lhs * rhs) as u32)
        } else {
            None
        },
        ExprKind::Div => if rhs != 0 {
            Some(lhs / rhs)
        } else {
            None
        },
    }
}

/// The comparison code of `lhs` against `rhs`: 0 where they are equal, 1 where
/// `lhs` is the greater, 2 where it is the lesser.
pub open spec fn comparison(lhs: u32, rhs: u32) -> u32 {
    if lhs == rhs {
        0
    } else if lhs > rhs {
        1
    } else {
        2
    }
}

/// The cell that a character of an inserted text is stored as: its code
/// point, or 255 where the code point lies above.
pub open spec fn char_cell(ch: char) -> Value {
    if ch as u32 > 255 {
        Value::Int(255)
    } else {
        Value::Int(ch as u32)
    }
}

/// The memory after `cells` are stored from `addr` on.
pub open spec fn stored(memory: Seq<Value>, addr: int, cells: Seq<Value>) -> Seq<Value> {
    Seq::new(
        memory.len(),
        |i: int|
            if addr <= i < addr + cells.len() {
                cells[i - addr]
            } else {
                memory[i]
            },
    )
}

/// The `count` cells that a read of `data` fills: the bytes read, each
/// widened to a cell, and zeros behind them.
pub open spec fn read_cells(data: Seq<u8>, count: nat) -> Seq<Value>
    recommends
        data.len() <= count,
{
    widened(data) + Seq::new((count - data.len()) as nat, |i: int| Value::Int(0))
}

/// The cells of a text.
pub open spec fn text_as_cells(text: Seq<char>) -> Seq<Value> {
    Seq::new(text.len(), |i: int| char_cell(text[i]))
}

impl MachineView {
    /// The state of a machine that `Machine::new` made: the memory has
    /// `CAPACITY` cells. Every operation keeps it so.
    pub open spec fn wf(self) -> bool {
        self.memory.len() == CAPACITY
    }

    /// This state with another value stack.
    pub open spec fn with_stack(self, stack: Seq<Value>) -> MachineView {
        MachineView { stack, ..self }
    }

    /// The value `depth` places below the top of the value stack.
    pub open spec fn peek(self, depth: int) -> Value {
        self.stack[self.stack.len() - 1 - depth]
    }

    /// The value stack without its top `count` values.
    pub open spec fn below(self, count: int) -> Seq<Value> {
        self.stack.take(self.stack.len() - count)
    }

    /// Control falls through with nothing to do.
    pub open spec fn advance(self, ip: u32) -> Transition {
        Transition { state: self, ip: (ip + 1) as u32, result: Ok(OutcomeView::Next) }
    }

    /// Control falls through and leaves `outcome` to the host.
    pub open spec fn hand_over(self, ip: u32, outcome: OutcomeView) -> Transition {
        Transition { state: self, ip: (ip + 1) as u32, result: Ok(outcome) }
    }

    /// The step fails in this state; the instruction pointer stays.
    pub open spec fn fail(self, ip: u32, error: ErrorKind) -> Transition {
        Transition { state: self, ip, result: Err(error) }
    }

    /// A pop found the value stack empty: whatever was popped before is gone.
    pub open spec fn underflow(self, ip: u32) -> Transition {
        self.with_stack(Seq::empty()).fail(ip, ErrorKind::StackUnderflow)
    }

    /// Control goes to label `target`, if the table holds it.
    pub open spec fn jump_to(self, target: u32, labels: Map<u32, u32>, ip: u32) -> Transition {
        if labels.contains_key(target) {
            Transition { state: self, ip: labels[target], result: Ok(OutcomeView::Jumped) }
        } else {
            self.fail(ip, ErrorKind::UnknownLabel(target))
        }
    }

    /// Arithmetic: pops the right operand, then the left, and pushes the result.
    pub open spec fn step_binary(self, kind: ExprKind, ip: u32) -> Transition {
        if self.stack.len() < 2 {
            self.underflow(ip)
        } else {
            match arith(kind, self.peek(1).as_int(), self.peek(0).as_int()) {
                Some(value) => self.with_stack(self.below(2).push(Value::Int(value))).advance(ip),
                None => self.with_stack(self.below(2)).fail(ip, ErrorKind::ArithmeticFault),
            }
        }
    }

    /// The stack operations. `Swap` and `Rot` pop their values and push them
    /// back in the order in which they were popped; `Dup` does nothing on an
    /// empty stack; `Cmp` pops the right value first.
    pub open spec fn step_stack(self, op: StackOp, ip: u32) -> Transition {
        match op {
            StackOp::Push(value) => self.with_stack(self.stack.push(Value::Int(value))).advance(
                ip,
            ),
            StackOp::Pop => if self.stack.len() < 1 {
                self.underflow(ip)
            } else {
                self.with_stack(self.below(1)).advance(ip)
            },
            StackOp::Dup => if self.stack.len() < 1 {
                self.advance(ip)
            } else {
                self.with_stack(self.stack.push(self.peek(0))).advance(ip)
            },
            StackOp::Swap => if self.stack.len() < 2 {
                self.underflow(ip)
            } else {
                self.with_stack(self.below(2).push(self.peek(0)).push(self.peek(1))).advance(ip)
            },
            StackOp::Rot => if self.stack.len() < 3 {
                self.underflow(ip)
            } else {
                self.with_stack(
                    self.below(3).push(self.peek(0)).push(self.peek(1)).push(self.peek(2)),
                ).advance(ip)
            },
            StackOp::Dump => if self.stack.len() < 1 {
                self.underflow(ip)
            } else {
                self.with_stack(self.below(1)).hand_over(ip, OutcomeView::Emit(self.peek(0)))
            },
            StackOp::Cmp => if self.stack.len() < 2 {
                self.underflow(ip)
            } else {
                self.with_stack(
                    self.below(2).push(
                        Value::Int(comparison(self.peek(1).as_int(), self.peek(0).as_int())),
                    ),
                ).advance(ip)
            },
        }
    }

    /// The memory operations: each pops an address first and checks it. A
    /// text must end within the memory, or none of it is stored.
    pub open spec fn step_mem(self, op: MemOpView, ip: u32) -> Transition {
        if self.stack.len() < 1 {
            self.underflow(ip)
        } else {
            let addr = self.peek(0).as_int();
            let popped = self.with_stack(self.below(1));
            if addr >= CAPACITY {
                popped.fail(ip, ErrorKind::OutOfBounds)
            } else {
                match op {
                    MemOpView::Load => popped.with_stack(
                        popped.stack.push(self.memory[addr as int]),
                    ).advance(ip),
                    MemOpView::Store => if popped.stack.len() < 1 {
                        self.underflow(ip)
                    } else {
                        (MachineView {
                            stack: self.below(2),
                            memory: self.memory.update(addr as int, self.peek(1)),
                            ..self
                        }).advance(ip)
                    },
                    MemOpView::InsertStr(text) => if addr + text.len() > CAPACITY {
                        popped.fail(ip, ErrorKind::OutOfBounds)
                    } else {
                        (MachineView {
                            memory: stored(self.memory, addr as int, text_as_cells(text)),
                            ..popped
                        }).advance(ip)
                    },
                }
            }
        }
    }

    /// A jump: a conditional one pops the comparison code that decides it.
    pub open spec fn step_jump(
        self,
        kind: Jump,
        target: u32,
        labels: Map<u32, u32>,
        ip: u32,
    ) -> Transition {
        if kind is Unconditional {
            self.jump_to(target, labels, ip)
        } else if self.stack.len() < 1 {
            self.underflow(ip)
        } else {
            let popped = self.with_stack(self.below(1));
            if kind.spec_taken(self.peek(0).as_int()) {
                popped.jump_to(target, labels, ip)
            } else {
                popped.advance(ip)
            }
        }
    }

    /// A call: pushes the index of the next instruction as the return
    /// address, then jumps.
    pub open spec fn step_call(self, target: u32, labels: Map<u32, u32>, ip: u32) -> Transition {
        (MachineView { ret_stack: self.ret_stack.push((ip + 1) as u32), ..self }).jump_to(
            target,
            labels,
            ip,
        )
    }

    /// A return: pops the return address and goes there, if it lies within
    /// the program of `len` instructions.
    pub open spec fn step_return(self, ip: u32, len: nat) -> Transition {
        if self.ret_stack.len() < 1 {
            self.fail(ip, ErrorKind::StackUnderflow)
        } else {
            let addr = self.ret_stack.last();
            let popped = MachineView { ret_stack: self.ret_stack.drop_last(), ..self };
            if addr >= len {
                popped.fail(ip, ErrorKind::OutOfBounds)
            } else {
                Transition { state: popped, ip: addr, result: Ok(OutcomeView::Jumped) }
            }
        }
    }

    /// A system call: pops the code, then the arguments of the call it names,
    /// and hands the request to the host. A range of cells must lie within
    /// the memory as a whole, and the text of a path must start within it.
    pub open spec fn step_syscall(self, ip: u32) -> Transition {
        if self.stack.len() < 1 {
            self.underflow(ip)
        } else {
            match syscall_of(self.peek(0).as_int()) {
                Syscall::Read | Syscall::Write => if self.stack.len() < 4 {
                    self.underflow(ip)
                } else {
                    let fd = self.peek(1).as_int();
                    let buf = self.peek(2).as_int();
                    let count = self.peek(3).as_int();
                    let popped = self.with_stack(self.below(4));
                    if buf + count > CAPACITY {
                        popped.fail(ip, ErrorKind::OutOfBounds)
                    } else if syscall_of(self.peek(0).as_int()) is Read {
                        popped.hand_over(
                            ip,
                            OutcomeView::Syscall(RequestView::Read { fd, buf, count }),
                        )
                    } else {
                        popped.hand_over(
                            ip,
                            OutcomeView::Syscall(
                                RequestView::Write {
                                    fd,
                                    bytes: low_bytes(
                                        self.memory.subrange(buf as int, buf + count),
                                    ),
                                },
                            ),
                        )
                    }
                },
                Syscall::Open => if self.stack.len() < 3 {
                    self.underflow(ip)
                } else {
                    let ptr = self.peek(1).as_int();
                    let flags = self.peek(2).as_int();
                    let popped = self.with_stack(self.below(3));
                    if ptr >= CAPACITY {
                        popped.fail(ip, ErrorKind::OutOfBounds)
                    } else {
                        popped.hand_over(
                            ip,
                            OutcomeView::Syscall(
                                RequestView::Open {
                                    path: cells_text(
                                        self.memory.subrange(
                                            ptr as int,
                                            ptr + text_cells(self.memory, ptr as int),
                                        ),
                                    ),
                                    flags,
                                },
                            ),
                        )
                    }
                },
                Syscall::Close => if self.stack.len() < 2 {
                    self.underflow(ip)
                } else {
                    self.with_stack(self.below(2)).hand_over(
                        ip,
                        OutcomeView::Syscall(RequestView::Close { fd: self.peek(1).as_int() }),
                    )
                },
                Syscall::Unknown => self.with_stack(self.below(1)).fail(
                    ip,
                    ErrorKind::UnknownSyscall,
                ),
            }
        }
    }

    /// What executing `inst` at index `ip` of a program of `len` instructions
    /// does to this state.
    pub open spec fn step(
        self,
        inst: InstView,
        labels: Map<u32, u32>,
        ip: u32,
        len: nat,
    ) -> Transition {
        match inst {
            InstView::BinaryExpr(kind) => self.step_binary(kind, ip),
            InstView::StackOp(op) => self.step_stack(op, ip),
            InstView::MemOp(op) => self.step_mem(op, ip),
            InstView::Jump(kind, target) => self.step_jump(kind, target, labels, ip),
            InstView::Call(target) => self.step_call(target, labels, ip),
            InstView::Return => self.step_return(ip, len),
            InstView::Syscall => self.step_syscall(ip),
            InstView::Halt => Transition { state: self, ip, result: Ok(OutcomeView::Halted) },
            InstView::Label(_) => self.advance(ip),
        }
    }

    /// Where a run of at most `budget` instructions from index `ip` leaves
    /// the machine. The run stops before its budget is spent at the end of
    /// the program, at an error, and at any outcome but `Next` and `Jumped`.
    /// Where it stops with nothing left for the host, the outcome is `Next`.
    pub open spec fn run(
        self,
        program: Seq<InstView>,
        labels: Map<u32, u32>,
        ip: u32,
        budget: nat,
    ) -> Transition
        decreases budget,
    {
        if budget == 0 || ip >= program.len() {
            Transition { state: self, ip, result: Ok(OutcomeView::Next) }
        } else {
            let first = self.step(program[ip as int], labels, ip, program.len());
            match first.result {
                Ok(OutcomeView::Next) | Ok(OutcomeView::Jumped) => first.state.run(
                    program,
                    labels,
                    first.ip,
                    (budget - 1) as nat,
                ),
                _ => first,
            }
        }
    }

    /// The state after the host has answered `request` with `reply`, and
    /// whether the run goes on.
    ///
    /// A failure is fatal and carries the host's text. After a read, the
    /// cells of the whole range hold the bytes read and zeros behind them;
    /// more bytes than were asked for do not fit. No other call changes the
    /// machine: the descriptor of an opened file is not kept.
    pub open spec fn completed(self, request: RequestView, reply: Result<Seq<u8>, String>) -> (
        MachineView,
        Result<(), ErrorKind>,
    ) {
        match reply {
            Err(text) => (self, Err(ErrorKind::Syscall(text))),
            Ok(data) => match request {
                RequestView::Read { fd, buf, count } => if data.len() > count || buf + count
                    > CAPACITY {
                    (self, Err(ErrorKind::OutOfBounds))
                } else {
                    (
                        MachineView {
                            memory: stored(self.memory, buf as int, read_cells(data, count as nat)),
                            ..self
                        },
                        Ok(()),
                    )
                },
                _ => (self, Ok(())),
            },
        }
    }
}

} // verus!
