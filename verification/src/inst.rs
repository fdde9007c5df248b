//! The instruction set and the opcode byte of each instruction.

use vstd::prelude::*;

verus! {

/// The arithmetic operations, each on the two top values of the stack.
#[derive(Debug, Clone, Copy, PartialEq, Eq)]
pub enum ExprKind {
    Add,
    Sub,
    Mul,
    Div,
}

/// When a jump is taken: always, or on the comparison code that it pops.
#[derive(Debug, Clone, Copy, PartialEq, Eq)]
pub enum Jump {
    Unconditional,
    Equal,
    NotEqual,
    Greater,
    Lesser,
}

/// The operations on the value stack.
#[derive(Debug, Clone, Copy, PartialEq, Eq)]
pub enum StackOp {
    /// Pushes the value.
    Push(u32),
    /// Exchanges the two top values.
    Swap,
    /// Pops a value for the host to print.
    Dump,
    /// Pops a value and drops it.
    Pop,
    /// Pushes the top value once more; does nothing on an empty stack.
    Dup,
    /// Turns the three top values over: the top goes third, the third on top.
    Rot,
    /// Pops the right value, then the left, and pushes their comparison code.
    Cmp,
}

/// The operations on memory. Each pops the address it works on.
#[derive(Debug, Clone, PartialEq, Eq)]
pub enum MemOp {
    /// Stores the characters of the text in the cells from the address on.
    InsertStr(String),
    /// Pops a value and stores it in the cell.
    Store,
    /// Pushes the value of the cell.
    Load,
}

/// An instruction.
#[derive(Debug, Clone, PartialEq, Eq)]
pub enum Inst {
    BinaryExpr(ExprKind),
    StackOp(StackOp),
    MemOp(MemOp),
    /// Goes to the label, if a jump of this kind is taken.
    Jump(Jump, u32),
    /// Goes to the label and remembers the instruction behind the call.
    Call(u32),
    /// Marks the place that jumps and calls to this identifier go to.
    Label(u32),
    /// Pops a code and asks the host for the system call that it names.
    Syscall,
    /// Goes back behind the call made last.
    Return,
    /// Ends the run.
    Halt,
}

/// A memory operation as contracts see it: the text is a sequence of characters.
pub enum MemOpView {
    InsertStr(Seq<char>),
    Store,
    Load,
}

/// An instruction as contracts see it.
pub enum InstView {
    BinaryExpr(ExprKind),
    StackOp(StackOp),
    MemOp(MemOpView),
    Jump(Jump, u32),
    Call(u32),
    Label(u32),
    Syscall,
    Return,
    Halt,
}

impl View for MemOp {
    type V = MemOpView;

    open spec fn view(&self) -> MemOpView {
        match self {
            MemOp::InsertStr(text) => MemOpView::InsertStr(text@),
            MemOp::Store => MemOpView::Store,
            MemOp::Load => MemOpView::Load,
        }
    }
}

impl View for Inst {
    type V = InstView;

    open spec fn view(&self) -> InstView {
        match self {
            Inst::BinaryExpr(kind) => InstView::BinaryExpr(*kind),
            Inst::StackOp(op) => InstView::StackOp(*op),
            Inst::MemOp(op) => InstView::MemOp(op@),
            Inst::Jump(kind, target) => InstView::Jump(*kind, *target),
            Inst::Call(target) => InstView::Call(*target),
            Inst::Label(id) => InstView::Label(*id),
            Inst::Syscall => InstView::Syscall,
            Inst::Return => InstView::Return,
            Inst::Halt => InstView::Halt,
        }
    }
}

/// The views of a sequence of instructions, in order.
pub open spec fn program_view(instructions: Seq<Inst>) -> Seq<InstView> {
    Seq::new(instructions.len(), |i: int| instructions[i]@)
}

pub const OP_PUSH: u8 = 0x01;
pub const OP_POP: u8 = 0x02;
pub const OP_DUMP: u8 = 0x03;
pub const OP_HALT: u8 = 0x04;
pub const OP_DUP: u8 = 0x05;
pub const OP_SWAP: u8 = 0x06;
pub const OP_ROT: u8 = 0x07;
pub const OP_RETURN: u8 = 0x0D;
pub const OP_ADD: u8 = 0x28;
pub const OP_SUB: u8 = 0x29;
pub const OP_MUL: u8 = 0x2A;
pub const OP_DIV: u8 = 0x2B;
pub const OP_CALL: u8 = 0x2F;
pub const OP_CMP: u8 = 0x43;
pub const OP_LABEL: u8 = 0x4C;
pub const OP_SYSCALL: u8 = 0x53;
pub const OP_JUMP: u8 = 0x6A;
pub const OP_JUMP_EQUAL: u8 = 0x6B;
pub const OP_JUMP_GREATER: u8 = 0x6C;
pub const OP_JUMP_LESSER: u8 = 0x6D;
pub const OP_JUMP_NOT_EQUAL: u8 = 0x6E;
pub const OP_LOAD: u8 = 0x8A;
pub const OP_STORE: u8 = 0x8B;
pub const OP_INSERT_STR: u8 = 0x8C;

impl ExprKind {
    pub open spec fn spec_opcode(self) -> u8 {
        match self {
            ExprKind::Add => OP_ADD,
            ExprKind::Sub => OP_SUB,
            ExprKind::Mul => OP_MUL,
            ExprKind::Div => OP_DIV,
        }
    }

    #[verifier::when_used_as_spec(spec_opcode)]
    pub fn opcode(self) -> (byte: u8)
        ensures
            byte == self.spec_opcode(),
    {
        match self {
            ExprKind::Add => OP_ADD,
            ExprKind::Sub => OP_SUB,
            ExprKind::Mul => OP_MUL,
            ExprKind::Div => OP_DIV,
        }
    }
}

impl Jump {
    pub open spec fn spec_opcode(self) -> u8 {
        match self {
            Jump::Unconditional => OP_JUMP,
            Jump::Equal => OP_JUMP_EQUAL,
            Jump::NotEqual => OP_JUMP_NOT_EQUAL,
            Jump::Greater => OP_JUMP_GREATER,
            Jump::Lesser => OP_JUMP_LESSER,
        }
    }

    #[verifier::when_used_as_spec(spec_opcode)]
    pub fn opcode(self) -> (byte: u8)
        ensures
            byte == self.spec_opcode(),
    {
        match self {
            Jump::Unconditional => OP_JUMP,
            Jump::Equal => OP_JUMP_EQUAL,
            Jump::NotEqual => OP_JUMP_NOT_EQUAL,
            Jump::Greater => OP_JUMP_GREATER,
            Jump::Lesser => OP_JUMP_LESSER,
        }
    }

    /// Whether a jump of this kind is taken on comparison code `code`.
    pub open spec fn spec_taken(self, code: u32) -> bool {
        match self {
            Jump::Unconditional => true,
            Jump::Equal => code == 0,
            Jump::NotEqual => code != 0,
            Jump::Greater => code == 1,
            Jump::Lesser => code == 2,
        }
    }

    #[verifier::when_used_as_spec(spec_taken)]
    pub fn taken(self, code: u32) -> (taken: bool)
        ensures
            taken == self.spec_taken(code),
    {
        match self {
            Jump::Unconditional => true,
            Jump::Equal => code == 0,
            Jump::NotEqual => code != 0,
            Jump::Greater => code == 1,
            Jump::Lesser => code == 2,
        }
    }
}

impl StackOp {
    pub open spec fn spec_opcode(self) -> u8 {
        match self {
            StackOp::Push(_) => OP_PUSH,
            StackOp::Pop => OP_POP,
            StackOp::Dup => OP_DUP,
            StackOp::Swap => OP_SWAP,
            StackOp::Rot => OP_ROT,
            StackOp::Dump => OP_DUMP,
            StackOp::Cmp => OP_CMP,
        }
    }

    #[verifier::when_used_as_spec(spec_opcode)]
    pub fn opcode(self) -> (byte: u8)
        ensures
            byte == self.spec_opcode(),
    {
        match self {
            StackOp::Push(_) => OP_PUSH,
            StackOp::Pop => OP_POP,
            StackOp::Dup => OP_DUP,
            StackOp::Swap => OP_SWAP,
            StackOp::Rot => OP_ROT,
            StackOp::Dump => OP_DUMP,
            StackOp::Cmp => OP_CMP,
        }
    }
}

impl MemOpView {
    pub open spec fn opcode(self) -> u8 {
        match self {
            MemOpView::InsertStr(_) => OP_INSERT_STR,
            MemOpView::Load => OP_LOAD,
            MemOpView::Store => OP_STORE,
        }
    }
}

impl MemOp {
    pub fn opcode(&self) -> (byte: u8)
        ensures
            byte == self@.opcode(),
    {
        match self {
            MemOp::InsertStr(_) => OP_INSERT_STR,
            MemOp::Load => OP_LOAD,
            MemOp::Store => OP_STORE,
        }
    }
}

impl InstView {
    /// The byte that introduces this instruction in a binary program.
    pub open spec fn opcode(self) -> u8 {
        match self {
            InstView::Label(_) => OP_LABEL,
            InstView::Call(_) => OP_CALL,
            InstView::Jump(kind, _) => kind.spec_opcode(),
            InstView::StackOp(op) => op.spec_opcode(),
            InstView::MemOp(op) => op.opcode(),
            InstView::BinaryExpr(kind) => kind.spec_opcode(),
            InstView::Syscall => OP_SYSCALL,
            InstView::Return => OP_RETURN,
            InstView::Halt => OP_HALT,
        }
    }

    /// The 32-bit operand that follows the opcode, for the instructions that have one.
    pub open spec fn operand(self) -> Option<u32> {
        match self {
            InstView::Label(id) => Some(id),
            InstView::Call(target) => Some(target),
            InstView::Jump(_, target) => Some(target),
            InstView::StackOp(StackOp::Push(value)) => Some(value),
            _ => None,
        }
    }
}

impl Inst {
    /// The byte that introduces this instruction in a binary program.
    pub fn opcode(&self) -> (byte: u8)
        ensures
            byte == self@.opcode(),
    {
        match self {
            Inst::Label(_) => OP_LABEL,
            Inst::Call(_) => OP_CALL,
            Inst::Jump(kind, _) => kind.opcode(),
            Inst::StackOp(op) => op.opcode(),
            Inst::MemOp(op) => op.opcode(),
            Inst::BinaryExpr(kind) => kind.opcode(),
            Inst::Syscall => OP_SYSCALL,
            Inst::Return => OP_RETURN,
            Inst::Halt => OP_HALT,
        }
    }

    /// The 32-bit operand that follows the opcode, for the instructions that have one.
    pub fn operand(&self) -> (operand: Option<u32>)
        ensures
            operand == self@.operand(),
    {
        match self {
            Inst::Label(id) => Some(*id),
            Inst::Call(target) => Some(*target),
            Inst::Jump(_, target) => Some(*target),
            Inst::StackOp(StackOp::Push(value)) => Some(*value),
            _ => None,
        }
    }
}

} // verus!
