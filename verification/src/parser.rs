//! The decoder: from the bytes of a binary program to its instructions and
//! the table of its labels.

use std::collections::HashMap;
use vstd::prelude::*;
use crate::inst::{
    ExprKind, Inst, InstView, Jump, MemOp, MemOpView, StackOp, program_view, OP_ADD, OP_CALL,
    OP_CMP, OP_DIV, OP_DUMP, OP_DUP, OP_HALT, OP_INSERT_STR, OP_JUMP, OP_JUMP_EQUAL,
    OP_JUMP_GREATER, OP_JUMP_LESSER, OP_JUMP_NOT_EQUAL, OP_LABEL, OP_LOAD, OP_MUL, OP_POP,
    OP_PUSH, OP_RETURN, OP_ROT, OP_STORE, OP_SUB, OP_SWAP, OP_SYSCALL,
};
use crate::text::latin1;

verus! {

broadcast use vstd::std_specs::hash::group_hash_axioms;

/// The 32-bit value of four bytes, least significant first.
pub open spec fn le_value(b0: u8, b1: u8, b2: u8, b3: u8) -> u32 {
    (b0 + 256 * b1 + 65536 * b2 + 16777216 * b3) as u32
}

/// Whether four operand bytes follow this opcode.
pub open spec fn has_operand(opcode: u8) -> bool {
    opcode == OP_LABEL || opcode == OP_PUSH || opcode == OP_CALL || opcode == OP_JUMP || opcode
        == OP_JUMP_EQUAL || opcode == OP_JUMP_NOT_EQUAL || opcode == OP_JUMP_GREATER || opcode
        == OP_JUMP_LESSER
}

/// The instruction of an opcode that takes a 32-bit operand.
pub open spec fn with_operand(opcode: u8, value: u32) -> InstView
    recommends
        has_operand(opcode),
{
    if opcode == OP_LABEL {
        InstView::Label(value)
    } else if opcode == OP_PUSH {
        InstView::StackOp(StackOp::Push(value))
    } else if opcode == OP_CALL {
        InstView::Call(value)
    } else if opcode == OP_JUMP {
        InstView::Jump(Jump::Unconditional, value)
    } else if opcode == OP_JUMP_EQUAL {
        InstView::Jump(Jump::Equal, value)
    } else if opcode == OP_JUMP_NOT_EQUAL {
        InstView::Jump(Jump::NotEqual, value)
    } else if opcode == OP_JUMP_GREATER {
        InstView::Jump(Jump::Greater, value)
    } else {
        InstView::Jump(Jump::Lesser, value)
    }
}

/// The instruction of an opcode that stands alone, if the byte is such an opcode.
pub open spec fn without_operand(opcode: u8) -> Option<InstView> {
    if opcode == OP_LOAD {
        Some(InstView::MemOp(MemOpView::Load))
    } else if opcode == OP_STORE {
        Some(InstView::MemOp(MemOpView::Store))
    } else if opcode == OP_POP {
        Some(InstView::StackOp(StackOp::Pop))
    } else if opcode == OP_DUP {
        Some(InstView::StackOp(StackOp::Dup))
    } else if opcode == OP_SWAP {
        Some(InstView::StackOp(StackOp::Swap))
    } else if opcode == OP_ROT {
        Some(InstView::StackOp(StackOp::Rot))
    } else if opcode == OP_DUMP {
        Some(InstView::StackOp(StackOp::Dump))
    } else if opcode == OP_CMP {
        Some(InstView::StackOp(StackOp::Cmp))
    } else if opcode == OP_ADD {
        Some(InstView::BinaryExpr(ExprKind::Add))
    } else if opcode == OP_SUB {
        Some(InstView::BinaryExpr(ExprKind::Sub))
    } else if opcode == OP_MUL {
        Some(InstView::BinaryExpr(ExprKind::Mul))
    } else if opcode == OP_DIV {
        Some(InstView::BinaryExpr(ExprKind::Div))
    } else if opcode == OP_SYSCALL {
        Some(InstView::Syscall)
    } else if opcode == OP_RETURN {
        Some(InstView::Return)
    } else if opcode == OP_HALT {
        Some(InstView::Halt)
    } else {
        None
    }
}

/// How many bytes the text at the front of `bytes` takes: up to and including
/// the first zero byte, or all of them where there is none.
pub open spec fn text_len(bytes: Seq<u8>) -> nat
    decreases bytes.len(),
{
    if bytes.len() == 0 {
        0
    } else if bytes[0] == 0 {
        1
    } else {
        1 + text_len(bytes.skip(1))
    }
}

/// What stands at the front of a byte stream: an instruction or none, and the
/// number of bytes that it takes.
pub struct Front {
    pub inst: Option<InstView>,
    pub taken: nat,
}

/// Reads the front of a stream that is not empty.
///
/// An opcode whose operand is cut short takes the rest of the stream and gives
/// no instruction. A byte that is no opcode is passed over.
pub open spec fn front(bytes: Seq<u8>) -> Front
    recommends
        bytes.len() > 0,
{
    let opcode = bytes[0];
    if has_operand(opcode) {
        if bytes.len() >= 5 {
            Front {
                inst: Some(
                    with_operand(opcode, le_value(bytes[1], bytes[2], bytes[3], bytes[4])),
                ),
                taken: 5,
            }
        } else {
            Front { inst: None, taken: bytes.len() }
        }
    } else if opcode == OP_INSERT_STR {
        let len = text_len(bytes.skip(1));
        Front {
            inst: Some(InstView::MemOp(MemOpView::InsertStr(latin1(bytes.subrange(1, 1 + len as int))))),
            taken: 1 + len,
        }
    } else {
        Front { inst: without_operand(opcode), taken: 1 }
    }
}

/// The instructions that a byte stream holds, in order.
pub open spec fn decoded(bytes: Seq<u8>) -> Seq<InstView>
    decreases bytes.len(),
{
    if bytes.len() == 0 {
        Seq::empty()
    } else {
        let first = front(bytes);
        proof {
            lemma_front_taken(bytes);
        }
        let rest = decoded(bytes.skip(first.taken as int));
        match first.inst {
            Some(inst) => seq![inst] + rest,
            None => rest,
        }
    }
}

/// The label table `base` after the labels of `program` are declared in order:
/// each label maps to the index of its marker, a later declaration of an
/// identifier replacing an earlier one.
pub open spec fn labels_after(base: Map<u32, u32>, program: Seq<InstView>) -> Map<u32, u32>
    decreases program.len(),
{
    if program.len() == 0 {
        base
    } else {
        let before = labels_after(base, program.drop_last());
        match program.last() {
            InstView::Label(id) => before.insert(id, (program.len() - 1) as u32),
            _ => before,
        }
    }
}

/// The label table of a program.
pub open spec fn label_table(program: Seq<InstView>) -> Map<u32, u32> {
    labels_after(Map::empty(), program)
}

/// The text at the front of `bytes` ends within `bytes`, holds no zero byte
/// before its last, and ends in a zero byte unless it runs to the end.
pub proof fn lemma_text_len(bytes: Seq<u8>)
    ensures
        text_len(bytes) <= bytes.len(),
        forall|i: int| 0 <= i < text_len(bytes) - 1 ==> bytes[i] != 0,
        text_len(bytes) < bytes.len() ==> bytes[text_len(bytes) - 1] == 0,
        bytes.len() > 0 ==> text_len(bytes) >= 1,
    decreases bytes.len(),
{
    if bytes.len() > 0 && bytes[0] != 0 {
        let rest = bytes.skip(1);
        lemma_text_len(rest);
        assert forall|i: int| 0 <= i < text_len(bytes) - 1 implies bytes[i] != 0 by {
            if i > 0 {
                assert(bytes[i] == rest[i - 1]);
            }
        }
        if text_len(bytes) < bytes.len() {
            assert(bytes[text_len(bytes) - 1] == rest[text_len(rest) - 1]);
        }
    }
}

/// The front of a non-empty stream takes at least one byte and no more than there are.
pub proof fn lemma_front_taken(bytes: Seq<u8>)
    requires
        bytes.len() > 0,
    ensures
        1 <= front(bytes).taken <= bytes.len(),
{
    lemma_text_len(bytes.skip(1));
}

/// Reads a binary program.
pub struct Parser {
    /// The bytes that are still to be decoded.
    pub bytes: Vec<u8>,
    /// The label table built so far: from identifier to instruction index.
    pub labels: HashMap<u32, u32>,
}

impl Parser {
    /// A parser at the start of `bytes`, with an empty label table.
    pub fn new(bytes: Vec<u8>) -> (parser: Parser)
        ensures
            parser.bytes@ == bytes@,
            parser.labels@ == Map::<u32, u32>::empty(),
    {
        Parser { bytes, labels: HashMap::new() }
    }

    /// The 32-bit value of four operand bytes, least significant first.
    pub fn from_bytes(&self, bytes: [u8; 4]) -> (value: u32)
        ensures
            value == le_value(bytes[0], bytes[1], bytes[2], bytes[3]),
    {
        let b0: u32 = bytes[0] as u32;
        let b1: u32 = bytes[1] as u32;
        let b2: u32 = bytes[2] as u32;
        let b3: u32 = bytes[3] as u32;
        b0 + 256 * b1 + 65536 * b2 + 16777216 * b3
    }

    /// The text that starts at `start`: the bytes up to and including the first
    /// zero byte, or to the end of the input, each taken as one character.
    /// Returns the text and the position after it.
    fn text_at(&self, start: usize) -> (found: (String, usize))
        requires
            start <= self.bytes@.len(),
        ensures
            found.1 == start + text_len(self.bytes@.skip(start as int)),
            found.1 <= self.bytes@.len(),
            found.0@ == latin1(self.bytes@.subrange(start as int, found.1 as int)),
    {
        let mut text = String::new();
        let mut pos = start;
        let mut open = true;
        while open && pos < self.bytes.len()
            invariant
                start <= pos <= self.bytes@.len(),
                text@ == latin1(self.bytes@.subrange(start as int, pos as int)),
                open ==> text_len(self.bytes@.skip(start as int)) == (pos - start) + text_len(
                    self.bytes@.skip(pos as int),
                ),
                !open ==> text_len(self.bytes@.skip(start as int)) == pos - start,
            decreases self.bytes@.len() - pos, open as int,
        {
            let byte = self.bytes[pos];
            proof {
                let here = self.bytes@.skip(pos as int);
                assert(here[0] == byte);
                assert(here.skip(1) =~= self.bytes@.skip(pos + 1));
                assert(latin1(self.bytes@.subrange(start as int, pos + 1)) =~= text@.push(
                    byte as char,
                ));
            }
            text.push(byte as char);
            pos += 1;
            if byte == 0 {
                open = false;
            }
        }
        (text, pos)
    }

    /// Decodes the remaining bytes into instructions and declares their labels.
    ///
    /// Every `Label` maps its identifier to the index of the marker among the
    /// instructions returned, replacing an entry the table held for it. A
    /// trailing instruction whose operand is cut short is dropped, and a byte
    /// that is no opcode is passed over. Afterwards no bytes remain.
    pub fn parse(&mut self) -> (instructions: Vec<Inst>)
        requires
            old(self).bytes@.len() <= u32::MAX,
        ensures
            program_view(instructions@) == decoded(old(self).bytes@),
            instructions@.len() <= old(self).bytes@.len(),
            final(self).labels@ == labels_after(
                old(self).labels@,
                decoded(old(self).bytes@),
            ),
            final(self).bytes@ == Seq::<u8>::empty(),
    {
        let mut instructions: Vec<Inst> = Vec::new();
        let mut pos: usize = 0;
        let ghost input = self.bytes@;
        let ghost base = self.labels@;
        assert(input.skip(0) =~= input);
        assert(program_view(instructions@) =~= Seq::<InstView>::empty());
        while pos < self.bytes.len()
            invariant
                self.bytes@ == input,
                input.len() <= u32::MAX,
                pos <= input.len(),
                instructions@.len() <= pos,
                decoded(input) == program_view(instructions@) + decoded(input.skip(pos as int)),
                self.labels@ == labels_after(base, program_view(instructions@)),
            decreases input.len() - pos,
        {
            let ghost here = input.skip(pos as int);
            let ghost so_far = program_view(instructions@);
            let opcode = self.bytes[pos];
            proof {
                assert(here[0] == opcode);
                lemma_front_taken(here);
                assert(here.skip(front(here).taken as int) =~= input.skip(
                    pos + front(here).taken,
                ));
            }
            let operand = opcode == OP_LABEL || opcode == OP_PUSH || opcode == OP_CALL || opcode
                == OP_JUMP || opcode == OP_JUMP_EQUAL || opcode == OP_JUMP_NOT_EQUAL || opcode
                == OP_JUMP_GREATER || opcode == OP_JUMP_LESSER;
            let added: Option<Inst>;
            let next: usize;
            if operand {
                if self.bytes.len() - pos >= 5 {
                    let value = self.from_bytes(
                        [
                            self.bytes[pos + 1],
                            self.bytes[pos + 2],
                            self.bytes[pos + 3],
                            self.bytes[pos + 4],
                        ],
                    );
                    let inst = if opcode == OP_LABEL {
                        Inst::Label(value)
                    } else if opcode == OP_PUSH {
                        Inst::StackOp(StackOp::Push(value))
                    } else if opcode == OP_CALL {
                        Inst::Call(value)
                    } else if opcode == OP_JUMP {
                        Inst::Jump(Jump::Unconditional, value)
                    } else if opcode == OP_JUMP_EQUAL {
                        Inst::Jump(Jump::Equal, value)
                    } else if opcode == OP_JUMP_NOT_EQUAL {
                        Inst::Jump(Jump::NotEqual, value)
                    } else if opcode == OP_JUMP_GREATER {
                        Inst::Jump(Jump::Greater, value)
                    } else {
                        Inst::Jump(Jump::Lesser, value)
                    };
                    if opcode == OP_LABEL {
                        let index: u32 = instructions.len() as u32;
                        self.labels.insert(value, index);
                    }
                    added = Some(inst);
                    next = pos + 5;
                } else {
                    added = None;
                    next = self.bytes.len();
                }
            } else if opcode == OP_INSERT_STR {
                let (text, end) = self.text_at(pos + 1);
                proof {
                    assert(here.skip(1) =~= input.skip(pos + 1));
                    assert(here.subrange(1, 1 + text_len(here.skip(1)) as int) =~= input.subrange(
                        pos + 1,
                        end as int,
                    ));
                }
                added = Some(Inst::MemOp(MemOp::InsertStr(text)));
                next = end;
            } else {
                added = if opcode == OP_LOAD {
                    Some(Inst::MemOp(MemOp::Load))
                } else if opcode == OP_STORE {
                    Some(Inst::MemOp(MemOp::Store))
                } else if opcode == OP_POP {
                    Some(Inst::StackOp(StackOp::Pop))
                } else if opcode == OP_DUP {
                    Some(Inst::StackOp(StackOp::Dup))
                } else if opcode == OP_SWAP {
                    Some(Inst::StackOp(StackOp::Swap))
                } else if opcode == OP_ROT {
                    Some(Inst::StackOp(StackOp::Rot))
                } else if opcode == OP_DUMP {
                    Some(Inst::StackOp(StackOp::Dump))
                } else if opcode == OP_CMP {
                    Some(Inst::StackOp(StackOp::Cmp))
                } else if opcode == OP_ADD {
                    Some(Inst::BinaryExpr(ExprKind::Add))
                } else if opcode == OP_SUB {
                    Some(Inst::BinaryExpr(ExprKind::Sub))
                } else if opcode == OP_MUL {
                    Some(Inst::BinaryExpr(ExprKind::Mul))
                } else if opcode == OP_DIV {
                    Some(Inst::BinaryExpr(ExprKind::Div))
                } else if opcode == OP_SYSCALL {
                    Some(Inst::Syscall)
                } else if opcode == OP_RETURN {
                    Some(Inst::Return)
                } else if opcode == OP_HALT {
                    Some(Inst::Halt)
                } else {
                    None
                };
                next = pos + 1;
            }
            assert(next == pos + front(here).taken);
            match added {
                Some(inst) => {
                    assert(front(here).inst == Some(inst@));
                    instructions.push(inst);
                    proof {
                        let now = program_view(instructions@);
                        assert(now =~= so_far.push(inst@));
                        assert(now.drop_last() =~= so_far);
                        assert(decoded(input) =~= now + decoded(input.skip(next as int)));
                    }
                },
                None => {
                    assert(front(here).inst is None);
                },
            }
            pos = next;
        }
        self.bytes.clear();
        assert(program_view(instructions@) + decoded(input.skip(pos as int)) =~= program_view(
            instructions@,
        ));
        instructions
    }
}

} // verus!
