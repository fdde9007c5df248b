//! The encoder: from a sequence of instructions to the bytes of a binary program.

use vstd::prelude::*;
use vstd::utf8::encode_utf8;
use crate::inst::{Inst, InstView, MemOp, MemOpView, program_view, OP_INSERT_STR};

verus! {

/// The four bytes of a 32-bit operand, least significant first.
pub open spec fn le_bytes(value: u32) -> Seq<u8> {
    seq![
        (value % 256) as u8,
        (value / 256 % 256) as u8,
        (value / 65536 % 256) as u8,
        (value / 16777216) as u8,
    ]
}

/// The bytes of one instruction: its opcode, then its operand if it has one.
/// A text operand is written as its UTF-8 bytes, with nothing added.
pub open spec fn encoded_inst(inst: InstView) -> Seq<u8> {
    match inst {
        InstView::MemOp(MemOpView::InsertStr(text)) => seq![OP_INSERT_STR] + encode_utf8(text),
        _ => match inst.operand() {
            Some(value) => seq![inst.opcode()] + le_bytes(value),
            None => seq![inst.opcode()],
        },
    }
}

/// The bytes of a program: those of its instructions, one after the other.
pub open spec fn encoded(program: Seq<InstView>) -> Seq<u8>
    decreases program.len(),
{
    if program.len() == 0 {
        Seq::empty()
    } else {
        encoded_inst(program[0]) + encoded(program.drop_first())
    }
}

/// Appending an instruction to a program appends its bytes to the program's bytes.
pub proof fn lemma_encoded_push(program: Seq<InstView>, inst: InstView)
    ensures
        encoded(program.push(inst)) == encoded(program) + encoded_inst(inst),
    decreases program.len(),
{
    let longer = program.push(inst);
    if program.len() == 0 {
        assert(longer.drop_first() =~= Seq::<InstView>::empty());
        assert(encoded(longer.drop_first()) =~= Seq::<u8>::empty());
        assert(encoded(longer) =~= encoded_inst(inst));
    } else {
        assert(longer.drop_first() =~= program.drop_first().push(inst));
        lemma_encoded_push(program.drop_first(), inst);
        assert(encoded(longer) =~= encoded(program) + encoded_inst(inst));
    }
}

/// Collects instructions and turns them into a binary program.
pub struct CodeGen {
    instructions: Vec<Inst>,
}

impl View for CodeGen {
    type V = Seq<InstView>;

    closed spec fn view(&self) -> Seq<InstView> {
        program_view(self.instructions@)
    }
}

impl CodeGen {
    /// A generator that holds no instruction yet.
    pub fn new() -> (generator: CodeGen)
        ensures
            generator@ == Seq::<InstView>::empty(),
    {
        let generator = CodeGen { instructions: Vec::new() };
        assert(generator@ =~= Seq::<InstView>::empty());
        generator
    }

    /// Adds `inst` after the instructions collected so far.
    pub fn append(&mut self, inst: Inst)
        ensures
            final(self)@ == old(self)@.push(inst@),
    {
        self.instructions.push(inst);
        assert(self@ =~= old(self)@.push(inst@));
    }

    /// The four bytes of `integer`, least significant first.
    pub fn output_int(&self, integer: u32) -> (bytes: [u8; 4])
        ensures
            bytes@ == le_bytes(integer),
    {
        let bytes = [
            (integer % 256) as u8,
            (integer / 256 % 256) as u8,
            (integer / 65536 % 256) as u8,
            (integer / 16777216) as u8,
        ];
        assert(bytes@ =~= le_bytes(integer));
        bytes
    }

    /// The binary program of the instructions collected so far.
    pub fn output(&self) -> (bytes: Vec<u8>)
        ensures
            bytes@ == encoded(self@),
    {
        let mut bytes: Vec<u8> = Vec::new();
        let mut done: usize = 0;
        while done < self.instructions.len()
            invariant
                done <= self.instructions.len(),
                bytes@ == encoded(self@.take(done as int)),
            decreases self.instructions.len() - done,
        {
            let inst = &self.instructions[done];
            let ghost before = bytes@;
            match inst {
                Inst::MemOp(MemOp::InsertStr(text)) => {
                    bytes.push(OP_INSERT_STR);
                    let raw = text.as_str().as_bytes();
                    let mut at: usize = 0;
                    while at < raw.len()
                        invariant
                            at <= raw.len(),
                            bytes@ == before.push(OP_INSERT_STR) + raw@.take(at as int),
                        decreases raw.len() - at,
                    {
                        bytes.push(raw[at]);
                        at += 1;
                    }
                    assert(raw@.take(at as int) =~= raw@);
                },
                _ => {
                    bytes.push(inst.opcode());
                    match inst.operand() {
                        Some(value) => {
                            let operand = self.output_int(value);
                            bytes.push(operand[0]);
                            bytes.push(operand[1]);
                            bytes.push(operand[2]);
                            bytes.push(operand[3]);
                        },
                        None => {},
                    }
                },
            }
            proof {
                assert(bytes@ =~= before + encoded_inst(inst@));
                lemma_encoded_push(self@.take(done as int), inst@);
                assert(self@.take(done as int).push(inst@) =~= self@.take(done + 1));
            }
            done += 1;
        }
        assert(self@.take(done as int) =~= self@);
        bytes
    }
}

} // verus!
