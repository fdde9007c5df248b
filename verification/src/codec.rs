//! What holds between the encoder and the decoder.

use vstd::prelude::*;
use vstd::arithmetic::div_mod::lemma_fundamental_div_mod_converse;
use vstd::utf8::{encode_utf8, is_ascii_chars, is_ascii_chars_encode_utf8};
use crate::codegen::{encoded, encoded_inst, le_bytes};
use crate::inst::{InstView, MemOpView};
use crate::parser::{decoded, front, label_table, labels_after, le_value, text_len};
use crate::text::latin1;

verus! {

/// A text that the decoder reads back as it was written: ASCII characters,
/// the last of them the terminating zero and no other zero among them.
pub open spec fn terminated_ascii(text: Seq<char>) -> bool {
    &&& text.len() > 0
    &&& is_ascii_chars(text)
    &&& text.last() == '\0'
    &&& forall|i: int| 0 <= i < text.len() - 1 ==> text[i] != '\0'
}

/// An instruction that the decoder reads back as it was written: any but a
/// text insertion, and a text insertion whose text is `terminated_ascii`.
pub open spec fn reads_back(inst: InstView) -> bool {
    match inst {
        InstView::MemOp(MemOpView::InsertStr(text)) => terminated_ascii(text),
        _ => true,
    }
}

/// Four operand bytes written and read again give the value back.
pub proof fn lemma_le_value_of_le_bytes(value: u32)
    ensures
        le_bytes(value).len() == 4,
        le_value(le_bytes(value)[0], le_bytes(value)[1], le_bytes(value)[2], le_bytes(value)[3])
            == value,
{
}

/// A value read from four bytes and written again gives the bytes back.
pub proof fn lemma_le_bytes_of_le_value(b0: u8, b1: u8, b2: u8, b3: u8)
    ensures
        le_bytes(le_value(b0, b1, b2, b3)) == seq![b0, b1, b2, b3],
{
    let value: int = b0 + 256 * b1 + 65536 * b2 + 16777216 * b3;
    lemma_fundamental_div_mod_converse(value, 256, b1 + 256 * b2 + 65536 * b3, b0 as int);
    lemma_fundamental_div_mod_converse(value, 65536, b2 + 256 * b3, b0 + 256 * b1);
    lemma_fundamental_div_mod_converse(value, 16777216, b3 as int, b0 + 256 * b1 + 65536 * b2);
    lemma_fundamental_div_mod_converse(value / 256, 256, b2 + 256 * b3, b1 as int);
    lemma_fundamental_div_mod_converse(value / 65536, 256, b3 as int, b2 as int);
    assert(le_bytes(le_value(b0, b1, b2, b3)) =~= seq![b0, b1, b2, b3]);
}

/// A text that ends in its only zero byte takes exactly its own length at the
/// front of a stream, whatever follows it.
proof fn lemma_text_len_terminated(text: Seq<u8>, rest: Seq<u8>)
    requires
        text.len() > 0,
        text.last() == 0,
        forall|i: int| 0 <= i < text.len() - 1 ==> text[i] != 0,
    ensures
        text_len(text + rest) == text.len(),
    decreases text.len(),
{
    let all = text + rest;
    assert(all[0] == text[0]);
    if text.len() > 1 {
        assert(all.skip(1) =~= text.skip(1) + rest);
        lemma_text_len_terminated(text.skip(1), rest);
    }
}

/// At the front of a stream that begins with the bytes of `inst`, the decoder
/// finds `inst` and takes exactly those bytes.
pub proof fn lemma_front_of_encoded(inst: InstView, rest: Seq<u8>)
    requires
        reads_back(inst),
    ensures
        front(encoded_inst(inst) + rest).inst == Some(inst),
        front(encoded_inst(inst) + rest).taken == encoded_inst(inst).len(),
{
    let own = encoded_inst(inst);
    let all = own + rest;
    assert(all[0] == own[0]);
    match inst {
        InstView::MemOp(MemOpView::InsertStr(text)) => {
            let raw = encode_utf8(text);
            is_ascii_chars_encode_utf8(text);
            assert(all.skip(1) =~= raw + rest);
            assert(raw.last() == 0);
            lemma_text_len_terminated(raw, rest);
            assert(all.subrange(1, 1 + raw.len() as int) =~= raw);
            assert(latin1(raw) =~= text);
        },
        _ => {
            match inst.operand() {
                Some(value) => {
                    lemma_le_value_of_le_bytes(value);
                    assert(own.len() == 5);
                    assert(all[1] == le_bytes(value)[0]);
                    assert(all[2] == le_bytes(value)[1]);
                    assert(all[3] == le_bytes(value)[2]);
                    assert(all[4] == le_bytes(value)[3]);
                },
                None => {},
            }
        },
    }
}

/// Decoding what was encoded gives the program back, instruction for
/// instruction, for every program whose instructions all read back.
pub proof fn lemma_decoded_encoded(program: Seq<InstView>)
    requires
        forall|i: int| 0 <= i < program.len() ==> reads_back(#[trigger] program[i]),
    ensures
        decoded(encoded(program)) == program,
    decreases program.len(),
{
    if program.len() == 0 {
        assert(decoded(encoded(program)) =~= program);
    } else {
        let own = encoded_inst(program[0]);
        let rest = encoded(program.drop_first());
        let all = own + rest;
        lemma_front_of_encoded(program[0], rest);
        assert(all.skip(own.len() as int) =~= rest);
        assert forall|i: int| 0 <= i < program.drop_first().len() implies reads_back(
            #[trigger] program.drop_first()[i],
        ) by {
            assert(program.drop_first()[i] == program[i + 1]);
        }
        lemma_decoded_encoded(program.drop_first());
        assert(decoded(all) =~= seq![program[0]] + program.drop_first());
        assert(seq![program[0]] + program.drop_first() =~= program);
    }
}

/// The label table after a program holds an identifier exactly when the
/// table before held it or the program declares it.
pub proof fn lemma_labels_after_dom(base: Map<u32, u32>, program: Seq<InstView>, id: u32)
    ensures
        labels_after(base, program).contains_key(id) <==> (base.contains_key(id) || exists|
            i: int,
        |
            0 <= i < program.len() && program[i] == InstView::Label(id)),
    decreases program.len(),
{
    if program.len() > 0 {
        let shorter = program.drop_last();
        lemma_labels_after_dom(base, shorter, id);
        if exists|i: int| 0 <= i < shorter.len() && shorter[i] == InstView::Label(id) {
            let i = choose|i: int| 0 <= i < shorter.len() && shorter[i] == InstView::Label(id);
            assert(program[i] == InstView::Label(id));
        }
        if exists|i: int| 0 <= i < program.len() && program[i] == InstView::Label(id) {
            let i = choose|i: int| 0 <= i < program.len() && program[i] == InstView::Label(id);
            if i < shorter.len() {
                assert(shorter[i] == InstView::Label(id));
            }
        }
    }
}

/// An identifier maps to the index of its last declaration.
pub proof fn lemma_labels_after_last_wins(
    base: Map<u32, u32>,
    program: Seq<InstView>,
    id: u32,
    index: int,
)
    requires
        program.len() <= u32::MAX,
        0 <= index < program.len(),
        program[index] == InstView::Label(id),
        forall|later: int| index < later < program.len() ==> program[later] != InstView::Label(id),
    ensures
        labels_after(base, program).contains_key(id),
        labels_after(base, program)[id] == index,
    decreases program.len(),
{
    if index < program.len() - 1 {
        let shorter = program.drop_last();
        assert(shorter[index] == program[index]);
        assert forall|later: int| index < later < shorter.len() implies shorter[later]
            != InstView::Label(id) by {
            assert(shorter[later] == program[later]);
        }
        lemma_labels_after_last_wins(base, shorter, id, index);
    }
}

/// An identifier that the program does not declare keeps the entry it had.
pub proof fn lemma_labels_after_keeps(base: Map<u32, u32>, program: Seq<InstView>, id: u32)
    requires
        forall|i: int| 0 <= i < program.len() ==> program[i] != InstView::Label(id),
    ensures
        labels_after(base, program).contains_key(id) == base.contains_key(id),
        base.contains_key(id) ==> labels_after(base, program)[id] == base[id],
    decreases program.len(),
{
    if program.len() > 0 {
        let shorter = program.drop_last();
        assert forall|i: int| 0 <= i < shorter.len() implies shorter[i] != InstView::Label(
            id,
        ) by {
            assert(shorter[i] == program[i]);
        }
        lemma_labels_after_keeps(base, shorter, id);
    }
}

/// Every entry of a program's label table is the index of a marker of that
/// identifier, so it lies within the program.
pub proof fn lemma_label_table_points_at_marker(program: Seq<InstView>, id: u32)
    requires
        program.len() <= u32::MAX,
        label_table(program).contains_key(id),
    ensures
        0 <= label_table(program)[id] < program.len(),
        program[label_table(program)[id] as int] == InstView::Label(id),
    decreases program.len(),
{
    if program.len() > 0 {
        let shorter = program.drop_last();
        if program.last() == InstView::Label(id) {
        } else {
            lemma_label_table_points_at_marker(shorter, id);
            assert(shorter[label_table(shorter)[id] as int] == program[label_table(
                shorter,
            )[id] as int]);
        }
    }
}

/// Round trip of a program in which no two labels share an identifier: the
/// decoder gives the instructions back, and its label table maps the
/// identifier of every marker to the marker's index and holds nothing else.
pub proof fn lemma_round_trip(program: Seq<InstView>)
    requires
        program.len() <= u32::MAX,
        forall|i: int| 0 <= i < program.len() ==> reads_back(#[trigger] program[i]),
        forall|i: int, j: int|
            0 <= i < j < program.len() && program[i] is Label && program[j] is Label
                ==> program[i] != program[j],
    ensures
        decoded(encoded(program)) == program,
        forall|index: int|
            0 <= index < program.len() ==> (#[trigger] program[index] matches InstView::Label(id)
                ==> label_table(decoded(encoded(program))).contains_key(id) && label_table(
                decoded(encoded(program)),
            )[id] == index),
        forall|id: u32| #[trigger]
            label_table(decoded(encoded(program))).contains_key(id) ==> exists|index: int|
                0 <= index < program.len() && program[index] == InstView::Label(id),
{
    lemma_decoded_encoded(program);
    assert forall|index: int| 0 <= index < program.len() implies (#[trigger] program[index] matches InstView::Label(
        id,
    ) ==> label_table(program).contains_key(id) && label_table(program)[id] == index) by {
        if let InstView::Label(id) = program[index] {
            lemma_labels_after_last_wins(Map::empty(), program, id, index);
        }
    }
    assert forall|id: u32| #[trigger] label_table(program).contains_key(id) implies exists|
        index: int,
    |
        0 <= index < program.len() && program[index] == InstView::Label(id) by {
        lemma_labels_after_dom(Map::empty(), program, id);
    }
}

} // verus!
