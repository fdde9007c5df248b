use lib_stacked::{CodeGen, ExprKind, Inst, Jump, MemOp, Parser, StackOp};

fn encode(program: &[Inst]) -> Vec<u8> {
    let mut generator = CodeGen::new();
    for inst in program {
        generator.append(inst.clone());
    }
    generator.output()
}

fn decode(bytes: &[u8]) -> (Vec<Inst>, Vec<(u32, u32)>) {
    let mut parser = Parser::new(bytes.to_vec());
    let program = parser.parse();
    let mut labels: Vec<(u32, u32)> = parser.labels.iter().map(|(id, index)| (*id, *index)).collect();
    labels.sort();
    (program, labels)
}

fn every_fixed_size_instruction() -> Vec<Inst> {
    vec![
        Inst::Label(1),
        Inst::Call(0xDEADBEEF),
        Inst::Jump(Jump::Unconditional, 2),
        Inst::Jump(Jump::Equal, 3),
        Inst::Jump(Jump::NotEqual, 4),
        Inst::Jump(Jump::Greater, 5),
        Inst::Jump(Jump::Lesser, u32::MAX),
        Inst::StackOp(StackOp::Push(0)),
        Inst::StackOp(StackOp::Push(0x12345678)),
        Inst::StackOp(StackOp::Pop),
        Inst::StackOp(StackOp::Dup),
        Inst::StackOp(StackOp::Swap),
        Inst::StackOp(StackOp::Rot),
        Inst::StackOp(StackOp::Dump),
        Inst::StackOp(StackOp::Cmp),
        Inst::MemOp(MemOp::Load),
        Inst::MemOp(MemOp::Store),
        Inst::BinaryExpr(ExprKind::Add),
        Inst::BinaryExpr(ExprKind::Sub),
        Inst::BinaryExpr(ExprKind::Mul),
        Inst::BinaryExpr(ExprKind::Div),
        Inst::Syscall,
        Inst::Return,
        Inst::Label(9),
        Inst::Halt,
    ]
}

#[test]
fn empty_program_encodes_to_nothing() {
    assert_eq!(encode(&[]), Vec::<u8>::new());
    assert_eq!(decode(&[]), (vec![], vec![]));
}

#[test]
fn operand_is_written_least_significant_byte_first() {
    assert_eq!(
        encode(&[Inst::StackOp(StackOp::Push(0x12345678))]),
        vec![0x01, 0x78, 0x56, 0x34, 0x12]
    );
    assert_eq!(encode(&[Inst::Label(1)]), vec![0x4C, 1, 0, 0, 0]);
    assert_eq!(encode(&[Inst::Call(256)]), vec![0x2F, 0, 1, 0, 0]);
    assert_eq!(encode(&[Inst::StackOp(StackOp::Push(u32::MAX))]), vec![0x01, 255, 255, 255, 255]);
}

#[test]
fn output_int_gives_four_bytes() {
    let generator = CodeGen::new();
    assert_eq!(generator.output_int(0), [0, 0, 0, 0]);
    assert_eq!(generator.output_int(0x0A0B0C0D), [0x0D, 0x0C, 0x0B, 0x0A]);
    assert_eq!(generator.output_int(65536), [0, 0, 1, 0]);
    assert_eq!(generator.output_int(16777216), [0, 0, 0, 1]);
}

#[test]
fn from_bytes_reads_four_bytes() {
    let parser = Parser::new(Vec::new());
    assert_eq!(parser.from_bytes([0, 0, 0, 0]), 0);
    assert_eq!(parser.from_bytes([0x0D, 0x0C, 0x0B, 0x0A]), 0x0A0B0C0D);
    assert_eq!(parser.from_bytes([255, 255, 255, 255]), u32::MAX);
    assert_eq!(parser.from_bytes([0, 1, 0, 0]), 256);
}

#[test]
fn from_bytes_undoes_output_int() {
    let generator = CodeGen::new();
    let parser = Parser::new(Vec::new());
    for value in [0u32, 1, 255, 256, 65535, 65536, 0x00FF00FF, 0x80000000, u32::MAX] {
        assert_eq!(parser.from_bytes(generator.output_int(value)), value);
    }
}

#[test]
fn jump_opcodes() {
    assert_eq!(encode(&[Inst::Jump(Jump::Unconditional, 7)]), vec![0x6A, 7, 0, 0, 0]);
    assert_eq!(encode(&[Inst::Jump(Jump::Equal, 7)]), vec![0x6B, 7, 0, 0, 0]);
    assert_eq!(encode(&[Inst::Jump(Jump::NotEqual, 7)]), vec![0x6E, 7, 0, 0, 0]);
    assert_eq!(encode(&[Inst::Jump(Jump::Greater, 7)]), vec![0x6C, 7, 0, 0, 0]);
    assert_eq!(encode(&[Inst::Jump(Jump::Lesser, 7)]), vec![0x6D, 7, 0, 0, 0]);
}

#[test]
fn single_byte_opcodes() {
    let program = vec![
        Inst::StackOp(StackOp::Pop),
        Inst::StackOp(StackOp::Dump),
        Inst::Halt,
        Inst::StackOp(StackOp::Dup),
        Inst::StackOp(StackOp::Swap),
        Inst::StackOp(StackOp::Rot),
        Inst::Return,
        Inst::BinaryExpr(ExprKind::Add),
        Inst::BinaryExpr(ExprKind::Sub),
        Inst::BinaryExpr(ExprKind::Mul),
        Inst::BinaryExpr(ExprKind::Div),
        Inst::StackOp(StackOp::Cmp),
        Inst::Syscall,
        Inst::MemOp(MemOp::Load),
        Inst::MemOp(MemOp::Store),
    ];
    let bytes = vec![
        0x02, 0x03, 0x04, 0x05, 0x06, 0x07, 0x0D, 0x28, 0x29, 0x2A, 0x2B, 0x43, 0x53, 0x8A, 0x8B,
    ];
    assert_eq!(encode(&program), bytes);
    assert_eq!(decode(&bytes).0, program);
}

#[test]
fn opcode_of_each_instruction() {
    assert_eq!(Inst::Label(0).opcode(), 0x4C);
    assert_eq!(Inst::Call(0).opcode(), 0x2F);
    assert_eq!(Inst::Jump(Jump::Unconditional, 0).opcode(), 0x6A);
    assert_eq!(Inst::Jump(Jump::Equal, 0).opcode(), 0x6B);
    assert_eq!(Inst::Jump(Jump::NotEqual, 0).opcode(), 0x6E);
    assert_eq!(Inst::Jump(Jump::Greater, 0).opcode(), 0x6C);
    assert_eq!(Inst::Jump(Jump::Lesser, 0).opcode(), 0x6D);
    assert_eq!(Inst::StackOp(StackOp::Push(9)).opcode(), 0x01);
    assert_eq!(Inst::MemOp(MemOp::InsertStr(String::from("x"))).opcode(), 0x8C);
    assert_eq!(Inst::MemOp(MemOp::Load).opcode(), 0x8A);
    assert_eq!(Inst::MemOp(MemOp::Store).opcode(), 0x8B);
    assert_eq!(Inst::Syscall.opcode(), 0x53);
    assert_eq!(Inst::Return.opcode(), 0x0D);
    assert_eq!(Inst::Halt.opcode(), 0x04);
}

#[test]
fn operand_of_each_instruction() {
    assert_eq!(Inst::Label(5).operand(), Some(5));
    assert_eq!(Inst::Call(6).operand(), Some(6));
    assert_eq!(Inst::Jump(Jump::Lesser, 7).operand(), Some(7));
    assert_eq!(Inst::StackOp(StackOp::Push(8)).operand(), Some(8));
    assert_eq!(Inst::StackOp(StackOp::Pop).operand(), None);
    assert_eq!(Inst::MemOp(MemOp::InsertStr(String::from("x"))).operand(), None);
    assert_eq!(Inst::Halt.operand(), None);
}

#[test]
fn text_is_written_as_utf8_with_nothing_added() {
    assert_eq!(
        encode(&[Inst::MemOp(MemOp::InsertStr(String::from("hi")))]),
        vec![0x8C, b'h', b'i']
    );
    assert_eq!(
        encode(&[Inst::MemOp(MemOp::InsertStr(String::from("\u{e9}")))]),
        vec![0x8C, 0xC3, 0xA9]
    );
    assert_eq!(
        encode(&[Inst::MemOp(MemOp::InsertStr(String::from("a\0"))), Inst::Halt]),
        vec![0x8C, b'a', 0, 0x04]
    );
}

#[test]
fn text_is_read_up_to_and_including_the_zero_byte() {
    let (program, _) = decode(&[0x8C, b'h', b'i', 0, 0x02]);
    assert_eq!(
        program,
        vec![Inst::MemOp(MemOp::InsertStr(String::from("hi\0"))), Inst::StackOp(StackOp::Pop)]
    );
}

#[test]
fn text_without_zero_byte_runs_to_the_end() {
    let (program, _) = decode(&[0x02, 0x8C, b'h', 0x02]);
    assert_eq!(
        program,
        vec![Inst::StackOp(StackOp::Pop), Inst::MemOp(MemOp::InsertStr(String::from("h\u{2}")))]
    );
    let (program, _) = decode(&[0x8C]);
    assert_eq!(program, vec![Inst::MemOp(MemOp::InsertStr(String::new()))]);
}

#[test]
fn each_text_byte_is_one_character() {
    let (program, _) = decode(&[0x8C, 0xE9, 0xFF, 0x41, 0]);
    assert_eq!(program, vec![Inst::MemOp(MemOp::InsertStr(String::from("\u{e9}\u{ff}A\0")))]);
}

#[test]
fn not_equal_jump_is_decoded() {
    let (program, _) = decode(&[0x6E, 9, 0, 0, 0, 0x04]);
    assert_eq!(program, vec![Inst::Jump(Jump::NotEqual, 9), Inst::Halt]);
}

#[test]
fn truncated_operand_is_dropped() {
    assert_eq!(decode(&[0x02, 0x01, 1, 2, 3]).0, vec![Inst::StackOp(StackOp::Pop)]);
    assert_eq!(decode(&[0x02, 0x4C]).0, vec![Inst::StackOp(StackOp::Pop)]);
    assert_eq!(decode(&[0x2F, 0, 0, 0]).0, vec![]);
    assert_eq!(decode(&[0x4C, 1, 0, 0]).1, vec![]);
}

#[test]
fn truncated_operand_swallows_what_is_left() {
    // The bytes behind the cut opcode are its operand, not instructions.
    assert_eq!(decode(&[0x01, 0x02, 0x02]).0, vec![]);
}

#[test]
fn byte_that_is_no_opcode_is_passed_over() {
    assert_eq!(
        decode(&[0xFF, 0x02, 0x00, 0x04, 0x99]).0,
        vec![Inst::StackOp(StackOp::Pop), Inst::Halt]
    );
}

#[test]
fn label_maps_to_the_index_of_its_marker() {
    let bytes = encode(&[
        Inst::StackOp(StackOp::Push(1)),
        Inst::Label(70),
        Inst::StackOp(StackOp::Pop),
        Inst::Label(3),
    ]);
    let (_, labels) = decode(&bytes);
    assert_eq!(labels, vec![(3, 3), (70, 1)]);
}

#[test]
fn label_index_counts_instructions_not_bytes() {
    let (program, labels) = decode(&[0xFF, 0x01, 5, 0, 0, 0, 0x4C, 8, 0, 0, 0]);
    assert_eq!(program, vec![Inst::StackOp(StackOp::Push(5)), Inst::Label(8)]);
    assert_eq!(labels, vec![(8, 1)]);
}

#[test]
fn later_declaration_of_a_label_wins() {
    let bytes = encode(&[Inst::Label(4), Inst::Halt, Inst::Label(4), Inst::Label(5)]);
    let (program, labels) = decode(&bytes);
    assert_eq!(program.len(), 4);
    assert_eq!(labels, vec![(4, 2), (5, 3)]);
}

#[test]
fn parse_consumes_the_input() {
    let mut parser = Parser::new(vec![0x4C, 2, 0, 0, 0, 0x04]);
    assert_eq!(parser.parse(), vec![Inst::Label(2), Inst::Halt]);
    assert!(parser.bytes.is_empty());
    assert_eq!(parser.parse(), vec![]);
    assert_eq!(parser.labels.get(&2), Some(&0));
    assert_eq!(parser.labels.len(), 1);
}

#[test]
fn parse_keeps_entries_it_does_not_redeclare() {
    let mut parser = Parser::new(vec![0x04, 0x4C, 2, 0, 0, 0]);
    parser.labels.insert(2, 40);
    parser.labels.insert(3, 41);
    parser.parse();
    assert_eq!(parser.labels.get(&2), Some(&1));
    assert_eq!(parser.labels.get(&3), Some(&41));
}

#[test]
fn new_parser_has_no_labels() {
    let parser = Parser::new(vec![1, 2, 3]);
    assert!(parser.labels.is_empty());
    assert_eq!(parser.bytes, vec![1, 2, 3]);
}

#[test]
fn round_trip_of_fixed_size_instructions() {
    let program = every_fixed_size_instruction();
    let (decoded, labels) = decode(&encode(&program));
    assert_eq!(decoded, program);
    assert_eq!(labels, vec![(1, 0), (9, 23)]);
}

#[test]
fn round_trip_of_terminated_ascii_text() {
    let program = vec![
        Inst::MemOp(MemOp::InsertStr(String::from("/tmp/file\0"))),
        Inst::Label(3),
        Inst::MemOp(MemOp::InsertStr(String::from("\0"))),
        Inst::Halt,
    ];
    let (decoded, labels) = decode(&encode(&program));
    assert_eq!(decoded, program);
    assert_eq!(labels, vec![(3, 1)]);
}

#[test]
fn text_without_terminator_does_not_round_trip() {
    let program = vec![Inst::MemOp(MemOp::InsertStr(String::from("ab"))), Inst::Halt];
    let (decoded, _) = decode(&encode(&program));
    assert_eq!(decoded, vec![Inst::MemOp(MemOp::InsertStr(String::from("ab\u{4}")))]);
}

#[test]
fn append_keeps_the_order() {
    let mut generator = CodeGen::new();
    generator.append(Inst::Halt);
    generator.append(Inst::Return);
    assert_eq!(generator.output(), vec![0x04, 0x0D]);
    generator.append(Inst::Syscall);
    assert_eq!(generator.output(), vec![0x04, 0x0D, 0x53]);
}

#[test]
fn opcode_of_each_operation() {
    assert_eq!(ExprKind::Add.opcode(), 0x28);
    assert_eq!(ExprKind::Sub.opcode(), 0x29);
    assert_eq!(ExprKind::Mul.opcode(), 0x2A);
    assert_eq!(ExprKind::Div.opcode(), 0x2B);
    assert_eq!(StackOp::Push(3).opcode(), 0x01);
    assert_eq!(StackOp::Pop.opcode(), 0x02);
    assert_eq!(StackOp::Dump.opcode(), 0x03);
    assert_eq!(StackOp::Dup.opcode(), 0x05);
    assert_eq!(StackOp::Swap.opcode(), 0x06);
    assert_eq!(StackOp::Rot.opcode(), 0x07);
    assert_eq!(StackOp::Cmp.opcode(), 0x43);
    assert_eq!(MemOp::Load.opcode(), 0x8A);
    assert_eq!(MemOp::Store.opcode(), 0x8B);
    assert_eq!(MemOp::InsertStr(String::new()).opcode(), 0x8C);
    assert_eq!(Jump::Unconditional.opcode(), 0x6A);
    assert_eq!(Jump::Equal.opcode(), 0x6B);
    assert_eq!(Jump::Greater.opcode(), 0x6C);
    assert_eq!(Jump::Lesser.opcode(), 0x6D);
    assert_eq!(Jump::NotEqual.opcode(), 0x6E);
}

#[test]
fn jump_kinds_and_comparison_codes() {
    for code in [0u32, 1, 2, 3, 255, u32::MAX] {
        assert!(Jump::Unconditional.taken(code));
        assert_eq!(Jump::Equal.taken(code), code == 0);
        assert_eq!(Jump::NotEqual.taken(code), code != 0);
        assert_eq!(Jump::Greater.taken(code), code == 1);
        assert_eq!(Jump::Lesser.taken(code), code == 2);
    }
}
