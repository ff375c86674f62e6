use iongraph::model::{Block, Document, Function, Instruction, Pass};
use iongraph::render::{block_widths, push_successors, split_opcode};
use iongraph::scalar::Scalar;
use iongraph::text::{chars_of, dec_u64, string_of_chars};
use iongraph::format_document;

fn instr(id: u64, opcode: &str) -> Instruction {
    Instruction { id, opcode: opcode.to_string(), ty: Scalar::Null }
}

#[test]
fn opcode_splits_at_first_space_only() {
    let v = chars_of("mov r1 r2");
    let (m, o) = split_opcode(&v);
    assert_eq!((m, o), (3, 5));
    let v = chars_of("ret");
    let (m, o) = split_opcode(&v);
    assert_eq!((m, o), (3, 0));
    let v = chars_of("a  b");
    let (m, o) = split_opcode(&v);
    assert_eq!((m, o), (1, 2));
}

#[test]
fn widths_are_the_maxima_of_each_column() {
    let instrs = vec![instr(0, "ab x"), instr(1, "abcde yy"), instr(12, "abc z")];
    let (opw, orw) = block_widths(&instrs);
    assert_eq!(opw, 5);
    assert_eq!(orw, 2);
}

#[test]
fn mnemonics_are_padded_to_width_plus_five() {
    let doc = Document {
        functions: vec![Function {
            name: Scalar::Str("f".to_string()),
            passes: vec![Pass {
                name: Scalar::Str("p".to_string()),
                blocks: vec![Block {
                    number: Scalar::UInt(7),
                    instructions: vec![
                        instr(0, "ab x"),
                        instr(1, "abcde yy"),
                        instr(12, "abc z"),
                    ],
                    successors: vec![],
                }],
            }],
        }],
    };
    let out = format_document(&doc);
    let expected = "\n\nGraph for Function: f\n\n  After Ion Phase p\n\n\n      Block#7\n            0: ab         x       null\n            1: abcde      yy      null\n           12: abc        z       null\n";
    assert_eq!(out, expected);
}

#[test]
fn successor_summary_varies_by_arity() {
    let mut out: Vec<char> = Vec::new();
    push_successors(&mut out, &vec![]);
    assert_eq!(string_of_chars(&out), "");

    let mut out: Vec<char> = Vec::new();
    push_successors(&mut out, &vec![Scalar::UInt(4)]);
    assert_eq!(string_of_chars(&out), "          Successor: Block#4\n");

    let mut out: Vec<char> = Vec::new();
    push_successors(&mut out, &vec![Scalar::UInt(4), Scalar::UInt(9)]);
    assert_eq!(
        string_of_chars(&out),
        "          Successors: T:Block#4 F:Block#9\n"
    );

    let mut out: Vec<char> = Vec::new();
    push_successors(
        &mut out,
        &vec![Scalar::UInt(1), Scalar::UInt(2), Scalar::UInt(3)],
    );
    assert_eq!(string_of_chars(&out), "Successors: Block#1 Block#2 Block#3\n");
}

#[test]
fn decimal_rendering_of_ids() {
    assert_eq!(string_of_chars(&dec_u64(0)), "0");
    assert_eq!(string_of_chars(&dec_u64(10)), "10");
    assert_eq!(string_of_chars(&dec_u64(18446744073709551615)), "18446744073709551615");
}
