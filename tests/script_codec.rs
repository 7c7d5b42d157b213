use bitcoin_scripts::error::{CompileFault, SpendError};
use bitcoin_scripts::script::{build_script, int_instruction, parse_script, Instruction, OP_CHECKSIG};

fn encode_one(i: Instruction) -> Vec<u8> {
    build_script(&vec![i]).unwrap()
}

#[test]
fn small_integers_use_single_opcodes() {
    assert_eq!(encode_one(int_instruction(0)), vec![0x00]);
    assert_eq!(encode_one(int_instruction(1)), vec![0x51]);
    assert_eq!(encode_one(int_instruction(16)), vec![0x60]);
}

#[test]
fn larger_integers_push_minimal_script_numbers() {
    assert_eq!(encode_one(int_instruction(17)), vec![0x01, 0x11]);
    assert_eq!(encode_one(int_instruction(127)), vec![0x01, 0x7f]);
    assert_eq!(encode_one(int_instruction(128)), vec![0x02, 0x80, 0x00]);
    assert_eq!(encode_one(int_instruction(200)), vec![0x02, 0xc8, 0x00]);
    assert_eq!(encode_one(int_instruction(500)), vec![0x02, 0xf4, 0x01]);
    assert_eq!(encode_one(int_instruction(0xffff_ffff)), vec![0x05, 0xff, 0xff, 0xff, 0xff, 0x00]);
}

#[test]
fn integers_match_rust_bitcoin_builder() {
    for n in [0u32, 1, 10, 16, 17, 200, 500, 65535, 65536, 499_999_999, 500_000_000] {
        let ours = encode_one(int_instruction(n));
        let theirs = bitcoin::blockdata::script::Builder::new().push_int(n as i64).into_script();
        assert_eq!(ours, theirs.to_bytes(), "n = {}", n);
    }
}

#[test]
fn data_pushes_pick_the_smallest_opcode() {
    let d75 = vec![7u8; 75];
    let e = encode_one(Instruction::Push(d75.clone()));
    assert_eq!(e[0], 75);
    assert_eq!(e.len(), 76);
    let d76 = vec![7u8; 76];
    let e = encode_one(Instruction::Push(d76));
    assert_eq!(&e[..2], &[0x4c, 76]);
    let d255 = vec![7u8; 255];
    let e = encode_one(Instruction::Push(d255));
    assert_eq!(&e[..2], &[0x4c, 0xff]);
    let d256 = vec![7u8; 256];
    let e = encode_one(Instruction::Push(d256));
    assert_eq!(&e[..3], &[0x4d, 0x00, 0x01]);
    assert_eq!(e.len(), 259);
}

#[test]
fn scripts_over_the_size_limit_are_refused() {
    let big = vec![Instruction::Push(vec![1u8; 5000]), Instruction::Push(vec![2u8; 5000])];
    assert_eq!(build_script(&big), Err(SpendError::CompileError(CompileFault::ScriptTooLong)));
    let fits = vec![Instruction::Push(vec![1u8; 4990]), Instruction::Push(vec![2u8; 4990])];
    assert_eq!(build_script(&fits).unwrap().len(), 3 + 4990 + 3 + 4990);
}

#[test]
fn parsing_then_serializing_gives_the_same_bytes() {
    let ins = vec![
        int_instruction(200),
        Instruction::Op(0xb1),
        Instruction::Op(0x75),
        Instruction::Push(vec![9u8; 32]),
        Instruction::Op(OP_CHECKSIG),
        Instruction::Push(vec![3u8; 300]),
        Instruction::Push(vec![]),
    ];
    let bytes = build_script(&ins).unwrap();
    let parsed = parse_script(&bytes).unwrap();
    assert_eq!(parsed, ins);
    assert_eq!(build_script(&parsed).unwrap(), bytes);
}

#[test]
fn parse_refuses_truncated_and_non_minimal_pushes() {
    assert_eq!(parse_script(&[0x05, 1, 2]), None);
    assert_eq!(parse_script(&[0x4c, 0x05, 1, 2, 3, 4, 5]), None);
    assert_eq!(parse_script(&[0x4d, 0x10, 0x00]), None);
    assert_eq!(parse_script(&[]), Some(vec![]));
    assert_eq!(parse_script(&[0x00]), Some(vec![Instruction::Push(vec![])]));
}
