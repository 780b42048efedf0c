use jom::error::JomError;
use jom::instruction::{decode_instruction, decode_instructions, encode_instructions, write_instruction, AType, Instruction};

#[test]
fn lookupswitch_at_offset_five_has_three_padding_bytes() {
    let ins = Instruction::LookupSwitch { default: 0x10, npairs: 1, pairs: vec![(-1, 0x20)] };
    let mut out = Vec::new();
    write_instruction(&mut out, &ins, 5);
    assert_eq!(out[0], 0xab);
    assert_eq!(&out[1..4], &[0, 0, 0]);
    assert_eq!(&out[4..8], &[0, 0, 0, 0x10]);
    assert_eq!(&out[8..12], &[0, 0, 0, 1]);
    assert_eq!(&out[12..16], &[0xff, 0xff, 0xff, 0xff]);
    assert_eq!(&out[16..20], &[0, 0, 0, 0x20]);
    assert_eq!(out.len(), 20);
    // Read back from the same offset of a code array.
    let mut code = vec![0u8; 5];
    code.extend_from_slice(&out);
    let (back, end) = decode_instruction(&code, 5).unwrap();
    assert_eq!(end, code.len());
    match back {
        Instruction::LookupSwitch { default, npairs, pairs } => {
            assert_eq!(default, 0x10);
            assert_eq!(npairs, 1);
            assert_eq!(pairs, vec![(-1, 0x20)]);
        }
        _ => panic!("expected a lookupswitch"),
    }
}

#[test]
fn lookupswitch_at_aligned_offset_has_no_padding() {
    let ins = Instruction::LookupSwitch { default: 1, npairs: 0, pairs: vec![] };
    let mut out = Vec::new();
    write_instruction(&mut out, &ins, 4);
    assert_eq!(out, vec![0xab, 0, 0, 0, 1, 0, 0, 0, 0]);
}

#[test]
fn lookupswitch_nonzero_padding_is_malformed() {
    // At offset 1 three padding bytes follow the opcode; the first is not zero.
    let code = vec![0, 0xab, 1, 0, 0, 0, 0, 0, 0, 0, 0, 0, 0, 0, 0];
    assert!(matches!(decode_instruction(&code, 1), Err(JomError::Malformed)));
}

#[test]
fn stream_round_trip() {
    let code = vec![
        0x10, 0x05, // bipush 5
        0x11, 0x01, 0x00, // sipush 256
        0x84, 0x01, 0xff, // iinc 1, -1
        0xb9, 0x00, 0x03, 0x02, 0x00, // invokeinterface #3, 2
        0xba, 0x00, 0x04, 0x00, 0x00, // invokedynamic #4
        0xbc, 0x0a, // newarray int
        0xc5, 0x00, 0x02, 0x03, // multianewarray #2, 3
        0xc8, 0x00, 0x00, 0x00, 0x10, // goto_w 16
        0xb1, // return
    ];
    let v = decode_instructions(&code).unwrap();
    assert_eq!(v.len(), 9);
    assert!(matches!(v[0], (0, Instruction::BiPush(5))));
    assert!(matches!(v[1], (2, Instruction::Sipush(256))));
    assert!(matches!(v[2], (5, Instruction::IInc(1, 0xff))));
    assert!(matches!(v[3], (8, Instruction::InvokeInterface(3, 2))));
    assert!(matches!(v[4], (13, Instruction::InvokeDynamic(4))));
    assert!(matches!(v[5], (18, Instruction::NewArray(AType::Int))));
    assert!(matches!(v[6], (20, Instruction::MultiANewArray(2, 3))));
    assert!(matches!(v[7], (24, Instruction::GotoW(16))));
    assert!(matches!(v[8], (29, Instruction::Return)));
    assert_eq!(encode_instructions(&v), code);
}

#[test]
fn tableswitch_is_unsupported() {
    assert!(matches!(decode_instructions(&[0xaa, 0, 0, 0]), Err(JomError::UnsupportedOpcode(0xaa))));
}

#[test]
fn wide_is_unsupported() {
    assert!(matches!(decode_instructions(&[0xc4, 0x15, 0, 1]), Err(JomError::UnsupportedOpcode(0xc4))));
}

#[test]
fn invokeinterface_reserved_byte_checked() {
    assert!(matches!(decode_instructions(&[0xb9, 0, 1, 1, 7]), Err(JomError::Malformed)));
}

#[test]
fn truncated_operand_is_malformed() {
    assert!(matches!(decode_instructions(&[0x11, 0x01]), Err(JomError::Malformed)));
}

#[test]
fn bad_array_type_is_malformed() {
    assert!(matches!(decode_instructions(&[0xbc, 3]), Err(JomError::Malformed)));
}
