use tankvm::encode_inst;
use tankvm::to_insts;
use tankvm::DecodeError;
use tankvm::Inst;
use tankvm::Value;

fn be(x: u64) -> [u8; 8] {
    x.to_be_bytes()
}

#[test]
fn decode_declare_number() {
    let mut bytes = vec![0u8, 2, 8];
    bytes.extend_from_slice(&be(5.0f64.to_bits()));
    bytes.push(0);
    let insts = to_insts(&bytes).unwrap();
    assert_eq!(insts.len(), 1);
    assert_eq!(insts[0].opcode, 0);
    assert_eq!(insts[0].args, vec![Value::Num(5.0f64.to_bits())]);
}

#[test]
fn decode_string_argument() {
    let bytes = vec![254u8, 1, 3, b'a', b'b', b'c', 0];
    let insts = to_insts(&bytes).unwrap();
    assert_eq!(insts[0].opcode, 254);
    assert_eq!(insts[0].args, vec![Value::Str("abc".to_string())]);
}

#[test]
fn decode_empty_string_argument() {
    let bytes = vec![0u8, 1, 0, 0];
    let insts = to_insts(&bytes).unwrap();
    assert_eq!(insts[0].args, vec![Value::Str(String::new())]);
}

#[test]
fn decode_bool_pointer_byte_uint() {
    let mut bytes = vec![1u8, 4];
    bytes.push(8);
    bytes.extend_from_slice(&be(7));
    bytes.extend_from_slice(&[3, 1, 1]);
    bytes.extend_from_slice(&[5, 1, 200]);
    bytes.push(6);
    bytes.push(8);
    bytes.extend_from_slice(&be(9));
    bytes.push(0);
    let insts = to_insts(&bytes).unwrap();
    assert_eq!(
        insts[0].args,
        vec![
            Value::Ptr(7),
            Value::Bool(true),
            Value::Byte(200),
            Value::Uint(9),
        ]
    );
}

#[test]
fn decode_bool_any_other_byte_is_false() {
    let bytes = vec![0u8, 3, 1, 2, 0];
    let insts = to_insts(&bytes).unwrap();
    assert_eq!(insts[0].args, vec![Value::Bool(false)]);
}

#[test]
fn decode_zero_arg_instruction() {
    let bytes = vec![255u8, 0];
    let insts = to_insts(&bytes).unwrap();
    assert_eq!(insts[0].opcode, 255);
    assert_eq!(insts[0].args, Vec::<Value>::new());
}

#[test]
fn decode_several_instructions() {
    let mut bytes = vec![0u8, 2, 8];
    bytes.extend_from_slice(&be(1.5f64.to_bits()));
    bytes.push(0);
    bytes.extend_from_slice(&[254, 4, 8]);
    bytes.extend_from_slice(&be(0));
    bytes.push(0);
    bytes.extend_from_slice(&[255, 0]);
    let insts = to_insts(&bytes).unwrap();
    assert_eq!(insts.len(), 3);
    assert_eq!(insts[1].args, vec![Value::Ptr(0)]);
    assert_eq!(insts[2].opcode, 255);
}

#[test]
fn decode_empty_stream() {
    let insts = to_insts(&Vec::new()).unwrap();
    assert_eq!(insts.len(), 0);
}

#[test]
fn decode_rejects_bad_utf8() {
    let bytes = vec![0u8, 1, 1, 0xFF, 0];
    assert_eq!(to_insts(&bytes), Err(DecodeError::BadUtf8));
}

#[test]
fn decode_rejects_inconsistent_length() {
    let bytes = vec![0u8, 2, 4, 1, 2, 3, 4, 0];
    assert_eq!(to_insts(&bytes), Err(DecodeError::BadLength));
}

#[test]
fn decode_rejects_truncation_inside_payload() {
    let bytes = vec![0u8, 2, 8, 1, 2];
    assert_eq!(to_insts(&bytes), Err(DecodeError::Truncated));
}

#[test]
fn decode_rejects_mid_instruction_end() {
    let bytes = vec![0u8];
    assert_eq!(to_insts(&bytes), Err(DecodeError::Truncated));
}

#[test]
fn round_trip_every_variant() {
    let original = Inst {
        opcode: 7,
        args: vec![
            Value::Str("héllo".to_string()),
            Value::Num(2.5f64.to_bits()),
            Value::Bool(true),
            Value::Ptr(3),
            Value::Byte(0),
            Value::Uint(u64::MAX),
        ],
    };
    let bytes = encode_inst(&original).unwrap();
    let insts = to_insts(&bytes).unwrap();
    assert_eq!(insts.len(), 1);
    assert_eq!(insts[0].opcode, original.opcode);
    assert_eq!(insts[0].args, original.args);
}

#[test]
fn round_trip_empty_string_and_no_args() {
    let a = Inst {
        opcode: 0,
        args: vec![Value::Str(String::new())],
    };
    let b = Inst {
        opcode: 255,
        args: vec![],
    };
    let mut bytes = encode_inst(&a).unwrap();
    bytes.extend_from_slice(&encode_inst(&b).unwrap());
    let insts = to_insts(&bytes).unwrap();
    assert_eq!(insts.len(), 2);
    assert_eq!(insts[0].args, a.args);
    assert_eq!(insts[1].opcode, 255);
}

#[test]
fn encode_rejects_overlong_string() {
    let long = "x".repeat(256);
    let i = Inst {
        opcode: 0,
        args: vec![Value::Str(long)],
    };
    assert_eq!(encode_inst(&i), None);
    let edge = "x".repeat(255);
    let j = Inst {
        opcode: 0,
        args: vec![Value::Str(edge)],
    };
    assert!(encode_inst(&j).is_some());
}
