use tankvm::to_insts;
use tankvm::ArithOp;
use tankvm::Effect;
use tankvm::Inst;
use tankvm::Machine;
use tankvm::Value;
use tankvm::VmError;

/// Drives the machine, doing the IEEE-754 work and collecting every
/// flushed chunk, as the real front end would.
fn drive(machine: &mut Machine, keys: &mut Vec<(u64, [u8; 4])>) -> Result<Vec<String>, VmError> {
    let mut flushed: Vec<String> = Vec::new();
    while !machine.halted() {
        match machine.step()? {
            Effect::Quiet => {}
            Effect::NeedArith { op, cur, arg } => {
                let a = f64::from_bits(cur);
                let b = f64::from_bits(arg);
                let r = match op {
                    ArithOp::Add => a + b,
                    ArithOp::Sub => a - b,
                    ArithOp::Mul => a * b,
                    ArithOp::Div => a / b,
                };
                machine.provide_num(r.to_bits());
            }
            Effect::NeedEq { a, b } => {
                machine.provide_cond(f64::from_bits(a) == f64::from_bits(b))?
            }
            Effect::NeedGt { a, b } => {
                machine.provide_cond(f64::from_bits(a) > f64::from_bits(b))?
            }
            Effect::NeedLt { a, b } => {
                machine.provide_cond(f64::from_bits(a) < f64::from_bits(b))?
            }
            Effect::NeedText { bits } => {
                let s = format!("{}", f64::from_bits(bits));
                machine.provide_text(&s);
            }
            Effect::NeedKey => {
                let (count, k) = keys.remove(0);
                machine.provide_key(count, k[0], k[1], k[2], k[3]);
            }
            Effect::Flush { text } => flushed.push(text),
        }
    }
    Ok(flushed)
}

fn num(x: f64) -> Value {
    Value::Num(x.to_bits())
}

fn inst(opcode: u8, args: Vec<Value>) -> Inst {
    Inst { opcode, args }
}

#[test]
fn declare_print_flush_outputs_five() {
    let prog = vec![
        inst(0, vec![num(5.0)]),
        inst(254, vec![Value::Ptr(0)]),
        inst(255, vec![]),
    ];
    let mut m = Machine::new(prog);
    let flushed = drive(&mut m, &mut Vec::new()).unwrap();
    assert_eq!(flushed, vec!["5".to_string()]);
    assert!(m.halted());
}

#[test]
fn declare_then_print_reproduces_text() {
    let prog = vec![
        inst(0, vec![num(5.5)]),
        inst(254, vec![Value::Ptr(0)]),
        inst(255, vec![]),
    ];
    let mut m = Machine::new(prog);
    let flushed = drive(&mut m, &mut Vec::new()).unwrap();
    assert_eq!(flushed, vec!["5.5".to_string()]);
}

#[test]
fn divide_by_zero_prints_infinity() {
    let prog = vec![
        inst(0, vec![num(1.0)]),
        inst(5, vec![Value::Ptr(0), num(0.0)]),
        inst(254, vec![Value::Ptr(0)]),
        inst(255, vec![]),
    ];
    let mut m = Machine::new(prog);
    let flushed = drive(&mut m, &mut Vec::new()).unwrap();
    assert_eq!(flushed, vec!["inf".to_string()]);
}

#[test]
fn arithmetic_add_sub_mul() {
    let prog = vec![
        inst(0, vec![num(2.0)]),
        inst(2, vec![Value::Ptr(0), num(3.0)]),
        inst(4, vec![Value::Ptr(0), num(4.0)]),
        inst(3, vec![Value::Ptr(0), num(6.0)]),
        inst(254, vec![Value::Ptr(0)]),
        inst(255, vec![]),
    ];
    let mut m = Machine::new(prog);
    let flushed = drive(&mut m, &mut Vec::new()).unwrap();
    assert_eq!(flushed, vec!["14".to_string()]);
}

#[test]
fn print_resolves_pointer_chains() {
    // The value at address 0 is printed, not a pointer representation.
    let prog = vec![
        inst(0, vec![num(7.0)]),
        inst(254, vec![Value::Ptr(0)]),
        inst(255, vec![]),
    ];
    let mut m = Machine::new(prog);
    let flushed = drive(&mut m, &mut Vec::new()).unwrap();
    assert_eq!(flushed, vec!["7".to_string()]);
}

#[test]
fn number_and_byte_never_equal() {
    // JumpIfEqual on Number(2.0) and Byte(2) must fall through.
    let prog = vec![
        inst(7, vec![num(2.0), Value::Byte(2), Value::Uint(9)]),
        inst(254, vec![Value::Str("ne".to_string())]),
        inst(255, vec![]),
    ];
    let mut m = Machine::new(prog);
    let flushed = drive(&mut m, &mut Vec::new()).unwrap();
    assert_eq!(flushed, vec!["ne".to_string()]);
}

#[test]
fn jump_if_equal_numbers_taken() {
    let prog = vec![
        inst(7, vec![num(2.0), num(2.0), Value::Uint(2)]),
        inst(254, vec![Value::Str("skipped".to_string())]),
        inst(255, vec![]),
    ];
    let mut m = Machine::new(prog);
    let flushed = drive(&mut m, &mut Vec::new()).unwrap();
    assert_eq!(flushed, vec!["".to_string()]);
}

#[test]
fn jump_if_not_equal_strings() {
    let prog = vec![
        inst(
            8,
            vec![
                Value::Str("a".to_string()),
                Value::Str("b".to_string()),
                Value::Uint(2),
            ],
        ),
        inst(254, vec![Value::Str("skipped".to_string())]),
        inst(255, vec![]),
    ];
    let mut m = Machine::new(prog);
    let flushed = drive(&mut m, &mut Vec::new()).unwrap();
    assert_eq!(flushed, vec!["".to_string()]);
}

#[test]
fn jump_if_greater_and_less() {
    let prog = vec![
        inst(9, vec![num(3.0), num(2.0), Value::Uint(2)]),
        inst(254, vec![Value::Str("x".to_string())]),
        inst(10, vec![num(1.0), num(2.0), Value::Uint(5)]),
        inst(254, vec![Value::Str("y".to_string())]),
        inst(255, vec![]),
        inst(255, vec![]),
    ];
    // 9 jumps over the first print; 10 jumps over the second print and
    // the first flush, so only the empty flush at 5 is delivered.
    let mut m = Machine::new(prog);
    let flushed = drive(&mut m, &mut Vec::new()).unwrap();
    assert_eq!(flushed, vec!["".to_string()]);
}

#[test]
fn unconditional_jump_is_absolute() {
    let prog = vec![
        inst(6, vec![Value::Uint(2)]),
        inst(254, vec![Value::Str("skipped".to_string())]),
        inst(254, vec![Value::Str("ran".to_string())]),
        inst(255, vec![]),
    ];
    let mut m = Machine::new(prog);
    let flushed = drive(&mut m, &mut Vec::new()).unwrap();
    assert_eq!(flushed, vec!["ran".to_string()]);
}

#[test]
fn jump_past_end_halts() {
    let prog = vec![inst(6, vec![Value::Uint(100)]), inst(255, vec![])];
    let mut m = Machine::new(prog);
    let flushed = drive(&mut m, &mut Vec::new()).unwrap();
    assert_eq!(flushed, Vec::<String>::new());
    assert!(m.halted());
}

#[test]
fn set_overwrites_in_place() {
    let prog = vec![
        inst(0, vec![Value::Str("old".to_string())]),
        inst(1, vec![Value::Uint(0), Value::Str("new".to_string())]),
        inst(254, vec![Value::Ptr(0)]),
        inst(255, vec![]),
    ];
    let mut m = Machine::new(prog);
    let flushed = drive(&mut m, &mut Vec::new()).unwrap();
    assert_eq!(flushed, vec!["new".to_string()]);
    assert_eq!(m.load(0), Some(Value::Str("new".to_string())));
    assert_eq!(m.load(1), None);
}

#[test]
fn declare_resolves_its_argument() {
    // Declaring a Pointer stores the value it resolves to.
    let prog = vec![
        inst(0, vec![Value::Byte(9)]),
        inst(0, vec![Value::Ptr(0)]),
    ];
    let mut m = Machine::new(prog);
    drive(&mut m, &mut Vec::new()).unwrap();
    assert_eq!(m.load(1), Some(Value::Byte(9)));
}

#[test]
fn read_key_stores_count_and_bytes() {
    let prog = vec![
        inst(0, vec![Value::Uint(0)]),
        inst(0, vec![Value::Uint(0)]),
        inst(0, vec![Value::Uint(0)]),
        inst(0, vec![Value::Uint(0)]),
        inst(0, vec![Value::Uint(0)]),
        inst(253, vec![Value::Ptr(0)]),
        inst(254, vec![Value::Ptr(1)]),
        inst(255, vec![]),
    ];
    let mut m = Machine::new(prog);
    let mut keys = vec![(1u64, [27u8, 0, 0, 0])];
    let flushed = drive(&mut m, &mut keys).unwrap();
    assert_eq!(flushed, vec!["27".to_string()]);
    assert_eq!(m.load(0), Some(Value::Uint(1)));
    assert_eq!(m.load(1), Some(Value::Byte(27)));
    assert_eq!(m.load(4), Some(Value::Byte(0)));
}

#[test]
fn unknown_opcodes_are_ignored() {
    let prog = vec![
        inst(42, vec![]),
        inst(11, vec![Value::Ptr(0), Value::Uint(1)]),
        inst(254, vec![Value::Str("ok".to_string())]),
        inst(255, vec![]),
    ];
    let mut m = Machine::new(prog);
    let flushed = drive(&mut m, &mut Vec::new()).unwrap();
    assert_eq!(flushed, vec!["ok".to_string()]);
}

#[test]
fn output_is_buffered_until_flush() {
    let prog = vec![
        inst(254, vec![Value::Str("a".to_string())]),
        inst(254, vec![Value::Str("b".to_string())]),
        inst(255, vec![]),
        inst(254, vec![Value::Str("c".to_string())]),
    ];
    let mut m = Machine::new(prog);
    let flushed = drive(&mut m, &mut Vec::new()).unwrap();
    assert_eq!(flushed, vec!["ab".to_string()]);
    assert_eq!(m.pending_out(), "c");
}

#[test]
fn print_renders_each_variant() {
    let prog = vec![
        inst(254, vec![Value::Str("s".to_string())]),
        inst(254, vec![Value::Bool(true)]),
        inst(254, vec![Value::Bool(false)]),
        inst(254, vec![Value::Byte(200)]),
        inst(254, vec![Value::Uint(4)]),
        inst(255, vec![]),
    ];
    let mut m = Machine::new(prog);
    let flushed = drive(&mut m, &mut Vec::new()).unwrap();
    assert_eq!(flushed, vec!["struefalse200".to_string()]);
}

#[test]
fn arithmetic_on_non_number_fails() {
    let prog = vec![
        inst(0, vec![Value::Str("x".to_string())]),
        inst(2, vec![Value::Ptr(0), num(1.0)]),
    ];
    let mut m = Machine::new(prog);
    assert_eq!(drive(&mut m, &mut Vec::new()), Err(VmError::NotANumber));
}

#[test]
fn out_of_bounds_address_fails() {
    let prog = vec![inst(1, vec![Value::Uint(5), Value::Byte(1)])];
    let mut m = Machine::new(prog);
    assert_eq!(drive(&mut m, &mut Vec::new()), Err(VmError::OutOfBounds));
}

#[test]
fn dangling_pointer_fails() {
    let prog = vec![inst(0, vec![Value::Ptr(3)])];
    let mut m = Machine::new(prog);
    assert_eq!(drive(&mut m, &mut Vec::new()), Err(VmError::OutOfBounds));
}

#[test]
fn jump_target_must_be_raw_uint() {
    let prog = vec![inst(6, vec![num(1.0)])];
    let mut m = Machine::new(prog);
    assert_eq!(drive(&mut m, &mut Vec::new()), Err(VmError::BadJumpTarget));
}

#[test]
fn taken_branch_checks_its_target() {
    let prog = vec![inst(7, vec![num(2.0), num(2.0), num(3.0)])];
    let mut m = Machine::new(prog);
    assert_eq!(drive(&mut m, &mut Vec::new()), Err(VmError::BadJumpTarget));
}

#[test]
fn taken_branch_needs_a_target() {
    let prog = vec![inst(7, vec![num(2.0), num(2.0)])];
    let mut m = Machine::new(prog);
    assert_eq!(drive(&mut m, &mut Vec::new()), Err(VmError::MissingArg));
}

#[test]
fn untaken_branch_ignores_missing_target() {
    let prog = vec![inst(7, vec![num(2.0), num(3.0)]), inst(255, vec![])];
    let mut m = Machine::new(prog);
    assert_eq!(
        drive(&mut m, &mut Vec::new()),
        Ok(vec!["".to_string()])
    );
}

#[test]
fn missing_argument_fails() {
    let prog = vec![inst(0, vec![])];
    let mut m = Machine::new(prog);
    assert_eq!(drive(&mut m, &mut Vec::new()), Err(VmError::MissingArg));
}

#[test]
fn set_target_must_be_an_address() {
    let prog = vec![inst(1, vec![Value::Bool(true), Value::Byte(1)])];
    let mut m = Machine::new(prog);
    assert_eq!(drive(&mut m, &mut Vec::new()), Err(VmError::NotAnAddress));
}

#[test]
fn read_key_needs_five_addresses() {
    let prog = vec![
        inst(0, vec![Value::Uint(0)]),
        inst(253, vec![Value::Ptr(0)]),
    ];
    let mut m = Machine::new(prog);
    assert_eq!(drive(&mut m, &mut Vec::new()), Err(VmError::OutOfBounds));
}

#[test]
fn raw_bytes_to_output_end_to_end() {
    // A whole program in wire form: Declare Number(5.0); Print
    // Pointer(0); Flush.  Exactly "5" is delivered on the flush.
    let mut bytes = vec![0u8, 2, 8];
    bytes.extend_from_slice(&5.0f64.to_bits().to_be_bytes());
    bytes.push(0);
    bytes.extend_from_slice(&[254, 4, 8, 0, 0, 0, 0, 0, 0, 0, 0, 0]);
    bytes.extend_from_slice(&[255, 0]);
    let insts = to_insts(&bytes).unwrap();
    let mut m = Machine::new(insts);
    let flushed = drive(&mut m, &mut Vec::new()).unwrap();
    assert_eq!(flushed, vec!["5".to_string()]);
}

#[test]
fn empty_program_halts_immediately() {
    let mut m = Machine::new(Vec::new());
    assert!(m.halted());
    assert_eq!(drive(&mut m, &mut Vec::new()), Ok(Vec::new()));
    assert_eq!(m.pc(), 0);
}
