use light_evm::evm::{Evm, EvmError, StepError};
use light_evm::opcode::{parse_bytecode, Opcode};

#[test]
fn test_simple_bytecode() {
    let bytecode = vec![
        0x60, 0x05, // PUSH 5
        0x60, 0x06, // PUSH 6
        0x01, // ADD
        0x60, 0x02, // PUSH 2
        0x02, // MUL
        0x00, // STOP
    ];

    let mut evm = Evm::new(bytecode, true, false);
    assert!(evm.execute().is_ok());
    assert_eq!(evm.stack, vec![22]);
}

#[test]
fn test_opcode_parsing() {
    assert_eq!(Opcode::from(&0x00), Some(Opcode::STOP));
    assert_eq!(Opcode::from(&0x01), Some(Opcode::ADD));
    assert_eq!(Opcode::from(&0x02), Some(Opcode::MUL));
    assert_eq!(Opcode::from(&0x60), Some(Opcode::PUSH1));
    assert_eq!(Opcode::from(&0x03), None);
    assert_eq!(Opcode::from(&0xFF), None);
}

#[test]
fn determinism_repeated_runs() {
    let code = vec![0x60, 0x05, 0x60, 0x06, 0x01, 0x60, 0x02, 0x02, 0x00];
    let mut first = Evm::new(code.clone(), false, false);
    let mut second = Evm::new(code, true, false);
    let r1 = first.execute();
    let r2 = second.execute();
    assert_eq!(r1, r2);
    assert_eq!(first.stack, second.stack);
    assert_eq!(first.pc, second.pc);
}

#[test]
fn wrapping_add_overflow() {
    let mut evm = Evm::new(vec![0x01, 0x00], false, false);
    evm.stack_push(0xFFFF_FFFF);
    evm.stack_push(1);
    assert!(evm.execute().is_ok());
    // (0xFFFFFFFF + 1) mod 2^32
    assert_eq!(evm.stack, vec![0]);
}

#[test]
fn wrapping_mul_overflow() {
    let mut evm = Evm::new(vec![0x02, 0x00], false, false);
    evm.stack_push(0xFFFF_FFFF);
    evm.stack_push(0xFFFF_FFFF);
    assert!(evm.execute().is_ok());
    // (2^32 - 1)^2 mod 2^32 == 1
    assert_eq!(evm.stack, vec![1]);
}

#[test]
fn underflow_empty_stack_unchanged() {
    let mut evm = Evm::new(vec![0x01, 0x00], false, false);
    assert_eq!(
        evm.step(),
        Err(StepError::Fault(EvmError::StackUnderflow))
    );
    assert_eq!(evm.stack, Vec::<u32>::new());
    assert_eq!(evm.pc, 0);
}

#[test]
fn underflow_one_element_stack_unchanged() {
    let mut evm = Evm::new(vec![0x02, 0x00], false, false);
    evm.stack_push(3);
    assert_eq!(
        evm.step(),
        Err(StepError::Fault(EvmError::StackUnderflow))
    );
    assert_eq!(evm.stack, vec![3]);
    assert_eq!(evm.pc, 0);
}

#[test]
fn push_immediate_zero_extends() {
    let mut evm = Evm::new(vec![0x60, 0xFF, 0x00], false, false);
    assert!(evm.execute().is_ok());
    assert_eq!(evm.stack, vec![255]);
}

#[test]
fn decode_closure_all_byte_values() {
    for b in 0..=255u8 {
        let supported = matches!(b, 0x00 | 0x01 | 0x02 | 0x60);
        assert_eq!(Opcode::from(&b).is_some(), supported);
        let evm = Evm::new(vec![b], false, false);
        if supported {
            assert!(evm.next_opcode().is_ok());
        } else {
            assert_eq!(evm.next_opcode(), Err(EvmError::InvalidOpcode));
        }
    }
}

#[test]
fn pc_advance_push_then_arithmetic() {
    let mut evm = Evm::new(vec![0x60, 0x07, 0x60, 0x08, 0x01, 0x00], false, false);
    assert_eq!(evm.step(), Ok(()));
    assert_eq!(evm.pc, 2);
    assert_eq!(evm.step(), Ok(()));
    assert_eq!(evm.pc, 4);
    assert_eq!(evm.next_opcode(), Ok(Opcode::ADD));
    assert_eq!(evm.step(), Ok(()));
    assert_eq!(evm.pc, 5);
    assert_eq!(evm.stack, vec![15]);
}

#[test]
fn halt_signalled_distinctly() {
    let mut evm = Evm::new(vec![0x00], false, false);
    assert_eq!(evm.step(), Err(StepError::Halted));
    assert_eq!(evm.pc, 0);
    assert_eq!(evm.stack, Vec::<u32>::new());
}

#[test]
fn scenario_add_on_empty_stack_fails() {
    let mut evm = Evm::new(vec![0x01, 0x00], false, false);
    assert_eq!(evm.execute(), Err(EvmError::StackUnderflow));
}

#[test]
fn scenario_unsupported_byte_fails() {
    let mut evm = Evm::new(vec![0xFF], false, false);
    assert_eq!(evm.execute(), Err(EvmError::InvalidOpcode));
}

#[test]
fn scenario_push_missing_operand_fails() {
    let mut evm = Evm::new(vec![0x60], false, false);
    assert_eq!(evm.execute(), Err(EvmError::InvalidOpcode));
}

#[test]
fn scenario_empty_code_fails() {
    let evm = Evm::new(Vec::new(), false, false);
    assert_eq!(evm.next_opcode(), Err(EvmError::InvalidOpcode));
    let mut evm = Evm::new(Vec::new(), false, false);
    assert_eq!(evm.execute(), Err(EvmError::InvalidOpcode));
}

#[test]
fn parse_bytecode_plain_and_prefixed() {
    assert_eq!(
        parse_bytecode("6005600601600202"),
        Ok(vec![0x60, 0x05, 0x60, 0x06, 0x01, 0x60, 0x02, 0x02])
    );
    assert_eq!(
        parse_bytecode("0x6005600601600202"),
        Ok(vec![0x60, 0x05, 0x60, 0x06, 0x01, 0x60, 0x02, 0x02])
    );
}

#[test]
fn parse_bytecode_mixed_case() {
    assert_eq!(parse_bytecode("0xff"), Ok(vec![0xFF]));
    assert_eq!(parse_bytecode("0xFF"), Ok(vec![0xFF]));
    assert_eq!(parse_bytecode("aAbB"), Ok(vec![0xAA, 0xBB]));
}

#[test]
fn parse_bytecode_rejects_whitespace() {
    // No normalization beyond the 0x marker: whitespace fails cleanly.
    assert_eq!(
        parse_bytecode("0x6005600601600202 00"),
        Err(EvmError::InvalidBytecode)
    );
}

#[test]
fn parse_bytecode_rejects_odd_length_and_bad_digits() {
    assert_eq!(parse_bytecode("0x0"), Err(EvmError::InvalidBytecode));
    assert_eq!(parse_bytecode("zz"), Err(EvmError::InvalidBytecode));
}

#[test]
fn parse_bytecode_empty_is_empty_code() {
    assert_eq!(parse_bytecode(""), Ok(Vec::new()));
    assert_eq!(parse_bytecode("0x"), Ok(Vec::new()));
}

#[test]
fn parsed_bytecode_runs_to_same_result() {
    let code = parse_bytecode("0x6005600601600202 00")
        .or_else(|_| parse_bytecode("0x600560060160020200"))
        .unwrap();
    let mut evm = Evm::new(code, false, false);
    assert!(evm.execute().is_ok());
    assert_eq!(evm.stack, vec![22]);
}
