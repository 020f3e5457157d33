use wora::bytecode::{Bytecode, Comparison, Size};
use wora::error::ExecutionError;
use wora::machine::{FloatKind, VirtualMachine};

fn machine_with(program: Vec<Bytecode>) -> VirtualMachine {
    let mut vm = VirtualMachine::new(256, 8, 64, 32).unwrap();
    vm.load_program(program);
    vm
}

fn run_steps(vm: &mut VirtualMachine, n: usize) {
    for _ in 0..n {
        assert_eq!(vm.step(), Ok(false));
    }
}

fn reg(vm: &VirtualMachine, r: u8) -> Vec<u8> {
    vm.register(r).unwrap().to_vec()
}

#[test]
fn construction_rejects_bad_configuration() {
    assert_eq!(VirtualMachine::new(0, 8, 64, 32).err(), Some(ExecutionError::InvalidConfiguration));
    assert_eq!(VirtualMachine::new(257, 8, 64, 32).err(), Some(ExecutionError::InvalidConfiguration));
    assert_eq!(VirtualMachine::new(16, 4, 64, 32).err(), Some(ExecutionError::InvalidConfiguration));
    assert_eq!(VirtualMachine::new(16, 8, 0, 32).err(), Some(ExecutionError::InvalidConfiguration));
    assert_eq!(VirtualMachine::new(16, 8, 64, 0).err(), Some(ExecutionError::InvalidConfiguration));
    assert!(VirtualMachine::new(256, 16, 1, 1).is_ok());
}

#[test]
fn fresh_machine_is_zeroed() {
    let vm = VirtualMachine::new(4, 8, 16, 8).unwrap();
    assert_eq!(reg(&vm, 3), vec![0u8; 8]);
    assert_eq!(vm.register(4).err(), Some(ExecutionError::InvalidRegister));
    assert_eq!(vm.read_memory(0, 8).unwrap(), vec![0u8; 8]);
    assert_eq!(vm.read_memory(1, 8).err(), Some(ExecutionError::OutOfBounds));
    assert_eq!(vm.counter(), 0);
    assert!(!vm.is_halted());
    assert!(vm.stack_bytes().is_empty());
}

#[test]
fn halt_stops_the_machine() {
    let mut vm = machine_with(vec![Bytecode::Halt, Bytecode::Load8(0, 1)]);
    assert_eq!(vm.step(), Ok(true));
    assert!(vm.is_halted());
    assert_eq!(vm.step(), Ok(true));
    assert_eq!(vm.counter(), 0);
    assert_eq!(reg(&vm, 0), vec![0u8; 8]);
}

#[test]
fn load_immediates_zero_fill_higher_bytes() {
    let mut vm = machine_with(vec![
        Bytecode::Load64(0, 0x0102_0304_0506_0708),
        Bytecode::Load8(0, 0xAB),
        Bytecode::Load64(1, u64::MAX),
        Bytecode::Load16(1, 0x1234),
        Bytecode::Load64(2, u64::MAX),
        Bytecode::Load32(2, 0xDEAD_BEEF),
    ]);
    run_steps(&mut vm, 1);
    assert_eq!(reg(&vm, 0), vec![8, 7, 6, 5, 4, 3, 2, 1]);
    run_steps(&mut vm, 5);
    assert_eq!(reg(&vm, 0), vec![0xAB, 0, 0, 0, 0, 0, 0, 0]);
    assert_eq!(reg(&vm, 1), vec![0x34, 0x12, 0, 0, 0, 0, 0, 0]);
    assert_eq!(reg(&vm, 2), vec![0xEF, 0xBE, 0xAD, 0xDE, 0, 0, 0, 0]);
}

#[test]
fn load_into_missing_register_fails() {
    let mut vm = VirtualMachine::new(2, 8, 16, 8).unwrap();
    vm.load_program(vec![Bytecode::Load8(2, 1)]);
    assert_eq!(vm.step(), Err(ExecutionError::InvalidRegister));
    assert_eq!(vm.counter(), 0);
}

#[test]
fn load_reg_copies_whole_cell() {
    let mut vm = machine_with(vec![Bytecode::Load64(1, 0x1122_3344_5566_7788), Bytecode::LoadReg(0, 1)]);
    run_steps(&mut vm, 2);
    assert_eq!(reg(&vm, 0), reg(&vm, 1));
    assert_eq!(vm.counter(), 2);
}

#[test]
fn load_mem_reads_and_zero_fills() {
    let mut vm = machine_with(vec![
        Bytecode::Load64(0, u64::MAX),
        Bytecode::LoadMem(0, 2, Size::U16),
        Bytecode::LoadMem(1, 31, Size::U16),
    ]);
    vm.write_memory(2, &[0x34, 0x12, 0x99]).unwrap();
    assert_eq!(vm.write_memory(31, &[1, 2]), Err(ExecutionError::OutOfBounds));
    run_steps(&mut vm, 2);
    assert_eq!(reg(&vm, 0), vec![0x34, 0x12, 0, 0, 0, 0, 0, 0]);
    assert_eq!(vm.step(), Err(ExecutionError::OutOfBounds));
    assert_eq!(vm.counter(), 2);
}

#[test]
fn load_stack_peeks_below_top() {
    let mut vm = machine_with(vec![
        Bytecode::Call(1),
        Bytecode::LoadStack(0, 0, Size::U8),
        Bytecode::LoadStack(1, 7, Size::U16),
    ]);
    run_steps(&mut vm, 2);
    // the return position 1 sits on the stack as eight little-endian bytes
    assert_eq!(reg(&vm, 0), vec![0u8; 8]);
    assert_eq!(vm.stack_bytes(), vec![1, 0, 0, 0, 0, 0, 0, 0]);
    assert_eq!(vm.step(), Err(ExecutionError::StackUnderflow));
    assert_eq!(vm.stack_bytes().len(), 8);
}

#[test]
fn cmp_equal_then_jmp_if_jumps() {
    let mut vm = machine_with(vec![
        Bytecode::Load8(0, 5),
        Bytecode::Load8(1, 5),
        Bytecode::Cmp(0, 1, Comparison::Equal, Size::U8),
        Bytecode::JmpIf(Comparison::Equal, 6),
        Bytecode::Halt,
        Bytecode::Halt,
        Bytecode::Halt,
    ]);
    run_steps(&mut vm, 3);
    assert_eq!(vm.last_comparison(), Some((Comparison::Equal, true)));
    assert_eq!(reg(&vm, 0)[0], 5);
    assert_eq!(reg(&vm, 1)[0], 5);
    run_steps(&mut vm, 1);
    assert_eq!(vm.counter(), 6);
}

#[test]
fn cmp_unequal_then_jmp_if_advances() {
    let mut vm = machine_with(vec![
        Bytecode::Load8(0, 5),
        Bytecode::Load8(1, 6),
        Bytecode::Cmp(0, 1, Comparison::Equal, Size::U8),
        Bytecode::JmpIf(Comparison::Equal, 6),
        Bytecode::Halt,
        Bytecode::Halt,
        Bytecode::Halt,
    ]);
    run_steps(&mut vm, 3);
    assert_eq!(vm.last_comparison(), Some((Comparison::Equal, false)));
    run_steps(&mut vm, 1);
    assert_eq!(vm.counter(), 4);
}

#[test]
fn comparisons_evaluate_each_predicate() {
    let cases = [
        (Comparison::Equal, false),
        (Comparison::NotEqual, true),
        (Comparison::LessThan, true),
        (Comparison::LessThanOrEqual, true),
        (Comparison::GreaterThan, false),
        (Comparison::GreaterThanOrEqual, false),
    ];
    for (cmp, expected) in cases {
        let mut vm = machine_with(vec![
            Bytecode::Load16(0, 300),
            Bytecode::Load16(1, 301),
            Bytecode::Cmp(0, 1, cmp, Size::U16),
        ]);
        run_steps(&mut vm, 3);
        assert_eq!(vm.last_comparison(), Some((cmp, expected)));
    }
}

#[test]
fn jmp_if_with_other_comparison_fails() {
    let mut vm = machine_with(vec![
        Bytecode::Cmp(0, 1, Comparison::Equal, Size::U8),
        Bytecode::JmpIf(Comparison::NotEqual, 0),
    ]);
    run_steps(&mut vm, 1);
    assert_eq!(vm.step(), Err(ExecutionError::InvalidOperation));
    assert_eq!(vm.counter(), 1);
}

#[test]
fn jmp_if_without_comparison_fails() {
    let mut vm = machine_with(vec![Bytecode::JmpIf(Comparison::Equal, 0)]);
    assert_eq!(vm.step(), Err(ExecutionError::InvalidOperation));
    assert_eq!(vm.counter(), 0);
}

#[test]
fn add_wraps_at_every_width() {
    let cases: [(Bytecode, Bytecode, Size, u64); 4] = [
        (Bytecode::Load8(0, 250), Bytecode::Load8(1, 10), Size::U8, 4),
        (Bytecode::Load16(0, 65530), Bytecode::Load16(1, 10), Size::U16, 4),
        (Bytecode::Load32(0, u32::MAX - 5), Bytecode::Load32(1, 10), Size::U32, 4),
        (Bytecode::Load64(0, u64::MAX - 5), Bytecode::Load64(1, 10), Size::U64, 4),
    ];
    for (a, b, size, expected) in cases {
        let mut vm = machine_with(vec![a, b, Bytecode::Add(0, 1, size)]);
        run_steps(&mut vm, 3);
        assert_eq!(reg(&vm, 0), expected.to_le_bytes().to_vec());
    }
}

#[test]
fn add_reads_only_low_bytes() {
    let mut vm = machine_with(vec![
        Bytecode::Load64(0, 0xFF00_0000_0000_00FA),
        Bytecode::Load8(1, 10),
        Bytecode::Add(0, 1, Size::U8),
    ]);
    run_steps(&mut vm, 3);
    assert_eq!(reg(&vm, 0), vec![4, 0, 0, 0, 0, 0, 0, 0]);
}

fn binary(op: fn(u8, u8, Size) -> Bytecode, a: u64, b: u64, size: Size) -> Result<Vec<u8>, ExecutionError> {
    let mut vm = machine_with(vec![Bytecode::Load64(0, a), Bytecode::Load64(1, b), op(0, 1, size)]);
    run_steps(&mut vm, 2);
    vm.step()?;
    Ok(reg(&vm, 0))
}

fn value(bytes: Vec<u8>) -> u64 {
    let mut b = [0u8; 8];
    b.copy_from_slice(&bytes);
    u64::from_le_bytes(b)
}

#[test]
fn arithmetic_results() {
    assert_eq!(value(binary(Bytecode::Sub, 3, 5, Size::U8).unwrap()), 254);
    assert_eq!(value(binary(Bytecode::Sub, 3, 5, Size::U64).unwrap()), u64::MAX - 1);
    assert_eq!(value(binary(Bytecode::Mult, 200, 3, Size::U8).unwrap()), 88);
    assert_eq!(value(binary(Bytecode::Mult, u64::MAX, u64::MAX, Size::U64).unwrap()), 1);
    assert_eq!(value(binary(Bytecode::Div, 100, 7, Size::U32).unwrap()), 14);
    assert_eq!(value(binary(Bytecode::Mod, 100, 7, Size::U32).unwrap()), 2);
}

#[test]
fn div_by_zero_fails_and_keeps_destination() {
    let mut vm = machine_with(vec![
        Bytecode::Load32(0, 1234),
        Bytecode::Load32(1, 0),
        Bytecode::Div(0, 1, Size::U32),
    ]);
    run_steps(&mut vm, 2);
    assert_eq!(vm.step(), Err(ExecutionError::DivisionByZero));
    assert_eq!(value(reg(&vm, 0)), 1234);
    assert_eq!(vm.counter(), 2);
    assert_eq!(binary(Bytecode::Mod, 5, 0, Size::U8), Err(ExecutionError::DivisionByZero));
}

#[test]
fn shifts_and_bitwise() {
    assert_eq!(value(binary(Bytecode::LShift, 0x81, 1, Size::U8).unwrap()), 0x02);
    assert_eq!(value(binary(Bytecode::ALShift, 0x81, 1, Size::U8).unwrap()), 0x02);
    assert_eq!(value(binary(Bytecode::RShift, 0x80, 3, Size::U8).unwrap()), 0x10);
    assert_eq!(value(binary(Bytecode::ARShift, 0x80, 3, Size::U8).unwrap()), 0xF0);
    assert_eq!(value(binary(Bytecode::ARShift, 0x40, 3, Size::U8).unwrap()), 0x08);
    assert_eq!(value(binary(Bytecode::ARShift, u64::MAX, 63, Size::U64).unwrap()), u64::MAX);
    // shift amounts wrap at the operand's bit width
    assert_eq!(value(binary(Bytecode::LShift, 1, 9, Size::U8).unwrap()), 2);
    assert_eq!(value(binary(Bytecode::And, 0b1100, 0b1010, Size::U8).unwrap()), 0b1000);
    assert_eq!(value(binary(Bytecode::Or, 0b1100, 0b1010, Size::U8).unwrap()), 0b1110);
    assert_eq!(value(binary(Bytecode::Xor, 0b1100, 0b1010, Size::U8).unwrap()), 0b0110);
    let mut vm = machine_with(vec![Bytecode::Load16(0, 0x00FF), Bytecode::Not(0, Size::U16)]);
    run_steps(&mut vm, 2);
    assert_eq!(reg(&vm, 0), vec![0x00, 0xFF, 0, 0, 0, 0, 0, 0]);
}

#[test]
fn float_sizes_are_rejected_by_integer_operations() {
    assert_eq!(binary(Bytecode::LShift, 1, 1, Size::F32), Err(ExecutionError::InvalidOperation));
    assert_eq!(binary(Bytecode::And, 1, 1, Size::F64), Err(ExecutionError::InvalidOperation));
    let mut vm = machine_with(vec![Bytecode::Not(0, Size::F32)]);
    assert_eq!(vm.step(), Err(ExecutionError::InvalidOperation));
}

#[test]
fn call_then_ret_returns_after_call() {
    let mut program = vec![Bytecode::Halt; 6];
    program[2] = Bytecode::Call(5);
    program[5] = Bytecode::Ret;
    program[0] = Bytecode::Jmp(2);
    let mut vm = machine_with(program);
    run_steps(&mut vm, 1);
    assert_eq!(vm.counter(), 2);
    run_steps(&mut vm, 1);
    assert_eq!(vm.counter(), 5);
    assert_eq!(vm.stack_bytes(), vec![3, 0, 0, 0, 0, 0, 0, 0]);
    run_steps(&mut vm, 1);
    assert_eq!(vm.counter(), 3);
    assert!(vm.stack_bytes().is_empty());
}

#[test]
fn ret_on_empty_stack_underflows() {
    let mut vm = machine_with(vec![Bytecode::Ret]);
    assert_eq!(vm.step(), Err(ExecutionError::StackUnderflow));
    assert_eq!(vm.counter(), 0);
}

#[test]
fn call_beyond_stack_capacity_overflows() {
    let mut vm = VirtualMachine::new(4, 8, 12, 4).unwrap();
    vm.load_program(vec![Bytecode::Call(1), Bytecode::Call(1)]);
    assert_eq!(vm.step(), Ok(false));
    assert_eq!(vm.step(), Err(ExecutionError::StackOverflow));
    assert_eq!(vm.counter(), 1);
    assert_eq!(vm.stack_bytes().len(), 8);
}

#[test]
fn targets_outside_program_fail() {
    for instruction in [
        Bytecode::Jmp(3),
        Bytecode::Call(7),
        Bytecode::JmpIf(Comparison::Equal, 3),
    ] {
        let mut vm = machine_with(vec![Bytecode::Cmp(0, 0, Comparison::Equal, Size::U8), instruction, Bytecode::Halt]);
        run_steps(&mut vm, 1);
        assert_eq!(vm.step(), Err(ExecutionError::InvalidTarget));
        assert_eq!(vm.counter(), 1);
        assert!(vm.stack_bytes().is_empty());
    }
}

#[test]
fn running_off_the_end_fails() {
    let mut vm = machine_with(vec![Bytecode::Load8(0, 1)]);
    run_steps(&mut vm, 1);
    assert_eq!(vm.step(), Err(ExecutionError::InvalidTarget));
}

#[test]
fn run_for_stops_at_halt_or_budget() {
    let mut vm = machine_with(vec![Bytecode::Load8(0, 1), Bytecode::Add(0, 0, Size::U8), Bytecode::Halt]);
    assert_eq!(vm.run_for(2), Ok(false));
    assert_eq!(vm.counter(), 2);
    assert_eq!(vm.run_for(10), Ok(true));
    assert_eq!(reg(&vm, 0)[0], 2);
    let mut looping = machine_with(vec![Bytecode::Jmp(0)]);
    assert_eq!(looping.run_for(100), Ok(false));
    let mut failing = machine_with(vec![Bytecode::Ret]);
    assert_eq!(failing.run_for(5), Err(ExecutionError::StackUnderflow));
}

#[test]
fn load_program_restarts_but_keeps_state() {
    let mut vm = machine_with(vec![Bytecode::Load8(0, 9), Bytecode::Halt]);
    assert_eq!(vm.run_for(5), Ok(true));
    vm.load_program(vec![Bytecode::Add(0, 0, Size::U8)]);
    assert!(!vm.is_halted());
    assert_eq!(vm.counter(), 0);
    assert_eq!(vm.last_comparison(), None);
    assert_eq!(vm.step(), Ok(false));
    assert_eq!(reg(&vm, 0)[0], 18);
}

#[test]
fn float_division_by_zero_is_left_to_the_host() {
    let mut vm = machine_with(vec![
        Bytecode::Load32(0, 1.5f32.to_bits()),
        Bytecode::Load32(1, 0.0f32.to_bits()),
        Bytecode::Div(0, 1, Size::F32),
    ]);
    run_steps(&mut vm, 2);
    assert_eq!(vm.step(), Err(ExecutionError::InvalidOperation));
    let op = vm.pending_float().unwrap();
    assert_eq!(op.kind, FloatKind::Div);
    assert_eq!(op.destination, 0);
    let a = f32::from_bits(op.lhs as u32);
    let b = f32::from_bits(op.rhs as u32);
    let result = a / b;
    assert_eq!(result, f32::INFINITY);
    assert_eq!(vm.complete_float(result.to_bits() as u64), Ok(false));
    let cell = reg(&vm, 0);
    assert_eq!(f32::from_bits(u32::from_le_bytes([cell[0], cell[1], cell[2], cell[3]])), f32::INFINITY);
    assert_eq!(&cell[4..], &[0, 0, 0, 0]);
    assert_eq!(vm.counter(), 3);
    assert_eq!(vm.pending_float(), None);
}

#[test]
fn float_comparison_is_completed_by_the_host() {
    let mut vm = machine_with(vec![
        Bytecode::Load64(0, 2.0f64.to_bits()),
        Bytecode::Load64(1, 3.0f64.to_bits()),
        Bytecode::Cmp(0, 1, Comparison::LessThan, Size::F64),
        Bytecode::JmpIf(Comparison::LessThan, 0),
    ]);
    run_steps(&mut vm, 2);
    assert_eq!(vm.complete_float(0), Err(ExecutionError::InvalidOperation));
    let op = vm.pending_float().unwrap();
    assert_eq!(op.kind, FloatKind::Compare(Comparison::LessThan));
    assert!(f64::from_bits(op.lhs) < f64::from_bits(op.rhs));
    assert_eq!(vm.complete_float_comparison(true), Ok(false));
    assert_eq!(vm.last_comparison(), Some((Comparison::LessThan, true)));
    run_steps(&mut vm, 1);
    assert_eq!(vm.counter(), 0);
}

#[test]
fn completing_without_pending_float_fails() {
    let mut vm = machine_with(vec![Bytecode::Add(0, 1, Size::U8)]);
    assert_eq!(vm.pending_float(), None);
    assert_eq!(vm.complete_float(1), Err(ExecutionError::InvalidOperation));
    assert_eq!(vm.complete_float_comparison(true), Err(ExecutionError::InvalidOperation));
    assert_eq!(vm.counter(), 0);
}
