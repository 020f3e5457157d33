use wora::bytecode::Size;
use wora::error::ExecutionError;
use wora::memory::Memory;
use wora::register::{Register, RegisterFile};
use wora::stack::{Error, Stack};

#[test]
fn stack_push_pop_is_lifo() {
    let mut stack = Stack::new(16);
    stack.push(&[1, 2, 3]).unwrap();
    stack.push(&[4, 5]).unwrap();
    assert_eq!(stack.pop(2).unwrap(), vec![4, 5]);
    assert_eq!(stack.pop(3).unwrap(), vec![1, 2, 3]);
    assert_eq!(stack.len(), 0);
}

#[test]
fn stack_failed_push_keeps_length() {
    let mut stack = Stack::new(4);
    stack.push(&[1, 2, 3]).unwrap();
    assert_eq!(stack.push(&[4, 5]), Err(Error::StackOverflow));
    assert_eq!(stack.len(), 3);
    stack.push(&[4]).unwrap();
    assert_eq!(stack.len(), 4);
    assert_eq!(stack.push(&[]), Ok(()));
}

#[test]
fn stack_pop_and_peek_beyond_length_underflow() {
    let mut stack = Stack::new(8);
    stack.push(&[7, 8]).unwrap();
    assert_eq!(stack.pop(3), Err(Error::StackUnderflow));
    assert_eq!(stack.peek(3), Err(Error::StackUnderflow));
    assert_eq!(stack.peek_at(1, 2), Err(Error::StackUnderflow));
    assert_eq!(stack.len(), 2);
    assert_eq!(stack.peek(1).unwrap(), vec![8]);
    assert_eq!(stack.peek_at(1, 1).unwrap(), vec![7]);
    assert_eq!(stack.len(), 2);
    assert_eq!(stack.pop(0).unwrap(), Vec::<u8>::new());
}

#[test]
fn stack_pop_shrinks() {
    let mut stack = Stack::new(8);
    stack.push(&[1, 2, 3, 4]).unwrap();
    assert_eq!(stack.pop(1).unwrap(), vec![4]);
    assert_eq!(stack.pop(1).unwrap(), vec![3]);
    assert_eq!(stack.len(), 2);
}

#[test]
fn stack_error_messages() {
    assert_eq!(Error::StackOverflow.message(), "Stack Overflow");
    assert_eq!(Error::StackUnderflow.message(), "Stack Underflow");
}

#[test]
fn register_cell_operations() {
    let mut r = Register::new(8);
    assert_eq!(r.get(), &[0u8; 8]);
    assert_eq!(r.set(&[1, 2, 3]), Err(ExecutionError::InvalidWidth));
    assert_eq!(r.get(), &[0u8; 8]);
    assert_eq!(r.set(&[1, 2, 3, 4, 5, 6, 7, 8]), Ok(()));
    assert_eq!(r.get(), &[1, 2, 3, 4, 5, 6, 7, 8]);
    r.get_mut()[0] = 9;
    assert_eq!(r.get()[0], 9);
    r.load(Size::U16, 0xABCD);
    assert_eq!(r.get(), &[0xCD, 0xAB, 0, 0, 0, 0, 0, 0]);
}

#[test]
fn register_file_load_immediate_then_get() {
    let mut file = RegisterFile::new(256, 12);
    for (size, bytes) in [(Size::U8, 1usize), (Size::U16, 2), (Size::U32, 4), (Size::U64, 8), (Size::F32, 4), (Size::F64, 8)] {
        file.set(255, &[0xFF; 12]).unwrap();
        file.load_immediate(255, size, 0x0807_0605_0403_0201).unwrap();
        let cell = file.get(255).unwrap();
        let expected = &0x0807_0605_0403_0201u64.to_le_bytes()[..bytes];
        assert_eq!(&cell[..bytes], expected);
        assert!(cell[bytes..].iter().all(|b| *b == 0));
        assert_eq!(cell.len(), 12);
    }
}

#[test]
fn register_file_errors() {
    let mut file = RegisterFile::new(3, 8);
    assert_eq!(file.get(3).err(), Some(ExecutionError::InvalidRegister));
    assert_eq!(file.set(3, &[0; 8]), Err(ExecutionError::InvalidRegister));
    assert_eq!(file.set(0, &[0; 7]), Err(ExecutionError::InvalidWidth));
    assert_eq!(file.load_immediate(9, Size::U8, 1), Err(ExecutionError::InvalidRegister));
    assert_eq!(file.count(), 3);
    assert_eq!(file.width(), 8);
}

#[test]
fn memory_read_write() {
    let mut memory = Memory::new(4);
    assert_eq!(memory.read(0, 4).unwrap(), vec![0, 0, 0, 0]);
    memory.write(1, &[5, 6]).unwrap();
    assert_eq!(memory.read(0, 4).unwrap(), vec![0, 5, 6, 0]);
    assert_eq!(memory.write(3, &[1, 2]), Err(ExecutionError::OutOfBounds));
    assert_eq!(memory.read(3, 2), Err(ExecutionError::OutOfBounds));
    assert_eq!(memory.read(usize::MAX, 2), Err(ExecutionError::OutOfBounds));
    assert_eq!(memory.read(0, 4).unwrap(), vec![0, 5, 6, 0]);
}

#[test]
fn stack_lifo_with_long_pieces() {
    let b1: Vec<u8> = (0..300u32).map(|i| (i % 251) as u8).collect();
    let b2: Vec<u8> = (0..400u32).map(|i| (i % 7) as u8).collect();
    let mut stack = Stack::new(1000);
    stack.push(&[9]).unwrap();
    stack.push(&b1).unwrap();
    stack.push(&b2).unwrap();
    assert_eq!(stack.pop(b2.len()).unwrap(), b2);
    assert_eq!(stack.pop(b1.len()).unwrap(), b1);
    assert_eq!(stack.len(), 1);
    assert_eq!(stack.peek(1).unwrap(), vec![9]);
}
