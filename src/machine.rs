//! The execution engine: state, the meaning of one step, and the machine
//! that carries it out.
use vstd::prelude::*;
use crate::alu::{binary, binary_result, complement, divides, not_result, BinaryOp};
use crate::bytecode::{compare, is_integer, size_bytes, Bytecode, Comparison, Size};
use crate::encoding::{
    decode_le,
    encode_le,
    le_bytes,
    pow256,
    le_value,
    lemma_decode_encode,
    lemma_le_value_bound,
    lemma_pow256_positive,
    lemma_pow256_values,
    widen,
    zero_fill,
};
use crate::error::ExecutionError;
use crate::memory::Memory;
use crate::register::{lemma_load_then_get, loaded, RegisterFile};
use crate::stack::{spec_peek, spec_pop, spec_push, Stack};

verus! {

/// Number of bytes a return position takes on the stack.
pub const RETURN_BYTES: usize = 8;

/// Narrowest register width the machine accepts: the widest operand.
pub const MIN_REGISTER_WIDTH: usize = 8;

/// Most registers an 8-bit index can reach.
pub const MAX_REGISTERS: usize = 256;

/// The whole state of a machine, as mathematical values.
pub struct MachineView {
    pub registers: Seq<Seq<u8>>,
    pub width: nat,
    pub stack: Seq<u8>,
    pub stack_capacity: nat,
    pub memory: Seq<u8>,
    pub program: Seq<Bytecode>,
    pub counter: nat,
    /// The comparison last evaluated by `Cmp`, and whether it held.
    pub last: Option<(Comparison, bool)>,
    pub halted: bool,
}

/// Whether `r` names a register of `m`.
pub open spec fn has_register(m: MachineView, r: u8) -> bool {
    (r as nat) < m.registers.len()
}

/// The unsigned value of the low bytes of register `r` that `size` covers.
pub open spec fn operand(m: MachineView, r: u8, size: Size) -> nat {
    le_value(m.registers[r as int].subrange(0, size_bytes(size) as int))
}

/// `m` moved on to the next instruction.
pub open spec fn advance(m: MachineView) -> MachineView {
    MachineView { counter: m.counter + 1, ..m }
}

/// `m` with register `r` replaced by `bytes`, moved on to the next instruction.
pub open spec fn write_and_advance(m: MachineView, r: u8, bytes: Seq<u8>) -> MachineView {
    advance(MachineView { registers: m.registers.update(r as int, bytes), ..m })
}

/// Loading `value` at `size` into register `r`.
pub open spec fn load_spec(m: MachineView, r: u8, size: Size, value: nat) -> (
    MachineView,
    Result<bool, ExecutionError>,
) {
    if !has_register(m, r) {
        (m, Err(ExecutionError::InvalidRegister))
    } else {
        (write_and_advance(m, r, loaded(m.width, size, value)), Ok(false))
    }
}

/// A two-operand integer operation whose result replaces register `d`.
pub open spec fn binary_spec(m: MachineView, op: BinaryOp, d: u8, s: u8, size: Size) -> (
    MachineView,
    Result<bool, ExecutionError>,
) {
    if !has_register(m, d) || !has_register(m, s) {
        (m, Err(ExecutionError::InvalidRegister))
    } else if !is_integer(size) {
        (m, Err(ExecutionError::InvalidOperation))
    } else if divides(op) && operand(m, s, size) == 0 {
        (m, Err(ExecutionError::DivisionByZero))
    } else {
        let v = binary_result(op, operand(m, d, size), operand(m, s, size), size_bytes(size));
        (write_and_advance(m, d, loaded(m.width, size, v)), Ok(false))
    }
}

/// What one step does to `m`: the state after it, and whether the machine
/// has halted or which error stopped it. On an error the state is `m`.
///
/// Integer results wrap around at the operand's width. Arithmetic and
/// comparison at a float size are refused here with `InvalidOperation`: the
/// host carries them out through `pending_float`. A `JmpIf` whose comparison
/// differs from the last `Cmp`'s fails rather than falling through, and a
/// return position outside the program is an invalid target, as for `Jmp`.
pub open spec fn step_spec(m: MachineView) -> (MachineView, Result<bool, ExecutionError>) {
    if m.halted {
        (m, Ok(true))
    } else if m.counter >= m.program.len() {
        (m, Err(ExecutionError::InvalidTarget))
    } else {
        match m.program[m.counter as int] {
            Bytecode::Halt => (MachineView { halted: true, ..m }, Ok(true)),
            Bytecode::Load8(r, v) => load_spec(m, r, Size::U8, v as nat),
            Bytecode::Load16(r, v) => load_spec(m, r, Size::U16, v as nat),
            Bytecode::Load32(r, v) => load_spec(m, r, Size::U32, v as nat),
            Bytecode::Load64(r, v) => load_spec(m, r, Size::U64, v as nat),
            Bytecode::LoadReg(d, s) => if !has_register(m, d) || !has_register(m, s) {
                (m, Err(ExecutionError::InvalidRegister))
            } else {
                (write_and_advance(m, d, m.registers[s as int]), Ok(false))
            },
            Bytecode::LoadMem(r, addr, size) => if !has_register(m, r) {
                (m, Err(ExecutionError::InvalidRegister))
            } else if addr + size_bytes(size) > m.memory.len() {
                (m, Err(ExecutionError::OutOfBounds))
            } else {
                let bytes = m.memory.subrange(addr as int, addr + size_bytes(size));
                (write_and_advance(m, r, zero_fill(bytes, m.width)), Ok(false))
            },
            Bytecode::LoadStack(r, offset, size) => if !has_register(m, r) {
                (m, Err(ExecutionError::InvalidRegister))
            } else {
                match spec_peek(m.stack, offset as nat, size_bytes(size)) {
                    Ok(bytes) => (write_and_advance(m, r, zero_fill(bytes, m.width)), Ok(false)),
                    Err(_) => (m, Err(ExecutionError::StackUnderflow)),
                }
            },
            Bytecode::Add(d, s, size) => binary_spec(m, BinaryOp::Add, d, s, size),
            Bytecode::Sub(d, s, size) => binary_spec(m, BinaryOp::Sub, d, s, size),
            Bytecode::Mult(d, s, size) => binary_spec(m, BinaryOp::Mult, d, s, size),
            Bytecode::Div(d, s, size) => binary_spec(m, BinaryOp::Div, d, s, size),
            Bytecode::Mod(d, s, size) => binary_spec(m, BinaryOp::Mod, d, s, size),
            Bytecode::LShift(d, s, size) => binary_spec(m, BinaryOp::LShift, d, s, size),
            Bytecode::RShift(d, s, size) => binary_spec(m, BinaryOp::RShift, d, s, size),
            Bytecode::ALShift(d, s, size) => binary_spec(m, BinaryOp::ALShift, d, s, size),
            Bytecode::ARShift(d, s, size) => binary_spec(m, BinaryOp::ARShift, d, s, size),
            Bytecode::And(d, s, size) => binary_spec(m, BinaryOp::And, d, s, size),
            Bytecode::Or(d, s, size) => binary_spec(m, BinaryOp::Or, d, s, size),
            Bytecode::Xor(d, s, size) => binary_spec(m, BinaryOp::Xor, d, s, size),
            Bytecode::Not(d, size) => if !has_register(m, d) {
                (m, Err(ExecutionError::InvalidRegister))
            } else if !is_integer(size) {
                (m, Err(ExecutionError::InvalidOperation))
            } else {
                let v = not_result(operand(m, d, size), size_bytes(size));
                (write_and_advance(m, d, loaded(m.width, size, v)), Ok(false))
            },
            Bytecode::Cmp(a, b, cmp, size) => if !has_register(m, a) || !has_register(m, b) {
                (m, Err(ExecutionError::InvalidRegister))
            } else if !is_integer(size) {
                (m, Err(ExecutionError::InvalidOperation))
            } else {
                let outcome = compare(cmp, operand(m, a, size) as int, operand(m, b, size) as int);
                (advance(MachineView { last: Some((cmp, outcome)), ..m }), Ok(false))
            },
            Bytecode::Jmp(t) => if t >= m.program.len() {
                (m, Err(ExecutionError::InvalidTarget))
            } else {
                (MachineView { counter: t as nat, ..m }, Ok(false))
            },
            Bytecode::JmpIf(cmp, t) => if t >= m.program.len() {
                (m, Err(ExecutionError::InvalidTarget))
            } else {
                match m.last {
                    Some((last_cmp, outcome)) => if last_cmp != cmp {
                        (m, Err(ExecutionError::InvalidOperation))
                    } else if outcome {
                        (MachineView { counter: t as nat, ..m }, Ok(false))
                    } else {
                        (advance(m), Ok(false))
                    },
                    None => (m, Err(ExecutionError::InvalidOperation)),
                }
            },
            Bytecode::Call(t) => if t >= m.program.len() {
                (m, Err(ExecutionError::InvalidTarget))
            } else {
                match spec_push(m.stack, m.stack_capacity, le_bytes(m.counter + 1, 8)) {
                    Ok(s) => (MachineView { stack: s, counter: t as nat, ..m }, Ok(false)),
                    Err(_) => (m, Err(ExecutionError::StackOverflow)),
                }
            },
            Bytecode::Ret => match spec_pop(m.stack, 8) {
                Ok((top, rest)) => if le_value(top) >= m.program.len() {
                    (m, Err(ExecutionError::InvalidTarget))
                } else {
                    (MachineView { stack: rest, counter: le_value(top), ..m }, Ok(false))
                },
                Err(_) => (m, Err(ExecutionError::StackUnderflow)),
            },
        }
    }
}

/// A float operation that the machine leaves to its host.
#[derive(Clone, Copy, Debug, PartialEq, Eq, Structural)]
pub enum FloatKind {
    Add,
    Sub,
    Mult,
    Div,
    Mod,
    Compare(Comparison),
}

/// The float instruction at the counter: what to compute, at which size,
/// the register it writes (or first compares), and the raw bits of both
/// operands, taken from the low bytes of their registers.
#[derive(Clone, Copy, Debug, PartialEq, Eq, Structural)]
pub struct FloatOperation {
    pub kind: FloatKind,
    pub size: Size,
    pub destination: u8,
    pub lhs: u64,
    pub rhs: u64,
}

/// The float operation of `kind` on registers `d` and `s`, when both exist
/// and `size` is a float size.
pub open spec fn float_operands(m: MachineView, kind: FloatKind, d: u8, s: u8, size: Size) -> Option<
    FloatOperation,
> {
    if has_register(m, d) && has_register(m, s) && !is_integer(size) {
        Some(
            FloatOperation {
                kind,
                size,
                destination: d,
                lhs: operand(m, d, size) as u64,
                rhs: operand(m, s, size) as u64,
            },
        )
    } else {
        None
    }
}

/// The float operation that the instruction at the counter asks of the host,
/// if it is one.
pub open spec fn float_spec(m: MachineView) -> Option<FloatOperation> {
    if m.halted || m.counter >= m.program.len() {
        None
    } else {
        match m.program[m.counter as int] {
            Bytecode::Add(d, s, size) => float_operands(m, FloatKind::Add, d, s, size),
            Bytecode::Sub(d, s, size) => float_operands(m, FloatKind::Sub, d, s, size),
            Bytecode::Mult(d, s, size) => float_operands(m, FloatKind::Mult, d, s, size),
            Bytecode::Div(d, s, size) => float_operands(m, FloatKind::Div, d, s, size),
            Bytecode::Mod(d, s, size) => float_operands(m, FloatKind::Mod, d, s, size),
            Bytecode::Cmp(a, b, cmp, size) => float_operands(m, FloatKind::Compare(cmp), a, b, size),
            _ => None,
        }
    }
}

/// What at most `steps` steps do to `m`: they stop early at a halt or at
/// the first error.
pub open spec fn run_spec(m: MachineView, steps: nat) -> (MachineView, Result<bool, ExecutionError>)
    decreases steps,
{
    if steps == 0 || m.halted {
        (m, Ok(m.halted))
    } else {
        let (next, r) = step_spec(m);
        match r {
            Ok(true) => (next, Ok(true)),
            Ok(false) => run_spec(next, (steps - 1) as nat),
            Err(e) => (next, Err(e)),
        }
    }
}


/// Integer addition wraps around at every integer size: after `Add(d, s,
/// size)` the low bytes of `d` hold the sum of both operands modulo
/// `256^n`, and the bytes above them are zero.
pub proof fn lemma_add_wraps(m: MachineView, d: u8, s: u8, size: Size)
    requires
        !m.halted,
        m.counter < m.program.len(),
        m.program[m.counter as int] == Bytecode::Add(d, s, size),
        has_register(m, d),
        has_register(m, s),
        is_integer(size),
        size_bytes(size) <= m.width,
    ensures
        ({
            let (next, r) = step_spec(m);
            let n = size_bytes(size);
            &&& r == Ok::<bool, ExecutionError>(false)
            &&& next.counter == m.counter + 1
            &&& next.registers[d as int].subrange(0, n as int) == le_bytes(
                (operand(m, d, size) + operand(m, s, size)) % pow256(n),
                n,
            )
            &&& le_value(next.registers[d as int].subrange(0, n as int)) == (operand(m, d, size)
                + operand(m, s, size)) % pow256(n)
            &&& forall|i: int| n <= i < m.width ==> #[trigger] next.registers[d as int][i] == 0u8
        }),
{
    let v = binary_result(BinaryOp::Add, operand(m, d, size), operand(m, s, size), size_bytes(size));
    lemma_load_then_get(m.width, size, v);
    lemma_pow256_positive(size_bytes(size));
    vstd::arithmetic::div_mod::lemma_mod_bound(
        (operand(m, d, size) + operand(m, s, size)) as int,
        pow256(size_bytes(size)) as int,
    );
    vstd::arithmetic::div_mod::lemma_small_mod(v, pow256(size_bytes(size)));
}

/// Integer division and remainder by zero fail with `DivisionByZero` and
/// leave the machine as it was.
pub proof fn lemma_division_by_zero(m: MachineView, d: u8, s: u8, size: Size)
    requires
        !m.halted,
        m.counter < m.program.len(),
        m.program[m.counter as int] == Bytecode::Div(d, s, size) || m.program[m.counter as int]
            == Bytecode::Mod(d, s, size),
        has_register(m, d),
        has_register(m, s),
        is_integer(size),
        operand(m, s, size) == 0,
    ensures
        step_spec(m) == (m, Err::<bool, ExecutionError>(ExecutionError::DivisionByZero)),
{
}

/// A `Call` followed, at its target, by a `Ret` comes back to the
/// instruction after the call with the stack as it was before the call.
pub proof fn lemma_call_then_ret(m: MachineView, target: usize)
    requires
        !m.halted,
        m.counter + 1 < m.program.len(),
        m.program.len() <= usize::MAX,
        target < m.program.len(),
        m.program[m.counter as int] == Bytecode::Call(target),
        m.program[target as int] == Bytecode::Ret,
        m.stack.len() + 8 <= m.stack_capacity,
    ensures
        ({
            let (mid, r1) = step_spec(m);
            let (after, r2) = step_spec(mid);
            &&& r1 == Ok::<bool, ExecutionError>(false)
            &&& mid.counter == target
            &&& mid.stack == m.stack + le_bytes(m.counter + 1, 8)
            &&& le_value(le_bytes(m.counter + 1, 8)) == m.counter + 1
            &&& r2 == Ok::<bool, ExecutionError>(false)
            &&& after.counter == m.counter + 1
            &&& after.stack == m.stack
        }),
{
    let ret = le_bytes((m.counter + 1) as nat, 8);
    let pushed = m.stack + ret;
    lemma_decode_encode((m.counter + 1) as nat, 8);
    lemma_pow256_values();
    vstd::arithmetic::div_mod::lemma_small_mod((m.counter + 1) as nat, pow256(8));
    assert(pushed.subrange(pushed.len() - 8, pushed.len() as int) =~= ret);
    assert(pushed.subrange(0, pushed.len() - 8) =~= m.stack);
}

/// An integer `Cmp` followed by a `JmpIf` on the same comparison jumps to
/// its target exactly when the comparison held of the two operands, and
/// otherwise moves on to the next instruction.
pub proof fn lemma_cmp_then_jmp_if(m: MachineView, a: u8, b: u8, cmp: Comparison, size: Size, target: usize)
    requires
        !m.halted,
        m.counter + 1 < m.program.len(),
        m.program[m.counter as int] == Bytecode::Cmp(a, b, cmp, size),
        m.program[m.counter + 1int] == Bytecode::JmpIf(cmp, target),
        target < m.program.len(),
        has_register(m, a),
        has_register(m, b),
        is_integer(size),
    ensures
        ({
            let (mid, r1) = step_spec(m);
            let (after, r2) = step_spec(mid);
            let outcome = compare(cmp, operand(m, a, size) as int, operand(m, b, size) as int);
            &&& r1 == Ok::<bool, ExecutionError>(false)
            &&& mid.last == Some((cmp, outcome))
            &&& r2 == Ok::<bool, ExecutionError>(false)
            &&& after.counter == if outcome { target as nat } else { m.counter + 2 }
            &&& after.registers == m.registers
        }),
{
}

/// A jump, conditional jump or call to a position outside the program
/// fails with `InvalidTarget` and leaves the machine, its counter included,
/// as it was.
pub proof fn lemma_target_outside_program(m: MachineView)
    requires
        !m.halted,
        m.counter < m.program.len(),
        match m.program[m.counter as int] {
            Bytecode::Jmp(t) => t >= m.program.len(),
            Bytecode::JmpIf(_, t) => t >= m.program.len(),
            Bytecode::Call(t) => t >= m.program.len(),
            _ => false,
        },
    ensures
        step_spec(m) == (m, Err::<bool, ExecutionError>(ExecutionError::InvalidTarget)),
{
}

/// A machine: registers, stack, memory, a loaded program and the position
/// of the next instruction in it.
pub struct VirtualMachine {
    registers: RegisterFile,
    stack: Stack,
    memory: Memory,
    program: Vec<Bytecode>,
    counter: usize,
    last: Option<(Comparison, bool)>,
    halted: bool,
}

impl View for VirtualMachine {
    type V = MachineView;

    closed spec fn view(&self) -> MachineView {
        MachineView {
            registers: self.registers@,
            width: self.registers.spec_width(),
            stack: self.stack@,
            stack_capacity: self.stack.capacity(),
            memory: self.memory@,
            program: self.program@,
            counter: self.counter as nat,
            last: self.last,
            halted: self.halted,
        }
    }
}

impl VirtualMachine {
    /// The parts are consistent and every register holds the widest operand.
    pub closed spec fn wf(&self) -> bool {
        &&& self.registers.wf()
        &&& self.registers.spec_width() >= MIN_REGISTER_WIDTH
        &&& self.stack.wf()
        &&& self.program@.len() <= usize::MAX
    }

    /// A machine with `register_count` zeroed registers of `register_width`
    /// bytes, an empty stack of `stack_capacity` bytes, `memory_capacity`
    /// zero bytes of memory and an empty program.
    pub fn new(
        register_count: usize,
        register_width: usize,
        stack_capacity: usize,
        memory_capacity: usize,
    ) -> (r: Result<VirtualMachine, ExecutionError>)
        ensures
            (register_count == 0 || register_count > MAX_REGISTERS || register_width
                < MIN_REGISTER_WIDTH || stack_capacity == 0 || memory_capacity == 0) ==> r
                is Err && r->Err_0 == ExecutionError::InvalidConfiguration,
            (0 < register_count <= MAX_REGISTERS && register_width >= MIN_REGISTER_WIDTH
                && stack_capacity > 0 && memory_capacity > 0) ==> (r matches Ok(vm) && vm.wf()
                && vm@ == (MachineView {
                registers: Seq::new(
                    register_count as nat,
                    |i: int| Seq::new(register_width as nat, |j: int| 0u8),
                ),
                width: register_width as nat,
                stack: Seq::empty(),
                stack_capacity: stack_capacity as nat,
                memory: Seq::new(memory_capacity as nat, |i: int| 0u8),
                program: Seq::empty(),
                counter: 0,
                last: None,
                halted: false,
            })),
    {
        if register_count == 0 || register_count > MAX_REGISTERS || register_width
            < MIN_REGISTER_WIDTH || stack_capacity == 0 || memory_capacity == 0 {
            return Err(ExecutionError::InvalidConfiguration);
        }
        let vm = VirtualMachine {
            registers: RegisterFile::new(register_count, register_width),
            stack: Stack::new(stack_capacity),
            memory: Memory::new(memory_capacity),
            program: Vec::new(),
            counter: 0,
            last: None,
            halted: false,
        };
        assert(vm@.program =~= Seq::<Bytecode>::empty());
        Ok(vm)
    }

    /// Installs `program` and starts it from its first instruction, keeping
    /// registers, stack and memory as they are.
    pub fn load_program(&mut self, program: Vec<Bytecode>)
        requires
            old(self).wf(),
        ensures
            final(self).wf(),
            final(self)@ == (MachineView {
                program: program@,
                counter: 0,
                last: None,
                halted: false,
                ..old(self)@
            }),
    {
        let length = program.len();
        assert(program@.len() == length);
        self.program = program;
        self.counter = 0;
        self.last = None;
        self.halted = false;
    }

    /// The position of the next instruction.
    pub fn counter(&self) -> (r: usize)
        ensures
            r == self@.counter,
    {
        self.counter
    }

    /// Whether the machine has executed `Halt`.
    pub fn is_halted(&self) -> (r: bool)
        ensures
            r == self@.halted,
    {
        self.halted
    }

    /// The comparison last evaluated by `Cmp`, and whether it held.
    pub fn last_comparison(&self) -> (r: Option<(Comparison, bool)>)
        ensures
            r == self@.last,
    {
        self.last
    }

    /// The raw bytes of register `index`.
    pub fn register(&self, index: u8) -> (r: Result<&[u8], ExecutionError>)
        requires
            self.wf(),
        ensures
            has_register(self@, index) ==> (r matches Ok(b) && b@ == self@.registers[index as int]),
            !has_register(self@, index) ==> r == Err::<&[u8], ExecutionError>(
                ExecutionError::InvalidRegister,
            ),
    {
        self.registers.get(index)
    }

    /// The bytes on the stack, bottom first.
    pub fn stack_bytes(&self) -> (r: Vec<u8>)
        requires
            self.wf(),
        ensures
            r@ == self@.stack,
    {
        let len = self.stack.len();
        match self.stack.peek_at(0, len) {
            Ok(v) => {
                assert(self@.stack.subrange(0, len as int) =~= self@.stack);
                v
            },
            Err(_) => Vec::new(),
        }
    }

    /// The `size` bytes of memory from `offset` on.
    pub fn read_memory(&self, offset: usize, size: usize) -> (r: Result<Vec<u8>, ExecutionError>)
        ensures
            offset + size <= self@.memory.len() ==> (r matches Ok(v) && v@ == self@.memory.subrange(
                offset as int,
                offset + size,
            )),
            offset + size > self@.memory.len() ==> r == Err::<Vec<u8>, ExecutionError>(
                ExecutionError::OutOfBounds,
            ),
    {
        self.memory.read(offset, size)
    }

    /// Overwrites memory from `offset` on with `data`, all of it or, when it
    /// does not fit, nothing.
    pub fn write_memory(&mut self, offset: usize, data: &[u8]) -> (r: Result<(), ExecutionError>)
        requires
            old(self).wf(),
        ensures
            final(self).wf(),
            offset + data@.len() <= old(self)@.memory.len() ==> r is Ok && final(self)@ == (
            MachineView {
                memory: old(self)@.memory.subrange(0, offset as int) + data@ + old(
                    self,
                )@.memory.subrange(offset + data@.len(), old(self)@.memory.len() as int),
                ..old(self)@
            }),
            offset + data@.len() > old(self)@.memory.len() ==> r == Err::<(), ExecutionError>(
                ExecutionError::OutOfBounds,
            ) && final(self)@ == old(self)@,
    {
        self.memory.write(offset, data)
    }

    /// The unsigned value of the low bytes of register `r` that `size` covers.
    fn operand_value(&self, r: u8, size: Size) -> (v: u64)
        requires
            self.wf(),
            has_register(self@, r),
        ensures
            v as nat == operand(self@, r, size),
            (v as nat) < pow256(size_bytes(size)),
    {
        let bytes = self.registers.cell(r as usize);
        proof {
            lemma_le_value_bound(bytes@.subrange(0, size_bytes(size) as int));
        }
        decode_le(bytes, size.bytes())
    }

    fn exec_load(&mut self, r: u8, size: Size, value: u64) -> (res: Result<bool, ExecutionError>)
        requires
            old(self).wf(),
            old(self).counter < old(self).program@.len(),
        ensures
            final(self).wf(),
            (final(self)@, res) == load_spec(old(self)@, r, size, value as nat),
    {
        let out = self.registers.load_immediate(r, size, value);
        match out {
            Ok(()) => {
                self.counter = self.counter + 1;
                Ok(false)
            },
            Err(e) => Err(e),
        }
    }

    /// Whether the next instruction is `instruction`.
    closed spec fn at(&self, instruction: Bytecode) -> bool {
        &&& !self.halted
        &&& self.counter < self.program@.len()
        &&& self.program@[self.counter as int] == instruction
    }

    fn exec_load_reg(&mut self, d: u8, s: u8) -> (res: Result<bool, ExecutionError>)
        requires
            old(self).wf(),
            old(self).at(Bytecode::LoadReg(d, s)),
        ensures
            final(self).wf(),
            (final(self)@, res) == step_spec(old(self)@),
    {
        let count = self.registers.count();
        if d as usize >= count || s as usize >= count {
            return Err(ExecutionError::InvalidRegister);
        }
        let bytes = self.registers.copy_of(s as usize);
        self.registers.load_bytes(d as usize, bytes);
        self.counter = self.counter + 1;
        Ok(false)
    }

    fn exec_load_mem(&mut self, r: u8, addr: usize, size: Size) -> (res: Result<bool, ExecutionError>)
        requires
            old(self).wf(),
            old(self).at(Bytecode::LoadMem(r, addr, size)),
        ensures
            final(self).wf(),
            (final(self)@, res) == step_spec(old(self)@),
    {
        if r as usize >= self.registers.count() {
            return Err(ExecutionError::InvalidRegister);
        }
        match self.memory.read(addr, size.bytes()) {
            Ok(bytes) => {
                let cell = widen(bytes, self.registers.width());
                self.registers.load_bytes(r as usize, cell);
                self.counter = self.counter + 1;
                Ok(false)
            },
            Err(e) => Err(e),
        }
    }

    fn exec_load_stack(&mut self, r: u8, offset: usize, size: Size) -> (res: Result<
        bool,
        ExecutionError,
    >)
        requires
            old(self).wf(),
            old(self).at(Bytecode::LoadStack(r, offset, size)),
        ensures
            final(self).wf(),
            (final(self)@, res) == step_spec(old(self)@),
    {
        if r as usize >= self.registers.count() {
            return Err(ExecutionError::InvalidRegister);
        }
        match self.stack.peek_at(offset, size.bytes()) {
            Ok(bytes) => {
                let cell = widen(bytes, self.registers.width());
                self.registers.load_bytes(r as usize, cell);
                self.counter = self.counter + 1;
                Ok(false)
            },
            Err(_) => Err(ExecutionError::StackUnderflow),
        }
    }

    fn exec_binary(&mut self, op: BinaryOp, d: u8, s: u8, size: Size) -> (res: Result<
        bool,
        ExecutionError,
    >)
        requires
            old(self).wf(),
            old(self).counter < old(self).program@.len(),
        ensures
            final(self).wf(),
            (final(self)@, res) == binary_spec(old(self)@, op, d, s, size),
    {
        let count = self.registers.count();
        if d as usize >= count || s as usize >= count {
            return Err(ExecutionError::InvalidRegister);
        }
        if !size.is_integer() {
            return Err(ExecutionError::InvalidOperation);
        }
        let a = self.operand_value(d, size);
        let b = self.operand_value(s, size);
        match binary(op, a, b, size.bytes()) {
            Ok(v) => self.exec_load(d, size, v),
            Err(e) => Err(e),
        }
    }

    fn exec_not(&mut self, d: u8, size: Size) -> (res: Result<bool, ExecutionError>)
        requires
            old(self).wf(),
            old(self).at(Bytecode::Not(d, size)),
        ensures
            final(self).wf(),
            (final(self)@, res) == step_spec(old(self)@),
    {
        if d as usize >= self.registers.count() {
            return Err(ExecutionError::InvalidRegister);
        }
        if !size.is_integer() {
            return Err(ExecutionError::InvalidOperation);
        }
        let a = self.operand_value(d, size);
        let v = complement(a, size.bytes());
        self.exec_load(d, size, v)
    }

    fn exec_cmp(&mut self, a: u8, b: u8, cmp: Comparison, size: Size) -> (res: Result<
        bool,
        ExecutionError,
    >)
        requires
            old(self).wf(),
            old(self).at(Bytecode::Cmp(a, b, cmp, size)),
        ensures
            final(self).wf(),
            (final(self)@, res) == step_spec(old(self)@),
    {
        let count = self.registers.count();
        if a as usize >= count || b as usize >= count {
            return Err(ExecutionError::InvalidRegister);
        }
        if !size.is_integer() {
            return Err(ExecutionError::InvalidOperation);
        }
        let x = self.operand_value(a, size);
        let y = self.operand_value(b, size);
        self.last = Some((cmp, cmp.holds(x, y)));
        self.counter = self.counter + 1;
        Ok(false)
    }

    fn exec_jmp_if(&mut self, cmp: Comparison, t: usize) -> (res: Result<bool, ExecutionError>)
        requires
            old(self).wf(),
            old(self).at(Bytecode::JmpIf(cmp, t)),
        ensures
            final(self).wf(),
            (final(self)@, res) == step_spec(old(self)@),
    {
        if t >= self.program.len() {
            return Err(ExecutionError::InvalidTarget);
        }
        match self.last {
            Some((last_cmp, outcome)) => {
                if last_cmp != cmp {
                    return Err(ExecutionError::InvalidOperation);
                }
                if outcome {
                    self.counter = t;
                } else {
                    self.counter = self.counter + 1;
                }
                Ok(false)
            },
            None => Err(ExecutionError::InvalidOperation),
        }
    }

    fn exec_call(&mut self, t: usize) -> (res: Result<bool, ExecutionError>)
        requires
            old(self).wf(),
            old(self).at(Bytecode::Call(t)),
        ensures
            final(self).wf(),
            (final(self)@, res) == step_spec(old(self)@),
    {
        if t >= self.program.len() {
            return Err(ExecutionError::InvalidTarget);
        }
        let ret = encode_le((self.counter + 1) as u64, RETURN_BYTES, RETURN_BYTES);
        assert(ret@ =~= le_bytes((self.counter + 1) as nat, 8));
        match self.stack.push(ret.as_slice()) {
            Ok(()) => {
                self.counter = t;
                Ok(false)
            },
            Err(_) => Err(ExecutionError::StackOverflow),
        }
    }

    fn exec_ret(&mut self) -> (res: Result<bool, ExecutionError>)
        requires
            old(self).wf(),
            old(self).at(Bytecode::Ret),
        ensures
            final(self).wf(),
            (final(self)@, res) == step_spec(old(self)@),
    {
        let top = match self.stack.peek(RETURN_BYTES) {
            Ok(v) => v,
            Err(_) => {
                return Err(ExecutionError::StackUnderflow);
            },
        };
        let target = decode_le(top.as_slice(), RETURN_BYTES);
        assert(top@.subrange(0, 8) =~= top@);
        if target >= self.program.len() as u64 {
            return Err(ExecutionError::InvalidTarget);
        }
        let _ = self.stack.pop(RETURN_BYTES);
        self.counter = target as usize;
        Ok(false)
    }

    fn float_at(&self, kind: FloatKind, d: u8, s: u8, size: Size) -> (r: Option<FloatOperation>)
        requires
            self.wf(),
        ensures
            r == float_operands(self@, kind, d, s, size),
    {
        let count = self.registers.count();
        if d as usize >= count || s as usize >= count || size.is_integer() {
            return None;
        }
        let lhs = self.operand_value(d, size);
        let rhs = self.operand_value(s, size);
        Some(FloatOperation { kind, size, destination: d, lhs, rhs })
    }

    /// The float operation that the next instruction leaves to the host, if
    /// it is one. `step` refuses such an instruction with `InvalidOperation`;
    /// the host computes it and hands the result to `complete_float` or
    /// `complete_float_comparison`.
    pub fn pending_float(&self) -> (r: Option<FloatOperation>)
        requires
            self.wf(),
        ensures
            r == float_spec(self@),
    {
        if self.halted || self.counter >= self.program.len() {
            return None;
        }
        match self.program[self.counter] {
            Bytecode::Add(d, s, size) => self.float_at(FloatKind::Add, d, s, size),
            Bytecode::Sub(d, s, size) => self.float_at(FloatKind::Sub, d, s, size),
            Bytecode::Mult(d, s, size) => self.float_at(FloatKind::Mult, d, s, size),
            Bytecode::Div(d, s, size) => self.float_at(FloatKind::Div, d, s, size),
            Bytecode::Mod(d, s, size) => self.float_at(FloatKind::Mod, d, s, size),
            Bytecode::Cmp(a, b, cmp, size) => self.float_at(FloatKind::Compare(cmp), a, b, size),
            _ => None,
        }
    }

    /// Finishes the pending float arithmetic with the raw bits of its
    /// result: their low bytes go into the destination, the bytes above are
    /// zeroed, and the machine moves on. Without such an operation pending,
    /// fails with `InvalidOperation` and changes nothing.
    pub fn complete_float(&mut self, bits: u64) -> (r: Result<bool, ExecutionError>)
        requires
            old(self).wf(),
        ensures
            final(self).wf(),
            match float_spec(old(self)@) {
                Some(op) => if op.kind is Compare {
                    r == Err::<bool, ExecutionError>(ExecutionError::InvalidOperation) && final(self)@
                        == old(self)@
                } else {
                    r == Ok::<bool, ExecutionError>(false) && final(self)@ == write_and_advance(
                        old(self)@,
                        op.destination,
                        loaded(old(self)@.width, op.size, bits as nat),
                    )
                },
                None => r == Err::<bool, ExecutionError>(ExecutionError::InvalidOperation)
                    && final(self)@ == old(self)@,
            },
    {
        match self.pending_float() {
            Some(op) => {
                if let FloatKind::Compare(_) = op.kind {
                    return Err(ExecutionError::InvalidOperation);
                }
                self.exec_load(op.destination, op.size, bits)
            },
            None => Err(ExecutionError::InvalidOperation),
        }
    }

    /// Finishes the pending float comparison with whether it held, and
    /// moves on. Without such a comparison pending, fails with
    /// `InvalidOperation` and changes nothing.
    pub fn complete_float_comparison(&mut self, outcome: bool) -> (r: Result<bool, ExecutionError>)
        requires
            old(self).wf(),
        ensures
            final(self).wf(),
            match float_spec(old(self)@) {
                Some(op) => match op.kind {
                    FloatKind::Compare(cmp) => r == Ok::<bool, ExecutionError>(false)
                        && final(self)@ == advance(
                        MachineView { last: Some((cmp, outcome)), ..old(self)@ },
                    ),
                    _ => r == Err::<bool, ExecutionError>(ExecutionError::InvalidOperation)
                        && final(self)@ == old(self)@,
                },
                None => r == Err::<bool, ExecutionError>(ExecutionError::InvalidOperation)
                    && final(self)@ == old(self)@,
            },
    {
        match self.pending_float() {
            Some(op) => match op.kind {
                FloatKind::Compare(cmp) => {
                    self.last = Some((cmp, outcome));
                    self.counter = self.counter + 1;
                    Ok(false)
                },
                _ => Err(ExecutionError::InvalidOperation),
            },
            None => Err(ExecutionError::InvalidOperation),
        }
    }

    /// Executes one instruction, or nothing once halted, and returns whether
    /// the machine has halted. On an error nothing has changed.
    pub fn step(&mut self) -> (r: Result<bool, ExecutionError>)
        requires
            old(self).wf(),
        ensures
            final(self).wf(),
            (final(self)@, r) == step_spec(old(self)@),
    {
        if self.halted {
            return Ok(true);
        }
        if self.counter >= self.program.len() {
            return Err(ExecutionError::InvalidTarget);
        }
        let instruction = self.program[self.counter];
        match instruction {
            Bytecode::Halt => {
                self.halted = true;
                Ok(true)
            },
            Bytecode::Load8(r, v) => self.exec_load(r, Size::U8, v as u64),
            Bytecode::Load16(r, v) => self.exec_load(r, Size::U16, v as u64),
            Bytecode::Load32(r, v) => self.exec_load(r, Size::U32, v as u64),
            Bytecode::Load64(r, v) => self.exec_load(r, Size::U64, v),
            Bytecode::LoadReg(d, s) => self.exec_load_reg(d, s),
            Bytecode::LoadMem(r, addr, size) => self.exec_load_mem(r, addr, size),
            Bytecode::LoadStack(r, offset, size) => self.exec_load_stack(r, offset, size),
            Bytecode::Add(d, s, size) => self.exec_binary(BinaryOp::Add, d, s, size),
            Bytecode::Sub(d, s, size) => self.exec_binary(BinaryOp::Sub, d, s, size),
            Bytecode::Mult(d, s, size) => self.exec_binary(BinaryOp::Mult, d, s, size),
            Bytecode::Div(d, s, size) => self.exec_binary(BinaryOp::Div, d, s, size),
            Bytecode::Mod(d, s, size) => self.exec_binary(BinaryOp::Mod, d, s, size),
            Bytecode::LShift(d, s, size) => self.exec_binary(BinaryOp::LShift, d, s, size),
            Bytecode::RShift(d, s, size) => self.exec_binary(BinaryOp::RShift, d, s, size),
            Bytecode::ALShift(d, s, size) => self.exec_binary(BinaryOp::ALShift, d, s, size),
            Bytecode::ARShift(d, s, size) => self.exec_binary(BinaryOp::ARShift, d, s, size),
            Bytecode::And(d, s, size) => self.exec_binary(BinaryOp::And, d, s, size),
            Bytecode::Or(d, s, size) => self.exec_binary(BinaryOp::Or, d, s, size),
            Bytecode::Xor(d, s, size) => self.exec_binary(BinaryOp::Xor, d, s, size),
            Bytecode::Not(d, size) => self.exec_not(d, size),
            Bytecode::Cmp(a, b, cmp, size) => self.exec_cmp(a, b, cmp, size),
            Bytecode::Jmp(t) => {
                if t >= self.program.len() {
                    return Err(ExecutionError::InvalidTarget);
                }
                self.counter = t;
                Ok(false)
            },
            Bytecode::JmpIf(cmp, t) => self.exec_jmp_if(cmp, t),
            Bytecode::Call(t) => self.exec_call(t),
            Bytecode::Ret => self.exec_ret(),
        }
    }

    /// Executes up to `max_steps` instructions, stopping at a halt or at the
    /// first error, and returns whether the machine has halted.
    pub fn run_for(&mut self, max_steps: u64) -> (r: Result<bool, ExecutionError>)
        requires
            old(self).wf(),
        ensures
            final(self).wf(),
            (final(self)@, r) == run_spec(old(self)@, max_steps as nat),
    {
        let mut left: u64 = max_steps;
        while left > 0 && !self.halted
            invariant
                self.wf(),
                left <= max_steps,
                run_spec(self@, left as nat) == run_spec(old(self)@, max_steps as nat),
            decreases left,
        {
            let r = self.step();
            match r {
                Ok(true) => {
                    return Ok(true);
                },
                Ok(false) => {},
                Err(e) => {
                    return Err(e);
                },
            }
            left = left - 1;
        }
        Ok(self.halted)
    }
}

} // verus!
