//! Fixed-width registers and the register file.
use vstd::prelude::*;
use crate::bytecode::{Size, size_bytes};
use crate::encoding::{encode_le, le_bytes, le_value, lemma_decode_encode, pow256, zero_fill};
use crate::error::ExecutionError;

verus! {

/// One register: a cell of a fixed number of bytes.
pub struct Register {
    register: Vec<u8>,
}

impl View for Register {
    type V = Seq<u8>;

    closed spec fn view(&self) -> Seq<u8> {
        self.register@
    }
}

/// What `load_immediate` leaves in a cell of `width` bytes: the low
/// `size` bytes of `value`, least significant first, then zeros.
pub open spec fn loaded(width: nat, size: Size, value: nat) -> Seq<u8> {
    zero_fill(le_bytes(value, size_bytes(size)), width)
}

/// A register loaded with `value` at `size` holds, in its low bytes, the
/// little-endian encoding of `value`, whose value is `value` reduced to
/// `size`'s width, and zero in every byte above them.
pub proof fn lemma_load_then_get(width: nat, size: Size, value: nat)
    requires
        size_bytes(size) <= width,
    ensures
        loaded(width, size, value).len() == width,
        loaded(width, size, value).subrange(0, size_bytes(size) as int) == le_bytes(
            value,
            size_bytes(size),
        ),
        le_value(loaded(width, size, value).subrange(0, size_bytes(size) as int)) == value
            % pow256(size_bytes(size)),
        forall|i: int|
            size_bytes(size) <= i < width ==> #[trigger] loaded(width, size, value)[i] == 0u8,
{
    let n = size_bytes(size);
    assert(loaded(width, size, value).subrange(0, n as int) =~= le_bytes(value, n));
    lemma_decode_encode(value, n);
}

impl Register {
    /// A register of `width` zero bytes.
    pub fn new(width: usize) -> (r: Register)
        ensures
            r@ == Seq::new(width as nat, |i: int| 0u8),
    {
        let mut register: Vec<u8> = Vec::new();
        let mut i: usize = 0;
        while i < width
            invariant
                i <= width,
                register@ =~= Seq::new(i as nat, |j: int| 0u8),
            decreases width - i,
        {
            register.push(0u8);
            i = i + 1;
        }
        Register { register }
    }

    /// The raw bytes of the register.
    pub fn get(&self) -> (r: &[u8])
        ensures
            r@ == self@,
    {
        self.register.as_slice()
    }

    /// The raw bytes of the register, for writing in place.
    pub fn get_mut(&mut self) -> (r: &mut [u8])
        ensures
            r@ == old(self)@,
            final(r)@ == final(self)@,
    {
        self.register.as_mut_slice()
    }

    /// Overwrites the whole register with `value`, which must be exactly one
    /// register wide; otherwise fails with `InvalidWidth` and changes nothing.
    pub fn set(&mut self, value: &[u8]) -> (r: Result<(), ExecutionError>)
        ensures
            value@.len() == old(self)@.len() ==> r is Ok && final(self)@ == value@,
            value@.len() != old(self)@.len() ==> r == Err::<(), ExecutionError>(
                ExecutionError::InvalidWidth,
            ) && final(self)@ == old(self)@,
    {
        if value.len() != self.register.len() {
            return Err(ExecutionError::InvalidWidth);
        }
        let mut i: usize = 0;
        while i < value.len()
            invariant
                i <= value@.len(),
                self@.len() == value@.len(),
                forall|j: int| 0 <= j < i ==> self@[j] == value@[j],
            decreases value@.len() - i,
        {
            self.register.set(i, value[i]);
            i = i + 1;
        }
        assert(self@ =~= value@);
        Ok(())
    }

    /// Writes the low bytes of `value` that `size` covers and zeroes every
    /// byte above them.
    pub fn load(&mut self, size: Size, value: u64)
        requires
            size_bytes(size) <= old(self)@.len(),
        ensures
            final(self)@ == loaded(old(self)@.len(), size, value as nat),
    {
        let width = self.register.len();
        self.register = encode_le(value, size.bytes(), width);
    }
}

/// A bank of registers of one width, addressed by an 8-bit index.
pub struct RegisterFile {
    cells: Vec<Register>,
    width: usize,
}

impl View for RegisterFile {
    type V = Seq<Seq<u8>>;

    closed spec fn view(&self) -> Seq<Seq<u8>> {
        self.cells@.map_values(|r: Register| r@)
    }
}

impl RegisterFile {
    /// The width in bytes of every register.
    pub closed spec fn spec_width(&self) -> nat {
        self.width as nat
    }

    /// Every register has the file's width, and an 8-bit index reaches them all.
    pub closed spec fn wf(&self) -> bool {
        &&& self.cells@.len() <= 256
        &&& forall|i: int| 0 <= i < self.cells@.len() ==> (#[trigger] self.cells@[i])@.len() == self.width
    }

    /// `count` zeroed registers of `width` bytes each.
    pub fn new(count: usize, width: usize) -> (r: RegisterFile)
        requires
            count <= 256,
        ensures
            r.wf(),
            r.spec_width() == width,
            r@ == Seq::new(count as nat, |i: int| Seq::new(width as nat, |j: int| 0u8)),
    {
        let mut cells: Vec<Register> = Vec::new();
        let mut i: usize = 0;
        while i < count
            invariant
                i <= count,
                count <= 256,
                cells@.len() == i,
                forall|j: int| 0 <= j < i ==> (#[trigger] cells@[j])@ == Seq::new(width as nat, |k: int| 0u8),
            decreases count - i,
        {
            cells.push(Register::new(width));
            i = i + 1;
        }
        let r = RegisterFile { cells, width };
        assert(r@ =~= Seq::new(count as nat, |i: int| Seq::new(width as nat, |j: int| 0u8)));
        r
    }

    /// The width in bytes of every register.
    pub fn width(&self) -> (r: usize)
        ensures
            r == self.spec_width(),
    {
        self.width
    }

    /// The number of registers.
    pub fn count(&self) -> (r: usize)
        ensures
            r == self@.len(),
    {
        self.cells.len()
    }

    /// The raw bytes of register `index`.
    pub fn get(&self, index: u8) -> (r: Result<&[u8], ExecutionError>)
        requires
            self.wf(),
        ensures
            index < self@.len() ==> (r matches Ok(b) && b@ == self@[index as int]),
            index >= self@.len() ==> r == Err::<&[u8], ExecutionError>(ExecutionError::InvalidRegister),
    {
        if (index as usize) < self.cells.len() {
            Ok(self.cells[index as usize].get())
        } else {
            Err(ExecutionError::InvalidRegister)
        }
    }

    /// Overwrites register `index` with `bytes`, which must be exactly one
    /// register wide.
    pub fn set(&mut self, index: u8, bytes: &[u8]) -> (r: Result<(), ExecutionError>)
        requires
            old(self).wf(),
        ensures
            final(self).wf(),
            final(self).spec_width() == old(self).spec_width(),
            index >= old(self)@.len() ==> r == Err::<(), ExecutionError>(ExecutionError::InvalidRegister),
            index < old(self)@.len() && bytes@.len() != old(self).spec_width() ==> r == Err::<
                (),
                ExecutionError,
            >(ExecutionError::InvalidWidth),
            r is Ok ==> final(self)@ == old(self)@.update(index as int, bytes@),
            r is Err ==> final(self)@ == old(self)@,
            index < old(self)@.len() && bytes@.len() == old(self).spec_width() ==> r is Ok,
    {
        if (index as usize) >= self.cells.len() {
            return Err(ExecutionError::InvalidRegister);
        }
        if bytes.len() != self.width {
            return Err(ExecutionError::InvalidWidth);
        }
        let mut cell = Register::new(self.width);
        let written = cell.set(bytes);
        self.put(index as usize, cell);
        written
    }

    /// Writes `value`'s low `size` bytes into register `index`, little-endian,
    /// and zeroes the rest of the register.
    pub fn load_immediate(&mut self, index: u8, size: Size, value: u64) -> (r: Result<
        (),
        ExecutionError,
    >)
        requires
            old(self).wf(),
            size_bytes(size) <= old(self).spec_width(),
        ensures
            final(self).wf(),
            final(self).spec_width() == old(self).spec_width(),
            index < old(self)@.len() ==> r is Ok && final(self)@ == old(self)@.update(
                index as int,
                loaded(old(self).spec_width(), size, value as nat),
            ),
            index >= old(self)@.len() ==> r == Err::<(), ExecutionError>(
                ExecutionError::InvalidRegister,
            ) && final(self)@ == old(self)@,
    {
        if (index as usize) >= self.cells.len() {
            return Err(ExecutionError::InvalidRegister);
        }
        let cell = Register { register: encode_le(value, size.bytes(), self.width) };
        self.put(index as usize, cell);
        Ok(())
    }

    /// Replaces register `index` with `bytes` (already one register wide).
    pub fn load_bytes(&mut self, index: usize, bytes: Vec<u8>)
        requires
            old(self).wf(),
            index < old(self)@.len(),
            bytes@.len() == old(self).spec_width(),
        ensures
            final(self).wf(),
            final(self).spec_width() == old(self).spec_width(),
            final(self)@ == old(self)@.update(index as int, bytes@),
    {
        self.put(index, Register { register: bytes });
    }

    /// The raw bytes of register `index`, which must exist.
    pub fn cell(&self, index: usize) -> (r: &[u8])
        requires
            self.wf(),
            index < self@.len(),
        ensures
            r@ == self@[index as int],
            r@.len() == self.spec_width(),
    {
        self.cells[index].get()
    }

    /// A copy of the bytes of register `index`, which must exist.
    pub fn copy_of(&self, index: usize) -> (r: Vec<u8>)
        requires
            self.wf(),
            index < self@.len(),
        ensures
            r@ == self@[index as int],
            r@.len() == self.spec_width(),
    {
        let src = self.cell(index);
        let mut r: Vec<u8> = Vec::new();
        let mut i: usize = 0;
        while i < src.len()
            invariant
                i <= src@.len(),
                r@ =~= src@.subrange(0, i as int),
            decreases src@.len() - i,
        {
            r.push(src[i]);
            i = i + 1;
        }
        assert(r@ =~= src@);
        r
    }

    fn put(&mut self, index: usize, cell: Register)
        requires
            old(self).wf(),
            index < old(self)@.len(),
            cell@.len() == old(self).spec_width(),
        ensures
            final(self).wf(),
            final(self).spec_width() == old(self).spec_width(),
            final(self)@ == old(self)@.update(index as int, cell@),
    {
        self.cells.set(index, cell);
        assert(self@ =~= old(self)@.update(index as int, cell@));
    }
}

} // verus!
