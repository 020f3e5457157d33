//! Flat, zero-initialised, byte-addressable memory.
use vstd::prelude::*;
use crate::error::ExecutionError;

verus! {

/// A fixed-size byte array.
pub struct Memory {
    bytes: Vec<u8>,
}

impl View for Memory {
    type V = Seq<u8>;

    closed spec fn view(&self) -> Seq<u8> {
        self.bytes@
    }
}

impl Memory {
    /// `capacity` zero bytes.
    pub fn new(capacity: usize) -> (r: Memory)
        ensures
            r@ == Seq::new(capacity as nat, |i: int| 0u8),
    {
        let mut bytes: Vec<u8> = Vec::new();
        let mut i: usize = 0;
        while i < capacity
            invariant
                i <= capacity,
                bytes@ =~= Seq::new(i as nat, |j: int| 0u8),
            decreases capacity - i,
        {
            bytes.push(0u8);
            i = i + 1;
        }
        Memory { bytes }
    }

    /// The `size` bytes from `offset` on.
    pub fn read(&self, offset: usize, size: usize) -> (r: Result<Vec<u8>, ExecutionError>)
        ensures
            offset + size <= self@.len() ==> (r matches Ok(v) && v@ == self@.subrange(
                offset as int,
                offset + size,
            )),
            offset + size > self@.len() ==> r == Err::<Vec<u8>, ExecutionError>(
                ExecutionError::OutOfBounds,
            ),
    {
        if offset > self.bytes.len() || size > self.bytes.len() - offset {
            return Err(ExecutionError::OutOfBounds);
        }
        let mut v: Vec<u8> = Vec::new();
        let mut i: usize = 0;
        while i < size
            invariant
                offset + size <= self@.len(),
                self@.len() <= usize::MAX,
                i <= size,
                v@ =~= self@.subrange(offset as int, offset + i),
            decreases size - i,
        {
            v.push(self.bytes[offset + i]);
            i = i + 1;
        }
        Ok(v)
    }

    /// Overwrites the bytes from `offset` on with `data`, all of it or, when
    /// it does not fit, nothing.
    pub fn write(&mut self, offset: usize, data: &[u8]) -> (r: Result<(), ExecutionError>)
        ensures
            offset + data@.len() <= old(self)@.len() ==> r is Ok && final(self)@ == old(
                self,
            )@.subrange(0, offset as int) + data@ + old(self)@.subrange(
                offset + data@.len(),
                old(self)@.len() as int,
            ),
            offset + data@.len() > old(self)@.len() ==> r == Err::<(), ExecutionError>(
                ExecutionError::OutOfBounds,
            ) && final(self)@ == old(self)@,
    {
        if offset > self.bytes.len() || data.len() > self.bytes.len() - offset {
            return Err(ExecutionError::OutOfBounds);
        }
        let mut i: usize = 0;
        while i < data.len()
            invariant
                offset + data@.len() <= self@.len(),
                self@.len() == old(self)@.len(),
                self@.len() <= usize::MAX,
                i <= data@.len(),
                forall|j: int| 0 <= j < offset ==> self@[j] == old(self)@[j],
                forall|j: int| offset + data@.len() <= j < self@.len() ==> self@[j] == old(self)@[j],
                forall|j: int| 0 <= j < i ==> self@[offset + j] == data@[j],
                forall|j: int| offset + i <= j < offset + data@.len() ==> self@[j] == old(self)@[j],
            decreases data@.len() - i,
        {
            self.bytes.set(offset + i, data[i]);
            i = i + 1;
        }
        assert(self@ =~= old(self)@.subrange(0, offset as int) + data@ + old(self)@.subrange(
            offset + data@.len(),
            old(self)@.len() as int,
        ));
        Ok(())
    }
}

} // verus!
