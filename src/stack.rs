//! A bounded byte stack over a pre-allocated buffer.
use vstd::prelude::*;

verus! {

/// Why a stack operation failed.
#[derive(Clone, Copy, Debug, PartialEq, Eq, Structural)]
pub enum Error {
    StackOverflow,
    StackUnderflow,
}

impl Error {
    /// A short human-readable description.
    pub fn message(&self) -> (r: &'static str)
        ensures
            *self == Error::StackOverflow ==> r@ == "Stack Overflow"@,
            *self == Error::StackUnderflow ==> r@ == "Stack Underflow"@,
    {
        match self {
            Error::StackOverflow => "Stack Overflow",
            Error::StackUnderflow => "Stack Underflow",
        }
    }
}

/// The contents after pushing `data` onto `s` with room for `capacity`
/// bytes, or the overflow.
pub open spec fn spec_push(s: Seq<u8>, capacity: nat, data: Seq<u8>) -> Result<Seq<u8>, Error> {
    if s.len() + data.len() > capacity {
        Err(Error::StackOverflow)
    } else {
        Ok(s + data)
    }
}

/// The top `size` bytes of `s` and what remains below them, or the underflow.
pub open spec fn spec_pop(s: Seq<u8>, size: nat) -> Result<(Seq<u8>, Seq<u8>), Error> {
    if size > s.len() {
        Err(Error::StackUnderflow)
    } else {
        Ok((s.subrange(s.len() - size, s.len() as int), s.subrange(0, s.len() - size)))
    }
}

/// The `size` bytes that lie `offset` bytes below the top of `s`, or the
/// underflow.
pub open spec fn spec_peek(s: Seq<u8>, offset: nat, size: nat) -> Result<Seq<u8>, Error> {
    if offset + size > s.len() {
        Err(Error::StackUnderflow)
    } else {
        Ok(s.subrange(s.len() - offset - size, s.len() - offset))
    }
}

/// A last-in first-out byte stack of fixed capacity.
pub struct Stack {
    buffer: Vec<u8>,
    len: usize,
}

impl View for Stack {
    type V = Seq<u8>;

    /// The bytes on the stack, bottom first.
    closed spec fn view(&self) -> Seq<u8> {
        self.buffer@.subrange(0, self.len as int)
    }
}

impl Stack {
    /// The number of bytes the stack can hold.
    pub closed spec fn capacity(&self) -> nat {
        self.buffer@.len()
    }

    /// The length never exceeds the capacity.
    pub closed spec fn wf(&self) -> bool {
        self.len <= self.buffer@.len()
    }

    /// An empty stack with room for `stack_size` bytes.
    pub fn new(stack_size: usize) -> (r: Stack)
        ensures
            r.wf(),
            r@ == Seq::<u8>::empty(),
            r.capacity() == stack_size,
    {
        let mut buffer: Vec<u8> = Vec::new();
        let mut i: usize = 0;
        while i < stack_size
            invariant
                i <= stack_size,
                buffer@.len() == i,
            decreases stack_size - i,
        {
            buffer.push(0u8);
            i = i + 1;
        }
        let r = Stack { buffer, len: 0 };
        assert(r@ =~= Seq::<u8>::empty());
        r
    }

    /// The number of bytes on the stack.
    pub fn len(&self) -> (r: usize)
        requires
            self.wf(),
        ensures
            r == self@.len(),
    {
        self.len
    }

    /// Appends `data` on top, all of it or, when it does not fit, nothing.
    pub fn push(&mut self, data: &[u8]) -> (r: Result<(), Error>)
        requires
            old(self).wf(),
        ensures
            final(self).wf(),
            final(self).capacity() == old(self).capacity(),
            match spec_push(old(self)@, old(self).capacity(), data@) {
                Ok(s) => r is Ok && final(self)@ == s,
                Err(e) => r == Err::<(), Error>(e) && final(self)@ == old(self)@,
            },
    {
        if data.len() > self.buffer.len() - self.len {
            return Err(Error::StackOverflow);
        }
        let ghost before = self@;
        let mut i: usize = 0;
        while i < data.len()
            invariant
                self.wf(),
                self.buffer@.len() == old(self).buffer@.len(),
                self.len == old(self).len,
                self.len + data@.len() <= self.buffer@.len(),
                self.buffer@.len() <= usize::MAX,
                i <= data@.len(),
                self.buffer@.subrange(0, self.len as int) == before,
                forall|j: int| 0 <= j < i ==> self.buffer@[self.len + j] == data@[j],
            decreases data@.len() - i,
        {
            let at = self.len + i;
            self.buffer.set(at, data[i]);
            i = i + 1;
            assert(self.buffer@.subrange(0, self.len as int) =~= before);
        }
        self.len = self.len + data.len();
        assert(self@ =~= before + data@);
        Ok(())
    }

    /// Removes the top `size` bytes and returns them, bottom first.
    pub fn pop(&mut self, size: usize) -> (r: Result<Vec<u8>, Error>)
        requires
            old(self).wf(),
        ensures
            final(self).wf(),
            final(self).capacity() == old(self).capacity(),
            match spec_pop(old(self)@, size as nat) {
                Ok((top, rest)) => r matches Ok(v) && v@ == top && final(self)@ == rest,
                Err(e) => r == Err::<Vec<u8>, Error>(e) && final(self)@ == old(self)@,
            },
    {
        let r = self.peek_at(0, size);
        if let Ok(v) = r {
            self.len = self.len - size;
            assert(self@ =~= old(self)@.subrange(0, old(self)@.len() - size));
            Ok(v)
        } else {
            Err(Error::StackUnderflow)
        }
    }

    /// The top `size` bytes, bottom first, left on the stack.
    pub fn peek(&self, size: usize) -> (r: Result<Vec<u8>, Error>)
        requires
            self.wf(),
        ensures
            match spec_peek(self@, 0, size as nat) {
                Ok(top) => r matches Ok(v) && v@ == top,
                Err(e) => r == Err::<Vec<u8>, Error>(e),
            },
    {
        self.peek_at(0, size)
    }

    /// The `size` bytes that lie `offset` bytes below the top, bottom first,
    /// left on the stack.
    pub fn peek_at(&self, offset: usize, size: usize) -> (r: Result<Vec<u8>, Error>)
        requires
            self.wf(),
        ensures
            match spec_peek(self@, offset as nat, size as nat) {
                Ok(bytes) => r matches Ok(v) && v@ == bytes,
                Err(e) => r == Err::<Vec<u8>, Error>(e),
            },
    {
        if offset > self.len || size > self.len - offset {
            return Err(Error::StackUnderflow);
        }
        let start = self.len - offset - size;
        let mut v: Vec<u8> = Vec::new();
        let mut i: usize = 0;
        while i < size
            invariant
                self.wf(),
                start + size <= self.len,
                i <= size,
                v@ =~= self.buffer@.subrange(start as int, start + i),
            decreases size - i,
        {
            v.push(self.buffer[start + i]);
            i = i + 1;
        }
        assert(v@ =~= self@.subrange(self@.len() - offset - size, self@.len() - offset));
        Ok(v)
    }
}

/// Last in, first out: after pushing `b1` then `b2` onto `s`, popping
/// `b2`'s length gives `b2` back, then popping `b1`'s length gives `b1` back
/// and leaves `s`.
pub proof fn lemma_push_push_pop_pop(s: Seq<u8>, capacity: nat, b1: Seq<u8>, b2: Seq<u8>)
    requires
        s.len() + b1.len() + b2.len() <= capacity,
    ensures
        ({
            let s1 = spec_push(s, capacity, b1)->Ok_0;
            let s2 = spec_push(s1, capacity, b2)->Ok_0;
            let (top2, rest2) = spec_pop(s2, b2.len())->Ok_0;
            let (top1, rest1) = spec_pop(rest2, b1.len())->Ok_0;
            &&& spec_push(s, capacity, b1) is Ok
            &&& spec_push(s1, capacity, b2) is Ok
            &&& spec_pop(s2, b2.len()) is Ok
            &&& spec_pop(rest2, b1.len()) is Ok
            &&& top2 == b2
            &&& top1 == b1
            &&& rest1 == s
        }),
{
    let s1 = s + b1;
    let s2 = s1 + b2;
    assert(s2.subrange(s2.len() - b2.len(), s2.len() as int) =~= b2);
    assert(s2.subrange(0, s2.len() - b2.len()) =~= s1);
    assert(s1.subrange(s1.len() - b1.len(), s1.len() as int) =~= b1);
    assert(s1.subrange(0, s1.len() - b1.len()) =~= s);
}

/// A push that does not fit leaves the stack as it was.
pub proof fn lemma_failed_push_keeps_length(s: Seq<u8>, capacity: nat, data: Seq<u8>)
    requires
        s.len() + data.len() > capacity,
    ensures
        spec_push(s, capacity, data) == Err::<Seq<u8>, Error>(Error::StackOverflow),
{
}

/// Popping or peeking more bytes than the stack holds underflows.
pub proof fn lemma_pop_peek_beyond_length(s: Seq<u8>, offset: nat, size: nat)
    requires
        size > s.len(),
    ensures
        spec_pop(s, size) == Err::<(Seq<u8>, Seq<u8>), Error>(Error::StackUnderflow),
        spec_peek(s, offset, size) == Err::<Seq<u8>, Error>(Error::StackUnderflow),
{
}

} // verus!
