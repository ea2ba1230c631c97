//! The call stack: a fixed-capacity LIFO of 16-bit return addresses.

use vstd::prelude::*;

verus! {

pub const STACK_SIZE: usize = 16;

/// A LIFO of at most sixteen 16-bit return addresses. The view is the
/// sequence of live entries, oldest first.
#[derive(Clone, Copy)]
pub struct Stack {
    buffer: [u16; 16],
    head: usize,
}

impl View for Stack {
    type V = Seq<u16>;

    closed spec fn view(&self) -> Seq<u16> {
        self.buffer@.take(self.head as int)
    }
}

impl Stack {
    /// The capacity bound that every constructed stack keeps.
    pub closed spec fn wf(&self) -> bool {
        self.head <= STACK_SIZE
    }

    /// An empty stack.
    pub fn new() -> (s: Stack)
        ensures
            s.wf(),
            s@ == Seq::<u16>::empty(),
    {
        let s = Stack { buffer: [0; 16], head: 0 };
        proof {
            assert(s@ =~= Seq::<u16>::empty());
        }
        s
    }

    /// The number of live return addresses.
    pub fn len(&self) -> (n: usize)
        requires
            self.wf(),
        ensures
            n == self@.len(),
    {
        self.head
    }

    /// Push a return address; the stack must not be full.
    pub fn push(&mut self, value: u16)
        requires
            old(self).wf(),
            old(self)@.len() < STACK_SIZE,
        ensures
            final(self).wf(),
            final(self)@ == old(self)@.push(value),
    {
        self.buffer[self.head] = value;
        self.head += 1;
        proof {
            assert(self@ =~= old(self)@.push(value));
        }
    }

    /// Pop the most recent return address; the stack must not be empty.
    pub fn pop(&mut self) -> (value: u16)
        requires
            old(self).wf(),
            old(self)@.len() > 0,
        ensures
            final(self).wf(),
            value == old(self)@.last(),
            final(self)@ == old(self)@.drop_last(),
    {
        self.head -= 1;
        let value = self.buffer[self.head];
        proof {
            assert(self@ =~= old(self)@.drop_last());
        }
        value
    }

    /// The most recent return address; the stack must not be empty.
    pub fn top(&self) -> (value: u16)
        requires
            self.wf(),
            self@.len() > 0,
        ensures
            value == self@.last(),
    {
        self.buffer[self.head - 1]
    }
}

} // verus!
