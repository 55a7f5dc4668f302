use vstd::prelude::*;

use crate::error::Chip8Error;

verus! {

/// Number of return addresses the stack can hold.
pub const STACK_DEPTH: usize = 16;

/// A fixed-depth LIFO of return addresses.
pub struct Stack {
    stack: [u16; 16],
    pointer: u16,
}

impl View for Stack {
    type V = Seq<u16>;

    /// The addresses on the stack, oldest first.
    closed spec fn view(&self) -> Seq<u16> {
        self.stack@.subrange(0, self.pointer as int)
    }
}

impl Stack {
    #[verifier::type_invariant]
    spec fn inv(&self) -> bool {
        self.pointer <= 16
    }

    pub fn new() -> (r: Self)
        ensures
            r@ == Seq::<u16>::empty(),
    {
        let r = Self { stack: [0; 16], pointer: 0 };
        assert(r@ =~= Seq::<u16>::empty());
        r
    }

    /// Number of addresses on the stack.
    pub fn len(&self) -> (r: usize)
        ensures
            r == self@.len(),
            r <= STACK_DEPTH,
    {
        proof {
            use_type_invariant(self);
        }
        self.pointer as usize
    }

    /// Pushes `value`; fails with `StackOverflow`, changing nothing, when the
    /// stack already holds sixteen addresses.
    pub fn push(&mut self, value: u16) -> (r: Result<(), Chip8Error>)
        ensures
            old(self)@.len() < STACK_DEPTH ==> r == Ok::<(), Chip8Error>(()) && final(self)@ == old(
                self,
            )@.push(value),
            old(self)@.len() >= STACK_DEPTH ==> r == Err::<(), Chip8Error>(Chip8Error::StackOverflow)
                && final(self)@ == old(self)@,
    {
        proof {
            use_type_invariant(&*self);
        }
        if self.pointer as usize >= STACK_DEPTH {
            return Err(Chip8Error::StackOverflow);
        }
        let ghost before = self@;
        self.stack[self.pointer as usize] = value;
        self.pointer = self.pointer + 1;
        assert(self@ =~= before.push(value));
        Ok(())
    }

    /// Pops the most recent address; fails with `StackUnderflow`, changing
    /// nothing, when the stack is empty.
    pub fn pop(&mut self) -> (r: Result<u16, Chip8Error>)
        ensures
            old(self)@.len() > 0 ==> r == Ok::<u16, Chip8Error>(old(self)@.last()) && final(self)@
                == old(self)@.drop_last(),
            old(self)@.len() == 0 ==> r == Err::<u16, Chip8Error>(Chip8Error::StackUnderflow)
                && final(self)@ == old(self)@,
    {
        proof {
            use_type_invariant(&*self);
        }
        if self.pointer == 0 {
            return Err(Chip8Error::StackUnderflow);
        }
        let ghost before = self@;
        self.pointer = self.pointer - 1;
        assert(self@ =~= before.drop_last());
        Ok(self.stack[self.pointer as usize])
    }
}

} // verus!
