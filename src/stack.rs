//! The bounded stack of subroutine return addresses.
use vstd::prelude::*;
use crate::error::C8Err;

verus! {

/// How many return addresses the stack holds at most.
pub const MAX: usize = 16;

/// A stack of at most `MAX` return addresses; its view lists them from the
/// bottom to the top.
#[derive(Debug)]
pub struct Stack {
    vector: Vec<u16>,
}

impl View for Stack {
    type V = Seq<u16>;

    closed spec fn view(&self) -> Seq<u16> {
        self.vector@
    }
}

impl Stack {
    /// An empty stack.
    pub fn new() -> (r: Stack)
        ensures
            r@ == Seq::<u16>::empty(),
    {
        Stack { vector: Vec::new() }
    }

    /// How many addresses are on the stack.
    pub fn len(&self) -> (r: usize)
        ensures
            r == self@.len(),
    {
        self.vector.len()
    }

    /// The addresses on the stack, from the bottom to the top.
    pub fn addresses(&self) -> (r: Vec<u16>)
        ensures
            r@ == self@,
    {
        self.vector.clone()
    }

    /// Removes and returns the top address; fails on an empty stack.
    pub fn pop(&mut self) -> (r: Result<u16, C8Err>)
        ensures
            old(self)@.len() == 0 ==> r == Err::<u16, C8Err>(C8Err::StackUnderflow)
                && final(self)@ == old(self)@,
            old(self)@.len() > 0 ==> r == Ok::<u16, C8Err>(old(self)@.last())
                && final(self)@ == old(self)@.drop_last(),
    {
        match self.vector.pop() {
            Some(a) => Ok(a),
            None => Err(C8Err::StackUnderflow),
        }
    }

    /// Puts `data` on top; fails when the stack already holds `MAX` addresses.
    pub fn push(&mut self, data: u16) -> (r: Result<(), C8Err>)
        ensures
            old(self)@.len() >= MAX ==> r == Err::<(), C8Err>(C8Err::StackOverflow)
                && final(self)@ == old(self)@,
            old(self)@.len() < MAX ==> r == Ok::<(), C8Err>(()) && final(self)@ == old(
                self,
            )@.push(data),
    {
        if self.vector.len() >= MAX {
            Err(C8Err::StackOverflow)
        } else {
            self.vector.push(data);
            Ok(())
        }
    }
}

/// Pushing `a` then `b` and popping twice yields `b`, then `a`, and leaves
/// the stack as it was.
pub proof fn lemma_push_pop_lifo(s: Seq<u16>, a: u16, b: u16)
    ensures
        s.push(a).push(b).last() == b,
        s.push(a).push(b).drop_last() == s.push(a),
        s.push(a).last() == a,
        s.push(a).drop_last() == s,
{
    assert(s.push(a).push(b).drop_last() =~= s.push(a));
    assert(s.push(a).drop_last() =~= s);
}

} // verus!
