//! The value stack: a fixed-capacity LIFO of signed 32-bit integers.
//!
//! Values enter and leave only at the top.  An operation below the floor or
//! above the ceiling fails without mutating the stack.

use vstd::prelude::*;

use crate::errors::ForthError;

verus! {

/// Capacity of the value stack.
pub const STACK_SIZE: usize = 64;

/// A fixed-capacity LIFO stack of `i32` values.
///
/// The view is the sequence of live values, bottom first; the top of the
/// stack is the last element of the view.
pub struct ForthStack {
    pub data: Vec<i32>,
}

impl View for ForthStack {
    type V = Seq<i32>;

    open spec fn view(&self) -> Seq<i32> {
        self.data@
    }
}

impl ForthStack {
    /// The capacity bound: the stack never holds more than `STACK_SIZE` values.
    pub open spec fn wf(&self) -> bool {
        self.data@.len() <= STACK_SIZE
    }

    /// Creates an empty stack.
    pub fn new() -> (s: Self)
        ensures
            s@ == Seq::<i32>::empty(),
            s.wf(),
    {
        Self { data: Vec::new() }
    }

    /// Pushes a value on top; on a full stack it fails and changes nothing.
    pub fn push(&mut self, value: i32) -> (r: Result<(), ForthError>)
        requires
            old(self).wf(),
        ensures
            final(self).wf(),
            old(self)@.len() < STACK_SIZE ==> r == Ok::<(), ForthError>(()) && final(self)@
                == old(self)@.push(value),
            old(self)@.len() >= STACK_SIZE ==> r == Err::<(), ForthError>(
                ForthError::StackOverflow,
            ) && final(self)@ == old(self)@,
    {
        if self.data.len() >= STACK_SIZE {
            return Err(ForthError::StackOverflow);
        }
        self.data.push(value);
        Ok(())
    }

    /// Pops the top value; on an empty stack it fails and changes nothing.
    pub fn pop(&mut self) -> (r: Result<i32, ForthError>)
        requires
            old(self).wf(),
        ensures
            final(self).wf(),
            old(self)@.len() > 0 ==> r == Ok::<i32, ForthError>(old(self)@.last())
                && final(self)@ == old(self)@.drop_last(),
            old(self)@.len() == 0 ==> r == Err::<i32, ForthError>(ForthError::StackUnderflow)
                && final(self)@ == old(self)@,
    {
        match self.data.pop() {
            Some(v) => Ok(v),
            None => Err(ForthError::StackUnderflow),
        }
    }

    /// Reads the top value without removing it; fails on an empty stack.
    pub fn peek(&self) -> (r: Result<i32, ForthError>)
        ensures
            self@.len() > 0 ==> r == Ok::<i32, ForthError>(self@.last()),
            self@.len() == 0 ==> r == Err::<i32, ForthError>(ForthError::StackEmpty),
    {
        if self.data.len() == 0 {
            Err(ForthError::StackEmpty)
        } else {
            Ok(self.data[self.data.len() - 1])
        }
    }

    /// The number of values currently on the stack.
    pub fn size(&self) -> (n: usize)
        ensures
            n == self@.len(),
    {
        self.data.len()
    }
}

/// The values returned by `k` successive pops from a stack holding `s`:
/// first the top, then the one below it, and so on.
pub open spec fn popped_values(s: Seq<i32>, k: nat) -> Seq<i32>
    decreases k,
{
    if k == 0 || s.len() == 0 {
        Seq::empty()
    } else {
        seq![s.last()] + popped_values(s.drop_last(), (k - 1) as nat)
    }
}

/// The LIFO law: after pushing the values of `vs` in order onto a stack
/// holding `s`, popping `vs.len()` times returns exactly `vs` reversed.
pub proof fn lemma_stack_lifo(s: Seq<i32>, vs: Seq<i32>)
    ensures
        popped_values(s + vs, vs.len()) == vs.reverse(),
    decreases vs.len(),
{
    if vs.len() == 0 {
        assert(popped_values(s + vs, 0) =~= vs.reverse());
    } else {
        let rest = vs.drop_last();
        assert((s + vs).drop_last() =~= s + rest);
        assert((s + vs).last() == vs.last());
        lemma_stack_lifo(s, rest);
        assert(vs.reverse() =~= seq![vs.last()] + rest.reverse());
        assert(popped_values(s + vs, vs.len()) =~= seq![vs.last()] + popped_values(
            s + rest,
            rest.len(),
        ));
    }
}

} // verus!
