use vstd::prelude::*;

use crate::constants::STACK_CAPACITY;

verus! {

/// A last-in, first-out stack that holds at most `STACK_CAPACITY` values.
pub struct Stack<T> {
    stack: Vec<T>,
}

impl<T> View for Stack<T> {
    type V = Seq<T>;

    /// The values on the stack, bottom first.
    closed spec fn view(&self) -> Seq<T> {
        self.stack@
    }
}

impl<T> Stack<T> {
    /// The stack holds no more than `STACK_CAPACITY` values.
    pub open spec fn wf(&self) -> bool {
        self@.len() <= STACK_CAPACITY
    }

    pub fn new() -> (s: Self)
        ensures
            s@ == Seq::<T>::empty(),
            s.wf(),
    {
        Stack { stack: Vec::new() }
    }

    /// Pushes `value` unless the stack is full, in which case it is left as
    /// it was and an error is returned.
    pub fn push(&mut self, value: T) -> (r: Result<(), &'static str>)
        ensures
            old(self)@.len() < STACK_CAPACITY ==> r is Ok && final(self)@ == old(self)@.push(value),
            old(self)@.len() >= STACK_CAPACITY ==> r is Err && final(self)@ == old(self)@,
    {
        if self.stack.len() >= STACK_CAPACITY {
            return Err("Error: Stack maximum size exceeded");
        }
        self.stack.push(value);
        Ok(())
    }

    /// Removes and returns the top value, or `None` when the stack is empty.
    pub fn pop(&mut self) -> (r: Option<T>)
        ensures
            old(self)@.len() == 0 ==> r is None && final(self)@ == old(self)@,
            old(self)@.len() > 0 ==> r == Some(old(self)@.last()) && final(self)@
                == old(self)@.drop_last(),
    {
        self.stack.pop()
    }

    pub fn len(&self) -> (r: usize)
        ensures
            r == self@.len(),
    {
        self.stack.len()
    }
}

} // verus!
