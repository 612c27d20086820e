//! Crash-containment continuations: before a recoverable call into a
//! domain, the runtime pushes a record of the state needed to resume at
//! the call site with a sentinel error value.  The fault handler pops the
//! most recently pushed record; a normal return pops and discards it.

use vstd::prelude::*;

verus! {

/// The state saved before one recoverable call: the caller's registers
/// and the address of the error stub that yields the sentinel value.
#[derive(Debug, Clone, Copy)]
pub struct Continuation {
    /// all general-purpose registers
    pub regs: [usize; 32],
    /// address of the function that produces the sentinel error
    pub func: usize,
}

impl Continuation {
    pub fn new(regs: [usize; 32], func: usize) -> (r: Self)
        ensures
            r.regs == regs,
            r.func == func,
    {
        Self { regs, func }
    }
}

/// The process-wide stack of continuation records.  Records are pushed
/// before a recoverable call and popped in LIFO order, either by the
/// fault handler or on normal return.
#[derive(Debug)]
pub struct ContinuationStack {
    records: Vec<Continuation>,
}

impl ContinuationStack {
    pub closed spec fn view(&self) -> Seq<Continuation> {
        self.records@
    }

    pub fn new() -> (r: Self)
        ensures
            r@ == Seq::<Continuation>::empty(),
    {
        Self { records: Vec::new() }
    }

    pub fn len(&self) -> (r: usize)
        ensures
            r == self@.len(),
    {
        self.records.len()
    }

    /// Save a continuation for the call about to be made.
    pub fn register_cont(&mut self, cont: Continuation)
        requires
            old(self)@.len() < usize::MAX,
        ensures
            final(self)@ == old(self)@.push(cont),
    {
        self.records.push(cont);
    }

    /// Pop the most recently registered continuation; `None` when no
    /// recoverable call is in progress.
    pub fn pop_continuation(&mut self) -> (r: Option<Continuation>)
        ensures
            old(self)@.len() == 0 ==> r is None && final(self)@ == old(self)@,
            old(self)@.len() > 0 ==> r == Some(old(self)@.last())
                && final(self)@ == old(self)@.drop_last(),
    {
        self.records.pop()
    }
}

} // verus!
