//! Per-CPU storage.  The kernel keeps one copy of a value per hardware
//! thread; in this model each execution context owns its copy outright
//! and no aliasing across contexts exists.

use vstd::prelude::*;

verus! {

/// One CPU's private copy of a value.
#[derive(Debug)]
pub struct CpuLocal<T> {
    value: T,
}

impl<T> CpuLocal<T> {
    pub closed spec fn spec_value(self) -> T {
        self.value
    }

    pub fn new(value: T) -> (r: Self)
        ensures
            r.spec_value() == value,
    {
        CpuLocal { value }
    }

    pub fn get(&self) -> (r: &T)
        ensures
            *r == self.spec_value(),
    {
        &self.value
    }

    pub fn as_mut(&mut self) -> (r: &mut T)
        ensures
            *r == old(self).spec_value(),
            final(self).spec_value() == *final(r),
    {
        &mut self.value
    }
}

} // verus!
