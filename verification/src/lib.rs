//! Isolation substrate for a domain-structured kernel: a shared heap with
//! ownership-transferable references, per-domain resource tracking with bulk
//! reclamation, a continuation stack for crash containment, and a proxy that
//! dispatches calls to a hot-swappable domain implementation.

use vstd::prelude::*;

pub mod arch;
pub mod continuation;
pub mod domain_info;
pub mod frame;
pub mod interface;
pub mod loader;
pub mod proxy;
pub mod resource;
pub mod rref;
pub mod shared_heap;
pub mod storage;
pub mod task_meta;

verus! {

/// Errors surfaced by the isolation runtime to calling kernel code.
#[derive(Clone, Copy, Debug, PartialEq, Eq, Structural)]
pub enum AlienError {
    /// The shared heap (or page pool) could not satisfy an allocation.
    AllocationFailed,
    /// The domain's liveness check failed, or a panic inside the domain
    /// was caught and converted into an error return.
    DomainCrashed,
    /// The placeholder implementation was invoked before a real domain
    /// was registered.
    Unsupported,
    /// A call argument was malformed (for example an undersized buffer).
    InvalidArgument,
}

pub type AlienResult<T> = Result<T, AlienError>;

} // verus!
