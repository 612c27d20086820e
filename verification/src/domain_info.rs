//! Bookkeeping the kernel keeps about loaded domains: which image file
//! a domain instance came from, its interface kind, and how often it
//! has panicked.

use vstd::prelude::*;
use crate::interface::DomainTypeRaw;

verus! {

/// The image file a domain was loaded from.
#[derive(Debug, Clone)]
pub struct DomainFileInfo {
    pub name: String,
    pub size: usize,
}

impl DomainFileInfo {
    pub fn new(name: String, size: usize) -> (r: Self)
        ensures
            r.name@ == name@,
            r.size == size,
    {
        Self { name, size }
    }

    pub fn from(pair: (String, usize)) -> (r: Self)
        ensures
            r.name@ == pair.0@,
            r.size == pair.1,
    {
        let (name, size) = pair;
        Self { name, size }
    }
}

/// A loaded domain instance: its registered name, interface kind,
/// panic count, and source image.
#[derive(Debug, Clone)]
pub struct DomainDataInfo {
    pub name: String,
    pub ty: DomainTypeRaw,
    pub panic_count: usize,
    pub file_info: DomainFileInfo,
}

/// The registry of domain images by interface kind, and of running
/// domain instances by id.
#[derive(Debug)]
pub struct DomainInfo {
    pub ty_list: Vec<(DomainTypeRaw, Vec<DomainFileInfo>)>,
    pub domain_list: Vec<(u64, DomainDataInfo)>,
}

impl DomainInfo {
    pub fn new() -> (r: Self)
        ensures
            r.ty_list@.len() == 0,
            r.domain_list@.len() == 0,
    {
        Self { ty_list: Vec::new(), domain_list: Vec::new() }
    }
}

} // verus!
