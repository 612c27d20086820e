//! The storage side-channel: a process-wide key/value store with a
//! dedicated allocator, used by domains to persist state across a hot
//! swap.  Values are opaque handles to domain data; a key keeps its
//! value until it is removed or overwritten, so a successor domain can
//! pick up where the old instance left off.

use vstd::prelude::*;
use vstd::string::StringSliceAdditionalSpecFns;
use crate::AlienError;
use crate::resource::{
    assoc_lookup, assoc_unique, lemma_assoc_lookup_absent, lemma_assoc_lookup_at,
    lemma_assoc_push, lemma_assoc_remove, lemma_assoc_update,
};

verus! {

/// Marker for allocators that may back the storage heap.
pub trait SendAllocator {

}

/// The dedicated allocator behind the storage heap, modelled by its
/// capacity and the bytes currently handed out.
#[derive(Debug, Clone, Copy, PartialEq, Eq, Structural)]
pub struct CustomStorge {
    pub capacity: usize,
    pub used: usize,
}

impl SendAllocator for CustomStorge {

}

impl CustomStorge {
    /// Grab `size` bytes from the storage heap; fails exactly when the
    /// heap is too full.
    pub fn allocate(&mut self, size: usize) -> (r: Result<usize, AlienError>)
        requires
            old(self).used <= old(self).capacity,
        ensures
            final(self).capacity == old(self).capacity,
            size <= old(self).capacity - old(self).used ==> r == Ok::<usize, AlienError>(
                old(self).used,
            ) && final(self).used == old(self).used + size,
            size > old(self).capacity - old(self).used ==> r == Err::<usize, AlienError>(
                AlienError::AllocationFailed,
            ) && final(self).used == old(self).used,
    {
        if size <= self.capacity - self.used {
            let offset = self.used;
            self.used = self.used + size;
            Ok(offset)
        } else {
            Err(AlienError::AllocationFailed)
        }
    }

    /// Return `size` bytes to the storage heap.
    pub fn deallocate(&mut self, size: usize)
        requires
            size <= old(self).used,
        ensures
            final(self).capacity == old(self).capacity,
            final(self).used == old(self).used - size,
    {
        self.used = self.used - size;
    }
}

/// Set up the storage heap's dedicated allocator.
pub fn init_data_allocator(capacity: usize) -> (r: CustomStorge)
    ensures
        r.capacity == capacity,
        r.used == 0,
{
    CustomStorge { capacity, used: 0 }
}

/// The key/value interface a storage backend offers: at most one value
/// per key; `insert` and `remove` report the value they displaced.
pub trait DomainDataStorage {
    spec fn inv(self) -> bool;

    spec fn value_of(self, key: Seq<u8>) -> Option<u64>;

    fn insert(&mut self, key: &str, value: u64) -> (r: Option<u64>)
        requires
            old(self).inv(),
        ensures
            final(self).inv(),
            r == old(self).value_of(key.spec_bytes()),
            final(self).value_of(key.spec_bytes()) == Some(value),
            forall|k: Seq<u8>|
                k != key.spec_bytes() ==> final(self).value_of(k) == old(self).value_of(k),
    ;

    fn get(&self, key: &str) -> (r: Option<u64>)
        requires
            self.inv(),
        ensures
            r == self.value_of(key.spec_bytes()),
    ;

    fn remove(&mut self, key: &str) -> (r: Option<u64>)
        requires
            old(self).inv(),
        ensures
            final(self).inv(),
            r == old(self).value_of(key.spec_bytes()),
            final(self).value_of(key.spec_bytes()) is None,
            forall|k: Seq<u8>|
                k != key.spec_bytes() ==> final(self).value_of(k) == old(self).value_of(k),
    ;
}

/// Compare two byte slices.
fn bytes_equal(a: &[u8], b: &[u8]) -> (r: bool)
    ensures
        r == (a@ == b@),
{
    if a.len() != b.len() {
        proof {
            assert(a@ != b@);
        }
        return false;
    }
    let n = a.len();
    let mut i: usize = 0;
    while i < n
        invariant
            i <= n,
            n == a@.len(),
            n == b@.len(),
            forall|j: int| 0 <= j < i ==> a@[j] == b@[j],
        decreases n - i,
    {
        if a[i] != b[i] {
            proof {
                assert(a@[i as int] != b@[i as int]);
            }
            return false;
        }
        i += 1;
    }
    proof {
        assert(a@ =~= b@);
    }
    true
}

/// The process-wide database of persisted domain data.
#[derive(Debug)]
pub struct Database {
    entries: Vec<(Vec<u8>, u64)>,
}

/// The database entries with their keys by view.
pub open spec fn db_entries(s: Seq<(Vec<u8>, u64)>) -> Seq<(Seq<u8>, u64)> {
    s.map_values(|e: (Vec<u8>, u64)| (e.0@, e.1))
}

impl Database {
    pub closed spec fn spec_value_of(self, key: Seq<u8>) -> Option<u64> {
        assoc_lookup(db_entries(self.entries@), key)
    }

    pub closed spec fn spec_inv(self) -> bool {
        assoc_unique(db_entries(self.entries@))
    }

    fn find_index(&self, key: &str) -> (r: Option<usize>)
        requires
            self.spec_inv(),
        ensures
            match r {
                Some(i) => i < self.entries@.len() && self.entries@[i as int].0@
                    == key.spec_bytes() && self.spec_value_of(key.spec_bytes()) == Some(
                    self.entries@[i as int].1,
                ),
                None => self.spec_value_of(key.spec_bytes()) is None,
            },
    {
        let key_bytes = key.as_bytes();
        let n = self.entries.len();
        let mut i: usize = 0;
        while i < n
            invariant
                i <= n,
                n == self.entries@.len(),
                key_bytes@ == key.spec_bytes(),
                forall|j: int| 0 <= j < i ==> self.entries@[j].0@ != key.spec_bytes(),
                self.spec_inv(),
            decreases n - i,
        {
            if bytes_equal(self.entries[i].0.as_slice(), key_bytes) {
                proof {
                    assert(db_entries(self.entries@)[i as int].0 == key.spec_bytes());
                    lemma_assoc_lookup_at(db_entries(self.entries@), key.spec_bytes(), i as int);
                }
                return Some(i);
            }
            i += 1;
        }
        proof {
            assert forall|p: int|
                0 <= p < db_entries(self.entries@).len() implies db_entries(self.entries@)[p].0
                != key.spec_bytes() by {
                assert(db_entries(self.entries@)[p].0 == self.entries@[p].0@);
            }
            lemma_assoc_lookup_absent(db_entries(self.entries@), key.spec_bytes());
        }
        None
    }
}

impl DomainDataStorage for Database {
    open spec fn inv(self) -> bool {
        self.spec_inv()
    }

    open spec fn value_of(self, key: Seq<u8>) -> Option<u64> {
        self.spec_value_of(key)
    }

    fn insert(&mut self, key: &str, value: u64) -> (r: Option<u64>) {
        let found = self.find_index(key);
        match found {
            Some(i) => {
                let ghost snap = db_entries(self.entries@);
                let old_value = self.entries[i].1;
                let key_vec = crate::rref::slice_to_vec(key.as_bytes());
                self.entries[i] = (key_vec, value);
                proof {
                    assert(db_entries(self.entries@) =~= snap.update(
                        i as int,
                        (key.spec_bytes(), value),
                    ));
                    lemma_assoc_update(snap, i as int, key.spec_bytes(), value);
                }
                Some(old_value)
            }
            None => {
                let ghost snap = db_entries(self.entries@);
                proof {
                    assert forall|p: int| 0 <= p < snap.len() implies snap[p].0
                        != key.spec_bytes() by {
                        if snap[p].0 == key.spec_bytes() {
                            lemma_assoc_lookup_at(snap, key.spec_bytes(), p);
                        }
                    }
                }
                let key_vec = crate::rref::slice_to_vec(key.as_bytes());
                self.entries.push((key_vec, value));
                proof {
                    assert(db_entries(self.entries@) =~= snap.push((key.spec_bytes(), value)));
                    lemma_assoc_push(snap, key.spec_bytes(), value);
                }
                None
            }
        }
    }

    fn get(&self, key: &str) -> (r: Option<u64>) {
        match self.find_index(key) {
            Some(i) => Some(self.entries[i].1),
            None => None,
        }
    }

    fn remove(&mut self, key: &str) -> (r: Option<u64>) {
        let found = self.find_index(key);
        match found {
            Some(i) => {
                let ghost snap = db_entries(self.entries@);
                let entry = self.entries.remove(i);
                proof {
                    assert(db_entries(self.entries@) =~= snap.remove(i as int));
                    lemma_assoc_remove(snap, i as int, key.spec_bytes());
                }
                Some(entry.1)
            }
            None => None,
        }
    }
}

/// Set up the process-wide database.
pub fn init_database() -> (r: Database)
    ensures
        r.inv(),
        forall|k: Seq<u8>| r.value_of(k) is None,
{
    Database { entries: Vec::new() }
}

/// Fetch the value under `key`, or store `value` there and return it.
pub fn get_or_insert(db: &mut Database, key: &str, value: u64) -> (r: u64)
    requires
        old(db).inv(),
    ensures
        final(db).inv(),
        match old(db).value_of(key.spec_bytes()) {
            Some(v) => r == v && *final(db) == *old(db),
            None => r == value && final(db).value_of(key.spec_bytes()) == Some(value),
        },
        final(db).value_of(key.spec_bytes()) == Some(r),
        forall|k: Seq<u8>| k != key.spec_bytes() ==> final(db).value_of(k) == old(db).value_of(k),
{
    match db.get(key) {
        Some(v) => v,
        None => {
            let _ = db.insert(key, value);
            value
        }
    }
}

/// Fetch the value under `key`, or store the already-constructed
/// `value` there and return it.
pub fn get_or_insert_in(db: &mut Database, key: &str, value: u64) -> (r: u64)
    requires
        old(db).inv(),
    ensures
        final(db).inv(),
        match old(db).value_of(key.spec_bytes()) {
            Some(v) => r == v && *final(db) == *old(db),
            None => r == value && final(db).value_of(key.spec_bytes()) == Some(value),
        },
        final(db).value_of(key.spec_bytes()) == Some(r),
        forall|k: Seq<u8>| k != key.spec_bytes() ==> final(db).value_of(k) == old(db).value_of(k),
{
    match db.get(key) {
        Some(v) => v,
        None => {
            let _ = db.insert(key, value);
            value
        }
    }
}

/// What a domain's entry function receives to reach the storage side
/// channel: the dedicated allocator and the database.
#[derive(Debug)]
pub struct StorageArg {
    pub allocator: CustomStorge,
    pub storage: Database,
}

impl StorageArg {
    pub fn new(allocator: CustomStorge, storage: Database) -> (r: Self)
        ensures
            r.allocator == allocator,
            r.storage == storage,
    {
        StorageArg { allocator, storage }
    }
}

} // verus!
