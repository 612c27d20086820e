//! Per-domain resource tracking: the page ranges granted to each domain
//! and the single opaque private-state pointer each domain may register.
//! Reclamation frees everything a domain owns in bulk — shared-heap
//! allocations, granted pages, private state — and is a no-op for a
//! domain that registered nothing.

use vstd::prelude::*;
use crate::shared_heap::{FreeShared, SharedHeap};

verus! {

/// Keys of an association list are pairwise distinct.
pub open spec fn assoc_unique<K, V>(s: Seq<(K, V)>) -> bool {
    forall|i: int, j: int| 0 <= i < j < s.len() ==> s[i].0 != s[j].0
}

/// The value recorded for a key in an association list.
pub open spec fn assoc_lookup<K, V>(s: Seq<(K, V)>, key: K) -> Option<V>
    decreases s.len(),
{
    if s.len() == 0 {
        None
    } else if s.last().0 == key {
        Some(s.last().1)
    } else {
        assoc_lookup(s.drop_last(), key)
    }
}

pub proof fn lemma_assoc_lookup_at<K, V>(s: Seq<(K, V)>, key: K, i: int)
    requires
        assoc_unique(s),
        0 <= i < s.len(),
        s[i].0 == key,
    ensures
        assoc_lookup(s, key) == Some(s[i].1),
    decreases s.len(),
{
    if i == s.len() - 1 {
    } else {
        assert(s.last().0 != key);
        assert(s.drop_last()[i] == s[i]);
        lemma_assoc_lookup_at(s.drop_last(), key, i);
    }
}

pub proof fn lemma_assoc_lookup_absent<K, V>(s: Seq<(K, V)>, key: K)
    requires
        forall|p: int| 0 <= p < s.len() ==> s[p].0 != key,
    ensures
        assoc_lookup(s, key) is None,
    decreases s.len(),
{
    if s.len() > 0 {
        assert(forall|p: int| 0 <= p < s.drop_last().len() ==> s.drop_last()[p] == s[p]);
        lemma_assoc_lookup_absent(s.drop_last(), key);
    }
}

pub proof fn lemma_assoc_push<K, V>(s: Seq<(K, V)>, key: K, v: V)
    requires
        assoc_unique(s),
        forall|p: int| 0 <= p < s.len() ==> s[p].0 != key,
    ensures
        assoc_unique(s.push((key, v))),
        assoc_lookup(s.push((key, v)), key) == Some(v),
        forall|k: K| k != key ==> assoc_lookup(s.push((key, v)), k) == assoc_lookup(s, k),
{
    let t = s.push((key, v));
    assert(t.drop_last() =~= s);
    assert(t.last() == (key, v));
    assert forall|i: int, j: int| 0 <= i < j < t.len() implies t[i].0 != t[j].0 by {
        if j == t.len() - 1 {
            assert(t[i] == s[i]);
        }
    }
}

pub proof fn lemma_assoc_update<K, V>(s: Seq<(K, V)>, i: int, key: K, v: V)
    requires
        assoc_unique(s),
        0 <= i < s.len(),
        s[i].0 == key,
    ensures
        assoc_unique(s.update(i, (key, v))),
        assoc_lookup(s.update(i, (key, v)), key) == Some(v),
        forall|k: K| k != key ==> assoc_lookup(s.update(i, (key, v)), k) == assoc_lookup(s, k),
    decreases s.len(),
{
    let t = s.update(i, (key, v));
    assert forall|p: int, q: int| 0 <= p < q < t.len() implies t[p].0 != t[q].0 by {
        assert(s[p].0 != s[q].0);
    }
    assert(forall|p: int| 0 <= p < s.drop_last().len() ==> s.drop_last()[p] == s[p]);
    if i == s.len() - 1 {
        assert(t.drop_last() =~= s.drop_last());
        assert(t.last() == (key, v));
        assert(assoc_lookup(t, key) == Some(v));
        assert forall|k: K| k != key implies assoc_lookup(t, k) == assoc_lookup(s, k) by {
            assert(s.last().0 == key);
            assert(assoc_lookup(t, k) == assoc_lookup(t.drop_last(), k));
            assert(assoc_lookup(s, k) == assoc_lookup(s.drop_last(), k));
        }
    } else {
        assert(t.drop_last() =~= s.drop_last().update(i, (key, v)));
        assert(t.last() == s.last());
        lemma_assoc_update(s.drop_last(), i, key, v);
        assert(s.last().0 != key);
        assert(assoc_lookup(t, key) == Some(v));
        assert forall|k: K| k != key implies assoc_lookup(t, k) == assoc_lookup(s, k) by {
            if s.last().0 == k {
            } else {
                assert(assoc_lookup(t, k) == assoc_lookup(t.drop_last(), k));
                assert(assoc_lookup(s, k) == assoc_lookup(s.drop_last(), k));
            }
        }
    }
}

pub proof fn lemma_assoc_remove<K, V>(s: Seq<(K, V)>, i: int, key: K)
    requires
        assoc_unique(s),
        0 <= i < s.len(),
        s[i].0 == key,
    ensures
        assoc_unique(s.remove(i)),
        assoc_lookup(s.remove(i), key) is None,
        forall|k: K| k != key ==> assoc_lookup(s.remove(i), k) == assoc_lookup(s, k),
    decreases s.len(),
{
    let t = s.remove(i);
    assert forall|p: int, q: int| 0 <= p < q < t.len() implies t[p].0 != t[q].0 by {
        let sp: int = if p < i {
            p
        } else {
            p + 1
        };
        let sq: int = if q < i {
            q
        } else {
            q + 1
        };
        assert(t[p] == s[sp]);
        assert(t[q] == s[sq]);
    }
    assert(forall|p: int| 0 <= p < s.drop_last().len() ==> s.drop_last()[p] == s[p]);
    if i == s.len() - 1 {
        assert(t =~= s.drop_last());
        assert(forall|p: int| 0 <= p < t.len() ==> t[p] == s[p]);
        lemma_assoc_lookup_absent(t, key);
        assert forall|k: K| k != key implies assoc_lookup(t, k) == assoc_lookup(s, k) by {
            assert(s.last().0 == key);
            assert(assoc_lookup(s, k) == assoc_lookup(s.drop_last(), k));
        }
    } else {
        assert(t.drop_last() =~= s.drop_last().remove(i));
        assert(t.last() == s.last());
        lemma_assoc_remove(s.drop_last(), i, key);
        assert(s.last().0 != key);
        assert(assoc_lookup(t, key) == assoc_lookup(t.drop_last(), key));
        assert forall|k: K| k != key implies assoc_lookup(t, k) == assoc_lookup(s, k) by {
            if s.last().0 == k {
            } else {
                assert(assoc_lookup(t, k) == assoc_lookup(t.drop_last(), k));
                assert(assoc_lookup(s, k) == assoc_lookup(s.drop_last(), k));
            }
        }
    }
}

/// The per-domain resource registry: for each domain id, the list of
/// page ranges `(start_page, page_count)` granted to it, and at most
/// one opaque private-state pointer.
#[derive(Debug)]
pub struct DomainResource {
    page_map: Vec<(u64, Vec<(usize, usize)>)>,
    box_data: Vec<(u64, usize)>,
}

impl DomainResource {
    /// The page ranges registered for a domain, if it has an entry.
    pub closed spec fn pages_of(self, domain_id: u64) -> Option<Vec<(usize, usize)>> {
        assoc_lookup(self.page_map@, domain_id)
    }

    /// The page ranges registered for a domain, as a sequence; a domain
    /// without an entry has none.
    pub open spec fn spec_pages(self, domain_id: u64) -> Seq<(usize, usize)> {
        match self.pages_of(domain_id) {
            Some(v) => v@,
            None => Seq::empty(),
        }
    }

    pub open spec fn has_pages_entry(self, domain_id: u64) -> bool {
        self.pages_of(domain_id) is Some
    }

    /// The private-state pointer registered for a domain, if any.
    pub closed spec fn box_of(self, domain_id: u64) -> Option<usize> {
        assoc_lookup(self.box_data@, domain_id)
    }

    pub closed spec fn wf(self) -> bool {
        assoc_unique(self.page_map@) && assoc_unique(self.box_data@)
    }

    pub fn new() -> (r: Self)
        ensures
            r.wf(),
            forall|d: u64| r.pages_of(d) is None,
            forall|d: u64| r.box_of(d) is None,
    {
        DomainResource { page_map: Vec::new(), box_data: Vec::new() }
    }

    /// Record one more page range granted to `domain_id`.  A range is
    /// `(first page number, page count)`; its byte address is the page
    /// number shifted left by [`crate::frame::FRAME_BITS`].
    pub fn insert_page_map(&mut self, domain_id: u64, page: (usize, usize))
        requires
            old(self).wf(),
        ensures
            final(self).wf(),
            final(self).spec_pages(domain_id) == old(self).spec_pages(domain_id).push(page),
            final(self).has_pages_entry(domain_id),
            forall|d: u64| d != domain_id ==> final(self).pages_of(d) == old(self).pages_of(d),
            forall|d: u64| final(self).box_of(d) == old(self).box_of(d),
    {
        let n = self.page_map.len();
        let mut i: usize = 0;
        while i < n
            invariant
                i <= n,
                n == self.page_map@.len(),
                forall|j: int| 0 <= j < i ==> self.page_map@[j].0 != domain_id,
                *self == *old(self),
                old(self).wf(),
            decreases n - i,
        {
            if self.page_map[i].0 == domain_id {
                let ghost snap = self.page_map@;
                proof {
                    lemma_assoc_lookup_at(snap, domain_id, i as int);
                }
                let entry = &mut self.page_map[i];
                entry.1.push(page);
                proof {
                    assert(self.page_map@ =~= snap.update(
                        i as int,
                        (domain_id, self.page_map@[i as int].1),
                    ));
                    lemma_assoc_update(snap, i as int, domain_id, self.page_map@[i as int].1);
                }
                return ;
            }
            i += 1;
        }
        let ghost snap = self.page_map@;
        proof {
            lemma_assoc_lookup_absent(snap, domain_id);
        }
        let mut fresh: Vec<(usize, usize)> = Vec::new();
        fresh.push(page);
        self.page_map.push((domain_id, fresh));
        proof {
            lemma_assoc_push(snap, domain_id, self.page_map@.last().1);
            assert(self.page_map@.last().1@ =~= Seq::<(usize, usize)>::empty().push(page));
        }
    }

    /// Drop the range starting at `page` from a domain's grants; the
    /// domain must have an entry.
    pub fn free_page_map(&mut self, domain_id: u64, page: usize)
        requires
            old(self).wf(),
            old(self).has_pages_entry(domain_id),
        ensures
            final(self).wf(),
            final(self).has_pages_entry(domain_id),
            final(self).spec_pages(domain_id) == old(self).spec_pages(domain_id).filter(
                |p: (usize, usize)| p.0 != page,
            ),
            forall|d: u64| d != domain_id ==> final(self).pages_of(d) == old(self).pages_of(d),
            forall|d: u64| final(self).box_of(d) == old(self).box_of(d),
    {
        let n = self.page_map.len();
        let mut i: usize = 0;
        while i < n
            invariant
                i <= n,
                n == self.page_map@.len(),
                forall|j: int| 0 <= j < i ==> self.page_map@[j].0 != domain_id,
                *self == *old(self),
                old(self).wf(),
                old(self).has_pages_entry(domain_id),
            decreases n - i,
        {
            if self.page_map[i].0 == domain_id {
                let ghost snap = self.page_map@;
                let ghost pre_vec = snap[i as int].1@;
                let entry = &self.page_map[i];
                let m = entry.1.len();
                let mut kept: Vec<(usize, usize)> = Vec::new();
                let mut j: usize = 0;
                while j < m
                    invariant
                        j <= m,
                        m == pre_vec.len(),
                        self.page_map@ == snap,
                        i < self.page_map@.len(),
                        self.page_map@[i as int].1@ == pre_vec,
                        self.page_map@[i as int].0 == domain_id,
                        old(self).wf(),
                        *self == *old(self),
                        kept@ == pre_vec.take(j as int).filter(|p: (usize, usize)| p.0 != page),
                    decreases m - j,
                {
                    let e = self.page_map[i].1[j];
                    proof {
                        reveal_with_fuel(Seq::filter, 2);
                        assert(e == pre_vec[j as int]);
                        assert(pre_vec.take(j as int + 1).drop_last() =~= pre_vec.take(j as int));
                        assert(pre_vec.take(j as int + 1).last() == pre_vec[j as int]);
                    }
                    if e.0 != page {
                        kept.push(e);
                    }
                    j += 1;
                }
                proof {
                    assert(pre_vec.take(m as int) =~= pre_vec);
                }
                let ghost kept_view = kept@;
                proof {
                    lemma_assoc_lookup_at(snap, domain_id, i as int);
                }
                self.page_map[i] = (domain_id, kept);
                proof {
                    assert(self.page_map@ =~= snap.update(
                        i as int,
                        (domain_id, self.page_map@[i as int].1),
                    ));
                    lemma_assoc_update(snap, i as int, domain_id, self.page_map@[i as int].1);
                    assert(final(self).spec_pages(domain_id) == kept_view);
                }
                return ;
            }
            i += 1;
        }
        proof {
            lemma_assoc_lookup_absent(self.page_map@, domain_id);
            assert(false);
        }
    }

    /// Record the single opaque private-state pointer of a domain; a
    /// second registration overwrites the first.
    pub fn insert_box_data(&mut self, domain_id: u64, data: usize)
        requires
            old(self).wf(),
        ensures
            final(self).wf(),
            final(self).box_of(domain_id) == Some(data),
            forall|d: u64| d != domain_id ==> final(self).box_of(d) == old(self).box_of(d),
            forall|d: u64| final(self).pages_of(d) == old(self).pages_of(d),
    {
        let n = self.box_data.len();
        let mut i: usize = 0;
        while i < n
            invariant
                i <= n,
                n == self.box_data@.len(),
                forall|j: int| 0 <= j < i ==> self.box_data@[j].0 != domain_id,
                *self == *old(self),
                old(self).wf(),
            decreases n - i,
        {
            if self.box_data[i].0 == domain_id {
                let ghost snap = self.box_data@;
                self.box_data[i] = (domain_id, data);
                proof {
                    assert(self.box_data@ =~= snap.update(i as int, (domain_id, data)));
                    lemma_assoc_update(snap, i as int, domain_id, data);
                }
                return ;
            }
            i += 1;
        }
        let ghost snap = self.box_data@;
        self.box_data.push((domain_id, data));
        proof {
            lemma_assoc_push(snap, domain_id, data);
            lemma_assoc_lookup_absent(snap, domain_id);
        }
    }

    /// Whether a domain has any resource registered here.
    pub fn has_resources(&self, domain_id: u64) -> (r: bool)
        requires
            self.wf(),
        ensures
            r == (self.pages_of(domain_id) is Some || self.box_of(domain_id) is Some),
    {
        let has_pages = self.find_pages_index(domain_id).is_some();
        let has_box = self.find_box_index(domain_id).is_some();
        has_pages || has_box
    }

    fn find_pages_index(&self, domain_id: u64) -> (r: Option<usize>)
        requires
            self.wf(),
        ensures
            match r {
                Some(i) => i < self.page_map@.len() && self.page_map@[i as int].0 == domain_id
                    && self.pages_of(domain_id) == Some(self.page_map@[i as int].1),
                None => self.pages_of(domain_id) is None,
            },
    {
        let n = self.page_map.len();
        let mut i: usize = 0;
        while i < n
            invariant
                i <= n,
                n == self.page_map@.len(),
                forall|j: int| 0 <= j < i ==> self.page_map@[j].0 != domain_id,
                self.wf(),
            decreases n - i,
        {
            if self.page_map[i].0 == domain_id {
                proof {
                    lemma_assoc_lookup_at(self.page_map@, domain_id, i as int);
                }
                return Some(i);
            }
            i += 1;
        }
        proof {
            lemma_assoc_lookup_absent(self.page_map@, domain_id);
        }
        None
    }

    fn find_box_index(&self, domain_id: u64) -> (r: Option<usize>)
        requires
            self.wf(),
        ensures
            match r {
                Some(i) => i < self.box_data@.len() && self.box_data@[i as int].0 == domain_id
                    && self.box_of(domain_id) == Some(self.box_data@[i as int].1),
                None => self.box_of(domain_id) is None,
            },
    {
        let n = self.box_data.len();
        let mut i: usize = 0;
        while i < n
            invariant
                i <= n,
                n == self.box_data@.len(),
                forall|j: int| 0 <= j < i ==> self.box_data@[j].0 != domain_id,
                self.wf(),
            decreases n - i,
        {
            if self.box_data[i].0 == domain_id {
                proof {
                    lemma_assoc_lookup_at(self.box_data@, domain_id, i as int);
                }
                return Some(i);
            }
            i += 1;
        }
        proof {
            lemma_assoc_lookup_absent(self.box_data@, domain_id);
        }
        None
    }
}

/// Register a domain's private-state pointer in the resource registry.
pub fn register_domain_resource(res: &mut DomainResource, domain_id: u64, box_ptr: usize)
    requires
        old(res).wf(),
    ensures
        final(res).wf(),
        final(res).box_of(domain_id) == Some(box_ptr),
        forall|d: u64| d != domain_id ==> final(res).box_of(d) == old(res).box_of(d),
        forall|d: u64| final(res).pages_of(d) == old(res).pages_of(d),
{
    res.insert_box_data(domain_id, box_ptr);
}

/// Bulk reclamation of everything `domain_id` owns: its shared-heap
/// allocations are freed or forwarded per `policy`, its page-map entry
/// is removed and the granted ranges are returned for the caller to
/// free, and its private-state entry is destroyed.  Reclaiming a domain
/// that owns nothing is a no-op that succeeds.  The returned ranges are
/// `(first page number, page count)` pairs, exactly as registered; the
/// caller shifts page numbers left by [`crate::frame::FRAME_BITS`] to
/// get the byte addresses it hands to the page allocator.
pub fn free_domain_resource(
    res: &mut DomainResource,
    heap: &mut SharedHeap,
    domain_id: u64,
    policy: FreeShared,
) -> (freed_pages: Vec<(usize, usize)>)
    requires
        old(res).wf(),
        old(heap).wf(),
    ensures
        final(res).wf(),
        final(heap).wf(),
        // the returned ranges are exactly the domain's granted pages
        freed_pages@ == old(res).spec_pages(domain_id),
        // the domain keeps no resource entry
        final(res).pages_of(domain_id) is None,
        final(res).box_of(domain_id) is None,
        forall|d: u64| d != domain_id ==> final(res).pages_of(d) == old(res).pages_of(d),
        forall|d: u64| d != domain_id ==> final(res).box_of(d) == old(res).box_of(d),
        // the shared heap holds nothing tagged to the domain
        forall|i: usize|
            old(heap).is_live(i) && old(heap).owner_of(i) == domain_id ==> match policy {
                FreeShared::Free => !final(heap).is_live(i),
                FreeShared::NotFree(new_id) => final(heap).is_live(i) && final(heap).owner_of(i)
                    == new_id,
            },
        forall|i: usize|
            final(heap).is_live(i) && old(heap).owner_of(i) != domain_id && old(heap).slot_ok(i)
                ==> old(heap).is_live(i) && final(heap).slots()[i as int] == old(
                heap,
            ).slots()[i as int],
        final(heap).num_slots() == old(heap).num_slots(),
        final(heap).local_domain() == old(heap).local_domain(),
        // under the forwarding policy no allocation is freed
        policy is NotFree ==> forall|i: usize|
            old(heap).slot_ok(i) ==> final(heap).is_live(i) == old(heap).is_live(i),
        // a domain with nothing registered reclaims as a no-op
        (old(res).pages_of(domain_id) is None && old(res).box_of(domain_id) is None && forall|
            i: usize,
        | !(old(heap).is_live(i) && old(heap).owner_of(i) == domain_id)) ==> *final(res) == *old(
            res,
        ) && *final(heap) == *old(heap) && freed_pages@.len() == 0,
{
    heap.free_domain_shared_data(domain_id, policy);
    let pages_idx = res.find_pages_index(domain_id);
    let freed_pages: Vec<(usize, usize)> = match pages_idx {
        Some(i) => {
            let ghost snap = res.page_map@;
            let entry = res.page_map.remove(i);
            proof {
                lemma_assoc_remove(snap, i as int, domain_id);
            }
            entry.1
        }
        None => Vec::new(),
    };
    let box_idx = res.find_box_index(domain_id);
    match box_idx {
        Some(i) => {
            let ghost snap = res.box_data@;
            let _entry = res.box_data.remove(i);
            proof {
                lemma_assoc_remove(snap, i as int, domain_id);
            }
        }
        None => {}
    }
    freed_pages
}

} // verus!
