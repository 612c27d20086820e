//! The domain proxy: the per-interface object callers hold.  It
//! dispatches calls to the current implementation over a lock-free fast
//! path counted per CPU, or over the read-locked slow path while a
//! replacement is in progress; it converts a panic inside a recoverable
//! call into an error return; and it installs a new implementation only
//! after every fast-path call in flight has drained (quiescence),
//! reclaiming everything the old instance owned.

use vstd::prelude::*;
use crate::{AlienError, AlienResult};
use crate::continuation::{Continuation, ContinuationStack};
use crate::domain_info::DomainFileInfo;
use crate::interface::Basic;
use crate::resource::{free_domain_resource, DomainResource};
use crate::rref::RRefVec;
use crate::shared_heap::{FreeShared, SharedHeap, SharedHeapAllocation};

verus! {

/// Sum of the per-CPU call counters.
pub open spec fn counter_total(s: Seq<usize>) -> int
    decreases s.len(),
{
    if s.len() == 0 {
        0
    } else {
        counter_total(s.drop_last()) + s.last()
    }
}

pub proof fn lemma_counter_total_nonneg(s: Seq<usize>)
    ensures
        counter_total(s) >= 0,
    decreases s.len(),
{
    if s.len() > 0 {
        lemma_counter_total_nonneg(s.drop_last());
    }
}

pub proof fn lemma_counter_total_update(s: Seq<usize>, i: int, v: usize)
    requires
        0 <= i < s.len(),
    ensures
        counter_total(s.update(i, v)) == counter_total(s) - s[i] + v,
    decreases s.len(),
{
    if i == s.len() - 1 {
        assert(s.update(i, v).drop_last() =~= s.drop_last());
        assert(s.drop_last().push(s.last()) =~= s);
    } else {
        assert(s.update(i, v).drop_last() =~= s.drop_last().update(i, v));
        assert(s.update(i, v).last() == s.last());
        lemma_counter_total_update(s.drop_last(), i, v);
    }
}

/// Quiescence, from the caller's side: while any CPU's counter is
/// positive — a fast-path call entered and has not left — the sum over
/// all CPUs is positive, so a prepared replace reports
/// [`ReplaceProgress::WaitingForCalls`] instead of swapping (see
/// [`Proxy::replace_try_finish`]): no fast-path call in flight can
/// witness the implementation change under it.
pub proof fn lemma_inflight_call_blocks_swap(counters: Seq<usize>, cpu: int)
    requires
        0 <= cpu < counters.len(),
        counters[cpu] > 0,
    ensures
        counter_total(counters) > 0,
    decreases counters.len(),
{
    lemma_counter_total_nonneg(counters.drop_last());
    if cpu < counters.len() - 1 {
        lemma_inflight_call_blocks_swap(counters.drop_last(), cpu);
    }
}

/// One call counter per CPU: a fast-path call increments its CPU's
/// counter before invoking the implementation and decrements it after,
/// so the sum over all CPUs counts the fast-path calls in flight.
#[derive(Debug)]
pub struct PerCpuCounter {
    counts: Vec<usize>,
}

impl PerCpuCounter {
    pub closed spec fn view(&self) -> Seq<usize> {
        self.counts@
    }

    pub fn new(cpus: usize) -> (r: Self)
        ensures
            r@.len() == cpus,
            forall|i: int| 0 <= i < cpus ==> r@[i] == 0,
            counter_total(r@) == 0,
    {
        let mut counts: Vec<usize> = Vec::new();
        let mut i: usize = 0;
        while i < cpus
            invariant
                i <= cpus,
                counts@.len() == i,
                forall|j: int| 0 <= j < i ==> counts@[j] == 0,
                counter_total(counts@) == 0,
            decreases cpus - i,
        {
            proof {
                lemma_counter_total_push_zero(counts@);
            }
            counts.push(0);
            i += 1;
        }
        PerCpuCounter { counts }
    }

    pub fn inc(&mut self, cpu: usize)
        requires
            cpu < old(self)@.len(),
            old(self)@[cpu as int] < usize::MAX,
        ensures
            final(self)@ == old(self)@.update(cpu as int, (old(self)@[cpu as int] + 1) as usize),
            counter_total(final(self)@) == counter_total(old(self)@) + 1,
    {
        let v = self.counts[cpu];
        self.counts[cpu] = v + 1;
        proof {
            lemma_counter_total_update(old(self)@, cpu as int, (v + 1) as usize);
        }
    }

    pub fn dec(&mut self, cpu: usize)
        requires
            cpu < old(self)@.len(),
            old(self)@[cpu as int] > 0,
        ensures
            final(self)@ == old(self)@.update(cpu as int, (old(self)@[cpu as int] - 1) as usize),
            counter_total(final(self)@) == counter_total(old(self)@) - 1,
    {
        let v = self.counts[cpu];
        self.counts[cpu] = v - 1;
        proof {
            lemma_counter_total_update(old(self)@, cpu as int, (v - 1) as usize);
        }
    }

    /// The number of fast-path calls in flight: the sum over all CPUs.
    pub fn all(&self) -> (r: usize)
        requires
            counter_total(self@) <= usize::MAX,
        ensures
            r == counter_total(self@),
    {
        let n = self.counts.len();
        let mut sum: usize = 0;
        let mut i: usize = 0;
        proof {
            lemma_counter_total_nonneg(self@);
            assert(self@.take(0) =~= Seq::<usize>::empty());
        }
        while i < n
            invariant
                i <= n,
                n == self@.len(),
                counter_total(self@) <= usize::MAX,
                sum == counter_total(self@.take(i as int)),
                counter_total(self@.take(i as int)) <= counter_total(self@),
            decreases n - i,
        {
            proof {
                assert(self@.take(i as int + 1).drop_last() =~= self@.take(i as int));
                assert(self@.take(i as int + 1).last() == self@[i as int]);
                lemma_counter_total_prefix(self@, i as int + 1);
            }
            sum = sum + self.counts[i];
            i += 1;
        }
        proof {
            assert(self@.take(n as int) =~= self@);
        }
        sum
    }
}

proof fn lemma_counter_total_push_zero(s: Seq<usize>)
    ensures
        counter_total(s.push(0)) == counter_total(s),
{
    assert(s.push(0).drop_last() =~= s);
}

/// A prefix of the counters sums to at most the whole.
proof fn lemma_counter_total_prefix(s: Seq<usize>, i: int)
    requires
        0 <= i <= s.len(),
    ensures
        counter_total(s.take(i)) <= counter_total(s),
    decreases s.len() - i,
{
    if i == s.len() {
        assert(s.take(i) =~= s);
    } else {
        assert(s.take(i + 1).drop_last() =~= s.take(i));
        assert(s.take(i + 1).last() == s[i]);
        lemma_counter_total_prefix(s, i + 1);
    }
}

/// The outcome of invoking a method of a domain implementation: either
/// the method completed with an ordinary result, or it panicked inside
/// the domain.
#[derive(Debug)]
pub enum CallOutcome<T> {
    Completed(AlienResult<T>),
    Panicked,
}

/// A model of one loaded domain implementation, as the proxy sees it:
/// its instance id, its liveness flag, whether it is the placeholder
/// installed before any real domain, and whether its methods fault.
#[derive(Debug, Clone, Copy, PartialEq, Eq, Structural)]
pub struct DomainImpl {
    /// stable id of this instance; reassigned on reload/replace
    pub id: u64,
    /// liveness: set false permanently when a panic is caught
    pub active: bool,
    /// the placeholder that fails every call except `init`
    pub empty: bool,
    /// the implementation faults whenever a method body runs
    pub panics: bool,
    /// `init` has been invoked
    pub init_called: bool,
}

impl DomainImpl {
    /// A real implementation with the given instance id; it becomes
    /// live when the domain activates itself.
    pub fn new(id: u64) -> (r: Self)
        ensures
            r == (DomainImpl { id, active: false, empty: false, panics: false, init_called: false }),
    {
        DomainImpl { id, active: false, empty: false, panics: false, init_called: false }
    }

    /// An implementation whose method bodies fault when they run.
    pub fn new_faulty(id: u64) -> (r: Self)
        ensures
            r == (DomainImpl { id, active: false, empty: false, panics: true, init_called: false }),
    {
        DomainImpl { id, active: false, empty: false, panics: true, init_called: false }
    }

    /// The placeholder implementation: inactive, id `u64::MAX`, fails
    /// every call except `init`.
    pub fn empty() -> (r: Self)
        ensures
            r == (DomainImpl {
                id: u64::MAX,
                active: false,
                empty: true,
                panics: false,
                init_called: false,
            }),
    {
        DomainImpl { id: u64::MAX, active: false, empty: true, panics: false, init_called: false }
    }

    /// Initialise the implementation with its construction argument.
    pub fn init(&mut self) -> (r: AlienResult<()>)
        ensures
            r == Ok::<(), AlienError>(()),
            *final(self) == (DomainImpl { init_called: true, ..*old(self) }),
    {
        self.init_called = true;
        Ok(())
    }

    /// Invoke the `write` method body: the placeholder rejects the
    /// call, a faulty implementation panics, a real one reports how
    /// many bytes it accepted.
    pub fn write(&self, data: &RRefVec) -> (r: CallOutcome<usize>)
        ensures
            self.empty ==> r == CallOutcome::Completed(
                Err::<usize, AlienError>(AlienError::Unsupported),
            ),
            !self.empty && self.panics ==> r == CallOutcome::<usize>::Panicked,
            !self.empty && !self.panics ==> r == CallOutcome::Completed(
                Ok::<usize, AlienError>(data.spec_size()),
            ),
    {
        if self.empty {
            CallOutcome::Completed(Err(AlienError::Unsupported))
        } else if self.panics {
            CallOutcome::Panicked
        } else {
            CallOutcome::Completed(Ok(data.size()))
        }
    }

    /// Invoke the `read` method body: a real implementation hands the
    /// buffer back filled, modelled as an echo.
    pub fn read(&self, data: RRefVec) -> (r: CallOutcome<RRefVec>)
        ensures
            self.empty ==> r is Completed && r->Completed_0 == Err::<RRefVec, AlienError>(
                AlienError::Unsupported,
            ),
            !self.empty && self.panics ==> r is Panicked,
            !self.empty && !self.panics ==> r is Completed && r->Completed_0 is Ok
                && r->Completed_0->Ok_0 == data,
    {
        if self.empty {
            CallOutcome::Completed(Err(AlienError::Unsupported))
        } else if self.panics {
            CallOutcome::Panicked
        } else {
            CallOutcome::Completed(Ok(data))
        }
    }

    /// Invoke the `handle_irq` method body.
    pub fn handle_irq(&self) -> (r: CallOutcome<()>)
        ensures
            self.empty ==> r == CallOutcome::Completed(
                Err::<(), AlienError>(AlienError::Unsupported),
            ),
            !self.empty && self.panics ==> r == CallOutcome::<()>::Panicked,
            !self.empty && !self.panics ==> r == CallOutcome::Completed(Ok::<(), AlienError>(())),
    {
        if self.empty {
            CallOutcome::Completed(Err(AlienError::Unsupported))
        } else if self.panics {
            CallOutcome::Panicked
        } else {
            CallOutcome::Completed(Ok(()))
        }
    }
}

impl Basic for DomainImpl {
    open spec fn spec_domain_id(self) -> u64 {
        self.id
    }

    open spec fn spec_is_active(self) -> bool {
        self.active
    }

    fn domain_id(&self) -> u64 {
        self.id
    }

    fn is_active(&self) -> bool {
        self.active
    }
}

/// Mark the domain live; called by the domain itself when its entry
/// function has set it up.
pub fn activate_domain(d: &mut DomainImpl)
    ensures
        *final(d) == (DomainImpl { active: true, ..*old(d) }),
{
    d.active = true;
}

/// Mark the domain dead; called from the domain's panic path.  The flag
/// never returns to live for this instance.
pub fn deactivate_domain(d: &mut DomainImpl)
    requires
        old(d).active,
    ensures
        *final(d) == (DomainImpl { active: false, ..*old(d) }),
{
    d.active = false;
}

/// A replacement that has been prepared but not yet installed: the new
/// implementation and its loader metadata, waiting for quiescence.
#[derive(Debug)]
pub struct PendingSwap {
    pub new_domain: DomainImpl,
    pub new_loader: DomainFileInfo,
}

/// What one step of the replace protocol achieved.
#[derive(Debug)]
pub enum ReplaceProgress {
    /// The swap completed; the returned page ranges belonged to the old
    /// instance and must now be given back to the page allocator.
    Done(Vec<(usize, usize)>),
    /// Fast-path calls are still in flight; the implementation was not
    /// swapped.  Yield and try again.
    WaitingForCalls,
}

/// The proxy: the current implementation, its loader metadata, the
/// update flag with the prepared replacement, and the per-CPU call
/// counters.
#[derive(Debug)]
pub struct Proxy {
    domain: DomainImpl,
    loader: DomainFileInfo,
    updating: bool,
    pending: Option<PendingSwap>,
    counter: PerCpuCounter,
}

impl Proxy {
    /// The implementation currently serving calls.
    pub closed spec fn current(self) -> DomainImpl {
        self.domain
    }

    /// Whether a replace is in progress.
    pub closed spec fn is_updating(self) -> bool {
        self.updating
    }

    pub closed spec fn pending_new_domain(self) -> Option<DomainImpl> {
        match self.pending {
            Some(p) => Some(p.new_domain),
            None => None,
        }
    }

    pub closed spec fn pending_new_loader(self) -> Option<DomainFileInfo> {
        match self.pending {
            Some(p) => Some(p.new_loader),
            None => None,
        }
    }

    pub closed spec fn counters(self) -> Seq<usize> {
        self.counter@
    }

    pub closed spec fn loader(self) -> DomainFileInfo {
        self.loader
    }

    /// At most one replace is prepared at a time, and exactly while the
    /// proxy is in the updating state.
    pub closed spec fn wf(self) -> bool {
        self.updating <==> self.pending is Some
    }

    /// Wrap a real implementation.
    pub fn new(domain: DomainImpl, loader: DomainFileInfo, cpus: usize) -> (r: Proxy)
        ensures
            r.wf(),
            r.current() == domain,
            !r.is_updating(),
            r.counters().len() == cpus,
            forall|i: int| 0 <= i < cpus ==> r.counters()[i] == 0,
            counter_total(r.counters()) == 0,
            r.loader() == loader,
    {
        Proxy {
            domain,
            loader,
            updating: false,
            pending: None,
            counter: PerCpuCounter::new(cpus),
        }
    }

    /// Wrap the placeholder implementation: the initial state before
    /// any real domain is registered.
    pub fn build_empty(loader: DomainFileInfo, cpus: usize) -> (r: Proxy)
        ensures
            r.wf(),
            r.current() == (DomainImpl {
                id: u64::MAX,
                active: false,
                empty: true,
                panics: false,
                init_called: false,
            }),
            !r.is_updating(),
            r.counters().len() == cpus,
            forall|i: int| 0 <= i < cpus ==> r.counters()[i] == 0,
            counter_total(r.counters()) == 0,
            r.loader() == loader,
    {
        Proxy {
            domain: DomainImpl::empty(),
            loader,
            updating: false,
            pending: None,
            counter: PerCpuCounter::new(cpus),
        }
    }

    /// The number of fast-path calls in flight.
    pub fn all_counter(&self) -> (r: usize)
        requires
            counter_total(self.counters()) <= usize::MAX,
        ensures
            r == counter_total(self.counters()),
    {
        self.counter.all()
    }

    /// Initialise the current implementation; dispatched directly,
    /// without a liveness check.
    pub fn init(&mut self) -> (r: AlienResult<()>)
        requires
            old(self).wf(),
        ensures
            final(self).wf(),
            r == Ok::<(), AlienError>(()),
            final(self).current() == (DomainImpl { init_called: true, ..old(self).current() }),
            final(self).is_updating() == old(self).is_updating(),
            final(self).pending_new_domain() == old(self).pending_new_domain(),
            final(self).counters() == old(self).counters(),
            final(self).loader() == old(self).loader(),
    {
        self.domain.init()
    }

    /// Dispatch `write`: the slow path under the read lock while a
    /// replace is draining, the counted lock-free fast path otherwise.
    /// The liveness check fails the call with `DomainCrashed` once the
    /// domain has crashed; the placeholder is never live.  `write` is
    /// not marked recoverable: a panic inside it would be a fatal
    /// kernel fault, so the implementation must not fault.
    pub fn write(&mut self, cpu: usize, data: &RRefVec) -> (r: AlienResult<usize>)
        requires
            old(self).wf(),
            cpu < old(self).counters().len(),
            old(self).counters()[cpu as int] < usize::MAX,
            !old(self).current().panics,
        ensures
            final(self).wf(),
            final(self).current() == old(self).current(),
            final(self).is_updating() == old(self).is_updating(),
            final(self).pending_new_domain() == old(self).pending_new_domain(),
            final(self).counters() == old(self).counters(),
            final(self).loader() == old(self).loader(),
            !old(self).current().active ==> r == Err::<usize, AlienError>(
                AlienError::DomainCrashed,
            ),
            old(self).current().active && old(self).current().empty ==> r == Err::<
                usize,
                AlienError,
            >(AlienError::Unsupported),
            old(self).current().active && !old(self).current().empty ==> r == Ok::<
                usize,
                AlienError,
            >(data.spec_size()),
    {
        if self.updating {
            // slow path: behind the read lock
            self.invoke_write(data)
        } else {
            // fast path: counted, lock-free
            self.counter.inc(cpu);
            let r = self.invoke_write(data);
            self.counter.dec(cpu);
            proof {
                assert(self.counter@ =~= old(self).counters());
            }
            r
        }
    }

    /// Dispatch `write` for a method marked no-check: the liveness
    /// check is skipped, so even a crashed or placeholder domain is
    /// attempted.
    pub fn write_no_check(&mut self, cpu: usize, data: &RRefVec) -> (r: AlienResult<usize>)
        requires
            old(self).wf(),
            cpu < old(self).counters().len(),
            old(self).counters()[cpu as int] < usize::MAX,
            !old(self).current().panics,
        ensures
            final(self).wf(),
            final(self).current() == old(self).current(),
            final(self).is_updating() == old(self).is_updating(),
            final(self).pending_new_domain() == old(self).pending_new_domain(),
            final(self).counters() == old(self).counters(),
            final(self).loader() == old(self).loader(),
            old(self).current().empty ==> r == Err::<usize, AlienError>(AlienError::Unsupported),
            !old(self).current().empty ==> r == Ok::<usize, AlienError>(data.spec_size()),
    {
        if self.updating {
            let r = match self.domain.write(data) {
                CallOutcome::Completed(res) => res,
                CallOutcome::Panicked => unreached(),
            };
            r
        } else {
            self.counter.inc(cpu);
            let r = match self.domain.write(data) {
                CallOutcome::Completed(res) => res,
                CallOutcome::Panicked => unreached(),
            };
            self.counter.dec(cpu);
            proof {
                assert(self.counter@ =~= old(self).counters());
            }
            r
        }
    }

    /// The checked invocation shared by both paths of `write`.
    fn invoke_write(&self, data: &RRefVec) -> (r: AlienResult<usize>)
        requires
            !self.current().panics,
        ensures
            !self.current().active ==> r == Err::<usize, AlienError>(AlienError::DomainCrashed),
            self.current().active && self.current().empty ==> r == Err::<usize, AlienError>(
                AlienError::Unsupported,
            ),
            self.current().active && !self.current().empty ==> r == Ok::<usize, AlienError>(
                data.spec_size(),
            ),
    {
        if !self.domain.is_active() {
            return Err(AlienError::DomainCrashed);
        }
        match self.domain.write(data) {
            CallOutcome::Completed(res) => res,
            CallOutcome::Panicked => unreached(),
        }
    }

    /// Dispatch `handle_irq` with the same liveness discipline.
    pub fn handle_irq(&mut self, cpu: usize) -> (r: AlienResult<()>)
        requires
            old(self).wf(),
            cpu < old(self).counters().len(),
            old(self).counters()[cpu as int] < usize::MAX,
            !old(self).current().panics,
        ensures
            final(self).wf(),
            final(self).current() == old(self).current(),
            final(self).is_updating() == old(self).is_updating(),
            final(self).pending_new_domain() == old(self).pending_new_domain(),
            final(self).counters() == old(self).counters(),
            final(self).loader() == old(self).loader(),
            !old(self).current().active ==> r == Err::<(), AlienError>(AlienError::DomainCrashed),
            old(self).current().active && old(self).current().empty ==> r == Err::<(), AlienError>(
                AlienError::Unsupported,
            ),
            old(self).current().active && !old(self).current().empty ==> r == Ok::<(), AlienError>(
                (),
            ),
    {
        let fast = !self.updating;
        if fast {
            self.counter.inc(cpu);
        }
        let r = if !self.domain.is_active() {
            Err(AlienError::DomainCrashed)
        } else {
            match self.domain.handle_irq() {
                CallOutcome::Completed(res) => res,
                CallOutcome::Panicked => unreached(),
            }
        };
        if fast {
            self.counter.dec(cpu);
            proof {
                assert(self.counter@ =~= old(self).counters());
            }
        }
        r
    }

    /// Dispatch the recoverable `read` call.  A continuation is pushed
    /// before entering the domain; on a panic inside the domain the
    /// handler pops it, marks the domain permanently inactive, and the
    /// caller receives `DomainCrashed` instead of a fault.  The
    /// buffer's owner tag is rewritten to the callee for the call and
    /// back to its previous owner on success; on a failed call the
    /// buffer handle is consumed and its allocation is only recovered
    /// by the next reclaim.
    pub fn read(
        &mut self,
        cpu: usize,
        data: RRefVec,
        heap: &mut SharedHeap,
        conts: &mut ContinuationStack,
    ) -> (r: AlienResult<RRefVec>)
        requires
            old(self).wf(),
            cpu < old(self).counters().len(),
            old(self).counters()[cpu as int] < usize::MAX,
            old(heap).wf(),
            data.wf(*old(heap)),
            old(conts)@.len() < usize::MAX,
        ensures
            final(self).wf(),
            final(heap).wf(),
            final(self).is_updating() == old(self).is_updating(),
            final(self).pending_new_domain() == old(self).pending_new_domain(),
            final(self).counters() == old(self).counters(),
            final(self).loader() == old(self).loader(),
            final(conts)@ == old(conts)@,
            final(heap).local_domain() == old(heap).local_domain(),
            final(heap).spec_free_space() == old(heap).spec_free_space(),
            // liveness check fails fast and touches nothing
            !old(self).current().active ==> r == Err::<RRefVec, AlienError>(
                AlienError::DomainCrashed,
            ) && final(self).current() == old(self).current() && final(heap).slots() == old(heap).slots(),
            // a panic inside the domain is contained: the caller sees an
            // error and the domain is left permanently inactive; the
            // buffer stays tagged to the crashed callee
            old(self).current().active && !old(self).current().empty && old(self).current().panics ==> r == Err::<RRefVec, AlienError>(AlienError::DomainCrashed)
                && final(self).current() == (DomainImpl { active: false, ..old(self).current() })
                && (!data.is_borrowed() ==> final(heap).slots() == old(heap).slots().update(
                data.spec_slot() as int,
                (SharedHeapAllocation {
                    domain_id: old(self).current().id,
                    ..old(heap).slots()[data.spec_slot() as int]
                }),
            )) && (data.is_borrowed() ==> final(heap).slots() == old(heap).slots()),
            // a live real implementation serves the call: the buffer
            // comes back unchanged and owned as before
            old(self).current().active && !old(self).current().empty && !old(self).current().panics ==> {
                &&& final(self).current() == old(self).current()
                &&& r is Ok
                &&& r->Ok_0.wf(*final(heap))
                &&& r->Ok_0.view(*final(heap)) == data.view(*old(heap))
                &&& r->Ok_0.spec_size() == data.spec_size()
                &&& r->Ok_0.is_borrowed() == data.is_borrowed()
                &&& r->Ok_0.spec_domain_id(*final(heap)) == data.spec_domain_id(*old(heap))
                &&& final(heap).slots() == old(heap).slots()
            },
            // the placeholder (if forced live) rejects the call after the
            // buffer has already moved to it
            old(self).current().active && old(self).current().empty ==> r == Err::<
                RRefVec,
                AlienError,
            >(AlienError::Unsupported) && final(self).current() == old(self).current() && (
            !data.is_borrowed() ==> final(heap).slots() == old(heap).slots().update(
                data.spec_slot() as int,
                (SharedHeapAllocation {
                    domain_id: old(self).current().id,
                    ..old(heap).slots()[data.spec_slot() as int]
                }),
            )) && (data.is_borrowed() ==> final(heap).slots() == old(heap).slots()),
    {
        let fast = !self.updating;
        if fast {
            self.counter.inc(cpu);
        }
        let r = self.read_inner(data, heap, conts);
        if fast {
            self.counter.dec(cpu);
            proof {
                assert(self.counter@ =~= old(self).counters());
            }
        }
        r
    }

    /// The recoverable trampoline around the `read` method body.
    fn read_inner(
        &mut self,
        data: RRefVec,
        heap: &mut SharedHeap,
        conts: &mut ContinuationStack,
    ) -> (r: AlienResult<RRefVec>)
        requires
            old(self).wf(),
            old(heap).wf(),
            data.wf(*old(heap)),
            old(conts)@.len() < usize::MAX,
        ensures
            final(self).wf(),
            final(heap).wf(),
            final(self).is_updating() == old(self).is_updating(),
            final(self).pending_new_domain() == old(self).pending_new_domain(),
            final(self).counters() == old(self).counters(),
            final(self).loader() == old(self).loader(),
            final(conts)@ == old(conts)@,
            final(heap).local_domain() == old(heap).local_domain(),
            final(heap).spec_free_space() == old(heap).spec_free_space(),
            !old(self).current().active ==> r == Err::<RRefVec, AlienError>(
                AlienError::DomainCrashed,
            ) && final(self).current() == old(self).current() && final(heap).slots() == old(heap).slots(),
            old(self).current().active && !old(self).current().empty && old(self).current().panics ==> r == Err::<RRefVec, AlienError>(AlienError::DomainCrashed)
                && final(self).current() == (DomainImpl { active: false, ..old(self).current() })
                && (!data.is_borrowed() ==> final(heap).slots() == old(heap).slots().update(
                data.spec_slot() as int,
                (SharedHeapAllocation {
                    domain_id: old(self).current().id,
                    ..old(heap).slots()[data.spec_slot() as int]
                }),
            )) && (data.is_borrowed() ==> final(heap).slots() == old(heap).slots()),
            old(self).current().active && !old(self).current().empty && !old(self).current().panics ==> {
                &&& final(self).current() == old(self).current()
                &&& r is Ok
                &&& r->Ok_0.wf(*final(heap))
                &&& r->Ok_0.view(*final(heap)) == data.view(*old(heap))
                &&& r->Ok_0.spec_size() == data.spec_size()
                &&& r->Ok_0.is_borrowed() == data.is_borrowed()
                &&& r->Ok_0.spec_domain_id(*final(heap)) == data.spec_domain_id(*old(heap))
                &&& final(heap).slots() == old(heap).slots()
            },
            old(self).current().active && old(self).current().empty ==> r == Err::<
                RRefVec,
                AlienError,
            >(AlienError::Unsupported) && final(self).current() == old(self).current() && (
            !data.is_borrowed() ==> final(heap).slots() == old(heap).slots().update(
                data.spec_slot() as int,
                (SharedHeapAllocation {
                    domain_id: old(self).current().id,
                    ..old(heap).slots()[data.spec_slot() as int]
                }),
            )) && (data.is_borrowed() ==> final(heap).slots() == old(heap).slots()),
    {
        if !self.domain.is_active() {
            return Err(AlienError::DomainCrashed);
        }
        let callee = self.domain.id;
        let ghost pre_heap = *heap;
        let ghost orig = data;
        let mut data = data;
        let old_id = data.move_to(heap, callee);
        let ghost moved = data;
        conts.register_cont(Continuation::new([0; 32], 0));
        let outcome = self.domain.read(data);
        match outcome {
            CallOutcome::Completed(res) => {
                let _ = conts.pop_continuation();
                match res {
                    Ok(mut out) => {
                        proof {
                            assert(out == moved);
                        }
                        let _back = out.move_to(heap, old_id);
                        proof {
                            if !orig.is_borrowed() {
                                crate::rref::lemma_owned_handle(orig, pre_heap);
                                let s = orig.spec_slot() as int;
                                assert(moved.spec_slot() == orig.spec_slot());
                                assert(old_id == pre_heap.slots()[s].domain_id);
                                assert(heap.slots()[s] == pre_heap.slots()[s]);
                                assert(heap.slots() =~= pre_heap.slots());
                            } else {
                                assert(heap.slots() == pre_heap.slots());
                            }
                        }
                        Ok(out)
                    }
                    Err(e) => Err(e),
                }
            }
            CallOutcome::Panicked => {
                // the fault handler pops the most recent continuation and
                // resumes here with the sentinel error; the domain is dead
                // from now on
                let _ = conts.pop_continuation();
                deactivate_domain(&mut self.domain);
                Err(AlienError::DomainCrashed)
            }
        }
    }

    /// Begin a replace: take the update-serialisation lock, prepare the
    /// new implementation, and flip the proxy into the updating state.
    /// The cross-CPU synchronisation point after the flip is immediate
    /// here: every later call observes the updating state and takes the
    /// slow path.  Only one replace may be in progress.
    pub fn replace_begin(&mut self, new_domain: DomainImpl, new_loader: DomainFileInfo)
        requires
            old(self).wf(),
            !old(self).is_updating(),
        ensures
            final(self).wf(),
            final(self).is_updating(),
            final(self).pending_new_domain() == Some(new_domain),
            final(self).pending_new_loader() == Some(new_loader),
            final(self).current() == old(self).current(),
            final(self).counters() == old(self).counters(),
            final(self).loader() == old(self).loader(),
    {
        self.pending = Some(PendingSwap { new_domain, new_loader });
        self.updating = true;
    }

    /// Try to complete a prepared replace.  While any fast-path call is
    /// still in flight the implementation is not swapped and the caller
    /// must yield and retry: quiescence gates the swap.  Once the
    /// counters have drained, the new implementation is initialised and
    /// installed, the proxy returns to normal dispatch, and everything
    /// the old instance owned is reclaimed — its shared allocations are
    /// freed or handed to the successor per `policy`, its private state
    /// is destroyed, and its page ranges are returned for the caller to
    /// free.
    pub fn replace_try_finish(
        &mut self,
        res: &mut DomainResource,
        heap: &mut SharedHeap,
        policy: FreeShared,
    ) -> (progress: ReplaceProgress)
        requires
            old(self).wf(),
            old(self).is_updating(),
            counter_total(old(self).counters()) <= usize::MAX,
            old(res).wf(),
            old(heap).wf(),
        ensures
            final(self).wf(),
            final(res).wf(),
            final(heap).wf(),
            // quiescence: while calls are in flight, nothing moves
            counter_total(old(self).counters()) > 0 ==> progress is WaitingForCalls && *final(self)
                == *old(self) && *final(res) == *old(res) && *final(heap) == *old(heap),
            // with the counters drained the swap happens
            counter_total(old(self).counters()) == 0 ==> {
                &&& progress is Done
                &&& !final(self).is_updating()
                &&& final(self).pending_new_domain() is None
                &&& final(self).current() == (DomainImpl {
                    init_called: true,
                    ..old(self).pending_new_domain()->Some_0
                })
                &&& final(self).counters() == old(self).counters()
                // the loader metadata now describes the new image
                &&& Some(final(self).loader()) == old(self).pending_new_loader()
                // the old instance's resources are reclaimed
                &&& progress->Done_0@ == old(res).spec_pages(old(self).current().id)
                &&& final(res).pages_of(old(self).current().id) is None
                &&& final(res).box_of(old(self).current().id) is None
                &&& forall|d: u64|
                    d != old(self).current().id ==> final(res).pages_of(d) == old(res).pages_of(d)
                        && final(res).box_of(d) == old(res).box_of(d)
                &&& forall|i: usize|
                    old(heap).is_live(i) && old(heap).owner_of(i) == old(self).current().id
                        ==> match policy {
                        FreeShared::Free => !final(heap).is_live(i),
                        FreeShared::NotFree(new_id) => final(heap).is_live(i) && final(heap).owner_of(i) == new_id,
                    }
                &&& forall|i: usize|
                    final(heap).is_live(i) && old(heap).owner_of(i) != old(self).current().id
                        && old(heap).slot_ok(i) ==> old(heap).is_live(i) && final(heap).slots()[i as int] == old(heap).slots()[i as int]
                &&& final(heap).num_slots() == old(heap).num_slots()
                &&& final(heap).local_domain() == old(heap).local_domain()
            },
    {
        if self.all_counter() > 0 {
            return ReplaceProgress::WaitingForCalls;
        }
        let old_id = self.domain.id;
        let taken = self.pending.take();
        let mut swap = match taken {
            Some(p) => p,
            None => unreached(),
        };
        // initialise the new implementation before it becomes visible
        let _ = swap.new_domain.init();
        // install it and return to normal dispatch
        self.domain = swap.new_domain;
        self.loader = swap.new_loader;
        self.updating = false;
        // reclaim everything the old instance owned
        let freed = free_domain_resource(res, heap, old_id, policy);
        ReplaceProgress::Done(freed)
    }

    /// The whole replace protocol in one call, for a caller that knows
    /// the proxy is quiescent: prepare the replacement, swap, reclaim.
    pub fn replace(
        &mut self,
        new_domain: DomainImpl,
        new_loader: DomainFileInfo,
        res: &mut DomainResource,
        heap: &mut SharedHeap,
        policy: FreeShared,
    ) -> (freed_pages: Vec<(usize, usize)>)
        requires
            old(self).wf(),
            !old(self).is_updating(),
            counter_total(old(self).counters()) == 0,
            old(res).wf(),
            old(heap).wf(),
        ensures
            final(self).wf(),
            final(res).wf(),
            final(heap).wf(),
            !final(self).is_updating(),
            final(self).current() == (DomainImpl { init_called: true, ..new_domain }),
            final(self).counters() == old(self).counters(),
            freed_pages@ == old(res).spec_pages(old(self).current().id),
            final(res).pages_of(old(self).current().id) is None,
            final(res).box_of(old(self).current().id) is None,
            forall|i: usize|
                old(heap).is_live(i) && old(heap).owner_of(i) == old(self).current().id
                    ==> match policy {
                    FreeShared::Free => !final(heap).is_live(i),
                    FreeShared::NotFree(new_id) => final(heap).is_live(i) && final(heap).owner_of(i) == new_id,
                },
            final(heap).num_slots() == old(heap).num_slots(),
            final(heap).local_domain() == old(heap).local_domain(),
    {
        self.replace_begin(new_domain, new_loader);
        match self.replace_try_finish(res, heap, policy) {
            ReplaceProgress::Done(freed) => freed,
            ReplaceProgress::WaitingForCalls => unreached(),
        }
    }

    /// Enter the fast path: count this call in, then check liveness.  A
    /// crashed domain fails the call and counts it back out.
    pub fn fast_call_enter(&mut self, cpu: usize) -> (r: AlienResult<()>)
        requires
            old(self).wf(),
            !old(self).is_updating(),
            cpu < old(self).counters().len(),
            old(self).counters()[cpu as int] < usize::MAX,
        ensures
            final(self).wf(),
            final(self).current() == old(self).current(),
            final(self).is_updating() == old(self).is_updating(),
            final(self).pending_new_domain() == old(self).pending_new_domain(),
            final(self).loader() == old(self).loader(),
            old(self).current().active ==> r == Ok::<(), AlienError>(()) && final(self).counters()
                == old(self).counters().update(
                cpu as int,
                (old(self).counters()[cpu as int] + 1) as usize,
            ) && counter_total(final(self).counters()) == counter_total(old(self).counters()) + 1,
            !old(self).current().active ==> r == Err::<(), AlienError>(AlienError::DomainCrashed)
                && final(self).counters() == old(self).counters(),
    {
        self.counter.inc(cpu);
        if !self.domain.is_active() {
            self.counter.dec(cpu);
            proof {
                assert(self.counter@ =~= old(self).counters());
            }
            return Err(AlienError::DomainCrashed);
        }
        Ok(())
    }

    /// Leave the fast path: count this call out.
    pub fn fast_call_exit(&mut self, cpu: usize)
        requires
            old(self).wf(),
            cpu < old(self).counters().len(),
            old(self).counters()[cpu as int] > 0,
        ensures
            final(self).wf(),
            final(self).current() == old(self).current(),
            final(self).is_updating() == old(self).is_updating(),
            final(self).pending_new_domain() == old(self).pending_new_domain(),
            final(self).loader() == old(self).loader(),
            final(self).counters() == old(self).counters().update(
                cpu as int,
                (old(self).counters()[cpu as int] - 1) as usize,
            ),
            counter_total(final(self).counters()) == counter_total(old(self).counters()) - 1,
    {
        self.counter.dec(cpu);
    }
}

impl Basic for Proxy {
    /// The id of the implementation currently installed, recorded at
    /// the latest swap.
    open spec fn spec_domain_id(self) -> u64 {
        self.current().id
    }

    /// The current implementation's liveness flag: permanently false
    /// once a panic was caught inside it.
    open spec fn spec_is_active(self) -> bool {
        self.current().active
    }

    fn domain_id(&self) -> u64 {
        self.domain.id
    }

    fn is_active(&self) -> bool {
        self.domain.active
    }
}

} // verus!
