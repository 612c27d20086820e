//! Task metadata exchanged between the kernel core and the scheduler /
//! task domains: execution context, scheduling parameters, and the
//! operations the core-function table accepts.

use vstd::prelude::*;

verus! {

/// Callee-saved execution context of a task.
#[derive(Debug, Clone, Copy)]
pub struct TaskContext {
    /// return address
    pub ra: usize,
    /// stack pointer
    pub sp: usize,
    /// s0 ~ s11
    pub s: [usize; 12],
}

impl TaskContext {
    pub fn new(ra: usize, sp: usize) -> (r: Self)
        ensures
            r.ra == ra,
            r.sp == sp,
            forall|i: int| 0 <= i < 12 ==> r.s[i] == 0,
    {
        Self { ra, sp, s: [0; 12] }
    }

    pub fn empty() -> (r: Self)
        ensures
            r.ra == 0,
            r.sp == 0,
            forall|i: int| 0 <= i < 12 ==> r.s[i] == 0,
    {
        Self { ra: 0, sp: 0, s: [0; 12] }
    }

    pub fn set_sp(&mut self, sp: usize)
        ensures
            final(self).sp == sp,
            final(self).ra == old(self).ra,
            final(self).s == old(self).s,
    {
        self.sp = sp;
    }

    pub fn ra(&self) -> (r: usize)
        ensures
            r == self.ra,
    {
        self.ra
    }

    pub fn sp(&self) -> (r: usize)
        ensures
            r == self.sp,
    {
        self.sp
    }
}

/// Lifecycle state of a task.
#[derive(Debug, Clone, Copy, PartialEq, Eq, Structural)]
pub enum TaskStatus {
    /// ready to run
    Ready,
    /// currently running
    Running,
    /// waiting for an event
    Waiting,
    /// finished, waiting for the parent to collect resources
    Zombie,
    /// fully terminated
    Terminated,
}

/// Identity, status and context of a task.
#[derive(Debug, Clone, Copy)]
pub struct TaskBasicInfo {
    pub tid: usize,
    pub status: TaskStatus,
    pub context: TaskContext,
}

impl TaskBasicInfo {
    pub fn new(tid: usize, context: TaskContext) -> (r: Self)
        ensures
            r.tid == tid,
            r.status == TaskStatus::Ready,
            r.context == context,
    {
        Self { tid, status: TaskStatus::Ready, context }
    }

    pub fn tid(&self) -> (r: usize)
        ensures
            r == self.tid,
    {
        self.tid
    }

    pub fn set_status(&mut self, status: TaskStatus)
        ensures
            final(self).status == status,
            final(self).tid == old(self).tid,
            final(self).context == old(self).context,
    {
        self.status = status;
    }

    pub fn status(&self) -> (r: TaskStatus)
        ensures
            r == self.status,
    {
        self.status
    }

    pub fn task_context(&mut self) -> (r: &mut TaskContext)
        ensures
            *r == old(self).context,
            final(self).context == *final(r),
            final(self).tid == old(self).tid,
            final(self).status == old(self).status,
    {
        &mut self.context
    }
}

/// Parameters the scheduler domain uses to pick a task.
#[derive(Debug, Clone, Copy)]
pub struct TaskSchedulingInfo {
    pub tid: usize,
    pub priority: usize,
    pub cpus_allowed: usize,
}

impl TaskSchedulingInfo {
    pub fn new(tid: usize, priority: usize, cpu_allowed: usize) -> (r: Self)
        ensures
            r.tid == tid,
            r.priority == priority,
            r.cpus_allowed == cpu_allowed,
    {
        Self { tid, priority, cpus_allowed: cpu_allowed }
    }
}

/// Everything the core hands over when creating a task.
#[derive(Debug, Clone, Copy)]
pub struct TaskMeta {
    pub task_basic_info: TaskBasicInfo,
    pub scheduling_info: TaskSchedulingInfo,
}

impl TaskMeta {
    pub fn new(basic_info: TaskBasicInfo, scheduling_info: TaskSchedulingInfo) -> (r: Self)
        ensures
            r.task_basic_info == basic_info,
            r.scheduling_info == scheduling_info,
    {
        Self { task_basic_info: basic_info, scheduling_info }
    }

    pub fn basic_info(&self) -> (r: TaskBasicInfo)
        ensures
            r == self.task_basic_info,
    {
        self.task_basic_info
    }

    pub fn scheduling_info(&self) -> (r: TaskSchedulingInfo)
        ensures
            r == self.scheduling_info,
    {
        self.scheduling_info
    }
}

/// A task operation submitted through the core-function table.
#[derive(Debug, Clone, Copy)]
pub enum TaskOperation {
    Create(TaskMeta),
    Wait,
    Wakeup(usize),
    Yield,
    Exit,
    Remove(usize),
    Current,
    ExitOver(usize),
}

/// The typed reply to a [`TaskOperation`].
#[derive(Debug, Clone, Copy)]
pub enum OperationResult {
    Current(Option<usize>),
    KstackTop(usize),
    Null,
    ExitOver(bool),
}

impl OperationResult {
    pub fn current_tid(&self) -> (r: Option<usize>)
        requires
            self is Current,
        ensures
            r == self->Current_0,
    {
        match self {
            OperationResult::Current(tid) => *tid,
            _ => unreached(),
        }
    }

    pub fn kstack_top(&self) -> (r: usize)
        requires
            self is KstackTop,
        ensures
            r == self->KstackTop_0,
    {
        match self {
            OperationResult::KstackTop(top) => *top,
            _ => unreached(),
        }
    }

    pub fn is_exit_over(&self) -> (r: bool)
        requires
            self is ExitOver,
        ensures
            r == self->ExitOver_0,
    {
        match self {
            OperationResult::ExitOver(is_exit) => *is_exit,
            _ => unreached(),
        }
    }
}

} // verus!
