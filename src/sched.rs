//! The task and process registries, target resolution, and the scheduling
//! system calls.
use vstd::prelude::*;
use crate::errno::{SyscallError, SyscallResult};
use crate::space::AddressSpace;
use crate::task::{
    core_mask, low_bits, low_mask, mask_bits, policy_of, priority_allowed, truncate_mask, valid_priority,
    SchedParam, SchedPolicy, SchedStatus, Task,
};
use crate::user_ref::{CheckType, UserRef};

verus! {

/// `ts` holds a task with thread id `tid`.
pub open spec fn holds_task(ts: Seq<Task>, tid: u64) -> bool {
    exists|i: int| 0 <= i < ts.len() && ts[i].tid == tid
}

/// The task of `ts` with thread id `tid`.
pub open spec fn task_in(ts: Seq<Task>, tid: u64) -> Task {
    ts[choose|i: int| 0 <= i < ts.len() && ts[i].tid == tid]
}

/// No two tasks of `ts` share a thread id.
pub open spec fn unique_tids(ts: Seq<Task>) -> bool {
    forall|i: int, j: int| 0 <= i < ts.len() && 0 <= j < ts.len() && i != j ==> ts[i].tid != ts[j].tid
}

proof fn lemma_task_at(ts: Seq<Task>, i: int)
    requires
        unique_tids(ts),
        0 <= i < ts.len(),
    ensures
        holds_task(ts, ts[i].tid),
        task_in(ts, ts[i].tid) == ts[i],
{
    assert(ts[i].tid == ts[i].tid);
}

/// A task that was just created: `SCHED_OTHER` at priority zero, allowed on
/// every core, leading its process when its id is the process id.
pub open spec fn fresh_task(tid: u64, pid: u64, smp: usize) -> Task {
    Task {
        tid,
        process_id: pid,
        leader: tid == pid,
        status: SchedStatus { policy: SchedPolicy::SCHED_OTHER, priority: 0 },
        cpu_set: core_mask(smp),
    }
}

/// A mask limited to some of the platform's cores stays within its cores.
proof fn lemma_truncated_within(mask: u64, size: usize, smp: usize)
    requires
        1 <= smp <= 64,
    ensures
        truncate_mask(mask, size, smp) & core_mask(smp) == truncate_mask(mask, size, smp),
{
    let k = mask_bits(size, smp);
    lemma_low_mask_within(k, smp as nat);
    let a = low_mask(k);
    let b = low_mask(smp as nat);
    assert((mask & a) & b == mask & (a & b)) by (bit_vector);
}

/// The `k` lowest bits are among the `s` lowest bits.
proof fn lemma_low_mask_within(k: nat, s: nat)
    requires
        k <= s <= 64,
    ensures
        low_mask(k) & low_mask(s) == low_mask(k),
{
    if s >= 64 {
        let a = low_mask(k);
        assert(a & u64::MAX == a) by (bit_vector);
    } else {
        let kk = k as u64;
        let ss = s as u64;
        assert(((1u64 << kk) - 1) as u64 & ((1u64 << ss) - 1) as u64 == ((1u64 << kk) - 1) as u64)
            by (bit_vector)
            requires
                kk <= ss < 64,
        ;
    }
}

/// The registries of live tasks and processes, the task that is running,
/// and the number of cores of the platform.
pub struct Registry {
    tasks: Vec<Task>,
    processes: Vec<u64>,
    current: u64,
    smp: usize,
}

impl Registry {
    /// The registered tasks.
    pub closed spec fn tasks(self) -> Seq<Task> {
        self.tasks@
    }

    /// The ids of the registered processes.
    pub closed spec fn pids(self) -> Seq<u64> {
        self.processes@
    }

    /// The thread id of the calling task.
    pub closed spec fn current(self) -> u64 {
        self.current
    }

    /// The number of cores of the platform.
    pub closed spec fn smp(self) -> usize {
        self.smp
    }

    /// A task with thread id `tid` is registered.
    pub open spec fn has_task(self, tid: u64) -> bool {
        holds_task(self.tasks(), tid)
    }

    /// The registered task with thread id `tid`.
    pub open spec fn task(self, tid: u64) -> Task {
        task_in(self.tasks(), tid)
    }

    /// A process with id `pid` is registered.
    pub open spec fn has_process(self, pid: u64) -> bool {
        self.pids().contains(pid)
    }

    /// The leader of the process `pid`: the member task that leads it.
    pub open spec fn leader_of(self, pid: u64) -> u64 {
        choose|tid: u64|
            self.has_task(tid) && self.task(tid).process_id == pid && self.task(tid).leader
    }

    /// The task that the identifier `id` designates: a thread, else the
    /// leader of a process, else the calling task for `0`.
    pub open spec fn target(self, id: u64) -> Option<u64> {
        if self.has_task(id) {
            Some(id)
        } else if self.has_process(id) {
            Some(self.leader_of(id))
        } else if id == 0 {
            Some(self.current())
        } else {
            None
        }
    }

    /// Ids are unique; the calling task is registered; the platform has 1 to
    /// 64 cores; every task has a valid status, a mask within the platform's
    /// cores and a registered process, and leads it exactly when its thread
    /// id is the process id; every process has its leader registered.
    pub closed spec fn wf(self) -> bool {
        &&& unique_tids(self.tasks@)
        &&& forall|i: int, j: int|
            0 <= i < self.processes@.len() && 0 <= j < self.processes@.len() && i != j
                ==> self.processes@[i] != self.processes@[j]
        &&& self.has_task(self.current)
        &&& 1 <= self.smp <= 64
        &&& forall|i: int|
            0 <= i < self.tasks@.len() ==> {
                let t = #[trigger] self.tasks@[i];
                &&& valid_priority(t.status.policy, t.status.priority)
                &&& t.cpu_set & core_mask(self.smp) == t.cpu_set
                &&& self.processes@.contains(t.process_id)
                &&& (t.leader <==> t.tid == t.process_id)
            }
        &&& forall|i: int|
            0 <= i < self.processes@.len() ==> self.has_task(#[trigger] self.processes@[i])
                && self.task(self.processes@[i]).process_id == self.processes@[i]
    }

    /// `next` is `self` with the task `tid` replaced by `t`.
    pub open spec fn updated(self, next: Self, tid: u64, t: Task) -> bool {
        &&& next.pids() == self.pids()
        &&& next.current() == self.current()
        &&& next.smp() == self.smp()
        &&& forall|x: u64| next.has_task(x) == self.has_task(x)
        &&& next.task(tid) == t
        &&& forall|x: u64| x != tid && self.has_task(x) ==> next.task(x) == self.task(x)
    }

    /// The index of the task `tid`.
    fn task_index(&self, tid: u64) -> (r: Option<usize>)
        ensures
            match r {
                Some(i) => i < self.tasks@.len() && self.tasks@[i as int].tid == tid,
                None => !self.has_task(tid),
            },
    {
        let mut i: usize = 0;
        while i < self.tasks.len()
            invariant
                i <= self.tasks@.len(),
                forall|j: int| 0 <= j < i ==> self.tasks@[j].tid != tid,
            decreases self.tasks@.len() - i,
        {
            if self.tasks[i].tid == tid {
                return Some(i);
            }
            i = i + 1;
        }
        None
    }

    /// Whether the process `pid` is registered.
    fn process_registered(&self, pid: u64) -> (r: bool)
        ensures
            r == self.has_process(pid),
    {
        let mut i: usize = 0;
        while i < self.processes.len()
            invariant
                i <= self.processes@.len(),
                forall|j: int| 0 <= j < i ==> self.processes@[j] != pid,
            decreases self.processes@.len() - i,
        {
            if self.processes[i] == pid {
                assert(self.processes@[i as int] == pid);
                return true;
            }
            i = i + 1;
        }
        false
    }

    /// The leader of the registered process `pid`, found by scanning the
    /// tasks for the member that leads it.
    fn find_leader(&self, pid: u64) -> (r: u64)
        requires
            self.wf(),
            self.has_process(pid),
        ensures
            r == self.leader_of(pid),
            self.has_task(r),
    {
        let ghost k = choose|k: int| 0 <= k < self.processes@.len() && self.processes@[k] == pid;
        let ghost li = choose|i: int| 0 <= i < self.tasks@.len() && self.tasks@[i].tid == pid;
        proof {
            assert(self.has_task(self.processes@[k]));
            lemma_task_at(self.tasks@, li);
        }
        let mut i: usize = 0;
        while i < self.tasks.len()
            invariant
                self.wf(),
                i <= self.tasks@.len(),
                0 <= li < self.tasks@.len(),
                self.tasks@[li].tid == pid,
                self.tasks@[li].process_id == pid,
                forall|j: int|
                    0 <= j < i ==> !(self.tasks@[j].process_id == pid && self.tasks@[j].leader),
            decreases self.tasks@.len() - i,
        {
            let t = self.tasks[i];
            if t.process_id == pid && t.leader {
                proof {
                    lemma_task_at(self.tasks@, i as int);
                    assert(self.tasks@[i as int].tid == pid);
                    let w = self.leader_of(pid);
                    assert(self.has_task(pid) && self.task(pid).process_id == pid
                        && self.task(pid).leader);
                    let wi = choose|j: int| 0 <= j < self.tasks@.len() && self.tasks@[j].tid == w;
                    lemma_task_at(self.tasks@, wi);
                }
                return t.tid;
            }
            i = i + 1;
        }
        proof {
            assert(self.tasks@[li].leader);
        }
        pid
    }

    /// The task that `id` designates, `ESRCH` when none does. The registry
    /// is only read: the caller operates on the returned thread id after.
    pub fn resolve_target(&self, id: u64) -> (r: Result<u64, SyscallError>)
        requires
            self.wf(),
        ensures
            r == match self.target(id) {
                Some(t) => Ok::<u64, SyscallError>(t),
                None => Err(SyscallError::ESRCH),
            },
            r is Ok ==> self.has_task(r->Ok_0),
    {
        if let Some(_) = self.task_index(id) {
            return Ok(id);
        }
        if self.process_registered(id) {
            return Ok(self.find_leader(id));
        }
        if id == 0 {
            return Ok(self.current);
        }
        Err(SyscallError::ESRCH)
    }

    /// Replaces the task at index `i` by `t`, which keeps its thread id,
    /// process and leadership, and has a valid status and mask.
    fn replace_task(&mut self, i: usize, t: Task)
        requires
            old(self).wf(),
            i < old(self).tasks@.len(),
            t.tid == old(self).tasks@[i as int].tid,
            t.process_id == old(self).tasks@[i as int].process_id,
            t.leader == old(self).tasks@[i as int].leader,
            valid_priority(t.status.policy, t.status.priority),
            t.cpu_set & core_mask(old(self).smp) == t.cpu_set,
        ensures
            final(self).wf(),
            old(self).updated(*final(self), t.tid, t),
    {
        let ghost before = self.tasks@;
        self.tasks.set(i, t);
        proof {
            let after = self.tasks@;
            assert forall|a: int, b: int|
                0 <= a < after.len() && 0 <= b < after.len() && a != b implies after[a].tid
                != after[b].tid by {
                assert(before[a].tid == after[a].tid && before[b].tid == after[b].tid);
            }
            lemma_task_at(after, i as int);
            assert forall|x: u64| self.has_task(x) == old(self).has_task(x) by {
                if old(self).has_task(x) {
                    let j = choose|j: int| 0 <= j < before.len() && before[j].tid == x;
                    assert(after[j].tid == x);
                }
                if self.has_task(x) {
                    let j = choose|j: int| 0 <= j < after.len() && after[j].tid == x;
                    assert(before[j].tid == x);
                }
            }
            assert forall|x: u64| x != t.tid && old(self).has_task(x) implies self.task(x)
                == old(self).task(x) by {
                let j = choose|j: int| 0 <= j < before.len() && before[j].tid == x;
                lemma_task_at(before, j);
                lemma_task_at(after, j);
            }
            assert forall|k: int| 0 <= k < self.processes@.len() implies self.has_task(
                #[trigger] self.processes@[k],
            ) && self.task(self.processes@[k]).process_id == self.processes@[k] by {
                let x = self.processes@[k];
                assert(old(self).has_task(x));
            }
            assert(self.has_task(self.current));
        }
    }

    /// Stores `mask` as the affinity of the registered task `tid`, limited to
    /// the cores that `size` bytes describe on this platform.
    pub fn set_cpu_set(&mut self, tid: u64, mask: u64, size: usize)
        requires
            old(self).wf(),
            old(self).has_task(tid),
        ensures
            final(self).wf(),
            old(self).updated(
                *final(self),
                tid,
                Task { cpu_set: truncate_mask(mask, size, old(self).smp()), ..old(self).task(tid) },
            ),
    {
        let i = self.task_index(tid).unwrap();
        proof {
            lemma_task_at(self.tasks@, i as int);
        }
        let mut t = self.tasks[i];
        let ghost s = self.smp;
        proof {
            lemma_truncated_within(mask, size, s);
        }
        t.set_cpu_set(mask, size, self.smp);
        self.replace_task(i, t);
    }

    /// Replaces the policy and priority of the registered task `tid`, both at
    /// once. The priority must be valid for the policy.
    pub fn set_sched_status(&mut self, tid: u64, status: SchedStatus)
        requires
            old(self).wf(),
            old(self).has_task(tid),
            valid_priority(status.policy, status.priority),
        ensures
            final(self).wf(),
            old(self).updated(*final(self), tid, Task { status, ..old(self).task(tid) }),
    {
        let i = self.task_index(tid).unwrap();
        proof {
            lemma_task_at(self.tasks@, i as int);
        }
        let mut t = self.tasks[i];
        t.set_sched_status(status);
        self.replace_task(i, t);
    }

    /// The registered task `tid`, if any.
    pub fn get_task(&self, tid: u64) -> (r: Option<Task>)
        requires
            self.wf(),
        ensures
            match r {
                Some(t) => self.has_task(tid) && t == self.task(tid),
                None => !self.has_task(tid),
            },
    {
        match self.task_index(tid) {
            Some(i) => {
                proof {
                    lemma_task_at(self.tasks@, i as int);
                }
                Some(self.tasks[i])
            },
            None => None,
        }
    }

    /// The thread id of the calling task.
    pub fn current_tid(&self) -> (r: u64)
        ensures
            r == self.current(),
    {
        self.current
    }

    /// The number of cores of the platform.
    pub fn cpu_count(&self) -> (r: usize)
        ensures
            r == self.smp(),
    {
        self.smp
    }

    /// A registry on a platform of `smp` cores, holding the single process
    /// `pid` whose leader task is the calling task. The task runs
    /// `SCHED_OTHER` at priority zero on every core.
    pub fn new(smp: usize, pid: u64) -> (r: Self)
        requires
            1 <= smp <= 64,
        ensures
            r.wf(),
            r.smp() == smp,
            r.current() == pid,
            r.pids() == seq![pid],
            r.tasks() == seq![fresh_task(pid, pid, smp)],
    {
        let t = Task {
            tid: pid,
            process_id: pid,
            leader: true,
            status: SchedStatus { policy: SchedPolicy::SCHED_OTHER, priority: 0 },
            cpu_set: low_bits(smp as u32),
        };
        let mut tasks = Vec::new();
        tasks.push(t);
        let mut processes = Vec::new();
        processes.push(pid);
        let r = Registry { tasks, processes, current: pid, smp };
        proof {
            let m = low_mask(smp as nat);
            assert(m & m == m) by (bit_vector);
            lemma_task_at(r.tasks@, 0);
            assert(r.processes@[0] == pid);
        }
        assert(r.tasks@ == seq![fresh_task(pid, pid, smp)]);
        assert(r.processes@ == seq![pid]);
        r
    }

    /// Registers `t`, whose thread id is not registered yet.
    fn push_task(&mut self, t: Task)
        requires
            unique_tids(old(self).tasks@),
            !old(self).has_task(t.tid),
        ensures
            final(self).tasks@ == old(self).tasks@.push(t),
            final(self).processes@ == old(self).processes@,
            final(self).current == old(self).current,
            final(self).smp == old(self).smp,
            unique_tids(final(self).tasks@),
            final(self).has_task(t.tid) && final(self).task(t.tid) == t,
            forall|x: u64|
                old(self).has_task(x) ==> final(self).has_task(x) && final(self).task(x) == old(
                    self,
                ).task(x),
            forall|x: u64| final(self).has_task(x) ==> old(self).has_task(x) || x == t.tid,
    {
        let ghost before = self.tasks@;
        self.tasks.push(t);
        proof {
            let after = self.tasks@;
            assert forall|a: int, b: int|
                0 <= a < after.len() && 0 <= b < after.len() && a != b implies after[a].tid
                != after[b].tid by {
                if a < before.len() && b == before.len() {
                    assert(before[a].tid == after[a].tid);
                }
                if b < before.len() && a == before.len() {
                    assert(before[b].tid == after[b].tid);
                }
            }
            lemma_task_at(after, before.len() as int);
            assert forall|x: u64| old(self).has_task(x) implies self.has_task(x) && self.task(x)
                == old(self).task(x) by {
                let j = choose|j: int| 0 <= j < before.len() && before[j].tid == x;
                lemma_task_at(before, j);
                lemma_task_at(after, j);
            }
            assert forall|x: u64| self.has_task(x) implies old(self).has_task(x) || x == t.tid by {
                let j = choose|j: int| 0 <= j < after.len() && after[j].tid == x;
                if j < before.len() {
                    assert(before[j].tid == x);
                }
            }
        }
    }

    /// Registers a new process `pid` with a new leader task of the same id,
    /// which runs `SCHED_OTHER` at priority zero on every core. Returns
    /// false, changing nothing, when `pid` is already a thread or a process.
    pub fn spawn_process(&mut self, pid: u64) -> (r: bool)
        requires
            old(self).wf(),
        ensures
            final(self).wf(),
            r == !(old(self).has_task(pid) || old(self).has_process(pid)),
            !r ==> *final(self) == *old(self),
            r ==> final(self).tasks() == old(self).tasks().push(
                fresh_task(pid, pid, old(self).smp()),
            ),
            r ==> final(self).pids() == old(self).pids().push(pid),
            final(self).current() == old(self).current(),
            final(self).smp() == old(self).smp(),
    {
        if self.task_index(pid).is_some() || self.process_registered(pid) {
            return false;
        }
        let t = Task {
            tid: pid,
            process_id: pid,
            leader: true,
            status: SchedStatus { policy: SchedPolicy::SCHED_OTHER, priority: 0 },
            cpu_set: low_bits(self.smp as u32),
        };
        let ghost old_pids = self.processes@;
        self.push_task(t);
        self.processes.push(pid);
        proof {
            let m = low_mask(self.smp as nat);
            assert(m & m == m) by (bit_vector);
            let ps = self.processes@;
            assert forall|i: int, j: int|
                0 <= i < ps.len() && 0 <= j < ps.len() && i != j implies ps[i] != ps[j] by {
                if i < old_pids.len() && j == old_pids.len() {
                    assert(old_pids.contains(ps[i]));
                }
                if j < old_pids.len() && i == old_pids.len() {
                    assert(old_pids.contains(ps[j]));
                }
            }
            assert forall|i: int| 0 <= i < self.tasks@.len() implies {
                let u = #[trigger] self.tasks@[i];
                &&& valid_priority(u.status.policy, u.status.priority)
                &&& u.cpu_set & core_mask(self.smp) == u.cpu_set
                &&& self.processes@.contains(u.process_id)
                &&& (u.leader <==> u.tid == u.process_id)
            } by {
                if i < old(self).tasks@.len() {
                    let u = self.tasks@[i];
                    assert(old(self).tasks@[i] == u);
                    assert(old_pids.contains(u.process_id));
                    let k = choose|k: int| 0 <= k < old_pids.len() && old_pids[k] == u.process_id;
                    assert(ps[k] == u.process_id);
                } else {
                    assert(ps[old_pids.len() as int] == pid);
                }
            }
            assert forall|i: int| 0 <= i < ps.len() implies self.has_task(#[trigger] ps[i])
                && self.task(ps[i]).process_id == ps[i] by {
                if i < old_pids.len() {
                    assert(old_pids[i] == ps[i]);
                    assert(old(self).has_task(old_pids[i]));
                }
            }
            assert(old(self).has_task(self.current));
        }
        true
    }

    /// Registers a new task `tid` in the process `pid`, running
    /// `SCHED_OTHER` at priority zero on every core. Returns false, changing
    /// nothing, when `pid` is no process or `tid` is already a thread.
    pub fn spawn_thread(&mut self, pid: u64, tid: u64) -> (r: bool)
        requires
            old(self).wf(),
        ensures
            final(self).wf(),
            r == (old(self).has_process(pid) && !old(self).has_task(tid)),
            !r ==> *final(self) == *old(self),
            r ==> final(self).tasks() == old(self).tasks().push(
                fresh_task(tid, pid, old(self).smp()),
            ),
            final(self).pids() == old(self).pids(),
            final(self).current() == old(self).current(),
            final(self).smp() == old(self).smp(),
    {
        if !self.process_registered(pid) || self.task_index(tid).is_some() {
            return false;
        }
        proof {
            let k = choose|k: int| 0 <= k < self.processes@.len() && self.processes@[k] == pid;
            assert(self.has_task(self.processes@[k]));
        }
        let t = Task {
            tid,
            process_id: pid,
            leader: false,
            status: SchedStatus { policy: SchedPolicy::SCHED_OTHER, priority: 0 },
            cpu_set: low_bits(self.smp as u32),
        };
        self.push_task(t);
        proof {
            let m = low_mask(self.smp as nat);
            assert(m & m == m) by (bit_vector);
            assert forall|i: int| 0 <= i < self.tasks@.len() implies {
                let u = #[trigger] self.tasks@[i];
                &&& valid_priority(u.status.policy, u.status.priority)
                &&& u.cpu_set & core_mask(self.smp) == u.cpu_set
                &&& self.processes@.contains(u.process_id)
                &&& (u.leader <==> u.tid == u.process_id)
            } by {
                if i < old(self).tasks@.len() {
                    assert(old(self).tasks@[i] == self.tasks@[i]);
                }
            }
            assert forall|i: int| 0 <= i < self.processes@.len() implies self.has_task(
                #[trigger] self.processes@[i],
            ) && self.task(self.processes@[i]).process_id == self.processes@[i] by {
                assert(old(self).has_task(self.processes@[i]));
            }
            assert(old(self).has_task(self.current));
        }
        true
    }

    /// Makes the registered task `tid` the calling task. Returns false,
    /// changing nothing, when `tid` is not registered.
    pub fn switch_to(&mut self, tid: u64) -> (r: bool)
        requires
            old(self).wf(),
        ensures
            final(self).wf(),
            r == old(self).has_task(tid),
            r ==> final(self).current() == tid,
            !r ==> final(self).current() == old(self).current(),
            final(self).tasks() == old(self).tasks(),
            final(self).pids() == old(self).pids(),
            final(self).smp() == old(self).smp(),
    {
        if self.task_index(tid).is_none() {
            return false;
        }
        self.current = tid;
        true
    }
}

/// `id`, read as a signed number, is negative.
pub open spec fn negative_id(id: usize) -> bool {
    id > isize::MAX
}

/// Writes to `mask` the affinity of the task that `pid` designates, limited
/// to the cores that `cpu_set_size` bytes describe on this platform, and
/// returns the number of those cores. `ESRCH` when no task is designated,
/// `EFAULT` when the word at `mask` cannot be made present.
pub fn syscall_sched_getaffinity(
    reg: &Registry,
    space: &mut AddressSpace,
    pid: usize,
    cpu_set_size: usize,
    mask: UserRef<u64>,
) -> (r: SyscallResult)
    requires
        reg.wf(),
        old(space).wf(),
    ensures
        final(space).wf(),
        reg.target(pid as u64) is None ==> r == Err::<isize, SyscallError>(SyscallError::ESRCH)
            && *final(space) == *old(space),
        reg.target(pid as u64) is Some ==> {
            let t = reg.target(pid as u64)->Some_0;
            let addr = mask.address() as int;
            let end = mask.span_end(CheckType::Lazy) as int;
            if old(space).covers(addr, end) {
                &&& r == Ok::<isize, SyscallError>(mask_bits(cpu_set_size, reg.smp()) as isize)
                &&& final(space).areas() == old(space).areas()
                &&& forall|p: int|
                    final(space).present(p) == (old(space).present(p) || crate::space::in_span(
                        p,
                        addr,
                        end,
                    ))
                &&& final(space).word(addr) == truncate_mask(
                    reg.task(t).cpu_set,
                    cpu_set_size,
                    reg.smp(),
                )
                &&& forall|a: int| a != addr ==> final(space).word(a) == old(space).word(a)
            } else {
                &&& r == Err::<isize, SyscallError>(SyscallError::EFAULT)
                &&& old(space).same(*final(space))
            }
        },
{
    let tid = match reg.resolve_target(pid as u64) {
        Ok(t) => t,
        Err(e) => return Err(e),
    };
    let task = reg.get_task(tid).unwrap();
    let cpu_set = task.get_cpu_set();
    let smp = reg.cpu_count();
    let value = crate::task::truncate(cpu_set, cpu_set_size, smp);
    match mask.write(space, CheckType::Lazy, value) {
        Ok(()) => {
            let n = crate::task::cores_described(cpu_set_size, smp);
            Ok(n as isize)
        },
        Err(e) => Err(e),
    }
}

/// Reads a mask from `mask` and stores it as the affinity of the task that
/// `pid` designates, limited to the cores that `cpu_set_size` bytes
/// describe on this platform. `ESRCH` when no task is designated, `EFAULT`
/// when the word at `mask` cannot be made present.
pub fn syscall_sched_setaffinity(
    reg: &mut Registry,
    space: &mut AddressSpace,
    pid: usize,
    cpu_set_size: usize,
    mask: UserRef<u64>,
) -> (r: SyscallResult)
    requires
        old(reg).wf(),
        old(space).wf(),
    ensures
        final(reg).wf(),
        final(space).wf(),
        old(reg).target(pid as u64) is None ==> r == Err::<isize, SyscallError>(
            SyscallError::ESRCH,
        ) && *final(reg) == *old(reg) && *final(space) == *old(space),
        old(reg).target(pid as u64) is Some ==> {
            let t = old(reg).target(pid as u64)->Some_0;
            let addr = mask.address() as int;
            let end = mask.span_end(CheckType::Lazy) as int;
            if old(space).covers(addr, end) {
                &&& r == Ok::<isize, SyscallError>(0)
                &&& old(space).committed(*final(space), addr, end)
                &&& old(reg).updated(
                    *final(reg),
                    t,
                    Task {
                        cpu_set: truncate_mask(old(space).word(addr), cpu_set_size, old(reg).smp()),
                        ..old(reg).task(t)
                    },
                )
            } else {
                &&& r == Err::<isize, SyscallError>(SyscallError::EFAULT)
                &&& old(space).same(*final(space))
                &&& *final(reg) == *old(reg)
            }
        },
{
    let tid = match reg.resolve_target(pid as u64) {
        Ok(t) => t,
        Err(e) => return Err(e),
    };
    let value = match mask.get_ref(space, CheckType::Lazy) {
        Ok(v) => v,
        Err(e) => return Err(e),
    };
    reg.set_cpu_set(tid, value, cpu_set_size);
    Ok(0)
}

/// Sets the policy and priority of the task that `pid` designates, both at
/// once. `EINVAL` when `pid` is negative or `param` is null, before the
/// registries are consulted; `ESRCH` when no task is designated; `EFAULT`
/// when the parameters cannot be made present; `EINVAL` when `policy` is
/// unknown or the priority is not allowed under it, changing no task.
pub fn syscall_sched_setscheduler(
    reg: &mut Registry,
    space: &mut AddressSpace,
    pid: usize,
    policy: usize,
    param: UserRef<SchedParam>,
) -> (r: SyscallResult)
    requires
        old(reg).wf(),
        old(space).wf(),
    ensures
        final(reg).wf(),
        final(space).wf(),
        negative_id(pid) || param.address() == 0 ==> r == Err::<isize, SyscallError>(
            SyscallError::EINVAL,
        ) && *final(reg) == *old(reg) && *final(space) == *old(space),
        !(negative_id(pid) || param.address() == 0) && old(reg).target(pid as u64) is None ==> r
            == Err::<isize, SyscallError>(SyscallError::ESRCH) && *final(reg) == *old(reg)
            && *final(space) == *old(space),
        !(negative_id(pid) || param.address() == 0) && old(reg).target(pid as u64) is Some ==> {
            let t = old(reg).target(pid as u64)->Some_0;
            let addr = param.address() as int;
            let end = param.span_end(CheckType::Lazy) as int;
            let priority = old(space).word(addr) as isize;
            let status = SchedStatus { policy: policy_of(policy), priority };
            if !old(space).covers(addr, end) {
                &&& r == Err::<isize, SyscallError>(SyscallError::EFAULT)
                &&& old(space).same(*final(space))
                &&& *final(reg) == *old(reg)
            } else {
                &&& old(space).committed(*final(space), addr, end)
                &&& if valid_priority(status.policy, priority) {
                    &&& r == Ok::<isize, SyscallError>(0)
                    &&& old(reg).updated(*final(reg), t, Task { status, ..old(reg).task(t) })
                } else {
                    &&& r == Err::<isize, SyscallError>(SyscallError::EINVAL)
                    &&& *final(reg) == *old(reg)
                }
            }
        },
{
    if pid > isize::MAX as usize || param.is_null() {
        return Err(SyscallError::EINVAL);
    }
    let tid = match reg.resolve_target(pid as u64) {
        Ok(t) => t,
        Err(e) => return Err(e),
    };
    let word = match param.get_ref(space, CheckType::Lazy) {
        Ok(v) => v,
        Err(e) => return Err(e),
    };
    let param = SchedParam { sched_priority: word as isize };
    let policy = SchedPolicy::from(policy);
    if !priority_allowed(policy, param.sched_priority) {
        return Err(SyscallError::EINVAL);
    }
    reg.set_sched_status(tid, SchedStatus { policy, priority: param.sched_priority });
    Ok(0)
}

/// The number of the policy of the task that `pid` designates. `EINVAL`
/// when `pid` is negative, `ESRCH` when no task is designated.
pub fn syscall_sched_getscheduler(reg: &Registry, pid: usize) -> (r: SyscallResult)
    requires
        reg.wf(),
    ensures
        r == if negative_id(pid) {
            Err::<isize, SyscallError>(SyscallError::EINVAL)
        } else {
            match reg.target(pid as u64) {
                Some(t) => Ok::<isize, SyscallError>(reg.task(t).status.policy.code_spec()),
                None => Err(SyscallError::ESRCH),
            }
        },
{
    if pid > isize::MAX as usize {
        return Err(SyscallError::EINVAL);
    }
    let tid = match reg.resolve_target(pid as u64) {
        Ok(t) => t,
        Err(e) => return Err(e),
    };
    let task = reg.get_task(tid).unwrap();
    Ok(task.get_sched_status().policy.code())
}

/// With a buffer of at least one byte per eight cores, the mask that
/// `sched_getaffinity` reports after `sched_setaffinity` stored `mask` is
/// `mask` limited to the platform's cores.
pub proof fn lemma_affinity_round_trip(
    before: Registry,
    after: Registry,
    tid: u64,
    mask: u64,
    size: usize,
)
    requires
        before.wf(),
        before.has_task(tid),
        size * 8 >= before.smp(),
        before.updated(
            after,
            tid,
            Task { cpu_set: truncate_mask(mask, size, before.smp()), ..before.task(tid) },
        ),
    ensures
        truncate_mask(after.task(tid).cpu_set, size, after.smp()) == mask & core_mask(before.smp()),
{
    let m = core_mask(before.smp());
    assert(mask_bits(size, before.smp()) == before.smp() as nat);
    assert((mask & m) & m == mask & m) by (bit_vector);
}

/// Two affinity updates of one task, applied one after the other in either
/// order, leave the task with the mask of the later one, limited to the
/// platform's cores: one of the two masks, never a mix of them.
pub proof fn lemma_affinity_updates_serialize(
    r0: Registry,
    r1: Registry,
    r2: Registry,
    tid: u64,
    first: u64,
    second: u64,
    size: usize,
)
    requires
        r0.wf(),
        r0.has_task(tid),
        r0.updated(
            r1,
            tid,
            Task { cpu_set: truncate_mask(first, size, r0.smp()), ..r0.task(tid) },
        ),
        r1.updated(
            r2,
            tid,
            Task { cpu_set: truncate_mask(second, size, r1.smp()), ..r1.task(tid) },
        ),
    ensures
        r2.task(tid).cpu_set == truncate_mask(second, size, r0.smp()),
        r2.smp() == r0.smp(),
{
}

/// The identifier `0` designates the calling task, whatever the registries
/// hold, unless a thread `0` other than the caller is registered.
pub proof fn lemma_zero_is_caller(reg: Registry)
    requires
        reg.wf(),
        !reg.has_task(0) || reg.current() == 0,
    ensures
        reg.target(0) == Some(reg.current()),
{
    if !reg.has_task(0) {
        assert forall|i: int| 0 <= i < reg.pids().len() implies reg.pids()[i] != 0 by {
            assert(reg.has_task(reg.processes@[i]));
        }
    }
}

/// The id of a process designates its leader, whichever order its member
/// tasks were registered in.
pub proof fn lemma_process_resolves_to_leader(reg: Registry, pid: u64, leader: u64, member: u64)
    requires
        reg.wf(),
        reg.has_process(pid),
        reg.has_task(leader),
        reg.task(leader).process_id == pid,
        reg.task(leader).leader,
        reg.has_task(member),
        reg.task(member).process_id == pid,
    ensures
        reg.target(pid) == Some(leader),
{
    let j = choose|j: int| 0 <= j < reg.tasks@.len() && reg.tasks@[j].tid == leader;
    lemma_task_at(reg.tasks@, j);
}

} // verus!
