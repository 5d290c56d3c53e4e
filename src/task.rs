//! Scheduling policies, scheduling statuses and per-task attributes.
use vstd::prelude::*;

verus! {

/// A scheduling policy, as the `sched_*` system calls number them.
#[allow(non_camel_case_types)]
#[derive(Clone, Copy, Debug, PartialEq, Eq, Structural)]
pub enum SchedPolicy {
    SCHED_OTHER,
    SCHED_FIFO,
    SCHED_RR,
    SCHED_BATCH,
    SCHED_IDLE,
    SCHED_DEADLINE,
    SCHED_UNKNOWN,
}

/// The policy that the number `n` stands for.
pub open spec fn policy_of(n: usize) -> SchedPolicy {
    if n == 0 {
        SchedPolicy::SCHED_OTHER
    } else if n == 1 {
        SchedPolicy::SCHED_FIFO
    } else if n == 2 {
        SchedPolicy::SCHED_RR
    } else if n == 3 {
        SchedPolicy::SCHED_BATCH
    } else if n == 5 {
        SchedPolicy::SCHED_IDLE
    } else if n == 6 {
        SchedPolicy::SCHED_DEADLINE
    } else {
        SchedPolicy::SCHED_UNKNOWN
    }
}

impl SchedPolicy {
    /// The number of the policy; `-1` for an unknown one.
    pub open spec fn code_spec(self) -> isize {
        match self {
            SchedPolicy::SCHED_OTHER => 0,
            SchedPolicy::SCHED_FIFO => 1,
            SchedPolicy::SCHED_RR => 2,
            SchedPolicy::SCHED_BATCH => 3,
            SchedPolicy::SCHED_IDLE => 5,
            SchedPolicy::SCHED_DEADLINE => 6,
            SchedPolicy::SCHED_UNKNOWN => -1isize,
        }
    }

    /// The best-effort policies run at priority zero.
    pub open spec fn is_best_effort(self) -> bool {
        self == SchedPolicy::SCHED_OTHER || self == SchedPolicy::SCHED_BATCH || self
            == SchedPolicy::SCHED_IDLE
    }

    /// The number of the policy; `-1` for an unknown one.
    pub fn code(&self) -> (r: isize)
        ensures
            r == self.code_spec(),
    {
        match self {
            SchedPolicy::SCHED_OTHER => 0,
            SchedPolicy::SCHED_FIFO => 1,
            SchedPolicy::SCHED_RR => 2,
            SchedPolicy::SCHED_BATCH => 3,
            SchedPolicy::SCHED_IDLE => 5,
            SchedPolicy::SCHED_DEADLINE => 6,
            SchedPolicy::SCHED_UNKNOWN => -1,
        }
    }
}

impl From<usize> for SchedPolicy {
    fn from(n: usize) -> (r: SchedPolicy) {
        if n == 0 {
            SchedPolicy::SCHED_OTHER
        } else if n == 1 {
            SchedPolicy::SCHED_FIFO
        } else if n == 2 {
            SchedPolicy::SCHED_RR
        } else if n == 3 {
            SchedPolicy::SCHED_BATCH
        } else if n == 5 {
            SchedPolicy::SCHED_IDLE
        } else if n == 6 {
            SchedPolicy::SCHED_DEADLINE
        } else {
            SchedPolicy::SCHED_UNKNOWN
        }
    }
}

impl vstd::std_specs::convert::FromSpecImpl<usize> for SchedPolicy {
    open spec fn obeys_from_spec() -> bool {
        true
    }

    open spec fn from_spec(n: usize) -> SchedPolicy {
        policy_of(n)
    }
}

/// The priority rule: zero for the best-effort policies, 1 to 99 for the
/// real-time ones, nothing for an unknown policy.
pub open spec fn valid_priority(policy: SchedPolicy, priority: isize) -> bool {
    if policy == SchedPolicy::SCHED_UNKNOWN {
        false
    } else if policy.is_best_effort() {
        priority == 0
    } else {
        1 <= priority <= 99
    }
}

/// Whether `priority` is allowed under `policy`.
pub fn priority_allowed(policy: SchedPolicy, priority: isize) -> (r: bool)
    ensures
        r == valid_priority(policy, priority),
{
    match policy {
        SchedPolicy::SCHED_UNKNOWN => false,
        SchedPolicy::SCHED_OTHER | SchedPolicy::SCHED_BATCH | SchedPolicy::SCHED_IDLE => priority
            == 0,
        _ => 1 <= priority && priority <= 99,
    }
}

/// The scheduling parameters that user space passes in.
#[derive(Clone, Copy, Debug, PartialEq, Eq, Structural)]
pub struct SchedParam {
    pub sched_priority: isize,
}

/// A task's policy together with its priority.
#[derive(Clone, Copy, Debug, PartialEq, Eq, Structural)]
pub struct SchedStatus {
    pub policy: SchedPolicy,
    pub priority: isize,
}

/// A task (thread) control block, as far as scheduling goes.
#[derive(Clone, Copy, Debug, PartialEq, Eq, Structural)]
pub struct Task {
    /// The thread id.
    pub tid: u64,
    /// The id of the process (thread group) the task belongs to.
    pub process_id: u64,
    /// Whether the task leads its thread group.
    pub leader: bool,
    /// The policy and priority.
    pub status: SchedStatus,
    /// The CPU affinity mask: bit `i` allows core `i`.
    pub cpu_set: u64,
}

/// The mask of the `n` lowest bits.
pub open spec fn low_mask(n: nat) -> u64 {
    if n >= 64 {
        u64::MAX
    } else {
        ((1u64 << (n as u64)) - 1) as u64
    }
}

/// The number of cores that a mask of `size` bytes describes on a platform
/// of `smp` cores: eight per byte, at most `smp`.
pub open spec fn mask_bits(size: usize, smp: usize) -> nat {
    let bits: nat = if size >= 8 {
        64
    } else {
        (size * 8) as nat
    };
    if (smp as nat) < bits {
        smp as nat
    } else {
        bits
    }
}

/// `mask` limited to the cores that `size` bytes describe on `smp` cores.
pub open spec fn truncate_mask(mask: u64, size: usize, smp: usize) -> u64 {
    mask & low_mask(mask_bits(size, smp))
}

/// The mask of all cores of a platform of `smp` cores.
pub open spec fn core_mask(smp: usize) -> u64 {
    low_mask(smp as nat)
}

/// The mask of the `n` lowest bits.
pub fn low_bits(n: u32) -> (r: u64)
    requires
        n <= 64,
    ensures
        r == low_mask(n as nat),
{
    if n >= 64 {
        u64::MAX
    } else {
        assert(1u64 << n >= 1) by (bit_vector)
            requires
                n < 64,
        ;
        (1u64 << n) - 1
    }
}

/// The number of cores that `size` bytes describe on `smp` cores.
pub fn cores_described(size: usize, smp: usize) -> (r: u32)
    requires
        smp <= 64,
    ensures
        r as nat == mask_bits(size, smp),
        r <= 64,
{
    let bits: u32 = if size >= 8 {
        64
    } else {
        (size * 8) as u32
    };
    if (smp as u32) < bits {
        smp as u32
    } else {
        bits
    }
}

/// `mask` limited to the cores that `size` bytes describe on `smp` cores.
pub fn truncate(mask: u64, size: usize, smp: usize) -> (r: u64)
    requires
        smp <= 64,
    ensures
        r == truncate_mask(mask, size, smp),
{
    mask & low_bits(cores_described(size, smp))
}

impl Task {
    /// The task's CPU affinity mask.
    pub fn get_cpu_set(&self) -> (r: u64)
        ensures
            r == self.cpu_set,
    {
        self.cpu_set
    }

    /// Stores `mask`, limited to the cores that `size` bytes describe on a
    /// platform of `smp` cores.
    pub fn set_cpu_set(&mut self, mask: u64, size: usize, smp: usize)
        requires
            smp <= 64,
        ensures
            *final(self) == (Task { cpu_set: truncate_mask(mask, size, smp), ..*old(self) }),
    {
        self.cpu_set = truncate(mask, size, smp);
    }

    /// The task's policy and priority.
    pub fn get_sched_status(&self) -> (r: SchedStatus)
        ensures
            r == self.status,
    {
        self.status
    }

    /// Replaces the task's policy and priority, both at once.
    pub fn set_sched_status(&mut self, status: SchedStatus)
        ensures
            *final(self) == (Task { status, ..*old(self) }),
    {
        self.status = status;
    }

    /// Whether the task leads its thread group.
    pub fn is_leader(&self) -> (r: bool)
        ensures
            r == self.leader,
    {
        self.leader
    }
}

} // verus!
