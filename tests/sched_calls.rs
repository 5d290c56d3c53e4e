use user_sched::errno::SyscallError;
use user_sched::sched::{
    syscall_sched_getaffinity, syscall_sched_getscheduler, syscall_sched_setaffinity,
    syscall_sched_setscheduler, Registry,
};
use user_sched::space::AddressSpace;
use user_sched::task::{SchedParam, SchedPolicy};
use user_sched::user_ref::UserRef;

fn setup(smp: usize) -> (Registry, AddressSpace) {
    let reg = Registry::new(smp, 1);
    let mut space = AddressSpace::new();
    space.map_area(0x1000, 0x5000);
    (reg, space)
}

fn param_at(space: &mut AddressSpace, addr: usize, priority: i64) -> UserRef<SchedParam> {
    space.write_word(addr, priority as u64);
    UserRef::new(addr)
}

#[test]
fn set_then_get_affinity_reports_mask_within_cores() {
    let (mut reg, mut space) = setup(4);
    space.write_word(0x1000, 0xFF);
    let r = syscall_sched_setaffinity(&mut reg, &mut space, 1, 8, UserRef::new(0x1000));
    assert_eq!(r, Ok(0));
    let r = syscall_sched_getaffinity(&reg, &mut space, 1, 8, UserRef::new(0x2000));
    assert_eq!(r, Ok(4));
    assert_eq!(space.read_word(0x2000), 0xF);
}

#[test]
fn affinity_round_trip_with_minimal_buffer() {
    let (mut reg, mut space) = setup(12);
    space.write_word(0x1000, 0xABCDE);
    let r = syscall_sched_setaffinity(&mut reg, &mut space, 1, 2, UserRef::new(0x1000));
    assert_eq!(r, Ok(0));
    let r = syscall_sched_getaffinity(&reg, &mut space, 1, 2, UserRef::new(0x2000));
    assert_eq!(r, Ok(12));
    assert_eq!(space.read_word(0x2000), 0xABCDE & 0xFFF);
}

#[test]
fn affinity_buffer_counts_eight_cores_per_byte() {
    let (reg, mut space) = setup(16);
    let r = syscall_sched_getaffinity(&reg, &mut space, 1, 1, UserRef::new(0x2000));
    assert_eq!(r, Ok(8));
    assert_eq!(space.read_word(0x2000), 0xFF);
    assert_eq!(reg.get_task(1).unwrap().cpu_set, 0xFFFF);
}

#[test]
fn getaffinity_unknown_id_is_esrch() {
    let (reg, mut space) = setup(4);
    let r = syscall_sched_getaffinity(&reg, &mut space, 999, 8, UserRef::new(0x1000));
    assert_eq!(r, Err(SyscallError::ESRCH));
    assert_eq!(space.page_count(), 0);
}

#[test]
fn setaffinity_unknown_id_is_esrch() {
    let (mut reg, mut space) = setup(4);
    let r = syscall_sched_setaffinity(&mut reg, &mut space, 42, 8, UserRef::new(0x1000));
    assert_eq!(r, Err(SyscallError::ESRCH));
}

#[test]
fn affinity_with_unmapped_mask_is_efault() {
    let (mut reg, mut space) = setup(4);
    let r = syscall_sched_setaffinity(&mut reg, &mut space, 1, 8, UserRef::new(0x9000));
    assert_eq!(r, Err(SyscallError::EFAULT));
    assert_eq!(reg.get_task(1).unwrap().cpu_set, 0xF);
    let r = syscall_sched_getaffinity(&reg, &mut space, 1, 8, UserRef::new(0x9000));
    assert_eq!(r, Err(SyscallError::EFAULT));
    assert_eq!(space.page_count(), 0);
}

#[test]
fn two_affinity_updates_leave_the_later_mask() {
    let (mut reg, mut space) = setup(8);
    space.write_word(0x1000, 0b1010_1010);
    space.write_word(0x1008, 0b0101_0101);
    assert_eq!(syscall_sched_setaffinity(&mut reg, &mut space, 1, 8, UserRef::new(0x1000)), Ok(0));
    assert_eq!(syscall_sched_setaffinity(&mut reg, &mut space, 1, 8, UserRef::new(0x1008)), Ok(0));
    assert_eq!(reg.get_task(1).unwrap().cpu_set, 0b0101_0101);
    assert_eq!(syscall_sched_setaffinity(&mut reg, &mut space, 1, 8, UserRef::new(0x1000)), Ok(0));
    assert_eq!(reg.get_task(1).unwrap().cpu_set, 0b1010_1010);
}

#[test]
fn setscheduler_fifo_then_getscheduler_is_fifo() {
    let (mut reg, mut space) = setup(4);
    let p = param_at(&mut space, 0x3000, 50);
    assert_eq!(syscall_sched_setscheduler(&mut reg, &mut space, 1, 1, p), Ok(0));
    assert_eq!(syscall_sched_getscheduler(&reg, 1), Ok(1));
    let t = reg.get_task(1).unwrap();
    assert_eq!(t.status.policy, SchedPolicy::SCHED_FIFO);
    assert_eq!(t.status.priority, 50);
}

#[test]
fn setscheduler_priority_rules() {
    let (mut reg, mut space) = setup(4);
    let zero = param_at(&mut space, 0x3000, 0);
    let one = param_at(&mut space, 0x3008, 1);
    assert_eq!(syscall_sched_setscheduler(&mut reg, &mut space, 1, 1, zero), Err(SyscallError::EINVAL));
    assert_eq!(syscall_sched_setscheduler(&mut reg, &mut space, 1, 0, one), Err(SyscallError::EINVAL));
    assert_eq!(syscall_sched_setscheduler(&mut reg, &mut space, 1, 0, zero), Ok(0));
    assert_eq!(syscall_sched_getscheduler(&reg, 1), Ok(0));
}

#[test]
fn setscheduler_realtime_priority_bounds() {
    let (mut reg, mut space) = setup(4);
    let p99 = param_at(&mut space, 0x3000, 99);
    let p100 = param_at(&mut space, 0x3008, 100);
    let neg = param_at(&mut space, 0x3010, -1);
    assert_eq!(syscall_sched_setscheduler(&mut reg, &mut space, 1, 2, p99), Ok(0));
    assert_eq!(syscall_sched_setscheduler(&mut reg, &mut space, 1, 6, p100), Err(SyscallError::EINVAL));
    assert_eq!(syscall_sched_setscheduler(&mut reg, &mut space, 1, 1, neg), Err(SyscallError::EINVAL));
    assert_eq!(syscall_sched_getscheduler(&reg, 1), Ok(2));
    assert_eq!(reg.get_task(1).unwrap().status.priority, 99);
}

#[test]
fn setscheduler_unknown_policy_is_einval() {
    let (mut reg, mut space) = setup(4);
    let p = param_at(&mut space, 0x3000, 0);
    assert_eq!(syscall_sched_setscheduler(&mut reg, &mut space, 1, 4, p), Err(SyscallError::EINVAL));
    assert_eq!(syscall_sched_getscheduler(&reg, 1), Ok(0));
}

#[test]
fn setscheduler_null_param_is_einval_before_lookup() {
    let (mut reg, mut space) = setup(4);
    let null: UserRef<SchedParam> = UserRef::new(0);
    assert_eq!(syscall_sched_setscheduler(&mut reg, &mut space, 1, 1, null), Err(SyscallError::EINVAL));
    assert_eq!(syscall_sched_setscheduler(&mut reg, &mut space, 777, 1, null), Err(SyscallError::EINVAL));
    assert_eq!(space.page_count(), 0);
}

#[test]
fn negative_ids_are_einval() {
    let (mut reg, mut space) = setup(4);
    let p = param_at(&mut space, 0x3000, 10);
    let neg = usize::MAX;
    assert_eq!(syscall_sched_setscheduler(&mut reg, &mut space, neg, 1, p), Err(SyscallError::EINVAL));
    assert_eq!(syscall_sched_getscheduler(&reg, neg), Err(SyscallError::EINVAL));
}

#[test]
fn scheduler_calls_on_unknown_ids_are_esrch() {
    let (mut reg, mut space) = setup(4);
    let p = param_at(&mut space, 0x3000, 10);
    assert_eq!(syscall_sched_setscheduler(&mut reg, &mut space, 5, 1, p), Err(SyscallError::ESRCH));
    assert_eq!(syscall_sched_getscheduler(&reg, 5), Err(SyscallError::ESRCH));
}

#[test]
fn setscheduler_unmapped_param_is_efault() {
    let (mut reg, mut space) = setup(4);
    let p: UserRef<SchedParam> = UserRef::new(0x8000);
    assert_eq!(syscall_sched_setscheduler(&mut reg, &mut space, 1, 1, p), Err(SyscallError::EFAULT));
}

#[test]
fn zero_resolves_to_the_caller() {
    let mut reg = Registry::new(4, 7);
    assert!(reg.spawn_thread(7, 8));
    assert!(reg.spawn_process(20));
    assert_eq!(reg.resolve_target(0), Ok(7));
    assert!(reg.switch_to(8));
    assert_eq!(reg.resolve_target(0), Ok(8));
    assert_eq!(reg.current_tid(), 8);
}

#[test]
fn process_id_resolves_to_its_leader() {
    let mut reg = Registry::new(4, 1);
    assert!(reg.spawn_process(10));
    assert!(reg.spawn_thread(10, 11));
    assert!(reg.spawn_thread(10, 12));
    assert_eq!(reg.resolve_target(10), Ok(10));
    assert_eq!(reg.resolve_target(11), Ok(11));
    assert!(reg.get_task(10).unwrap().leader);
    assert!(!reg.get_task(11).unwrap().leader);
    assert_eq!(reg.resolve_target(13), Err(SyscallError::ESRCH));
}

#[test]
fn spawning_rejects_taken_ids() {
    let mut reg = Registry::new(2, 1);
    assert!(!reg.spawn_process(1));
    assert!(reg.spawn_thread(1, 2));
    assert!(!reg.spawn_process(2));
    assert!(!reg.spawn_thread(1, 2));
    assert!(!reg.spawn_thread(3, 4));
    assert!(!reg.switch_to(9));
    assert_eq!(reg.cpu_count(), 2);
    assert_eq!(reg.get_task(2).unwrap().process_id, 1);
}

#[test]
fn thread_affinity_is_independent_of_its_leader() {
    let (mut reg, mut space) = setup(4);
    assert!(reg.spawn_thread(1, 2));
    space.write_word(0x1000, 0b0011);
    assert_eq!(syscall_sched_setaffinity(&mut reg, &mut space, 2, 8, UserRef::new(0x1000)), Ok(0));
    assert_eq!(reg.get_task(2).unwrap().cpu_set, 0b0011);
    assert_eq!(reg.get_task(1).unwrap().cpu_set, 0b1111);
}
