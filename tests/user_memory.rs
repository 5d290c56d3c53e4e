use user_sched::errno::{return_value, SyscallError};
use user_sched::space::AddressSpace;
use user_sched::task::{low_bits, priority_allowed, truncate, SchedPolicy};
use user_sched::user_ref::{CheckType, UserRef, UserRefSlice};

fn mapped() -> AddressSpace {
    let mut space = AddressSpace::new();
    space.map_area(0x1000, 0x4000);
    space
}

#[test]
fn unmapped_address_faults_in_every_mode() {
    let mut space = mapped();
    let r: UserRef<u64> = UserRef::new(0x8000);
    assert_eq!(r.validate(&mut space, CheckType::Lazy), Err(SyscallError::EFAULT));
    assert_eq!(r.validate(&mut space, CheckType::TypeLazy), Err(SyscallError::EFAULT));
    assert_eq!(r.validate(&mut space, CheckType::RangeLazy(0x8100)), Err(SyscallError::EFAULT));
    assert_eq!(space.page_count(), 0);
}

#[test]
fn validation_commits_once() {
    let mut space = mapped();
    let r: UserRef<u64> = UserRef::new(0x1008);
    assert_eq!(r.validate(&mut space, CheckType::Lazy), Ok(0x1008));
    assert!(space.is_present(0x1000));
    assert!(!space.is_present(0x1008));
    assert_eq!(space.page_count(), 1);
    assert_eq!(r.validate(&mut space, CheckType::Lazy), Ok(0x1008));
    assert_eq!(space.page_count(), 1);
}

#[test]
fn range_validation_commits_every_page_of_the_span() {
    let mut space = mapped();
    let r: UserRef<u8> = UserRef::new(0x1ff0);
    assert!(r.manual_alloc_range_for_lazy_is_ok(&mut space, 0x3001));
    assert!(space.is_present(0x1000));
    assert!(space.is_present(0x2000));
    assert!(space.is_present(0x3000));
    assert_eq!(space.page_count(), 3);
}

#[test]
fn range_past_the_area_faults() {
    let mut space = mapped();
    let r: UserRef<u8> = UserRef::new(0x3ff0);
    assert!(!r.manual_alloc_range_for_lazy_is_ok(&mut space, 0x4010));
    assert_eq!(space.page_count(), 0);
}

#[test]
fn word_straddling_the_area_end_faults() {
    let mut space = mapped();
    let r: UserRef<u64> = UserRef::new(0x3ffc);
    assert!(!r.manual_alloc_for_lazy_is_ok(&mut space));
    assert!(!r.manual_alloc_type_for_lazy_is_ok(&mut space));
    let byte: UserRef<u8> = UserRef::new(0x3fff);
    assert!(byte.manual_alloc_type_for_lazy_is_ok(&mut space));
    assert!(space.is_present(0x3000));
}

#[test]
fn write_then_read_through_checked_reference() {
    let mut space = mapped();
    let r: UserRef<u64> = UserRef::new(0x2010);
    assert_eq!(r.write(&mut space, CheckType::TypeLazy, 77), Ok(()));
    assert_eq!(r.get_ref(&mut space, CheckType::Lazy), Ok(77));
    let fresh: UserRef<u64> = UserRef::new(0x2018);
    assert_eq!(fresh.get_ref(&mut space, CheckType::Lazy), Ok(0));
    let outside: UserRef<u64> = UserRef::new(0x5000);
    assert_eq!(outside.write(&mut space, CheckType::Lazy, 1), Err(SyscallError::EFAULT));
    assert_eq!(outside.get_ref(&mut space, CheckType::Lazy), Err(SyscallError::EFAULT));
}

#[test]
fn pointer_accessors() {
    let mut space = mapped();
    let r: UserRef<u64> = UserRef::from(0x1234usize);
    assert_eq!(r.get_usize(), 0x1234);
    assert!(!r.is_null());
    assert!(r.is_valid());
    let null: UserRef<u64> = UserRef::new(0);
    assert!(null.is_null());
    assert!(!null.is_valid());
    assert_eq!(r.get_ptr(&mut space, CheckType::Lazy), Ok(0x1234));
    assert_eq!(r.get_mut_ptr(&mut space, CheckType::TypeLazy), Ok(0x1234));
    assert_eq!(null.get_ptr(&mut space, CheckType::Lazy), Err(SyscallError::EFAULT));
}

#[test]
fn slice_copy_then_read() {
    let mut space = mapped();
    let s: UserRefSlice<u64> = UserRefSlice::from((UserRef::new(0x1ff8), 3));
    assert_eq!(s.len(), 3);
    assert!(s.is_valid());
    assert!(!s.is_null());
    assert_eq!(s.useref().get_usize(), 0x1ff8);
    let src = vec![5, 6, 7, 8];
    assert_eq!(s.copy_nonoverlapping(&mut space, &src, 3, CheckType::RangeLazy(0x2010)), Ok(()));
    assert!(space.is_present(0x1000));
    assert!(space.is_present(0x2000));
    assert_eq!(space.read_word(0x2008), 7);
    assert_eq!(space.read_word(0x2010), 0);
    assert_eq!(s.from_raw_parts(&mut space, CheckType::RangeLazy(0x2010)), Ok(vec![5, 6, 7]));
}

#[test]
fn slice_outside_the_area_faults() {
    let mut space = mapped();
    let s: UserRefSlice<u64> = UserRefSlice::new(UserRef::new(0x3ff8), 2);
    assert_eq!(s.from_raw_parts(&mut space, CheckType::RangeLazy(0x4008)), Err(SyscallError::EFAULT));
    assert!(!s.manual_alloc_range_for_lazy_is_ok(&mut space, 0x4008));
    let empty: UserRefSlice<u64> = UserRefSlice::new(UserRef::new(0x1000), 0);
    assert!(!empty.is_valid());
    assert_eq!(empty.from_raw_parts(&mut space, CheckType::Lazy), Ok(vec![]));
}

#[test]
fn error_codes_follow_errno() {
    assert_eq!(SyscallError::EPERM.code(), 1);
    assert_eq!(SyscallError::ESRCH.code(), 3);
    assert_eq!(SyscallError::EINTR.code(), 4);
    assert_eq!(SyscallError::EFAULT.code(), 14);
    assert_eq!(SyscallError::EINVAL.code(), 22);
    assert_eq!(return_value(Err(SyscallError::EFAULT)), -14);
    assert_eq!(return_value(Ok(5)), 5);
}

#[test]
fn policy_numbers() {
    assert_eq!(SchedPolicy::from(0usize), SchedPolicy::SCHED_OTHER);
    assert_eq!(SchedPolicy::from(1usize), SchedPolicy::SCHED_FIFO);
    assert_eq!(SchedPolicy::from(2usize), SchedPolicy::SCHED_RR);
    assert_eq!(SchedPolicy::from(3usize), SchedPolicy::SCHED_BATCH);
    assert_eq!(SchedPolicy::from(4usize), SchedPolicy::SCHED_UNKNOWN);
    assert_eq!(SchedPolicy::from(5usize), SchedPolicy::SCHED_IDLE);
    assert_eq!(SchedPolicy::from(6usize), SchedPolicy::SCHED_DEADLINE);
    assert_eq!(SchedPolicy::SCHED_IDLE.code(), 5);
    assert_eq!(SchedPolicy::SCHED_UNKNOWN.code(), -1);
    assert!(priority_allowed(SchedPolicy::SCHED_BATCH, 0));
    assert!(!priority_allowed(SchedPolicy::SCHED_DEADLINE, 0));
    assert!(!priority_allowed(SchedPolicy::SCHED_UNKNOWN, 0));
}

#[test]
fn mask_arithmetic() {
    assert_eq!(low_bits(0), 0);
    assert_eq!(low_bits(3), 0b111);
    assert_eq!(low_bits(64), u64::MAX);
    assert_eq!(truncate(0xFF, 8, 4), 0xF);
    assert_eq!(truncate(u64::MAX, 1, 16), 0xFF);
    assert_eq!(truncate(u64::MAX, 0, 16), 0);
    assert_eq!(truncate(u64::MAX, 100, 64), u64::MAX);
}

#[test]
fn indexed_word_access() {
    let mut space = mapped();
    let r: UserRef<u64> = UserRef::new(0x1000);
    assert_eq!(r.write_offset(&mut space, 2, 9, CheckType::RangeLazy(0x1020)), Ok(()));
    assert_eq!(space.read_word(0x1010), 9);
    assert_eq!(r.get_t(&mut space, 2, CheckType::RangeLazy(0x1020)), Ok(9));
    assert_eq!(r.get_t(&mut space, 0, CheckType::Lazy), Ok(0));
    let far: UserRef<u64> = UserRef::new(0x6000);
    assert_eq!(far.get_t(&mut space, 1, CheckType::RangeLazy(0x6010)), Err(SyscallError::EFAULT));
    assert_eq!(far.write_offset(&mut space, 0, 1, CheckType::Lazy), Err(SyscallError::EFAULT));
}

fn store_bytes(space: &mut AddressSpace, addr: usize, bytes: &[u8]) {
    for (i, b) in bytes.iter().enumerate() {
        space.write_word(addr + i, *b as u64);
    }
}

#[test]
fn reads_terminated_string() {
    let mut space = mapped();
    store_bytes(&mut space, 0x1ffe, b"vfat\0");
    let mut r: UserRef<u8> = UserRef::new(0x1ffe);
    assert_eq!(r.raw_ptr_to_ref_str(&mut space, 64), Ok(b"vfat".to_vec()));
    assert!(space.is_present(0x1000));
    assert!(space.is_present(0x2000));
    r = UserRef::new(0x2002);
    assert_eq!(r.raw_ptr_to_ref_str(&mut space, 64), Ok(vec![]));
}

#[test]
fn string_running_into_unmapped_memory_faults() {
    let mut space = mapped();
    store_bytes(&mut space, 0x3ffd, b"abc");
    let r: UserRef<u8> = UserRef::new(0x3ffd);
    assert_eq!(r.raw_ptr_to_ref_str(&mut space, 64), Err(SyscallError::EFAULT));
    assert!(space.is_present(0x3000));
}

#[test]
fn string_without_terminator_in_bound_is_einval() {
    let mut space = mapped();
    store_bytes(&mut space, 0x1000, b"abcdef");
    let r: UserRef<u8> = UserRef::new(0x1000);
    assert_eq!(r.raw_ptr_to_ref_str(&mut space, 4), Err(SyscallError::EINVAL));
    assert_eq!(r.raw_ptr_to_ref_str(&mut space, 7), Ok(b"abcdef".to_vec()));
}
