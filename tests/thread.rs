use sgx_keep::thread::{
    dispatch, Action, Args, Entry, Exit, Fatal, Handler, Keep, KeepError, Reply, Request, Thread, INVALID_OPCODE,
    SYS_ENARX_CPUID, SYS_ENARX_ERESUME, SYS_ENARX_GETATT,
};

fn thread() -> Thread {
    let mut keep = Keep::new(vec![0x1000]);
    keep.add_thread().unwrap()
}

fn request(t: &mut Thread, num: i64, arg: Args) {
    t.block.req = Request { num, arg };
}

#[test]
fn dispatch_table() {
    assert_eq!(dispatch(SYS_ENARX_CPUID), Handler::Cpuid);
    assert_eq!(dispatch(SYS_ENARX_GETATT), Handler::Attest);
    assert_eq!(dispatch(SYS_ENARX_ERESUME), Handler::Resume);
    for n in [0i64, 1, 60, 231, 0xEA00, 0xEA03, i64::MIN, i64::MAX] {
        assert_eq!(dispatch(n), Handler::Forward);
    }
}

#[test]
fn trap_cycle_with_cpuid_then_a_host_call() {
    let mut t = thread();
    assert_eq!((t.mode(), t.depth()), (Entry::Enter, 0));

    assert_eq!(t.after_exit(Exit::Exception(INVALID_OPCODE)), Action::Continue);
    assert_eq!((t.mode(), t.depth()), (Entry::Enter, 1));
    request(&mut t, SYS_ENARX_CPUID, Args(7, 0, 0, 0));
    assert_eq!(t.after_exit(Exit::Returned), Action::Cpuid { leaf: 7, subleaf: 0 });
    assert_eq!((t.mode(), t.depth()), (Entry::Resume, 0));
    t.complete_cpuid(1, 2, 3, 4);
    assert_eq!(t.block.req, Request { num: SYS_ENARX_CPUID, arg: Args(1, 2, 3, 4) });

    assert_eq!(t.after_exit(Exit::Exception(INVALID_OPCODE)), Action::Continue);
    assert_eq!((t.mode(), t.depth()), (Entry::Enter, 1));
    request(&mut t, 60, Args(9, 8, 7, 6));
    assert_eq!(t.after_exit(Exit::Returned), Action::SysCall);
    assert_eq!((t.mode(), t.depth()), (Entry::Resume, 0));
    assert_eq!(t.block.req.num, 60);
    assert_eq!(t.block.req.arg, Args(9, 8, 7, 6));
}

#[test]
fn resume_request_continues() {
    let mut t = thread();
    t.after_exit(Exit::Exception(INVALID_OPCODE));
    request(&mut t, SYS_ENARX_ERESUME, Args(0, 0, 0, 0));
    assert_eq!(t.after_exit(Exit::Returned), Action::Continue);
    assert_eq!(t.depth(), 0);
}

#[test]
fn return_after_resume_exchanges_nothing() {
    let mut t = thread();
    t.after_exit(Exit::Exception(INVALID_OPCODE));
    t.after_exit(Exit::Exception(INVALID_OPCODE));
    assert_eq!(t.depth(), 2);
    request(&mut t, 60, Args(0, 0, 0, 0));
    assert_eq!(t.after_exit(Exit::Returned), Action::SysCall);
    assert_eq!(t.depth(), 1);
    assert_eq!(t.after_exit(Exit::Returned), Action::Continue);
    assert_eq!((t.mode(), t.depth()), (Entry::Resume, 0));
}

#[test]
fn attestation_success_writes_the_reply() {
    let mut t = thread();
    t.after_exit(Exit::Exception(INVALID_OPCODE));
    request(&mut t, SYS_ENARX_GETATT, Args(1, 2, 3, 4));
    assert_eq!(t.after_exit(Exit::Returned), Action::Attest(Args(1, 2, 3, 4)));
    assert_eq!(t.complete_attestation(Ok(4598)), Ok(()));
    assert_eq!(t.block.rep, Reply::Success(4598, 0));
}

#[test]
fn attestation_failure_is_propagated_without_resuming() {
    let mut t = thread();
    t.after_exit(Exit::Exception(INVALID_OPCODE));
    request(&mut t, SYS_ENARX_GETATT, Args(0, usize::MAX, 0, 0));
    assert_eq!(t.after_exit(Exit::Returned), Action::Attest(Args(0, usize::MAX, 0, 0)));
    let before = t.block;
    assert_eq!(t.complete_attestation(Err(-22)), Err(-22));
    assert_eq!(t.block, before);
    assert_eq!(t.block.rep, Reply::Success(0, 0));
}

#[test]
fn other_traps_are_fatal() {
    let mut t = thread();
    assert_eq!(t.after_exit(Exit::Exception(14)), Action::Fatal(Fatal::UnexpectedException(14)));
    assert_eq!((t.mode(), t.depth()), (Entry::Enter, 0));
}

#[test]
fn resume_at_depth_zero_is_fatal() {
    let mut t = thread();
    assert_eq!(t.after_exit(Exit::Returned), Action::Fatal(Fatal::DepthUnderflow));
    assert_eq!((t.mode(), t.depth()), (Entry::Enter, 0));
}

#[test]
fn cpuid_arguments_wider_than_32_bits_are_fatal() {
    let mut t = thread();
    t.after_exit(Exit::Exception(INVALID_OPCODE));
    request(&mut t, SYS_ENARX_CPUID, Args(1usize << 32, 0, 0, 0));
    assert_eq!(t.after_exit(Exit::Returned), Action::Fatal(Fatal::BadCpuidArgs));
}

#[test]
fn adding_threads_past_the_slots_fails() {
    let mut keep = Keep::new(vec![0x1000, 0x2000]);
    let a = keep.add_thread().unwrap();
    let mut b = keep.add_thread().unwrap();
    b.after_exit(Exit::Exception(INVALID_OPCODE));
    assert!(matches!(keep.add_thread(), Err(KeepError::OutOfThreads)));
    assert!(matches!(keep.add_thread(), Err(KeepError::OutOfThreads)));
    assert_eq!((a.slot, a.mode(), a.depth()), (0x2000, Entry::Enter, 0));
    assert_eq!((b.slot, b.mode(), b.depth()), (0x1000, Entry::Enter, 1));
    keep.release(a);
    let c = keep.add_thread().unwrap();
    assert_eq!(c.slot, 0x2000);
}
