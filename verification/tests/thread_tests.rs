use ros_kernel::thread::{
    sys_gettid, sys_thread_create, sys_waittid, ProcessInner, RecycleAllocator, TrapContext, PAGE_SIZE,
    USER_STACK_SIZE,
};

const BASE: usize = 0x1000_0000;
const TOKEN: usize = 0x8000_0000_0008_0000;
const HANDLER: usize = 0xffff_ffff_ffff_f000;

fn process() -> ProcessInner {
    ProcessInner::new(BASE, 0x10000, TOKEN, 0xffff_0000, HANDLER)
}

#[test]
fn allocator_hands_out_fresh_ids_in_order() {
    let mut a = RecycleAllocator::new();
    assert_eq!(a.allocate(), 0);
    assert_eq!(a.allocate(), 1);
    assert_eq!(a.allocate(), 2);
    assert_eq!(a.current, 3);
}

#[test]
fn allocator_reuses_most_recently_freed_id_first() {
    let mut a = RecycleAllocator::new();
    for _ in 0..4 {
        a.allocate();
    }
    a.deallocate(1);
    a.deallocate(3);
    assert_eq!(a.peek(), 3);
    assert_eq!(a.allocate(), 3);
    assert_eq!(a.allocate(), 1);
    assert_eq!(a.allocate(), 4);
}

#[test]
fn init_context_sets_entry_stack_and_kernel_fields() {
    let cx = TrapContext::app_init_context(0x1234, 0x5000, 9, 0x6000, 0x7000);
    assert_eq!(cx.x.len(), 32);
    assert_eq!(cx.x[2], 0x5000);
    assert!(cx.x.iter().enumerate().all(|(i, r)| i == 2 || *r == 0));
    assert_eq!(cx.sepc, 0x1234);
    assert_eq!(cx.kernel_satp, 9);
    assert_eq!(cx.kernel_sp, 0x6000);
    assert_eq!(cx.trap_handler, 0x7000);
    assert!(cx.spp_user);
}

#[test]
fn new_process_has_main_thread_zero() {
    let p = process();
    assert_eq!(p.tasks.len(), 1);
    let main = p.thread(0).unwrap();
    assert_eq!(main.tid, 0);
    assert_eq!(main.exit_code, None);
    assert_eq!(main.trap_cx.sepc, 0x10000);
    assert_eq!(main.trap_cx.x[2], BASE + USER_STACK_SIZE);
    assert_eq!(main.ustack_top(), BASE + USER_STACK_SIZE);
    assert_eq!(p.next_tid(), 1);
}

#[test]
fn thread_create_returns_new_tid_and_sets_context() {
    let mut p = process();
    let tid = sys_thread_create(&mut p, 0, 0x20000, 42, TOKEN, 0xfffe_0000, HANDLER);
    assert_eq!(tid, 1);
    assert_eq!(p.tasks.len(), 2);
    let t = p.thread(1).unwrap();
    assert_eq!(t.tid, 1);
    assert_eq!(t.ustack_base, BASE);
    assert_eq!(t.kstack_top, 0xfffe_0000);
    assert_eq!(t.exit_code, None);
    assert_eq!(t.trap_cx.sepc, 0x20000);
    assert_eq!(t.trap_cx.x[10], 42);
    assert_eq!(t.trap_cx.x[2], BASE + (PAGE_SIZE + USER_STACK_SIZE) + USER_STACK_SIZE);
    assert_eq!(t.trap_cx.kernel_satp, TOKEN);
    assert_eq!(t.trap_cx.kernel_sp, 0xfffe_0000);
    assert_eq!(t.trap_cx.trap_handler, HANDLER);
    // the main thread is untouched
    assert_eq!(p.thread(0).unwrap().trap_cx.sepc, 0x10000);
}

#[test]
fn gettid_of_created_thread_is_returned_tid() {
    let mut p = process();
    let tid = sys_thread_create(&mut p, 0, 0x20000, 1, TOKEN, 0xfffe_0000, HANDLER);
    assert_eq!(sys_gettid(p.thread(tid as usize).unwrap()), tid);
    assert_eq!(sys_gettid(p.thread(0).unwrap()), 0);
}

#[test]
fn waittid_on_itself_returns_minus_one() {
    let mut p = process();
    sys_thread_create(&mut p, 0, 0x20000, 1, TOKEN, 0xfffe_0000, HANDLER);
    p.exit_thread(0, 3);
    assert_eq!(sys_waittid(&mut p, 0, 0), -1);
    assert!(p.thread(0).is_some());
}

#[test]
fn waittid_on_missing_thread_returns_minus_one() {
    let mut p = process();
    assert_eq!(sys_waittid(&mut p, 0, 5), -1);
    sys_thread_create(&mut p, 0, 0x20000, 1, TOKEN, 0xfffe_0000, HANDLER);
    sys_thread_create(&mut p, 0, 0x20000, 2, TOKEN, 0xfffd_0000, HANDLER);
    p.exit_thread(1, 0);
    assert_eq!(sys_waittid(&mut p, 0, 1), 0);
    // slot 1 is empty now, slot 2 still holds a thread
    assert_eq!(sys_waittid(&mut p, 0, 1), -1);
    assert_eq!(p.tasks.len(), 3);
}

#[test]
fn waittid_on_running_thread_returns_minus_two() {
    let mut p = process();
    let tid = sys_thread_create(&mut p, 0, 0x20000, 1, TOKEN, 0xfffe_0000, HANDLER) as usize;
    assert_eq!(sys_waittid(&mut p, 0, tid), -2);
    assert!(p.thread(tid).is_some());
    assert_eq!(p.next_tid(), 2);
}

#[test]
fn waittid_reaps_exited_thread_and_recycles_tid() {
    let mut p = process();
    let tid = sys_thread_create(&mut p, 0, 0x20000, 1, TOKEN, 0xfffe_0000, HANDLER) as usize;
    p.exit_thread(tid, 77);
    assert_eq!(sys_waittid(&mut p, 0, tid), 77);
    assert!(p.thread(tid).is_none());
    assert_eq!(p.next_tid(), tid);
    // a second wait finds nothing
    assert_eq!(sys_waittid(&mut p, 0, tid), -1);
    // the next thread gets the freed tid and the freed slot
    let again = sys_thread_create(&mut p, 0, 0x30000, 5, TOKEN, 0xfffe_0000, HANDLER);
    assert_eq!(again, tid as isize);
    assert_eq!(p.tasks.len(), 2);
    assert_eq!(p.thread(tid).unwrap().trap_cx.x[10], 5);
}

#[test]
fn negative_exit_codes_are_returned_as_they_are() {
    let mut p = process();
    let tid = sys_thread_create(&mut p, 0, 0x20000, 1, TOKEN, 0xfffe_0000, HANDLER) as usize;
    p.exit_thread(tid, -9);
    assert_eq!(sys_waittid(&mut p, 0, tid), -9);
}

#[test]
fn sibling_can_wait_for_main_thread() {
    let mut p = process();
    let tid = sys_thread_create(&mut p, 0, 0x20000, 1, TOKEN, 0xfffe_0000, HANDLER) as usize;
    p.exit_thread(0, 12);
    assert_eq!(sys_waittid(&mut p, tid, 0), 12);
    assert!(p.thread(0).is_none());
    assert_eq!(p.next_tid(), 0);
}

#[test]
fn table_grows_up_to_a_recycled_high_tid() {
    let mut p = process();
    let t1 = sys_thread_create(&mut p, 0, 0x20000, 1, TOKEN, 0xfffe_0000, HANDLER) as usize;
    let t2 = sys_thread_create(&mut p, 0, 0x20000, 2, TOKEN, 0xfffd_0000, HANDLER) as usize;
    assert_eq!((t1, t2), (1, 2));
    p.exit_thread(t2, 0);
    assert_eq!(sys_waittid(&mut p, 0, t2), 0);
    p.exit_thread(t1, 0);
    assert_eq!(sys_waittid(&mut p, 0, t1), 0);
    assert_eq!(sys_thread_create(&mut p, 0, 0x20000, 3, TOKEN, 0xfffc_0000, HANDLER), 1);
    assert_eq!(sys_thread_create(&mut p, 0, 0x20000, 4, TOKEN, 0xfffb_0000, HANDLER), 2);
    assert_eq!(sys_thread_create(&mut p, 0, 0x20000, 5, TOKEN, 0xfffa_0000, HANDLER), 3);
    assert_eq!(p.tasks.len(), 4);
    for t in 0..4 {
        assert_eq!(p.thread(t).unwrap().tid, t);
    }
}

#[test]
fn two_creates_hand_out_distinct_tids() {
    let mut p = process();
    let a = sys_thread_create(&mut p, 0, 0x20000, 1, TOKEN, 0xfffe_0000, HANDLER);
    let b = sys_thread_create(&mut p, 0, 0x20000, 2, TOKEN, 0xfffd_0000, HANDLER);
    assert_ne!(a, b);
    assert_eq!(p.thread(a as usize).unwrap().trap_cx.x[10], 1);
    assert_eq!(p.thread(b as usize).unwrap().trap_cx.x[10], 2);
}
