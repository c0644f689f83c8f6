//! Threads of a process: the tid allocator, the task table, and the
//! `thread_create`, `gettid` and `waittid` system calls.

use vstd::prelude::*;

verus! {

/// Size of a page in bytes.
pub const PAGE_SIZE: usize = 4096;

/// Size of the user stack of each thread, in bytes.
pub const USER_STACK_SIZE: usize = 8192;

/// Number of general-purpose registers saved in a trap context.
pub const NUM_REGS: usize = 32;

/// Index of the stack pointer (`sp`, `x2`) among the saved registers.
pub const REG_SP: usize = 2;

/// Index of the first argument register (`a0`, `x10`).
pub const REG_A0: usize = 10;

/// Top of the user stack of thread `tid` when the process's stacks start at `base`:
/// stacks are laid out one after another, each followed by a guard page.
pub open spec fn ustack_top_of(base: int, tid: int) -> int {
    base + tid * (PAGE_SIZE + USER_STACK_SIZE) + USER_STACK_SIZE
}

/// An id allocator that hands out recycled ids first, most recently freed first.
pub struct RecycleAllocator {
    pub current: usize,
    pub recycled: Vec<usize>,
}

impl RecycleAllocator {
    /// Every recycled id was handed out before, and none is recycled twice.
    pub open spec fn wf(&self) -> bool {
        &&& forall|i: int| 0 <= i < self.recycled@.len() ==> #[trigger] self.recycled@[i] < self.current
        &&& forall|i: int, j: int|
            0 <= i < j < self.recycled@.len() ==> #[trigger] self.recycled@[i] != #[trigger] self.recycled@[j]
    }

    /// Whether `id` is currently handed out.
    pub open spec fn is_allocated(&self, id: usize) -> bool {
        id < self.current && !self.recycled@.contains(id)
    }

    /// The id that the next `allocate` returns.
    pub open spec fn next_id(&self) -> usize {
        if self.recycled@.len() > 0 {
            self.recycled@.last()
        } else {
            self.current
        }
    }

    /// Whether `allocate` can hand out an id without running past `usize::MAX`.
    pub open spec fn can_alloc(&self) -> bool {
        self.recycled@.len() > 0 || self.current < usize::MAX
    }

    /// How `allocate` changes the allocator: it pops the most recently recycled id,
    /// or else hands out `current` and moves `current` on.
    pub open spec fn after_allocate(self, new: Self) -> bool {
        if self.recycled@.len() > 0 {
            new.recycled@ == self.recycled@.drop_last() && new.current == self.current
        } else {
            new.recycled@ == self.recycled@ && new.current == self.current + 1
        }
    }

    /// An allocator that has handed out nothing.
    pub fn new() -> (r: Self)
        ensures
            r.wf(),
            r.current == 0,
            r.recycled@ == Seq::<usize>::empty(),
    {
        RecycleAllocator { current: 0, recycled: Vec::new() }
    }

    /// The id that the next `allocate` returns.
    pub fn peek(&self) -> (r: usize)
        ensures
            r == self.next_id(),
    {
        let n = self.recycled.len();
        if n > 0 {
            self.recycled[n - 1]
        } else {
            self.current
        }
    }

    /// Hands out the most recently recycled id, or else a fresh one.
    pub fn allocate(&mut self) -> (id: usize)
        requires
            old(self).wf(),
            old(self).can_alloc(),
        ensures
            final(self).wf(),
            id == old(self).next_id(),
            old(self).after_allocate(*final(self)),
            !old(self).is_allocated(id),
            final(self).is_allocated(id),
            forall|x: usize| x != id ==> (#[trigger] final(self).is_allocated(x) <==> old(self).is_allocated(x)),
    {
        match self.recycled.pop() {
            Some(id) => {
                proof {
                    let s = old(self).recycled@;
                    assert(s == self.recycled@.push(id));
                    assert forall|x: usize| x != id implies (self.recycled@.contains(x) <==> s.contains(x)) by {
                        if s.contains(x) {
                            let k = choose|k: int| 0 <= k < s.len() && s[k] == x;
                            assert(k < s.len() - 1);
                            assert(self.recycled@[k] == x);
                        }
                    }
                    assert forall|k: int| 0 <= k < self.recycled@.len() implies self.recycled@[k] != id by {
                        assert(s[k] != s[s.len() - 1]);
                    }
                }
                id
            },
            None => {
                self.current = self.current + 1;
                self.current - 1
            },
        }
    }

    /// Takes back an id that is handed out.
    pub fn deallocate(&mut self, id: usize)
        requires
            old(self).wf(),
            old(self).is_allocated(id),
        ensures
            final(self).wf(),
            !final(self).is_allocated(id),
            final(self).next_id() == id,
            final(self).recycled@ == old(self).recycled@.push(id),
            final(self).current == old(self).current,
            forall|x: usize| x != id ==> (#[trigger] final(self).is_allocated(x) <==> old(self).is_allocated(x)),
    {
        self.recycled.push(id);
        proof {
            let s = old(self).recycled@;
            assert(self.recycled@ == s.push(id));
            assert(self.recycled@[s.len() as int] == id);
            assert forall|x: usize| x != id implies (self.recycled@.contains(x) <==> s.contains(x)) by {
                if self.recycled@.contains(x) {
                    let k = choose|k: int| 0 <= k < self.recycled@.len() && self.recycled@[k] == x;
                    assert(k < s.len());
                    assert(s[k] == x);
                }
                if s.contains(x) {
                    let k = choose|k: int| 0 <= k < s.len() && s[k] == x;
                    assert(self.recycled@[k] == x);
                }
            }
            assert forall|i: int, j: int|
                0 <= i < j < self.recycled@.len() implies self.recycled@[i] != self.recycled@[j] by {
                if j == s.len() {
                    assert(!s.contains(id));
                    assert(self.recycled@[i] == s[i]);
                }
            }
        }
    }
}


/// Registers of a fresh user context: all zero but the stack pointer.
pub open spec fn init_regs(sp: usize) -> Seq<usize> {
    Seq::new(NUM_REGS as nat, |i: int| 0usize).update(REG_SP as int, sp)
}

/// What a trap saves of a user thread, and what it needs to get back into the kernel.
pub struct TrapContext {
    /// General-purpose registers `x0`..`x31`.
    pub x: Vec<usize>,
    /// Address the thread resumes at when it returns to user mode.
    pub sepc: usize,
    /// Page-table token of the kernel address space.
    pub kernel_satp: usize,
    /// Top of the thread's kernel stack.
    pub kernel_sp: usize,
    /// Address of the kernel's trap handler.
    pub trap_handler: usize,
    /// The previous-privilege bit (`SPP`) of `sstatus`: whether `sret` returns to user
    /// mode. The other bits of `sstatus` are copied from the hart's register by the
    /// caller, which reads it.
    pub spp_user: bool,
}

impl TrapContext {
    /// The context in which a thread starts: at `entry`, on the user stack `sp`, in user mode.
    pub fn app_init_context(entry: usize, sp: usize, kernel_satp: usize, kernel_sp: usize, trap_handler: usize) -> (cx: Self)
        ensures
            cx.x@ == init_regs(sp),
            cx.sepc == entry,
            cx.kernel_satp == kernel_satp,
            cx.kernel_sp == kernel_sp,
            cx.trap_handler == trap_handler,
            cx.spp_user,
    {
        let mut x: Vec<usize> = Vec::new();
        let mut i: usize = 0;
        while i < NUM_REGS
            invariant
                i <= NUM_REGS,
                x@ == Seq::new(i as nat, |k: int| 0usize),
            decreases NUM_REGS - i,
        {
            x.push(0);
            i = i + 1;
        }
        x[REG_SP] = sp;
        proof {
            assert(x@ =~= init_regs(sp));
        }
        TrapContext { x, sepc: entry, kernel_satp, kernel_sp, trap_handler, spp_user: true }
    }
}

/// A thread of a process.
pub struct Thread {
    /// Thread id, unique within the process.
    pub tid: usize,
    /// Where the process's user stacks start.
    pub ustack_base: usize,
    /// Top of the thread's kernel stack.
    pub kstack_top: usize,
    /// The thread's saved user context.
    pub trap_cx: TrapContext,
    /// Set once the thread has exited.
    pub exit_code: Option<i32>,
}

impl Thread {
    /// Top of this thread's user stack.
    pub fn ustack_top(&self) -> (top: usize)
        requires
            ustack_top_of(self.ustack_base as int, self.tid as int) <= usize::MAX,
        ensures
            top == ustack_top_of(self.ustack_base as int, self.tid as int),
    {
        self.ustack_base + self.tid * (PAGE_SIZE + USER_STACK_SIZE) + USER_STACK_SIZE
    }
}

/// Whether `th` is the thread that `thread_create` makes: thread `tid`, with stacks from
/// `ustack_base` and `kstack_top`, about to run `entry` with `arg` in `a0`.
pub open spec fn is_new_thread(
    th: Thread,
    tid: usize,
    ustack_base: usize,
    kstack_top: usize,
    entry: usize,
    arg: usize,
    kernel_token: usize,
    trap_handler: usize,
) -> bool {
    &&& th.tid == tid
    &&& th.ustack_base == ustack_base
    &&& th.kstack_top == kstack_top
    &&& th.exit_code is None
    &&& th.trap_cx.x@ == init_regs(ustack_top_of(ustack_base as int, tid as int) as usize).update(REG_A0 as int, arg)
    &&& th.trap_cx.sepc == entry
    &&& th.trap_cx.kernel_satp == kernel_token
    &&& th.trap_cx.kernel_sp == kstack_top
    &&& th.trap_cx.trap_handler == trap_handler
    &&& th.trap_cx.spp_user
}

/// The thread part of a process: its task table, indexed by tid, and its tid allocator.
pub struct ProcessInner {
    pub tasks: Vec<Option<Thread>>,
    pub tid_allocator: RecycleAllocator,
}

impl ProcessInner {
    /// Whether slot `t` of the task table holds a thread.
    pub open spec fn live(&self, t: int) -> bool {
        0 <= t < self.tasks@.len() && self.tasks@[t] is Some
    }

    /// The thread in slot `t`.
    pub open spec fn thread_at(&self, t: int) -> Thread {
        self.tasks@[t]->0
    }

    /// Each live slot holds the thread with its own tid, and the allocated tids are
    /// exactly the live slots.
    pub open spec fn wf(&self) -> bool {
        &&& self.tid_allocator.wf()
        &&& forall|t: int| #[trigger] self.live(t) ==> self.thread_at(t).tid == t
            && self.thread_at(t).trap_cx.x@.len() == NUM_REGS
        &&& forall|t: usize|
            #![trigger self.tid_allocator.is_allocated(t)]
            #![trigger self.live(t as int)]
            self.tid_allocator.is_allocated(t) <==> self.live(t as int)
    }

    /// Whether the next new thread's user stack lies below `usize::MAX`.
    pub open spec fn stack_fits(&self, ustack_base: usize) -> bool {
        ustack_top_of(ustack_base as int, self.tid_allocator.next_id() as int) <= usize::MAX
    }

    /// The tid that the next new thread gets.
    pub fn next_tid(&self) -> (tid: usize)
        ensures
            tid == self.tid_allocator.next_id(),
    {
        self.tid_allocator.peek()
    }

    /// The thread with id `tid`, if there is one.
    pub fn thread(&self, tid: usize) -> (r: Option<&Thread>)
        ensures
            r is Some <==> self.live(tid as int),
            r is Some ==> *r->0 == self.thread_at(tid as int),
    {
        if tid < self.tasks.len() {
            match &self.tasks[tid] {
                Some(t) => Some(t),
                None => None,
            }
        } else {
            None
        }
    }
}

/// What `thread_create` does to a process: thread `tid`, the tid the allocator hands out
/// next, goes into its slot, the table grows with empty slots up to it where needed, and
/// every other slot keeps what it held.
pub open spec fn create_post(
    old: ProcessInner,
    new: ProcessInner,
    tid: usize,
    ustack_base: usize,
    entry: usize,
    arg: usize,
    kernel_token: usize,
    kstack_top: usize,
    trap_handler: usize,
) -> bool {
    &&& tid == old.tid_allocator.next_id()
    &&& old.tid_allocator.after_allocate(new.tid_allocator)
    &&& !old.live(tid as int)
    &&& new.live(tid as int)
    &&& is_new_thread(new.thread_at(tid as int), tid, ustack_base, kstack_top, entry, arg, kernel_token, trap_handler)
    &&& new.tasks@.len() == if tid < old.tasks@.len() { old.tasks@.len() as int } else { tid + 1 }
    &&& forall|t: int|
        0 <= t < new.tasks@.len() && t != tid ==> #[trigger] new.tasks@[t] == if t < old.tasks@.len() {
            old.tasks@[t]
        } else {
            None
        }
}

/// What `thread_create` returns, given the tid of the new thread.
pub open spec fn tid_result(tid: usize) -> isize {
    tid as isize
}

impl ProcessInner {
    /// Adds a thread with the next free tid that starts at `entry` with `arg` in `a0`.
    fn install_thread(
        &mut self,
        ustack_base: usize,
        entry: usize,
        arg: usize,
        kernel_token: usize,
        kstack_top: usize,
        trap_handler: usize,
    ) -> (tid: usize)
        requires
            old(self).wf(),
            old(self).tid_allocator.can_alloc(),
            old(self).stack_fits(ustack_base),
        ensures
            final(self).wf(),
            create_post(*old(self), *final(self), tid, ustack_base, entry, arg, kernel_token, kstack_top, trap_handler),
    {
        let ghost old_self = *self;
        let tid = self.tid_allocator.allocate();
        let ghost old_len = self.tasks@.len();
        let ghost alloc_after = self.tid_allocator;
        assert(!old_self.live(tid as int));
        while self.tasks.len() < tid + 1
            invariant
                tid < usize::MAX,
                self.tid_allocator == alloc_after,
                old_len == old_self.tasks@.len(),
                old_len <= self.tasks@.len(),
                self.tasks@.len() <= old_len || self.tasks@.len() <= tid + 1,
                forall|t: int| 0 <= t < old_len ==> #[trigger] self.tasks@[t] == old_self.tasks@[t],
                forall|t: int| old_len <= t < self.tasks@.len() ==> #[trigger] self.tasks@[t] is None,
            decreases tid + 1 - self.tasks@.len(),
        {
            self.tasks.push(None);
        }
        let sp = ustack_base + tid * (PAGE_SIZE + USER_STACK_SIZE) + USER_STACK_SIZE;
        let mut cx = TrapContext::app_init_context(entry, sp, kernel_token, kstack_top, trap_handler);
        cx.x[REG_A0] = arg;
        self.tasks[tid] = Some(Thread { tid, ustack_base, kstack_top, trap_cx: cx, exit_code: None });
        proof {
            assert forall|t: int| #[trigger] self.live(t) implies self.thread_at(t).tid == t
                && self.thread_at(t).trap_cx.x@.len() == NUM_REGS by {
                if t != tid {
                    assert(old_self.live(t));
                }
            }
            assert forall|t: usize| #[trigger] self.tid_allocator.is_allocated(t) <==> self.live(t as int) by {
                if t != tid {
                    assert(self.tid_allocator.is_allocated(t) <==> old_self.tid_allocator.is_allocated(t));
                    assert(old_self.tid_allocator.is_allocated(t) <==> old_self.live(t as int));
                }
            }
        }
        tid
    }

    /// A process whose only thread, tid 0, starts at `entry` on the first user stack.
    pub fn new(ustack_base: usize, entry: usize, kernel_token: usize, kstack_top: usize, trap_handler: usize) -> (p: Self)
        requires
            ustack_top_of(ustack_base as int, 0) <= usize::MAX,
        ensures
            p.wf(),
            p.tasks@.len() == 1,
            p.live(0),
            is_new_thread(p.thread_at(0), 0, ustack_base, kstack_top, entry, 0, kernel_token, trap_handler),
            p.tid_allocator.current == 1,
            p.tid_allocator.recycled@ == Seq::<usize>::empty(),
    {
        let mut p = ProcessInner { tasks: Vec::new(), tid_allocator: RecycleAllocator::new() };
        p.install_thread(ustack_base, entry, 0, kernel_token, kstack_top, trap_handler);
        p
    }
}

/// Creates a thread in the process of the calling thread `current_tid`: it starts at
/// `entry` with `arg` in `a0`, on its own user stack and on the kernel stack whose top
/// is `kstack_top`. Returns the new thread's tid.
pub fn sys_thread_create(
    process: &mut ProcessInner,
    current_tid: usize,
    entry: usize,
    arg: usize,
    kernel_token: usize,
    kstack_top: usize,
    trap_handler: usize,
) -> (ret: isize)
    requires
        old(process).wf(),
        old(process).live(current_tid as int),
        old(process).tid_allocator.can_alloc(),
        old(process).stack_fits(old(process).thread_at(current_tid as int).ustack_base),
    ensures
        final(process).wf(),
        ret == tid_result(old(process).tid_allocator.next_id()),
        create_post(
            *old(process),
            *final(process),
            old(process).tid_allocator.next_id(),
            old(process).thread_at(current_tid as int).ustack_base,
            entry,
            arg,
            kernel_token,
            kstack_top,
            trap_handler,
        ),
{
    let ustack_base = match &process.tasks[current_tid] {
        Some(t) => t.ustack_base,
        None => 0,
    };
    let tid = process.install_thread(ustack_base, entry, arg, kernel_token, kstack_top, trap_handler);
    tid as isize
}

/// Whether `waittid(tid)` from thread `current_tid` finds an exited thread to reap.
pub open spec fn reaps(p: ProcessInner, current_tid: usize, tid: usize) -> bool {
    &&& tid != current_tid
    &&& p.live(tid as int)
    &&& p.thread_at(tid as int).exit_code is Some
}

/// What `waittid(tid)` from thread `current_tid` returns: -1 for itself or for a thread
/// that does not exist, -2 for a thread that has not exited, else its exit code.
pub open spec fn waittid_result(p: ProcessInner, current_tid: usize, tid: usize) -> i32 {
    if tid == current_tid || !p.live(tid as int) {
        -1i32
    } else {
        match p.thread_at(tid as int).exit_code {
            Some(code) => code,
            None => -2i32,
        }
    }
}

/// What `waittid(tid)` does to the process: a reaped thread leaves its slot and its tid
/// goes back to the allocator; otherwise nothing changes.
pub open spec fn waittid_post(old: ProcessInner, new: ProcessInner, current_tid: usize, tid: usize) -> bool {
    if reaps(old, current_tid, tid) {
        &&& new.tasks@ == old.tasks@.update(tid as int, None)
        &&& new.tid_allocator.current == old.tid_allocator.current
        &&& new.tid_allocator.recycled@ == old.tid_allocator.recycled@.push(tid)
    } else {
        new == old
    }
}

/// What recording the exit of thread `tid` does: its exit code is set, nothing else changes.
pub open spec fn exit_post(old: ProcessInner, new: ProcessInner, tid: usize, exit_code: i32) -> bool {
    &&& new.tasks@ == old.tasks@.update(tid as int, Some(Thread { exit_code: Some(exit_code), ..old.thread_at(tid as int) }))
    &&& new.tid_allocator == old.tid_allocator
}

impl ProcessInner {
    /// Records that thread `tid` exited with `exit_code`; it stays in the table until a
    /// sibling waits for it.
    pub fn exit_thread(&mut self, tid: usize, exit_code: i32)
        requires
            old(self).wf(),
            old(self).live(tid as int),
        ensures
            final(self).wf(),
            exit_post(*old(self), *final(self), tid, exit_code),
    {
        let ghost old_self = *self;
        let slot = &mut self.tasks[tid];
        match slot {
            Some(th) => {
                th.exit_code = Some(exit_code);
            },
            None => {},
        }
        proof {
            assert forall|t: int| #[trigger] self.live(t) implies self.thread_at(t).tid == t
                && self.thread_at(t).trap_cx.x@.len() == NUM_REGS by {
                assert(old_self.live(t));
            }
            assert forall|t: usize| #[trigger] self.tid_allocator.is_allocated(t) <==> self.live(t as int) by {
                assert(old_self.tid_allocator.is_allocated(t) <==> old_self.live(t as int));
            }
        }
    }
}

/// The tid of the calling thread.
pub fn sys_gettid(current: &Thread) -> (ret: isize)
    ensures
        ret == tid_result(current.tid),
{
    current.tid as isize
}

/// Waits for thread `tid` of the calling thread's process, `current_tid` being the caller.
/// Returns -1 if the thread does not exist or is the caller itself, -2 if it has not
/// exited yet, and otherwise its exit code, after freeing its slot and its tid.
pub fn sys_waittid(process: &mut ProcessInner, current_tid: usize, tid: usize) -> (ret: i32)
    requires
        old(process).wf(),
        old(process).live(current_tid as int),
    ensures
        final(process).wf(),
        ret == waittid_result(*old(process), current_tid, tid),
        waittid_post(*old(process), *final(process), current_tid, tid),
{
    // a thread cannot wait for itself
    if current_tid == tid {
        return -1;
    }
    if tid >= process.tasks.len() {
        return -1;
    }
    let mut exit_code: Option<i32> = None;
    match &process.tasks[tid] {
        Some(waited) => {
            if let Some(code) = waited.exit_code {
                exit_code = Some(code);
            }
        },
        None => {
            // the waited thread does not exist
            return -1;
        },
    }
    match exit_code {
        Some(code) => {
            let ghost old_p = *process;
            process.tid_allocator.deallocate(tid);
            process.tasks[tid] = None;
            proof {
                assert forall|t: int| #[trigger] process.live(t) implies process.thread_at(t).tid == t
                    && process.thread_at(t).trap_cx.x@.len() == NUM_REGS by {
                    assert(old_p.live(t));
                }
                assert forall|t: usize|
                    #[trigger] process.tid_allocator.is_allocated(t) <==> process.live(t as int) by {
                    if t != tid {
                        assert(old_p.tid_allocator.is_allocated(t) <==> old_p.live(t as int));
                    }
                }
            }
            code
        },
        None => -2,
    }
}

/// Once `waittid` has reaped a thread, waiting for it again returns -1: it no longer exists.
pub proof fn lemma_reaped_thread_is_gone(p0: ProcessInner, p1: ProcessInner, current_tid: usize, tid: usize)
    requires
        p0.wf(),
        reaps(p0, current_tid, tid),
        waittid_post(p0, p1, current_tid, tid),
    ensures
        !p1.live(tid as int),
        waittid_result(p1, current_tid, tid) == -1,
{
}

/// The tid of a reaped thread is the one the next `thread_create` hands out.
pub proof fn lemma_reaped_tid_is_reused(p0: ProcessInner, p1: ProcessInner, current_tid: usize, tid: usize)
    requires
        p0.wf(),
        reaps(p0, current_tid, tid),
        waittid_post(p0, p1, current_tid, tid),
    ensures
        p1.tid_allocator.next_id() == tid,
{
}

/// A thread just created has not exited: waiting for it returns -2.
pub proof fn lemma_new_thread_not_exited(
    p0: ProcessInner,
    p1: ProcessInner,
    current_tid: usize,
    tid: usize,
    ustack_base: usize,
    entry: usize,
    arg: usize,
    kernel_token: usize,
    kstack_top: usize,
    trap_handler: usize,
)
    requires
        p0.wf(),
        p0.live(current_tid as int),
        create_post(p0, p1, tid, ustack_base, entry, arg, kernel_token, kstack_top, trap_handler),
    ensures
        !reaps(p1, current_tid, tid),
        waittid_result(p1, current_tid, tid) == -2,
{
}

/// A thread that was created and then exited with `exit_code` is reaped with that code.
pub proof fn lemma_create_exit_wait(
    p0: ProcessInner,
    p1: ProcessInner,
    p2: ProcessInner,
    current_tid: usize,
    tid: usize,
    ustack_base: usize,
    entry: usize,
    arg: usize,
    kernel_token: usize,
    kstack_top: usize,
    trap_handler: usize,
    exit_code: i32,
)
    requires
        p0.wf(),
        p0.live(current_tid as int),
        create_post(p0, p1, tid, ustack_base, entry, arg, kernel_token, kstack_top, trap_handler),
        exit_post(p1, p2, tid, exit_code),
    ensures
        reaps(p2, current_tid, tid),
        waittid_result(p2, current_tid, tid) == exit_code,
{
    assert(p2.tasks@[tid as int] == Some(Thread { exit_code: Some(exit_code), ..p1.thread_at(tid as int) }));
}

/// The thread that `thread_create` made reports, through `gettid`, the tid that
/// `thread_create` returned.
pub proof fn lemma_new_thread_gettid(
    p0: ProcessInner,
    p1: ProcessInner,
    tid: usize,
    ustack_base: usize,
    entry: usize,
    arg: usize,
    kernel_token: usize,
    kstack_top: usize,
    trap_handler: usize,
)
    requires
        create_post(p0, p1, tid, ustack_base, entry, arg, kernel_token, kstack_top, trap_handler),
    ensures
        tid_result(p1.thread_at(tid as int).tid) == tid_result(tid),
{
}

/// Two successive `thread_create` calls with no wait between them hand out different
/// tids, and the second leaves the first new thread where it was.
pub proof fn lemma_two_creates_distinct(
    p0: ProcessInner,
    p1: ProcessInner,
    p2: ProcessInner,
    t1: usize,
    t2: usize,
    b1: usize,
    e1: usize,
    a1: usize,
    k1: usize,
    s1: usize,
    h1: usize,
    b2: usize,
    e2: usize,
    a2: usize,
    k2: usize,
    s2: usize,
    h2: usize,
)
    requires
        p0.wf(),
        create_post(p0, p1, t1, b1, e1, a1, k1, s1, h1),
        create_post(p1, p2, t2, b2, e2, a2, k2, s2, h2),
    ensures
        t1 != t2,
        tid_result(t1) != tid_result(t2) || t1 > isize::MAX || t2 > isize::MAX,
        p2.live(t1 as int),
        p2.thread_at(t1 as int) == p1.thread_at(t1 as int),
{
}

/// A live thread keeps its slot, unchanged, through a `waittid` for any other tid and
/// through a `thread_create`: it leaves the table only when it is itself reaped.
pub proof fn lemma_live_thread_stays(
    p0: ProcessInner,
    p1: ProcessInner,
    p2: ProcessInner,
    tid: usize,
    current_tid: usize,
    waited: usize,
    new_tid: usize,
    ustack_base: usize,
    entry: usize,
    arg: usize,
    kernel_token: usize,
    kstack_top: usize,
    trap_handler: usize,
)
    requires
        p0.wf(),
        p0.live(tid as int),
        waited != tid,
        waittid_post(p0, p1, current_tid, waited),
        create_post(p1, p2, new_tid, ustack_base, entry, arg, kernel_token, kstack_top, trap_handler),
    ensures
        p1.live(tid as int),
        p1.thread_at(tid as int) == p0.thread_at(tid as int),
        p2.live(tid as int),
        p2.thread_at(tid as int) == p0.thread_at(tid as int),
{
}

/// `thread_create` keeps the table's invariant, and the tid it hands out differs from
/// the tid of every thread that was live before the call.
pub proof fn lemma_new_tid_fresh(
    p0: ProcessInner,
    p1: ProcessInner,
    tid: usize,
    ustack_base: usize,
    entry: usize,
    arg: usize,
    kernel_token: usize,
    kstack_top: usize,
    trap_handler: usize,
    t: int,
)
    requires
        p0.wf(),
        p1.wf(),
        create_post(p0, p1, tid, ustack_base, entry, arg, kernel_token, kstack_top, trap_handler),
        p0.live(t),
    ensures
        p0.thread_at(t).tid != tid,
        p1.live(t),
        p1.thread_at(t) == p0.thread_at(t),
{
}

/// The value `thread_create` and `gettid` report is the tid itself, for every tid a
/// signed result can hold.
pub proof fn lemma_tid_result_is_tid(tid: usize)
    requires
        tid <= isize::MAX,
    ensures
        tid_result(tid) as int == tid as int,
{
}

/// User stacks lie one after another: thread 0's stack top is one stack above the
/// base, and each tid's stack top is one stack plus one guard page above the previous
/// tid's.
pub proof fn lemma_ustack_layout(base: int, tid: int)
    ensures
        ustack_top_of(base, 0) == base + USER_STACK_SIZE,
        ustack_top_of(base, tid + 1) == ustack_top_of(base, tid) + PAGE_SIZE + USER_STACK_SIZE,
{
}

/// Different threads get disjoint user stacks: their stack tops are at least one stack
/// and one guard page apart.
pub proof fn lemma_ustacks_disjoint(base: int, a: int, b: int)
    requires
        0 <= a < b,
    ensures
        ustack_top_of(base, b) - ustack_top_of(base, a) >= PAGE_SIZE + USER_STACK_SIZE,
{
    assert((b - a) * (PAGE_SIZE + USER_STACK_SIZE) >= PAGE_SIZE + USER_STACK_SIZE) by (nonlinear_arith)
        requires
            b - a >= 1,
    ;
    assert(ustack_top_of(base, b) - ustack_top_of(base, a) == (b - a) * (PAGE_SIZE + USER_STACK_SIZE)) by (nonlinear_arith);
}

/// A thread waiting for itself gets -1 and reaps nothing.
pub proof fn lemma_wait_self(p: ProcessInner, tid: usize)
    ensures
        !reaps(p, tid, tid),
        waittid_result(p, tid, tid) == -1,
{
}

/// Waiting for a tid with no thread gets -1 and reaps nothing.
pub proof fn lemma_wait_missing(p: ProcessInner, current_tid: usize, tid: usize)
    requires
        !p.live(tid as int),
    ensures
        !reaps(p, current_tid, tid),
        waittid_result(p, current_tid, tid) == -1,
{
}

/// Waiting for a live sibling that has not exited gets -2 and reaps nothing; for one
/// that exited with `c`, it gets `c` and reaps it.
pub proof fn lemma_wait_live(p: ProcessInner, current_tid: usize, tid: usize)
    requires
        tid != current_tid,
        p.live(tid as int),
    ensures
        p.thread_at(tid as int).exit_code is None ==> !reaps(p, current_tid, tid)
            && waittid_result(p, current_tid, tid) == -2,
        p.thread_at(tid as int).exit_code matches Some(c) ==> reaps(p, current_tid, tid)
            && waittid_result(p, current_tid, tid) == c,
{
}

/// A fresh user context has 32 registers, all zero but the stack pointer `x2`.
pub proof fn lemma_init_regs(sp: usize, i: int)
    requires
        0 <= i < 32,
    ensures
        init_regs(sp).len() == 32,
        i == 2 ==> init_regs(sp)[i] == sp,
        i != 2 ==> init_regs(sp)[i] == 0,
{
}

/// The thread that `thread_create` makes starts at `entry`, with `arg` in `a0` (`x10`),
/// its stack pointer (`x2`) at the top of its own user stack, every other register
/// zero, no exit code, returning to user mode, and the kernel's token, its kernel
/// stack and the trap handler recorded for its traps.
pub proof fn lemma_new_thread_context(
    p0: ProcessInner,
    p1: ProcessInner,
    tid: usize,
    ustack_base: usize,
    entry: usize,
    arg: usize,
    kernel_token: usize,
    kstack_top: usize,
    trap_handler: usize,
    i: int,
)
    requires
        create_post(p0, p1, tid, ustack_base, entry, arg, kernel_token, kstack_top, trap_handler),
        ustack_top_of(ustack_base as int, tid as int) <= usize::MAX,
        0 <= i < 32,
    ensures
        p1.thread_at(tid as int).tid == tid,
        p1.thread_at(tid as int).exit_code is None,
        p1.thread_at(tid as int).trap_cx.sepc == entry,
        p1.thread_at(tid as int).trap_cx.x@.len() == 32,
        p1.thread_at(tid as int).trap_cx.x@[10] == arg,
        p1.thread_at(tid as int).trap_cx.x@[2] == ustack_base + tid * (PAGE_SIZE + USER_STACK_SIZE)
            + USER_STACK_SIZE,
        i != 2 && i != 10 ==> p1.thread_at(tid as int).trap_cx.x@[i] == 0,
        p1.thread_at(tid as int).trap_cx.spp_user,
        p1.thread_at(tid as int).trap_cx.kernel_satp == kernel_token,
        p1.thread_at(tid as int).trap_cx.kernel_sp == kstack_top,
        p1.thread_at(tid as int).kstack_top == kstack_top,
        p1.thread_at(tid as int).trap_cx.trap_handler == trap_handler,
{
}

/// Two threads of a well-formed process never share a tid.
pub proof fn lemma_tids_distinct(p: ProcessInner, a: int, b: int)
    requires
        p.wf(),
        p.live(a),
        p.live(b),
        a != b,
    ensures
        p.thread_at(a).tid != p.thread_at(b).tid,
{
}

} // verus!
