//! A simple round-robin scheduler and cooperative thread support.
//!
//! Thread control blocks live by value in an ordered queue (head first), with
//! a single `current_thread` slot for the one running thread — a thread is in
//! exactly one of the two at any time. Identifiers grow monotonically and are
//! never reused; stack slots come from the pool and every live thread owns
//! its slot alone.

use vstd::prelude::*;

use crate::context::{
    lemma_save_load_roundtrip, load_registers, save_registers, spec_load, spec_save, regfile_wf,
    Cpu, CpuModel, MODE_USER, NUM_REGS, REG_ARG, REG_CPSR, REG_LR, REG_SP,
};
use crate::tstack::{stack_top, StackPool, MAX_THREADS, STACK_BASE, STACK_SIZE};
use vstd::seq_lib::*;
use vstd::set_lib::{lemma_int_range, lemma_len_subset, set_int_range};

verus! {

/// Represents a thread in our OS: its register-file snapshot, its identifier
/// and the index of the stack slot it owns.
pub struct Thread {
    pub regs: Vec<u32>,
    pub tid: usize,
    pub sid: usize,
}

impl Thread {
    /// A thread's snapshot is a full register file and its stack slot is one
    /// the pool can hand out.
    pub open spec fn wf(self) -> bool {
        &&& regfile_wf(self.regs@)
        &&& self.sid < MAX_THREADS
    }
}

/// The identifiers of the threads of `q`, in order.
pub open spec fn tids_of(q: Seq<Thread>) -> Seq<usize> {
    q.map_values(|t: Thread| t.tid)
}

/// A simple thread queue: the ordered ready threads, the running thread, and
/// the next fresh identifier.
pub struct TQueue {
    pub queue: Vec<Thread>,
    pub current_thread: Option<Thread>,
    pub next_tid: usize,
}

impl TQueue {
    /// Every live thread: the running one first, then the ready queue in
    /// order.
    pub open spec fn live(self) -> Seq<Thread> {
        match self.current_thread {
            Some(c) => seq![c] + self.queue@,
            None => self.queue@,
        }
    }

    /// True iff some live thread carries the identifier `t`.
    pub open spec fn live_tid(self, t: usize) -> bool {
        exists|i: int| 0 <= i < self.live().len() && (#[trigger] self.live()[i]).tid == t
    }

    /// `t` was handed out once and its thread has exited: it can never name
    /// a live thread again.
    pub open spec fn retired(self, t: usize) -> bool {
        &&& t < self.next_tid
        &&& !self.live_tid(t)
    }

    /// Scheduler invariant: every live thread is well formed, carries an
    /// identifier below the fresh counter, and no two live threads share an
    /// identifier or a stack slot.
    pub open spec fn wf(self) -> bool {
        let l = self.live();
        &&& forall|i: int| 0 <= i < l.len() ==> (#[trigger] l[i]).wf()
        &&& forall|i: int| 0 <= i < l.len() ==> (#[trigger] l[i]).tid < self.next_tid
        &&& forall|i: int, j: int|
            0 <= i < j < l.len() ==> l[i].tid != l[j].tid && l[i].sid != l[j].sid
    }

    /// The queue owns its threads' stack slots: the pool is the kernel's and
    /// every live thread's slot is marked in use there.
    pub open spec fn owns(self, pool: StackPool) -> bool {
        let l = self.live();
        &&& pool.capacity() == MAX_THREADS
        &&& forall|i: int| 0 <= i < l.len() ==> !pool.slot_free((#[trigger] l[i]).sid as int)
    }

    /// Initializes an empty queue.
    pub fn init() -> (r: TQueue)
        ensures
            r.queue@.len() == 0,
            r.current_thread is None,
            r.next_tid == 0,
            r.wf(),
    {
        TQueue { queue: Vec::new(), current_thread: None, next_tid: 0 }
    }

    /// Appends `thread` to the tail of the queue, preserving FIFO order.
    pub fn push(&mut self, thread: Thread)
        ensures
            final(self).queue@ == old(self).queue@.push(thread),
            final(self).current_thread == old(self).current_thread,
            final(self).next_tid == old(self).next_tid,
    {
        self.queue.push(thread);
    }

    /// Removes and returns the head of the queue, or `None` on an empty
    /// queue.
    pub fn pop(&mut self) -> (r: Option<Thread>)
        ensures
            final(self).current_thread == old(self).current_thread,
            final(self).next_tid == old(self).next_tid,
            old(self).queue@.len() == 0 ==> r is None && *final(self) == *old(self),
            old(self).queue@.len() > 0 ==> {
                &&& r == Some(old(self).queue@[0])
                &&& final(self).queue@ == old(self).queue@.subrange(
                    1,
                    old(self).queue@.len() as int,
                )
            },
    {
        if self.queue.len() == 0 {
            None
        } else {
            Some(self.queue.remove(0))
        }
    }

    /// Creates a new thread that runs `func(args)` and appends it to the
    /// queue. Returns `Some((tid, sid))`, or `None` — with nothing changed —
    /// when the stack pool is exhausted: callers must treat that as "cannot
    /// create a thread", not as a fatal error.
    pub fn fork(&mut self, pool: &mut StackPool, func: u32, args: u32) -> (r: Option<
        (usize, usize),
    >)
        requires
            old(self).wf(),
            old(self).owns(*old(pool)),
            old(self).next_tid < usize::MAX,
        ensures
            final(self).wf(),
            final(self).owns(*final(pool)),
            final(self).current_thread == old(self).current_thread,
            match r {
                None => {
                    &&& forall|j: int| 0 <= j < old(pool).capacity() ==> !old(pool).slot_free(j)
                    &&& *final(self) == *old(self)
                    &&& *final(pool) == *old(pool)
                },
                Some((tid, sid)) => {
                    &&& tid == old(self).next_tid
                    &&& final(self).next_tid == old(self).next_tid + 1
                    &&& sid < MAX_THREADS
                    &&& old(pool).slot_free(sid as int)
                    &&& forall|j: int| 0 <= j < sid ==> !old(pool).slot_free(j)
                    &&& final(pool).free@ == old(pool).free@.update(sid as int, false)
                    &&& final(self).queue@.len() == old(self).queue@.len() + 1
                    &&& final(self).queue@.subrange(0, old(self).queue@.len() as int) == old(
                        self,
                    ).queue@
                    &&& final(self).queue@.last().tid == tid
                    &&& final(self).queue@.last().sid == sid
                    &&& final(self).queue@.last().regs@ == spec_initial_regs(
                        func,
                        args,
                        (STACK_BASE + (sid + 1) * STACK_SIZE) as u32,
                    )
                },
            },
            forall|t: usize| old(self).retired(t) ==> final(self).retired(t),
    {
        let sid = match pool.stack_alloc() {
            None => {
                return None;
            },
            Some(sid) => sid,
        };
        let tid = self.next_tid;
        self.next_tid = tid + 1;
        let sp = stack_top(sid);
        let regs = initial_regs(func, args, sp);
        let thread = Thread { regs, tid, sid };
        self.queue.push(thread);
        proof {
            assert(final(self).queue@.subrange(0, old(self).queue@.len() as int) =~= old(
                self,
            ).queue@);
            assert(final(self).live() =~= old(self).live().push(final(self).queue@.last()));
            let l0 = old(self).live();
            let l1 = final(self).live();
            assert forall|i: int, j: int| 0 <= i < j < l1.len() implies l1[i].tid != l1[j].tid
                && l1[i].sid != l1[j].sid by {
                if j == l1.len() - 1 {
                    assert(l1[i] == l0[i]);
                    assert(!old(pool).slot_free(l0[i].sid as int));
                }
            }
            assert forall|t: usize| old(self).retired(t) implies final(self).retired(t) by {
                if final(self).live_tid(t) {
                    let i = choose|i: int|
                        0 <= i < l1.len() && (#[trigger] l1[i]).tid == t;
                    assert(i < l1.len() - 1 ==> l0[i].tid == t && old(self).live_tid(t));
                }
            }
        }
        Some((tid, sid))
    }

    /// Pops the head of the queue, marks it running and loads its register
    /// file — on a real board this call does not return to its caller, and
    /// the returned context is the one execution resumes in. An empty queue
    /// here is fatal: there must always be a runnable thread.
    pub fn cswitch(&mut self) -> (cpu: Cpu)
        requires
            old(self).wf(),
            old(self).current_thread is None,
            old(self).queue@.len() > 0,
        ensures
            final(self).wf(),
            final(self).next_tid == old(self).next_tid,
            final(self).current_thread == Some(old(self).queue@[0]),
            final(self).queue@ == old(self).queue@.subrange(1, old(self).queue@.len() as int),
            cpu@ == spec_load(old(self).queue@[0].regs@),
            cpu.wf(),
            forall|t: usize| final(self).live_tid(t) == old(self).live_tid(t),
    {
        let t = self.pop().unwrap();
        proof {
            assert(old(self).live()[0] == old(self).queue@[0]);
            assert(old(self).live()[0].wf());
        }
        let cpu = load_registers(&t.regs);
        self.current_thread = Some(t);
        proof {
            assert(final(self).live() =~= old(self).live());
        }
        cpu
    }

    /// Requeues the running thread with its register file replaced by the
    /// snapshot `regs`, then switches to the next runnable thread: the head
    /// of the queue becomes current (the requeued thread itself when nothing
    /// else is ready) and its context is loaded. Calling this with no
    /// running thread is fatal.
    pub fn wake(&mut self, regs: Vec<u32>) -> (cpu: Cpu)
        requires
            old(self).wf(),
            old(self).current_thread is Some,
            regfile_wf(regs@),
        ensures
            final(self).wf(),
            final(self).next_tid == old(self).next_tid,
            final(self).current_thread is Some,
            cpu.wf(),
            forall|t: usize| final(self).live_tid(t) == old(self).live_tid(t),
            ({
                let c = old(self).current_thread.unwrap();
                let n = old(self).queue@.len() as int;
                let step = yield_step_tids(tids_of(old(self).queue@), c.tid);
                &&& tids_of(final(self).queue@) == step.0
                &&& final(self).current_thread.unwrap().tid == step.1
                &&& (n > 0 ==> {
                    &&& final(self).current_thread == Some(old(self).queue@[0])
                    &&& final(self).queue@.len() == n
                    &&& final(self).queue@.subrange(0, n - 1) == old(self).queue@.subrange(1, n)
                    &&& final(self).queue@.last().tid == c.tid
                    &&& final(self).queue@.last().sid == c.sid
                    &&& final(self).queue@.last().regs@ == regs@
                    &&& cpu@ == spec_load(old(self).queue@[0].regs@)
                })
                &&& (n == 0 ==> {
                    &&& final(self).queue@.len() == 0
                    &&& final(self).current_thread.unwrap().tid == c.tid
                    &&& final(self).current_thread.unwrap().sid == c.sid
                    &&& final(self).current_thread.unwrap().regs@ == regs@
                    &&& cpu@ == spec_load(regs@)
                })
            }),
    {
        let mut c = self.current_thread.take().unwrap();
        c.regs = regs;
        let ghost c1 = c;
        self.queue.push(c);
        proof {
            let l0 = old(self).live();
            let l1 = self.live();
            assert(l1 =~= old(self).queue@.push(c1));
            assert(forall|i: int| 0 <= i < l1.len() - 1 ==> l1[i] == l0[i + 1]);
            assert(l1.last() == c1);
            assert forall|i: int| 0 <= i < l1.len() implies (#[trigger] l1[i]).wf() && l1[i].tid
                < self.next_tid by {
                if i == l1.len() - 1 {
                    assert(l1[i] == c1);
                    assert(l0[0].wf() && l0[0].tid < old(self).next_tid);
                } else {
                    assert(l1[i] == l0[i + 1]);
                }
            }
            assert forall|i: int, j: int| 0 <= i < j < l1.len() implies l1[i].tid != l1[j].tid
                && l1[i].sid != l1[j].sid by {
                if j == l1.len() - 1 {
                    assert(l1[i] == l0[i + 1] && l0[0].tid == c1.tid && l0[0].sid == c1.sid);
                }
            }
            assert forall|t: usize| self.live_tid(t) == old(self).live_tid(t) by {
                if self.live_tid(t) {
                    let i = choose|i: int| 0 <= i < l1.len() && (#[trigger] l1[i]).tid == t;
                    if i == l1.len() - 1 {
                        assert(l0[0].tid == t);
                    } else {
                        assert(l0[i + 1].tid == t);
                    }
                    assert(old(self).live_tid(t));
                }
                if old(self).live_tid(t) {
                    let i = choose|i: int| 0 <= i < l0.len() && (#[trigger] l0[i]).tid == t;
                    if i == 0 {
                        assert(l1[l1.len() - 1].tid == t);
                    } else {
                        assert(l1[i - 1].tid == t);
                    }
                    assert(self.live_tid(t));
                }
            }
        }
        let cpu = self.cswitch();
        proof {
            let n = old(self).queue@.len() as int;
            if n > 0 {
                assert(final(self).queue@.subrange(0, n - 1) =~= old(self).queue@.subrange(1, n));
            }
            assert(tids_of(final(self).queue@) =~= yield_step_tids(
                tids_of(old(self).queue@),
                old(self).current_thread.unwrap().tid,
            ).0);
        }
        cpu
    }

    /// Discards the running thread — its register state is irrelevant now —
    /// releases its stack slot back to the pool, and switches to the next
    /// runnable thread. Its identifier is retired and never names a live
    /// thread again. Calling this with no running thread, or with nothing
    /// left to run, is fatal.
    pub fn cleanup(&mut self, pool: &mut StackPool) -> (cpu: Cpu)
        requires
            old(self).wf(),
            old(self).owns(*old(pool)),
            old(self).current_thread is Some,
            old(self).queue@.len() > 0,
        ensures
            final(self).wf(),
            final(self).owns(*final(pool)),
            final(self).next_tid == old(self).next_tid,
            final(self).current_thread == Some(old(self).queue@[0]),
            final(self).queue@ == old(self).queue@.subrange(1, old(self).queue@.len() as int),
            final(pool).free@ == old(pool).free@.update(
                old(self).current_thread.unwrap().sid as int,
                true,
            ),
            final(pool).capacity() == old(pool).capacity(),
            cpu@ == spec_load(old(self).queue@[0].regs@),
            cpu.wf(),
            final(self).retired(old(self).current_thread.unwrap().tid),
            forall|t: usize| old(self).retired(t) ==> final(self).retired(t),
            forall|t: usize| final(self).live_tid(t) ==> old(self).live_tid(t),
    {
        let c = self.current_thread.take().unwrap();
        proof {
            let l0 = old(self).live();
            assert(self.live() =~= l0.subrange(1, l0.len() as int));
            assert(forall|i: int| 0 <= i < self.live().len() ==> self.live()[i] == l0[i + 1]);
            assert(!old(pool).slot_free(l0[0].sid as int));
            assert(l0[0].wf());
        }
        let fr = pool.stack_free(c.sid);
        proof {
            assert(fr is Ok);
        }
        let cpu = self.cswitch();
        proof {
            let l0 = old(self).live();
            let l2 = final(self).live();
            assert(forall|i: int| 0 <= i < l2.len() ==> l2[i] == l0[i + 1]);
            let ct = old(self).current_thread.unwrap().tid;
            assert forall|t: usize| final(self).live_tid(t) implies old(self).live_tid(t) by {
                let i = choose|i: int| 0 <= i < l2.len() && (#[trigger] l2[i]).tid == t;
                assert(l0[i + 1].tid == t);
            }
            assert(!final(self).live_tid(ct)) by {
                if final(self).live_tid(ct) {
                    let i = choose|i: int| 0 <= i < l2.len() && (#[trigger] l2[i]).tid == ct;
                    assert(l0[i + 1].tid == ct && l0[0].tid == ct);
                }
            }
            assert forall|i: int|
                0 <= i < l2.len() implies !final(pool).slot_free(
                (#[trigger] l2[i]).sid as int,
            ) by {
                assert(l2[i] == l0[i + 1]);
                assert(l0[0].sid != l0[i + 1].sid);
            }
        }
        cpu
    }
}

/// A step of the round-robin rotation over thread identifiers: the running
/// identifier goes to the tail and the head identifier starts running.
pub open spec fn yield_step_tids(qt: Seq<usize>, ct: usize) -> (Seq<usize>, usize) {
    let q1 = qt.push(ct);
    (q1.subrange(1, q1.len() as int), q1[0])
}

/// `k` rounds of the round-robin rotation.
pub open spec fn yield_steps_tids(qt: Seq<usize>, ct: usize, k: nat) -> (Seq<usize>, usize)
    decreases k,
{
    if k == 0 {
        (qt, ct)
    } else {
        let s = yield_step_tids(qt, ct);
        yield_steps_tids(s.0, s.1, (k - 1) as nat)
    }
}

/// Round-robin order is strict FIFO: with ready identifiers `qt` behind the
/// running identifier `ct`, after `k` yields the running identifier is the
/// `k`-th of the original order and the ready queue is that order rotated
/// past it. In particular, after as many yields as there are other threads,
/// the one placed last by the yield ordering is the one running.
pub proof fn lemma_round_robin(qt: Seq<usize>, ct: usize, k: nat)
    requires
        k <= qt.len(),
    ensures
        yield_steps_tids(qt, ct, k).1 == (seq![ct] + qt)[k as int],
        yield_steps_tids(qt, ct, k).0 == (seq![ct] + qt).subrange(
            k as int + 1,
            qt.len() as int + 1,
        ) + (seq![ct] + qt).subrange(0, k as int),
    decreases k,
{
    let o = seq![ct] + qt;
    let n = o.len() as int;
    if k == 0 {
        assert(yield_steps_tids(qt, ct, 0).0 =~= o.subrange(1, n) + o.subrange(0, 0));
    } else {
        let s = yield_step_tids(qt, ct);
        lemma_round_robin(s.0, s.1, (k - 1) as nat);
        let o1 = seq![s.1] + s.0;
        assert(o1 =~= o.subrange(1, n) + o.subrange(0, 1));
        assert(forall|i: int| 0 <= i < n - 1 ==> o1[i] == o[i + 1]);
        assert(o1[n - 1] == o[0]);
        assert(yield_steps_tids(qt, ct, k).1 == yield_steps_tids(s.0, s.1, (k - 1) as nat).1);
        assert(o1[k - 1] == o[k as int]);
        assert(yield_steps_tids(s.0, s.1, (k - 1) as nat).0 == o1.subrange(k as int, n)
            + o1.subrange(0, k - 1));
        assert(o1.subrange(k as int, n) =~= o.subrange(k as int + 1, n) + o.subrange(0, 1));
        assert(o1.subrange(0, k - 1) =~= o.subrange(1, k as int));
        assert(o1.subrange(k as int, n) + o1.subrange(0, k - 1) =~= o.subrange(k as int + 1, n)
            + o.subrange(0, k as int));
    }
}

/// A retired identifier names no thread on the ready queue: a later pop can
/// never return it.
pub proof fn lemma_retired_not_queued(q: TQueue, t: usize)
    requires
        q.retired(t),
    ensures
        forall|i: int| 0 <= i < q.queue@.len() ==> (#[trigger] q.queue@[i]).tid != t,
{
    assert forall|i: int| 0 <= i < q.queue@.len() implies (#[trigger] q.queue@[i]).tid != t by {
        match q.current_thread {
            Some(_) => {
                assert(q.live()[i + 1] == q.queue@[i]);
            },
            None => {
                assert(q.live()[i] == q.queue@[i]);
            },
        }
    }
}

/// The count of live threads — ready plus running — never exceeds the
/// stack-pool capacity: each holds a distinct slot of the pool.
pub proof fn lemma_live_bounded(q: TQueue, pool: StackPool)
    requires
        q.wf(),
        q.owns(pool),
    ensures
        q.live().len() <= pool.capacity(),
{
    let l = q.live();
    let sids = Seq::new(l.len(), |i: int| l[i].sid as int);
    assert(sids.no_duplicates());
    sids.unique_seq_to_set();
    assert(sids.to_set().subset_of(set_int_range(0, MAX_THREADS as int)));
    lemma_int_range(0, MAX_THREADS as int);
    lemma_len_subset(sids.to_set(), set_int_range(0, MAX_THREADS as int));
}

/// A register file of zeroes: the buffer a yielding thread captures into.
pub open spec fn zero_regs() -> Seq<u32> {
    Seq::new(NUM_REGS as nat, |i: int| 0u32)
}

/// The register-file snapshot `yield_thread` stores for the calling context.
pub open spec fn spec_snapshot(cpu: CpuModel) -> Seq<u32> {
    spec_save(cpu, zero_regs())
}

/// Called by the running thread to save its context and hand the processor
/// over: the snapshot goes to the tail of the queue and the head thread's
/// context comes back, loaded and ready to resume. With no other thread
/// ready, the caller's own snapshot is reloaded and — by the save/load
/// round trip — the very context it saved comes back. The capture here uses
/// no stack of its own, so the snapshot's stack pointer needs no
/// compensation for a save frame.
pub fn yield_thread(q: &mut TQueue, cpu: &Cpu) -> (next: Cpu)
    requires
        cpu.wf(),
        old(q).wf(),
        old(q).current_thread is Some,
    ensures
        final(q).wf(),
        final(q).next_tid == old(q).next_tid,
        final(q).current_thread is Some,
        next.wf(),
        forall|t: usize| final(q).live_tid(t) == old(q).live_tid(t),
        ({
            let c = old(q).current_thread.unwrap();
            let n = old(q).queue@.len() as int;
            &&& (n > 0 ==> {
                &&& final(q).current_thread == Some(old(q).queue@[0])
                &&& final(q).queue@.len() == n
                &&& final(q).queue@.last().tid == c.tid
                &&& final(q).queue@.last().sid == c.sid
                &&& final(q).queue@.last().regs@ == spec_snapshot(cpu@)
                &&& next@ == spec_load(old(q).queue@[0].regs@)
            })
            &&& (n == 0 ==> {
                &&& final(q).queue@.len() == 0
                &&& final(q).current_thread.unwrap().tid == c.tid
                &&& final(q).current_thread.unwrap().regs@ == spec_snapshot(cpu@)
                &&& next@ == cpu@
            })
        }),
{
    let mut saved: Vec<u32> = Vec::new();
    let mut i: usize = 0;
    while i < NUM_REGS
        invariant
            i <= NUM_REGS,
            saved@.len() == i,
            forall|j: int| 0 <= j < i ==> saved@[j] == 0u32,
        decreases NUM_REGS - i,
    {
        saved.push(0);
        i += 1;
    }
    proof {
        assert(saved@ =~= zero_regs());
    }
    save_registers(cpu, &mut saved);
    proof {
        if old(q).queue@.len() == 0 {
            lemma_save_load_roundtrip(cpu@, zero_regs());
        }
    }
    q.wake(saved)
}

/// Called by a terminating thread: its control block is discarded, its stack
/// slot returns to the pool, and the next runnable thread's context is
/// loaded. On a real board this call never returns to its caller.
pub fn exit_thread(q: &mut TQueue, pool: &mut StackPool) -> (next: Cpu)
    requires
        old(q).wf(),
        old(q).owns(*old(pool)),
        old(q).current_thread is Some,
        old(q).queue@.len() > 0,
    ensures
        final(q).wf(),
        final(q).owns(*final(pool)),
        final(q).next_tid == old(q).next_tid,
        final(q).current_thread == Some(old(q).queue@[0]),
        final(q).queue@ == old(q).queue@.subrange(1, old(q).queue@.len() as int),
        final(pool).free@ == old(pool).free@.update(
            old(q).current_thread.unwrap().sid as int,
            true,
        ),
        next@ == spec_load(old(q).queue@[0].regs@),
        next.wf(),
        final(q).retired(old(q).current_thread.unwrap().tid),
        forall|t: usize| old(q).retired(t) ==> final(q).retired(t),
{
    q.cleanup(pool)
}

/// The register file a fresh thread starts from: the argument register holds
/// `args`, the stack pointer the top of its private stack, the link register
/// the entry address `func` (resuming it the first time "returns" into the
/// function), the status word the unprivileged enabled encoding, and every
/// other word zero.
pub open spec fn spec_initial_regs(func: u32, args: u32, sp: u32) -> Seq<u32> {
    Seq::new(
        NUM_REGS as nat,
        |i: int|
            if i == REG_ARG {
                args
            } else if i == REG_SP {
                sp
            } else if i == REG_LR {
                func
            } else if i == REG_CPSR {
                MODE_USER
            } else {
                0u32
            },
    )
}

/// Builds the initial register file for a thread entering at `func` with
/// argument `args` and a stack topped at `sp`.
pub fn initial_regs(func: u32, args: u32, sp: u32) -> (r: Vec<u32>)
    ensures
        r@ == spec_initial_regs(func, args, sp),
        regfile_wf(r@),
{
    let mut r: Vec<u32> = Vec::new();
    let mut i: usize = 0;
    while i < NUM_REGS
        invariant
            i <= NUM_REGS,
            r@.len() == i,
            forall|j: int| 0 <= j < i ==> r@[j] == 0u32,
        decreases NUM_REGS - i,
    {
        r.push(0);
        i += 1;
    }
    r.set(REG_ARG, args);
    r.set(REG_SP, sp);
    r.set(REG_LR, func);
    r.set(REG_CPSR, MODE_USER);
    proof {
        assert(r@ =~= spec_initial_regs(func, args, sp));
    }
    r
}

} // verus!
