use rusty_pi::context::{Cpu, MODE_USER, NUM_REGS, REG_ARG, REG_CPSR, REG_LR, REG_PC, REG_SP};
use rusty_pi::threads::{initial_regs, yield_thread, exit_thread, TQueue};
use rusty_pi::tstack::{stack_top, StackPool, MAX_THREADS};

fn fresh_kernel() -> (TQueue, StackPool) {
    (TQueue::init(), StackPool::new(MAX_THREADS))
}

fn some_cpu() -> Cpu {
    Cpu { gp: (100..113).collect(), sp: 0x7000, lr: 0x1234, cpsr: MODE_USER }
}

#[test]
fn test_fork_assigns_ids_and_slots() {
    let (mut q, mut pool) = fresh_kernel();
    assert_eq!(q.fork(&mut pool, 0x9000, 7), Some((0, 0)));
    assert_eq!(q.fork(&mut pool, 0x9100, 8), Some((1, 1)));
    assert_eq!(q.queue.len(), 2);
    let t0 = &q.queue[0];
    assert_eq!(t0.tid, 0);
    assert_eq!(t0.sid, 0);
    assert_eq!(t0.regs.len(), NUM_REGS);
    assert_eq!(t0.regs[REG_ARG], 7);
    assert_eq!(t0.regs[REG_SP], stack_top(0));
    assert_eq!(t0.regs[REG_LR], 0x9000);
    assert_eq!(t0.regs[REG_PC], 0);
    assert_eq!(t0.regs[REG_CPSR], MODE_USER);
}

#[test]
fn test_initial_regs_layout() {
    let r = initial_regs(0xABCD, 42, 0x2_4000);
    assert_eq!(r.len(), NUM_REGS);
    assert_eq!(r[REG_ARG], 42);
    for i in 1..13 {
        assert_eq!(r[i], 0);
    }
    assert_eq!(r[REG_SP], 0x2_4000);
    assert_eq!(r[REG_LR], 0xABCD);
    assert_eq!(r[REG_PC], 0);
    assert_eq!(r[REG_CPSR], MODE_USER);
}

#[test]
fn test_round_robin_fifo() {
    // N forks followed by N-1 yields: the thread the yield ordering placed
    // last is the one left running.
    let n = 4usize;
    let (mut q, mut pool) = fresh_kernel();
    for i in 0..n {
        assert!(q.fork(&mut pool, 0x9000, i as u32).is_some());
    }
    let _cpu = q.cswitch();
    assert_eq!(q.current_thread.as_ref().unwrap().tid, 0);
    for k in 1..n {
        let _cpu = q.wake(vec![0; NUM_REGS]);
        assert_eq!(q.current_thread.as_ref().unwrap().tid, k);
    }
    // one more yield wraps round to the first thread
    let _cpu = q.wake(vec![0; NUM_REGS]);
    assert_eq!(q.current_thread.as_ref().unwrap().tid, 0);
}

#[test]
fn test_exited_tid_never_pops_again() {
    let (mut q, mut pool) = fresh_kernel();
    for i in 0..3 {
        assert!(q.fork(&mut pool, 0x9000, i).is_some());
    }
    let _ = q.cswitch();
    assert_eq!(q.current_thread.as_ref().unwrap().tid, 0);
    let _ = exit_thread(&mut q, &mut pool);
    // cycle through every remaining thread twice: tid 0 never reappears
    for _ in 0..4 {
        assert_ne!(q.current_thread.as_ref().unwrap().tid, 0);
        for t in &q.queue {
            assert_ne!(t.tid, 0);
        }
        let _ = q.wake(vec![0; NUM_REGS]);
    }
    // its stack slot is free again and the next fork reuses it with a new id
    assert_eq!(q.fork(&mut pool, 0x9000, 9), Some((3, 0)));
}

#[test]
fn test_yield_single_thread_resumes_same_context() {
    let (mut q, mut pool) = fresh_kernel();
    assert!(q.fork(&mut pool, 0x9000, 0).is_some());
    let _ = q.cswitch();
    let cpu = some_cpu();
    let next = yield_thread(&mut q, &cpu);
    assert_eq!(next.gp, cpu.gp);
    assert_eq!(next.sp, cpu.sp);
    assert_eq!(next.lr, cpu.lr);
    assert_eq!(next.cpsr, cpu.cpsr);
}

#[test]
fn test_printer_interleaving() {
    // Thread A prints "A" and yields, for ever; thread B prints "B" three
    // times and exits. Observed output: A,B,A,B,A,B, then A alone.
    let (mut q, mut pool) = fresh_kernel();
    let (a_tid, _) = q.fork(&mut pool, 0x9000, 0).unwrap();
    let (b_tid, _) = q.fork(&mut pool, 0x9100, 0).unwrap();
    let _ = q.cswitch();
    let mut output = String::new();
    let mut b_prints = 0;
    for _ in 0..10 {
        let cur = q.current_thread.as_ref().unwrap().tid;
        if cur == a_tid {
            output.push('A');
            let _ = q.wake(vec![0; NUM_REGS]);
        } else {
            assert_eq!(cur, b_tid);
            output.push('B');
            b_prints += 1;
            if b_prints == 3 {
                let _ = exit_thread(&mut q, &mut pool);
            } else {
                let _ = q.wake(vec![0; NUM_REGS]);
            }
        }
    }
    assert_eq!(output, "ABABABAAAA");
}

#[test]
fn test_fork_exhaustion_keeps_queue_intact() {
    let (mut q, mut pool) = fresh_kernel();
    for i in 0..MAX_THREADS {
        assert_eq!(q.fork(&mut pool, 0x9000, 0), Some((i, i)));
    }
    // the pool is full: forking fails softly and corrupts nothing
    assert_eq!(q.fork(&mut pool, 0x9000, 0), None);
    assert_eq!(q.queue.len(), MAX_THREADS);
    for (i, t) in q.queue.iter().enumerate() {
        assert_eq!(t.tid, i);
        assert_eq!(t.sid, i);
    }
    // subsequent legitimate operations still behave correctly
    let _ = q.cswitch();
    assert_eq!(q.current_thread.as_ref().unwrap().tid, 0);
    let _ = q.wake(vec![0; NUM_REGS]);
    assert_eq!(q.current_thread.as_ref().unwrap().tid, 1);
    let _ = exit_thread(&mut q, &mut pool);
    assert_eq!(q.fork(&mut pool, 0x9000, 0), Some((MAX_THREADS, 1)));
}
