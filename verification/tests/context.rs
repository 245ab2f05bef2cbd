use rusty_pi::context::{
    load_registers, save_registers, switch_to_scheduler, Cpu, MODE_SVC, NUM_REGS, REG_CPSR,
    REG_LR, REG_PC, REG_SP,
};
use rusty_pi::interrupts::interrupt_handler;
use rusty_pi::gpio::GpioState;
use rusty_pi::interrupts::IntState;
use rusty_pi::threads::TQueue;
use rusty_pi::tstack::{StackPool, MAX_THREADS};
use rusty_pi::uart::UartState;

fn distinct_cpu() -> Cpu {
    Cpu { gp: (1..14).collect(), sp: 0x8000, lr: 0x1060, cpsr: 0x6000_0010 }
}

#[test]
fn test_save_load_roundtrip() {
    // save followed by load on the same buffer restores every register
    let cpu = distinct_cpu();
    let mut buf = vec![0u32; NUM_REGS];
    save_registers(&cpu, &mut buf);
    let restored = load_registers(&buf);
    assert_eq!(restored.gp, cpu.gp);
    assert_eq!(restored.sp, cpu.sp);
    assert_eq!(restored.lr, cpu.lr);
    assert_eq!(restored.cpsr, cpu.cpsr);
}

#[test]
fn test_save_layout() {
    let cpu = distinct_cpu();
    let mut buf = vec![0xAAu32; NUM_REGS];
    save_registers(&cpu, &mut buf);
    for i in 0..13 {
        assert_eq!(buf[i], cpu.gp[i]);
    }
    assert_eq!(buf[REG_SP], cpu.sp);
    assert_eq!(buf[REG_LR], cpu.lr);
    // the reserved program-counter word is never written by save
    assert_eq!(buf[REG_PC], 0xAA);
    assert_eq!(buf[REG_CPSR], cpu.cpsr);
}

#[test]
fn test_load_save_roundtrip() {
    let file: Vec<u32> = (21..38).collect();
    let cpu = load_registers(&file);
    let mut buf = file.clone();
    save_registers(&cpu, &mut buf);
    assert_eq!(buf, file);
}

#[test]
fn test_switch_to_scheduler_cpsr() {
    // mode becomes supervisor, IRQ is masked, the flag bits survive
    assert_eq!(switch_to_scheduler(0x6000_0010), 0x6000_0093);
    assert_eq!(switch_to_scheduler(0x0000_0093), 0x0000_0093);
    assert_eq!(MODE_SVC, 0x13);
}

#[test]
fn test_interrupt_handler_resumes_transparently() {
    let mut g = GpioState::reset();
    let mut ints = IntState::reset();
    let mut u = UartState::off();
    let mut q = TQueue::init();
    let mut pool = StackPool::new(MAX_THREADS);
    let trapped = distinct_cpu();
    let resumed = interrupt_handler(&trapped, &mut g, &mut ints, &mut u, &mut q, &mut pool);
    assert_eq!(resumed.gp, trapped.gp);
    assert_eq!(resumed.sp, trapped.sp);
    assert_eq!(resumed.cpsr, trapped.cpsr);
    // the saved return address is wound back to the instruction to retry
    assert_eq!(resumed.lr, trapped.lr - 4);
}
