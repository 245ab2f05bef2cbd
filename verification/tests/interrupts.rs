use rusty_pi::context::MODE_SVC;
use rusty_pi::gpio::{gpio_read, GpioState};
use rusty_pi::interrupts::{
    disable_interrupts, enable_interrupts, gpio_event_clear, gpio_event_detected,
    gpio_rising_edge_init, interrupt_init, interrupt_vector, rx_irq_init, signal_rising_edge,
    vector_table, IntState, ACTIVITY_PIN, EVENT_PIN, GREEN_PIN, IRQ_SLOT, RED_PIN,
    VECTOR_ENTRIES,
};
use rusty_pi::threads::TQueue;
use rusty_pi::tstack::{StackPool, MAX_THREADS};
use rusty_pi::uart::UartState;
use rusty_pi::user::THREAD_C_ENTRY;

const SVC_CPSR: u32 = MODE_SVC;

#[test]
fn test_enable_disable_interrupts() {
    let masked = disable_interrupts(SVC_CPSR);
    assert_eq!(masked, SVC_CPSR | 0x80);
    let unmasked = enable_interrupts(masked);
    assert_eq!(unmasked, SVC_CPSR);
}

#[test]
fn test_interrupt_init_masks_and_installs() {
    let mut ints = IntState::reset();
    ints.irq_enable_1 = 0xFFFF_FFFF;
    ints.irq_enable_2 = 0xFFFF_FFFF;
    let cpsr = interrupt_init(&mut ints, SVC_CPSR, 0x4000);
    assert_eq!(cpsr, SVC_CPSR | 0x80);
    assert_eq!(ints.irq_enable_1, 0);
    assert_eq!(ints.irq_enable_2, 0);
    assert_eq!(ints.vector_base, 0x4000);
    // installing the identical base again is a no-op
    let _ = interrupt_init(&mut ints, SVC_CPSR, 0x4000);
    assert_eq!(ints.vector_base, 0x4000);
}

#[test]
fn test_rising_edge_config_touches_only_its_bits() {
    let mut ints = IntState::reset();
    ints.gpren0 = 0x0000_0101;
    ints.gpeds0 = 0x0000_0040;
    gpio_rising_edge_init(&mut ints, EVENT_PIN);
    assert_eq!(ints.gpren0, 0x0000_0101 | (1 << EVENT_PIN));
    assert_eq!(ints.irq_enable_2, 1 << 17);
    assert_eq!(ints.gpeds0, 0x0000_0040);
    // out-of-range pins never touch the hardware
    let before = ints.gpren0;
    gpio_rising_edge_init(&mut ints, 32);
    assert_eq!(ints.gpren0, before);
}

#[test]
fn test_event_latch_and_clear() {
    let mut g = GpioState::reset();
    let mut ints = IntState::reset();
    gpio_rising_edge_init(&mut ints, EVENT_PIN);
    gpio_rising_edge_init(&mut ints, 7);
    assert!(!gpio_event_detected(&ints, EVENT_PIN));
    signal_rising_edge(&mut g, &mut ints, EVENT_PIN);
    signal_rising_edge(&mut g, &mut ints, 7);
    assert!(gpio_event_detected(&ints, EVENT_PIN));
    assert!(gpio_event_detected(&ints, 7));
    gpio_event_clear(&mut ints, EVENT_PIN);
    assert!(!gpio_event_detected(&ints, EVENT_PIN));
    // clearing one pin's event leaves every other pin's event alone
    assert!(gpio_event_detected(&ints, 7));
}

#[test]
fn test_edge_not_latched_without_enable() {
    let mut g = GpioState::reset();
    let mut ints = IntState::reset();
    signal_rising_edge(&mut g, &mut ints, EVENT_PIN);
    assert!(!gpio_event_detected(&ints, EVENT_PIN));
    assert_eq!(gpio_read(&g, EVENT_PIN), 1);
}

#[test]
fn test_event_queries_out_of_range() {
    let mut ints = IntState::reset();
    ints.gpeds0 = 0xFFFF_FFFF;
    assert!(!gpio_event_detected(&ints, 40));
    let before = ints.gpeds0;
    gpio_event_clear(&mut ints, 40);
    assert_eq!(ints.gpeds0, before);
}

#[test]
fn test_dispatch_spurious_leaves_activity_pin() {
    let mut g = GpioState::reset();
    let mut ints = IntState::reset();
    let mut u = UartState::off();
    let mut q = TQueue::init();
    let mut pool = StackPool::new(MAX_THREADS);
    u.rx = vec![b'g'];
    interrupt_vector(&mut g, &mut ints, &mut u, &mut q, &mut pool);
    // no event was latched: the input stays queued, nothing is echoed,
    // and the activity pin is left driven high
    assert_eq!(u.rx, vec![b'g']);
    assert!(u.tx.is_empty());
    assert_eq!(gpio_read(&g, ACTIVITY_PIN), 1);
    assert_eq!(q.queue.len(), 0);
}

#[test]
fn test_dispatch_echoes_toggles_and_spawns() {
    let mut g = GpioState::reset();
    let mut ints = IntState::reset();
    let mut u = UartState::off();
    let mut q = TQueue::init();
    let mut pool = StackPool::new(MAX_THREADS);
    gpio_rising_edge_init(&mut ints, EVENT_PIN);
    signal_rising_edge(&mut g, &mut ints, EVENT_PIN);
    u.rx = vec![b'g', b'r', b'3', b'g', b'x'];
    interrupt_vector(&mut g, &mut ints, &mut u, &mut q, &mut pool);
    // every byte is echoed, in order
    assert_eq!(u.tx, vec![b'g', b'r', b'3', b'g', b'x']);
    assert!(u.rx.is_empty());
    // 'g' came twice: the green pin is back at its old level; 'r' once
    assert_eq!(gpio_read(&g, GREEN_PIN), 0);
    assert_eq!(gpio_read(&g, RED_PIN), 1);
    // the digit key forked one printer thread with the digit as argument
    assert_eq!(q.queue.len(), 1);
    assert_eq!(q.queue[0].tid, 0);
    assert_eq!(q.queue[0].regs[0], 3);
    assert_eq!(q.queue[0].regs[14], THREAD_C_ENTRY);
    // the event is acknowledged and the activity pin dropped
    assert!(!gpio_event_detected(&ints, EVENT_PIN));
    assert_eq!(gpio_read(&g, ACTIVITY_PIN), 0);
}

#[test]
fn test_dispatch_spawn_stops_at_exhaustion() {
    let mut g = GpioState::reset();
    let mut ints = IntState::reset();
    let mut u = UartState::off();
    let mut q = TQueue::init();
    let mut pool = StackPool::new(MAX_THREADS);
    gpio_rising_edge_init(&mut ints, EVENT_PIN);
    signal_rising_edge(&mut g, &mut ints, EVENT_PIN);
    u.rx = (0..12).map(|i| b'0' + (i % 10)).collect();
    interrupt_vector(&mut g, &mut ints, &mut u, &mut q, &mut pool);
    // only as many threads as the pool has slots; the rest are echoed only
    assert_eq!(q.queue.len(), MAX_THREADS);
    assert_eq!(u.tx.len(), 12);
    assert!(pool.free.iter().all(|f| !*f));
}

#[test]
fn test_vector_table_layout() {
    let t = vector_table(0x1000, 0x2000);
    assert_eq!(t.len(), VECTOR_ENTRIES);
    for (i, entry) in t.iter().enumerate() {
        if i == IRQ_SLOT {
            assert_eq!(*entry, 0x1000);
        } else {
            assert_eq!(*entry, 0x2000);
        }
    }
}

#[test]
fn test_rx_irq_init() {
    let mut ints = IntState::reset();
    rx_irq_init(&mut ints);
    assert_eq!(ints.irq_enable_1, 1 << 29);
    assert_eq!(ints.aux_ier, 0b10);
    assert_eq!(ints.aux_iir, 0b10);
}
