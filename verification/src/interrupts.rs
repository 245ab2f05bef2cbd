//! Handling of GPIO (and mini-UART RX) interrupts.
//!
//! The interrupt controller is carried as explicit registers: two source
//! enable words, the GPIO rising-edge detect enable and latched event words
//! for the first pin bank, the vector base, and the mini-UART interrupt
//! registers. The vector table itself is fixed at boot: eight trap entries,
//! all fatal except the IRQ slot, which targets the dispatch trampoline —
//! installing its base a second time with a different address is a fatal
//! configuration error, and the contracts below rule it out.

use vstd::prelude::*;

use crate::bits::{bit_clr, bit_is_set, bit_set, spec_bit};
use crate::context::{load_registers, save_registers, Cpu, IRQ_MASK_BIT, REG_LR};
use crate::gpio::{gpio_set_off, gpio_set_on, gpio_toggle, spec_level, GpioState};
use crate::threads::TQueue;
use crate::tstack::StackPool;
use crate::uart::{uart_get8, uart_has_data, uart_put8, UartState};
use crate::user::THREAD_C_ENTRY;

verus! {

/// Interrupt-controller line of the first GPIO pin bank (second enable word).
pub const GPIO_IRQ_LINE: u8 = 17;

/// Interrupt-controller line of the mini-UART (first enable word).
pub const AUX_IRQ: u8 = 29;

/// The input pin whose rising edge the dispatch routine watches.
pub const EVENT_PIN: u8 = 21;

/// The activity pin the dispatch routine drives while it runs.
pub const ACTIVITY_PIN: u8 = 5;

/// The pin toggled by the green key.
pub const GREEN_PIN: u8 = 20;

/// The pin toggled by the red key.
pub const RED_PIN: u8 = 25;

/// The key that toggles the green pin.
pub const KEY_GREEN: u8 = 0x67;

/// The key that toggles the red pin.
pub const KEY_RED: u8 = 0x72;

/// Trap entries in the exception vector table.
pub const VECTOR_ENTRIES: usize = 8;

/// Index of the IRQ entry in the vector table.
pub const IRQ_SLOT: usize = 6;

/// Builds the fixed vector table the hardware trap mechanism expects: eight
/// entries — reset, undefined instruction, software interrupt, prefetch
/// abort, data abort, reserved, IRQ, FIQ — every one the fatal handler's
/// address except the IRQ slot, which targets the dispatch trampoline.
pub fn vector_table(irq_entry: u32, fatal_entry: u32) -> (t: Vec<u32>)
    ensures
        t@.len() == VECTOR_ENTRIES,
        t@[IRQ_SLOT as int] == irq_entry,
        forall|i: int| 0 <= i < VECTOR_ENTRIES && i != IRQ_SLOT ==> t@[i] == fatal_entry,
{
    let mut t: Vec<u32> = Vec::new();
    let mut i: usize = 0;
    while i < VECTOR_ENTRIES
        invariant
            i <= VECTOR_ENTRIES,
            t@.len() == i,
            forall|j: int| 0 <= j < i && j != IRQ_SLOT ==> t@[j] == fatal_entry,
            i > IRQ_SLOT ==> t@[IRQ_SLOT as int] == irq_entry,
        decreases VECTOR_ENTRIES - i,
    {
        if i == IRQ_SLOT {
            t.push(irq_entry);
        } else {
            t.push(fatal_entry);
        }
        i += 1;
    }
    t
}

/// The interrupt subsystem's registers.
pub struct IntState {
    pub irq_enable_1: u32,
    pub irq_enable_2: u32,
    pub gpren0: u32,
    pub gpeds0: u32,
    pub vector_base: u32,
    pub aux_ier: u32,
    pub aux_iir: u32,
}

impl IntState {
    /// The controller as the hardware leaves it at reset: nothing enabled,
    /// nothing latched, no vector base installed.
    pub fn reset() -> (r: IntState)
        ensures
            r.irq_enable_1 == 0 && r.irq_enable_2 == 0,
            r.gpren0 == 0 && r.gpeds0 == 0,
            r.vector_base == 0,
    {
        IntState {
            irq_enable_1: 0,
            irq_enable_2: 0,
            gpren0: 0,
            gpeds0: 0,
            vector_base: 0,
            aux_ier: 0,
            aux_iir: 0,
        }
    }
}

/// Enables IRQ: clears the interrupt mask bit of the status word. The caller
/// must already be in a privileged mode.
pub fn enable_interrupts(cpsr: u32) -> (r: u32)
    requires
        crate::bits::spec_field(cpsr, 4, 0) != crate::context::MODE_USER,
    ensures
        r == (cpsr & !(1u32 << 7)),
        !spec_bit(r, IRQ_MASK_BIT),
        forall|j: u8| j < 32 && j != IRQ_MASK_BIT ==> spec_bit(r, j) == spec_bit(cpsr, j),
{
    bit_clr(cpsr, IRQ_MASK_BIT)
}

/// Disables IRQ: sets the interrupt mask bit of the status word. The caller
/// must already be in a privileged mode.
pub fn disable_interrupts(cpsr: u32) -> (r: u32)
    requires
        crate::bits::spec_field(cpsr, 4, 0) != crate::context::MODE_USER,
    ensures
        r == (cpsr | (1u32 << 7)),
        spec_bit(r, IRQ_MASK_BIT),
        forall|j: u8| j < 32 && j != IRQ_MASK_BIT ==> spec_bit(r, j) == spec_bit(cpsr, j),
{
    bit_set(cpsr, IRQ_MASK_BIT)
}

/// A vector base the hardware accepts: not null, aligned to the table.
pub open spec fn spec_vector_base_ok(v: u32) -> bool {
    v != 0 && v % 16 == 0
}

/// Returns whether `v` is a valid vector base (not null and well aligned).
fn vector_base_check(v: u32) -> (r: bool)
    ensures
        r == spec_vector_base_ok(v),
{
    (v != 0) && (v % 16 == 0)
}

/// Installs the vector base. Installing the address already installed is a
/// no-op; a null or misaligned address, or a second, different base, is a
/// fatal configuration error, so callers must rule both out.
fn vector_base_set(ints: &mut IntState, v: u32)
    requires
        spec_vector_base_ok(v),
        old(ints).vector_base == 0 || old(ints).vector_base == v,
    ensures
        final(ints).vector_base == v,
        final(ints).irq_enable_1 == old(ints).irq_enable_1,
        final(ints).irq_enable_2 == old(ints).irq_enable_2,
        final(ints).gpren0 == old(ints).gpren0,
        final(ints).gpeds0 == old(ints).gpeds0,
        final(ints).aux_ier == old(ints).aux_ier,
        final(ints).aux_iir == old(ints).aux_iir,
{
    let ok = vector_base_check(v);
    if ok {
        if ints.vector_base != v {
            ints.vector_base = v;
        }
    }
}

/// Initializes (but does not enable) interrupts: masks the interrupt line in
/// the returned status word, masks every individual source at the
/// controller, and installs the vector base exactly once. The caller must
/// be privileged, must pass a valid base, and must enable interrupts itself
/// once setup is complete.
pub fn interrupt_init(ints: &mut IntState, cpsr: u32, vector_base: u32) -> (r: u32)
    requires
        crate::bits::spec_field(cpsr, 4, 0) != crate::context::MODE_USER,
        spec_vector_base_ok(vector_base),
        old(ints).vector_base == 0 || old(ints).vector_base == vector_base,
    ensures
        r == (cpsr | (1u32 << 7)),
        spec_bit(r, IRQ_MASK_BIT),
        final(ints).irq_enable_1 == 0 && final(ints).irq_enable_2 == 0,
        final(ints).vector_base == vector_base,
        final(ints).gpren0 == old(ints).gpren0,
        final(ints).gpeds0 == old(ints).gpeds0,
{
    let r = disable_interrupts(cpsr);
    ints.irq_enable_1 = 0;
    ints.irq_enable_2 = 0;
    vector_base_set(ints, vector_base);
    r
}

/// Enables rising-edge detection for `pin` and unmasks the GPIO line at the
/// controller. Only the detect bit belonging to `pin` and the one fixed
/// controller line move; a pin outside the first bank is a silent no-op.
pub fn gpio_rising_edge_init(ints: &mut IntState, pin: u8)
    ensures
        pin >= 32 ==> *final(ints) == *old(ints),
        pin < 32 ==> {
            &&& spec_bit(final(ints).gpren0, pin)
            &&& forall|j: u8|
                j < 32 && j != pin ==> spec_bit(final(ints).gpren0, j) == spec_bit(
                    old(ints).gpren0,
                    j,
                )
            &&& spec_bit(final(ints).irq_enable_2, GPIO_IRQ_LINE)
            &&& forall|j: u8|
                j < 32 && j != GPIO_IRQ_LINE ==> spec_bit(final(ints).irq_enable_2, j) == spec_bit(
                    old(ints).irq_enable_2,
                    j,
                )
            &&& final(ints).irq_enable_1 == old(ints).irq_enable_1
            &&& final(ints).gpeds0 == old(ints).gpeds0
            &&& final(ints).vector_base == old(ints).vector_base
        },
{
    if pin >= 32 {
        return ;
    }
    ints.gpren0 = bit_set(ints.gpren0, pin);
    ints.irq_enable_2 = bit_set(ints.irq_enable_2, GPIO_IRQ_LINE);
}

/// Returns whether a GPIO edge event is latched for `pin`. A pin outside the
/// first bank reports no event.
pub fn gpio_event_detected(ints: &IntState, pin: u8) -> (r: bool)
    ensures
        pin >= 32 ==> !r,
        pin < 32 ==> r == spec_bit(ints.gpeds0, pin),
{
    if pin >= 32 {
        false
    } else {
        bit_is_set(ints.gpeds0, pin)
    }
}

/// Acknowledges the latched edge event of `pin`: only that pin's bit is
/// cleared, every other pin's latched event is untouched. A pin outside the
/// first bank is a silent no-op.
pub fn gpio_event_clear(ints: &mut IntState, pin: u8)
    ensures
        pin >= 32 ==> *final(ints) == *old(ints),
        pin < 32 ==> {
            &&& !spec_bit(final(ints).gpeds0, pin)
            &&& forall|j: u8|
                j < 32 && j != pin ==> spec_bit(final(ints).gpeds0, j) == spec_bit(
                    old(ints).gpeds0,
                    j,
                )
            &&& final(ints).gpeds0 == (old(ints).gpeds0 & !(1u32 << pin as u32))
            &&& final(ints).gpren0 == old(ints).gpren0
            &&& final(ints).irq_enable_1 == old(ints).irq_enable_1
            &&& final(ints).irq_enable_2 == old(ints).irq_enable_2
            &&& final(ints).vector_base == old(ints).vector_base
        },
{
    if pin >= 32 {
        return ;
    }
    ints.gpeds0 = bit_clr(ints.gpeds0, pin);
}

/// An external rising edge on `pin`: the line goes high, and the controller
/// latches the event iff rising-edge detection is enabled for that pin. This
/// is what the hardware does on its own; nothing else moves.
pub fn signal_rising_edge(g: &mut GpioState, ints: &mut IntState, pin: u8)
    requires
        pin < 32,
    ensures
        spec_level(*final(g), pin),
        final(g).fsel@ == old(g).fsel@,
        final(g).lev1 == old(g).lev1,
        forall|q: u8|
            q < 32 && q != pin ==> spec_level(*final(g), q) == spec_level(*old(g), q),
        spec_bit(old(ints).gpren0, pin) ==> {
            &&& spec_bit(final(ints).gpeds0, pin)
            &&& forall|j: u8|
                j < 32 && j != pin ==> spec_bit(final(ints).gpeds0, j) == spec_bit(
                    old(ints).gpeds0,
                    j,
                )
            &&& final(ints).gpren0 == old(ints).gpren0
            &&& final(ints).irq_enable_1 == old(ints).irq_enable_1
            &&& final(ints).irq_enable_2 == old(ints).irq_enable_2
            &&& final(ints).vector_base == old(ints).vector_base
        },
        !spec_bit(old(ints).gpren0, pin) ==> *final(ints) == *old(ints),
{
    gpio_set_on(g, pin);
    proof {
        assert forall|q: u8| q < 32 && q != pin implies spec_level(*g, q) == spec_level(
            *old(g),
            q,
        ) by {
            assert(crate::gpio::pin_valid(q));
        }
    }
    if bit_is_set(ints.gpren0, pin) {
        ints.gpeds0 = bit_set(ints.gpeds0, pin);
    }
}

/// True for the ASCII digit keys.
pub open spec fn is_digit_byte(b: u8) -> bool {
    48 <= b <= 57
}

/// The digit keys of `s`, in order.
pub open spec fn digits_of(s: Seq<u8>) -> Seq<u8>
    decreases s.len(),
{
    if s.len() == 0 {
        Seq::empty()
    } else if is_digit_byte(s.last()) {
        digits_of(s.drop_last()).push(s.last())
    } else {
        digits_of(s.drop_last())
    }
}

/// There are no more digit keys in a run than keys.
pub proof fn lemma_digits_len(s: Seq<u8>)
    ensures
        digits_of(s).len() <= s.len(),
    decreases s.len(),
{
    if s.len() > 0 {
        lemma_digits_len(s.drop_last());
    }
}

/// How many bytes of `s` equal `b`.
pub open spec fn count_in(s: Seq<u8>, b: u8) -> nat
    decreases s.len(),
{
    if s.len() == 0 {
        0
    } else {
        count_in(s.drop_last(), b) + if s.last() == b {
            1nat
        } else {
            0nat
        }
    }
}

/// The XOR mask a run of presses of `key` leaves on the level bit of `pin`:
/// an odd count flips it, an even count leaves it.
pub open spec fn key_mask(s: Seq<u8>, key: u8, pin: u8) -> u32 {
    if count_in(s, key) % 2 == 1 {
        1u32 << pin as u32
    } else {
        0u32
    }
}

/// How many of the digit keys of `rx` get a thread: every one of them, up to
/// the slots the pool still has.
pub open spec fn spec_spawn_count(rx: Seq<u8>, pool: StackPool) -> int {
    let ds = digits_of(rx);
    let room = pool.capacity() - pool.in_use();
    if ds.len() <= room {
        ds.len() as int
    } else {
        room
    }
}

/// What one run of the dispatch routine does to the board, given the bytes
/// `rx` that were pending on the UART. With no event latched for the watched
/// pin the interrupt is spurious: nothing moves but the activity pin, which
/// is left driven high. With the event latched, every pending byte is read
/// and echoed, the green and red keys toggle their pins, each digit key
/// forks a printer thread while the pool has room, the event is
/// acknowledged, and the activity pin ends low.
pub open spec fn spec_dispatch(
    g0: GpioState,
    g1: GpioState,
    i0: IntState,
    i1: IntState,
    u0: UartState,
    u1: UartState,
    q0: TQueue,
    q1: TQueue,
    p0: StackPool,
    p1: StackPool,
) -> bool {
    &&& g1.fsel@ == g0.fsel@
    &&& g1.lev1 == g0.lev1
    &&& u1.enabled == u0.enabled
    &&& q1.current_thread == q0.current_thread
    &&& p1.capacity() == p0.capacity()
    &&& if !spec_bit(i0.gpeds0, EVENT_PIN) {
        &&& g1.lev0 == (g0.lev0 | (1u32 << ACTIVITY_PIN as u32))
        &&& i1 == i0
        &&& u1 == u0
        &&& q1 == q0
        &&& p1 == p0
    } else {
        let rx = u0.rx@;
        let k = spec_spawn_count(rx, p0);
        &&& g1.lev0 == (((g0.lev0 | (1u32 << ACTIVITY_PIN as u32)) ^ key_mask(
            rx,
            KEY_GREEN,
            GREEN_PIN,
        ) ^ key_mask(rx, KEY_RED, RED_PIN)) & !(1u32 << ACTIVITY_PIN as u32))
        &&& i1.gpeds0 == (i0.gpeds0 & !(1u32 << EVENT_PIN as u32))
        &&& i1.gpren0 == i0.gpren0
        &&& i1.irq_enable_1 == i0.irq_enable_1
        &&& i1.irq_enable_2 == i0.irq_enable_2
        &&& i1.vector_base == i0.vector_base
        &&& u1.tx@ == u0.tx@ + rx
        &&& u1.rx@.len() == 0
        &&& q1.next_tid == q0.next_tid + k
        &&& q1.queue@.len() == q0.queue@.len() + k
        &&& q1.queue@.subrange(0, q0.queue@.len() as int) == q0.queue@
        &&& forall|i: int|
            0 <= i < k ==> {
                let t = #[trigger] q1.queue@[q0.queue@.len() + i];
                &&& t.tid == q0.next_tid + i
                &&& t.regs@.len() == crate::context::NUM_REGS
                &&& t.regs@[crate::context::REG_ARG as int] == (digits_of(rx)[i] - 48) as u32
                &&& t.regs@[REG_LR as int] == THREAD_C_ENTRY
            }
        &&& p1.in_use() == p0.in_use() + k
    }
}

/// The dispatch routine the IRQ trampoline calls. It drives the activity pin
/// high; a spurious interrupt — no event latched on the watched pin —
/// returns at once, leaving the activity pin high (this subsystem's explicit
/// choice). Otherwise it drains the UART's pending input, echoing every
/// byte, toggling the green or red pin for their keys and forking a printer
/// thread for each digit key while the stack pool has room, then
/// acknowledges the event and drops the activity pin.
pub fn interrupt_vector(
    g: &mut GpioState,
    ints: &mut IntState,
    u: &mut UartState,
    q: &mut TQueue,
    pool: &mut StackPool,
)
    requires
        old(q).wf(),
        old(q).owns(*old(pool)),
        old(q).next_tid + old(u).rx@.len() <= usize::MAX,
    ensures
        final(q).wf(),
        final(q).owns(*final(pool)),
        forall|t: usize| old(q).retired(t) ==> final(q).retired(t),
        spec_dispatch(
            *old(g),
            *final(g),
            *old(ints),
            *final(ints),
            *old(u),
            *final(u),
            *old(q),
            *final(q),
            *old(pool),
            *final(pool),
        ),
{
    gpio_set_on(g, ACTIVITY_PIN);
    if !gpio_event_detected(ints, EVENT_PIN) {
        return ;
    }
    let ghost rx0 = old(u).rx@;
    let ghost room = old(pool).capacity() - old(pool).in_use();
    let ghost mut p: Seq<u8> = Seq::empty();
    proof {
        crate::tstack::lemma_count_used_bounded(old(pool).free@);
        assert(rx0 =~= p + u.rx@);
        assert(u.tx@ =~= old(u).tx@ + p);
        assert(digits_of(p) =~= Seq::<u8>::empty());
        assert(key_mask(p, KEY_GREEN, GREEN_PIN) == 0 && key_mask(p, KEY_RED, RED_PIN) == 0);
        let base0 = old(g).lev0;
        assert(((base0 | (1u32 << 5)) ^ 0u32) ^ 0u32 == (base0 | (1u32 << 5))) by (bit_vector);
        assert(q.queue@.subrange(0, old(q).queue@.len() as int) =~= old(q).queue@);
    }
    let mut more = uart_has_data(u);
    while more
        invariant
            more == (u.rx@.len() > 0),
            rx0 == p + u.rx@,
            u.tx@ == old(u).tx@ + p,
            u.enabled == old(u).enabled,
            g.fsel@ == old(g).fsel@,
            g.lev1 == old(g).lev1,
            g.lev0 == ((old(g).lev0 | (1u32 << 5)) ^ key_mask(p, KEY_GREEN, GREEN_PIN) ^ key_mask(
                p,
                KEY_RED,
                RED_PIN,
            )),
            *ints == *old(ints),
            q.wf(),
            q.owns(*pool),
            q.current_thread == old(q).current_thread,
            pool.capacity() == old(pool).capacity(),
            forall|t: usize| old(q).retired(t) ==> q.retired(t),
            room == old(pool).capacity() - old(pool).in_use(),
            0 <= room,
            old(q).next_tid + rx0.len() <= usize::MAX,
            ({
                let dp = digits_of(p);
                let kp = if dp.len() <= room {
                    dp.len() as int
                } else {
                    room
                };
                &&& q.next_tid == old(q).next_tid + kp
                &&& pool.in_use() == old(pool).in_use() + kp
                &&& q.queue@.len() == old(q).queue@.len() + kp
                &&& q.queue@.subrange(0, old(q).queue@.len() as int) == old(q).queue@
                &&& kp <= dp.len() <= p.len()
                &&& forall|i: int|
                    0 <= i < kp ==> {
                        let t = #[trigger] q.queue@[old(q).queue@.len() + i];
                        &&& t.tid == old(q).next_tid + i
                        &&& t.regs@.len() == crate::context::NUM_REGS
                        &&& t.regs@[crate::context::REG_ARG as int] == (dp[i] - 48) as u32
                        &&& t.regs@[REG_LR as int] == THREAD_C_ENTRY
                    }
            }),
        decreases u.rx@.len(),
    {
        let ghost p_before = p;
        let ghost q_before = *q;
        let ghost pool_before = *pool;
        let ghost dp_before = digits_of(p);
        let ghost kp_before = if dp_before.len() <= room {
            dp_before.len() as int
        } else {
            room
        };
        let b = uart_get8(u);
        uart_put8(u, b);
        proof {
            p = p.push(b);
            assert(p.drop_last() =~= p_before);
            assert(rx0 =~= p + u.rx@);
            assert(u.tx@ =~= old(u).tx@ + p);
        }
        if b == KEY_GREEN {
            gpio_toggle(g, GREEN_PIN);
            proof {
                assert(p.drop_last() =~= p_before);
                assert(digits_of(p) =~= dp_before);
                lemma_key_mask_step(old(g).lev0, p_before, b);
            }
        } else if b == KEY_RED {
            gpio_toggle(g, RED_PIN);
            proof {
                assert(p.drop_last() =~= p_before);
                assert(digits_of(p) =~= dp_before);
                lemma_key_mask_step(old(g).lev0, p_before, b);
            }
        } else if b >= 48 && b <= 57 {
            proof {
                lemma_digits_len(p_before);
                crate::tstack::lemma_count_used_bounded(pool.free@);
            }
            let r = q.fork(pool, THREAD_C_ENTRY, (b - 48) as u32);
            proof {
                assert(digits_of(p) =~= dp_before.push(b));
                crate::tstack::lemma_count_used_full(pool_before.free@);
                if kp_before == room {
                    assert(pool_before.in_use() == pool_before.capacity());
                    if let Some((tid, sid)) = r {
                        assert(pool_before.slot_free(sid as int));
                        assert(pool_before.free@[sid as int]);
                        assert(false);
                    }
                } else {
                    assert(pool_before.in_use() < pool_before.capacity());
                    if r is None {
                        assert forall|j: int|
                            0 <= j < pool_before.free@.len() implies !pool_before.free@[j] by {
                            assert(!pool_before.slot_free(j));
                        }
                        assert(crate::tstack::count_used(pool_before.free@)
                            == pool_before.free@.len());
                        assert(false);
                    }
                    assert(kp_before == dp_before.len());
                }
                if let Some((tid2, sid2)) = r {
                    crate::tstack::lemma_count_used_take(pool_before.free@, sid2 as int);
                }
                let old_len = old(q).queue@.len() as int;
                let before_len = q_before.queue@.len() as int;
                assert(q.queue@.subrange(0, before_len) =~= q_before.queue@);
                assert forall|i: int|
                    0 <= i < old_len implies q.queue@[i] == old(q).queue@[i] by {
                    assert(q.queue@.subrange(0, before_len)[i] == q_before.queue@[i]);
                    assert(q_before.queue@.subrange(0, old_len)[i] == old(q).queue@[i]);
                }
                assert(q.queue@.subrange(0, old_len) =~= old(q).queue@);
                let dp = digits_of(p);
                let kp = if dp.len() <= room {
                    dp.len() as int
                } else {
                    room
                };
                assert forall|i: int|
                    0 <= i < kp implies {
                    let t = #[trigger] q.queue@[old_len + i];
                    &&& t.tid == old(q).next_tid + i
                    &&& t.regs@.len() == crate::context::NUM_REGS
                    &&& t.regs@[crate::context::REG_ARG as int] == (dp[i] - 48) as u32
                    &&& t.regs@[REG_LR as int] == THREAD_C_ENTRY
                } by {
                    if i < kp_before {
                        assert(q.queue@.subrange(0, before_len)[old_len + i]
                            == q_before.queue@[old_len + i]);
                        assert(dp[i] == dp_before[i]);
                    } else {
                        assert(q.queue@[old_len + i] == q.queue@.last());
                        assert(dp[i] == b);
                    }
                }
                lemma_key_mask_step(old(g).lev0, p_before, b);
            }
        } else {
            proof {
                assert(p.drop_last() =~= p_before);
                assert(digits_of(p) =~= dp_before);
                lemma_key_mask_step(old(g).lev0, p_before, b);
            }
        }
        more = uart_has_data(u);
    }
    proof {
        assert(p =~= rx0);
    }
    gpio_event_clear(ints, EVENT_PIN);
    gpio_set_off(g, ACTIVITY_PIN);
}

/// One key neither toggles the other pins' masks nor, for a toggle key,
/// leaves its own: appending `b` to the run moves the toggled level word by
/// exactly the flip the key asks for.
proof fn lemma_key_mask_step(base: u32, p: Seq<u8>, b: u8)
    ensures
        b == KEY_GREEN ==> ((base | (1u32 << 5)) ^ key_mask(p, KEY_GREEN, GREEN_PIN) ^ key_mask(
            p,
            KEY_RED,
            RED_PIN,
        )) ^ (1u32 << GREEN_PIN as u32) == ((base | (1u32 << 5)) ^ key_mask(
            p.push(b),
            KEY_GREEN,
            GREEN_PIN,
        ) ^ key_mask(p.push(b), KEY_RED, RED_PIN)),
        b == KEY_RED ==> ((base | (1u32 << 5)) ^ key_mask(p, KEY_GREEN, GREEN_PIN) ^ key_mask(
            p,
            KEY_RED,
            RED_PIN,
        )) ^ (1u32 << RED_PIN as u32) == ((base | (1u32 << 5)) ^ key_mask(
            p.push(b),
            KEY_GREEN,
            GREEN_PIN,
        ) ^ key_mask(p.push(b), KEY_RED, RED_PIN)),
        b != KEY_GREEN && b != KEY_RED ==> ((base | (1u32 << 5)) ^ key_mask(
            p,
            KEY_GREEN,
            GREEN_PIN,
        ) ^ key_mask(p, KEY_RED, RED_PIN)) == ((base | (1u32 << 5)) ^ key_mask(
            p.push(b),
            KEY_GREEN,
            GREEN_PIN,
        ) ^ key_mask(p.push(b), KEY_RED, RED_PIN)),
{
    assert(p.push(b).drop_last() =~= p);
    let x = base | (1u32 << 5);
    let gm = key_mask(p, KEY_GREEN, GREEN_PIN);
    let rm = key_mask(p, KEY_RED, RED_PIN);
    if b == KEY_GREEN {
        assert(count_in(p.push(b), KEY_GREEN) == count_in(p, KEY_GREEN) + 1);
        assert(count_in(p.push(b), KEY_RED) == count_in(p, KEY_RED));
        let gm2 = key_mask(p.push(b), KEY_GREEN, GREEN_PIN);
        assert(gm2 == (gm ^ (1u32 << 20))) by {
            if count_in(p, KEY_GREEN) % 2 == 1 {
                assert(((1u32 << 20u32) ^ (1u32 << 20u32)) == 0u32) by (bit_vector);
            } else {
                assert((0u32 ^ (1u32 << 20u32)) == (1u32 << 20u32)) by (bit_vector);
            }
        }
        assert(((x ^ gm ^ rm) ^ (1u32 << 20u32)) == (x ^ (gm ^ (1u32 << 20u32))
            ^ rm)) by (bit_vector);
    } else if b == KEY_RED {
        assert(count_in(p.push(b), KEY_RED) == count_in(p, KEY_RED) + 1);
        assert(count_in(p.push(b), KEY_GREEN) == count_in(p, KEY_GREEN));
        let rm2 = key_mask(p.push(b), KEY_RED, RED_PIN);
        assert(rm2 == (rm ^ (1u32 << 25))) by {
            if count_in(p, KEY_RED) % 2 == 1 {
                assert(((1u32 << 25u32) ^ (1u32 << 25u32)) == 0u32) by (bit_vector);
            } else {
                assert((0u32 ^ (1u32 << 25u32)) == (1u32 << 25u32)) by (bit_vector);
            }
        }
        assert(((x ^ gm ^ rm) ^ (1u32 << 25u32)) == (x ^ gm ^ (rm ^ (1u32
            << 25u32)))) by (bit_vector);
    } else {
        assert(count_in(p.push(b), KEY_GREEN) == count_in(p, KEY_GREEN));
        assert(count_in(p.push(b), KEY_RED) == count_in(p, KEY_RED));
    }
}

/// The IRQ entry trampoline. A hardware trap lands here with the interrupted
/// thread's context in hand and the trap link register pointing one
/// instruction past the one to retry; the trampoline corrects that offset,
/// saves the context across the handler body, runs the dispatch routine on a
/// dedicated interrupt stack, and restores the context for a mode-aware
/// return from the exception. The interrupted thread resumes transparently —
/// same registers, same status word, at the corrected address — whatever the
/// handler did; the scheduler protocol is never engaged here.
pub fn interrupt_handler(
    trapped: &Cpu,
    g: &mut GpioState,
    ints: &mut IntState,
    u: &mut UartState,
    q: &mut TQueue,
    pool: &mut StackPool,
) -> (resumed: Cpu)
    requires
        trapped.wf(),
        trapped.lr >= 4,
        old(q).wf(),
        old(q).owns(*old(pool)),
        old(q).next_tid + old(u).rx@.len() <= usize::MAX,
    ensures
        resumed.wf(),
        resumed@.gp == trapped@.gp,
        resumed@.sp == trapped@.sp,
        resumed@.cpsr == trapped@.cpsr,
        resumed@.lr == trapped@.lr - 4,
        final(q).wf(),
        final(q).owns(*final(pool)),
        forall|t: usize| old(q).retired(t) ==> final(q).retired(t),
        spec_dispatch(
            *old(g),
            *final(g),
            *old(ints),
            *final(ints),
            *old(u),
            *final(u),
            *old(q),
            *final(q),
            *old(pool),
            *final(pool),
        ),
{
    let mut saved: Vec<u32> = Vec::new();
    let mut i: usize = 0;
    while i < crate::context::NUM_REGS
        invariant
            i <= crate::context::NUM_REGS,
            saved@.len() == i,
        decreases crate::context::NUM_REGS - i,
    {
        saved.push(0);
        i += 1;
    }
    save_registers(trapped, &mut saved);
    saved.set(REG_LR, trapped.lr - 4);
    interrupt_vector(g, ints, u, q, pool);
    let resumed = load_registers(&saved);
    proof {
        assert(resumed@.gp =~= trapped@.gp);
    }
    resumed
}

/// Initializes the mini-UART RX IRQ: unmasks the UART line at the controller
/// and enables receive interrupts at the device, clearing its RX FIFO state.
pub fn rx_irq_init(ints: &mut IntState)
    ensures
        spec_bit(final(ints).irq_enable_1, AUX_IRQ),
        forall|j: u8|
            j < 32 && j != AUX_IRQ ==> spec_bit(final(ints).irq_enable_1, j) == spec_bit(
                old(ints).irq_enable_1,
                j,
            ),
        final(ints).aux_iir == 0b10u32,
        final(ints).aux_ier == 0b10u32,
        final(ints).irq_enable_2 == old(ints).irq_enable_2,
        final(ints).gpren0 == old(ints).gpren0,
        final(ints).gpeds0 == old(ints).gpeds0,
        final(ints).vector_base == old(ints).vector_base,
{
    ints.irq_enable_1 = bit_set(ints.irq_enable_1, AUX_IRQ);
    ints.aux_iir = 0b10;
    ints.aux_ier = 0b10;
}

} // verus!
