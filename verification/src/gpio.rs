//! GPIO pin driver over an explicit register model.
//!
//! The board exposes a flat pin number with a discontinuity: pins 0-31 live
//! in the first level bank, higher pins in a second bank of which only the
//! special pin 47 is wired. Requests for any other high pin never touch
//! hardware. Each pin's function is a 3-bit field of one of six
//! function-select registers, ten pins per register.

use vstd::prelude::*;

use crate::bits::{bit_clr, bit_is_set, bit_set, bits_modify, spec_bit, spec_field};

verus! {

/// Number of function-select registers.
pub const NUM_FSEL: usize = 6;

/// Function-select value for an input pin.
pub const FN_INPUT: u8 = 0;

/// Function-select value for an output pin.
pub const FN_OUTPUT: u8 = 1;

/// The GPIO register bank: six function-select registers and the two level
/// banks.
pub struct GpioState {
    pub fsel: Vec<u32>,
    pub lev0: u32,
    pub lev1: u32,
}

/// A pin the board wires up: the first bank, or the special pin 47.
pub open spec fn pin_valid(pin: u8) -> bool {
    pin < 32 || pin == 47
}

/// The level of a valid pin in `g`.
pub open spec fn spec_level(g: GpioState, pin: u8) -> bool {
    if pin < 32 {
        spec_bit(g.lev0, pin)
    } else {
        spec_bit(g.lev1, (pin - 32) as u8)
    }
}

/// What one toggle of `pin` does: the pin's bit of its level bank flips and
/// nothing else moves.
pub open spec fn spec_toggle_step(pre: GpioState, post: GpioState, pin: u8) -> bool {
    &&& post.fsel@ == pre.fsel@
    &&& (pin < 32 ==> post.lev0 == (pre.lev0 ^ (1u32 << pin as u32)) && post.lev1 == pre.lev1)
    &&& (pin >= 32 ==> post.lev1 == (pre.lev1 ^ (1u32 << (pin - 32) as u32)) && post.lev0
        == pre.lev0)
}

impl GpioState {
    /// All six function-select registers are present.
    pub open spec fn wf(self) -> bool {
        self.fsel@.len() == NUM_FSEL
    }

    /// A bank with every register zeroed, as after reset.
    pub fn reset() -> (g: GpioState)
        ensures
            g.wf(),
            g.lev0 == 0 && g.lev1 == 0,
            forall|k: int| 0 <= k < NUM_FSEL ==> g.fsel@[k] == 0u32,
    {
        let mut fsel: Vec<u32> = Vec::new();
        let mut i: usize = 0;
        while i < NUM_FSEL
            invariant
                i <= NUM_FSEL,
                fsel@.len() == i,
                forall|k: int| 0 <= k < i ==> fsel@[k] == 0u32,
            decreases NUM_FSEL - i,
        {
            fsel.push(0);
            i += 1;
        }
        GpioState { fsel, lev0: 0, lev1: 0 }
    }
}

/// Sets `pin`'s function-select field to the 3-bit mode `y`. A high pin the
/// board does not wire is a silent no-op.
pub fn gpio_set_fn(g: &mut GpioState, pin: u8, y: u8)
    requires
        old(g).wf(),
        y < 8,
    ensures
        final(g).wf(),
        final(g).lev0 == old(g).lev0 && final(g).lev1 == old(g).lev1,
        !pin_valid(pin) ==> *final(g) == *old(g),
        pin_valid(pin) ==> {
            let idx = pin as int / 10;
            let shift = 3 * (pin % 10);
            &&& spec_field(final(g).fsel@[idx], (shift + 2) as u8, shift as u8) == y
            &&& forall|j: u8|
                j < 32 && !(shift <= j <= shift + 2) ==> spec_bit(final(g).fsel@[idx], j)
                    == spec_bit(old(g).fsel@[idx], j)
            &&& forall|k: int|
                0 <= k < NUM_FSEL && k != idx ==> final(g).fsel@[k] == old(g).fsel@[k]
        },
{
    if pin >= 32 && pin != 47 {
        return ;
    }
    let idx = (pin as usize) / 10;
    let shift = 3 * (pin % 10);
    proof {
        assert((1u32 << 3u32) == 8u32) by (bit_vector);
    }
    let v = bits_modify(g.fsel[idx], shift + 2, shift, y as u32);
    g.fsel.set(idx, v);
}

/// Sets `pin` to be an output pin.
pub fn gpio_set_output(g: &mut GpioState, pin: u8)
    requires
        old(g).wf(),
    ensures
        final(g).wf(),
        final(g).lev0 == old(g).lev0 && final(g).lev1 == old(g).lev1,
        !pin_valid(pin) ==> *final(g) == *old(g),
        pin_valid(pin) ==> spec_field(
            final(g).fsel@[pin as int / 10],
            (3 * (pin % 10) + 2) as u8,
            (3 * (pin % 10)) as u8,
        ) == FN_OUTPUT,
{
    gpio_set_fn(g, pin, FN_OUTPUT);
}

/// Sets `pin` to be an input pin.
pub fn gpio_set_input(g: &mut GpioState, pin: u8)
    requires
        old(g).wf(),
    ensures
        final(g).wf(),
        final(g).lev0 == old(g).lev0 && final(g).lev1 == old(g).lev1,
        !pin_valid(pin) ==> *final(g) == *old(g),
        pin_valid(pin) ==> spec_field(
            final(g).fsel@[pin as int / 10],
            (3 * (pin % 10) + 2) as u8,
            (3 * (pin % 10)) as u8,
        ) == FN_INPUT,
{
    gpio_set_fn(g, pin, FN_INPUT);
}

/// Drives `pin` high. A high pin the board does not wire is a silent no-op.
pub fn gpio_set_on(g: &mut GpioState, pin: u8)
    ensures
        final(g).fsel@ == old(g).fsel@,
        !pin_valid(pin) ==> *final(g) == *old(g),
        pin_valid(pin) ==> {
            &&& spec_level(*final(g), pin)
            &&& forall|q: u8|
                pin_valid(q) && q != pin ==> spec_level(*final(g), q) == spec_level(*old(g), q)
            &&& (pin < 32 ==> final(g).lev0 == (old(g).lev0 | (1u32 << pin as u32))
                && final(g).lev1 == old(g).lev1)
            &&& (pin >= 32 ==> final(g).lev1 == (old(g).lev1 | (1u32 << (pin - 32) as u32))
                && final(g).lev0 == old(g).lev0)
        },
{
    if pin >= 32 && pin != 47 {
        return ;
    }
    if pin >= 32 {
        g.lev1 = bit_set(g.lev1, pin - 32);
    } else {
        g.lev0 = bit_set(g.lev0, pin);
    }
}

/// Drives `pin` low. A high pin the board does not wire is a silent no-op.
pub fn gpio_set_off(g: &mut GpioState, pin: u8)
    ensures
        final(g).fsel@ == old(g).fsel@,
        !pin_valid(pin) ==> *final(g) == *old(g),
        pin_valid(pin) ==> {
            &&& !spec_level(*final(g), pin)
            &&& forall|q: u8|
                pin_valid(q) && q != pin ==> spec_level(*final(g), q) == spec_level(*old(g), q)
            &&& (pin < 32 ==> final(g).lev0 == (old(g).lev0 & !(1u32 << pin as u32))
                && final(g).lev1 == old(g).lev1)
            &&& (pin >= 32 ==> final(g).lev1 == (old(g).lev1 & !(1u32 << (pin - 32) as u32))
                && final(g).lev0 == old(g).lev0)
        },
{
    if pin >= 32 && pin != 47 {
        return ;
    }
    if pin >= 32 {
        g.lev1 = bit_clr(g.lev1, pin - 32);
    } else {
        g.lev0 = bit_clr(g.lev0, pin);
    }
}

/// Sets `pin` to the bit `b`.
pub fn gpio_write(g: &mut GpioState, pin: u8, b: u8)
    requires
        b <= 1,
    ensures
        final(g).fsel@ == old(g).fsel@,
        !pin_valid(pin) ==> *final(g) == *old(g),
        pin_valid(pin) ==> {
            &&& spec_level(*final(g), pin) == (b == 1)
            &&& forall|q: u8|
                pin_valid(q) && q != pin ==> spec_level(*final(g), q) == spec_level(*old(g), q)
        },
{
    if b == 1 {
        gpio_set_on(g, pin);
    } else {
        gpio_set_off(g, pin);
    }
}

/// Returns the value of `pin`, 1 or 0. Reading a pin the board does not wire
/// is fatal.
pub fn gpio_read(g: &GpioState, pin: u8) -> (r: u8)
    requires
        pin_valid(pin),
    ensures
        r == if spec_level(*g, pin) {
            1u8
        } else {
            0u8
        },
{
    if pin >= 32 {
        if bit_is_set(g.lev1, pin - 32) {
            1
        } else {
            0
        }
    } else {
        if bit_is_set(g.lev0, pin) {
            1
        } else {
            0
        }
    }
}

/// Toggles `pin`: its level flips and nothing else moves.
pub fn gpio_toggle(g: &mut GpioState, pin: u8)
    requires
        pin_valid(pin),
    ensures
        spec_toggle_step(*old(g), *final(g), pin),
        spec_level(*final(g), pin) == !spec_level(*old(g), pin),
        forall|q: u8|
            pin_valid(q) && q != pin ==> spec_level(*final(g), q) == spec_level(*old(g), q),
{
    let b = gpio_read(g, pin);
    if b == 1 {
        gpio_set_off(g, pin);
        proof {
            let i: u8 = if pin < 32 {
                pin
            } else {
                (pin - 32) as u8
            };
            let x = if pin < 32 {
                old(g).lev0
            } else {
                old(g).lev1
            };
            assert(i < 32 && spec_bit(x, i) ==> (x & !(1u32 << i as u32)) == (x ^ (1u32
                << i as u32))) by (bit_vector);
        }
    } else {
        gpio_set_on(g, pin);
        proof {
            let i: u8 = if pin < 32 {
                pin
            } else {
                (pin - 32) as u8
            };
            let x = if pin < 32 {
                old(g).lev0
            } else {
                old(g).lev1
            };
            assert(i < 32 && !spec_bit(x, i) ==> (x | (1u32 << i as u32)) == (x ^ (1u32
                << i as u32))) by (bit_vector);
        }
    }
}

/// Toggling a pin twice is a round trip: every GPIO register returns to its
/// original value.
pub proof fn lemma_toggle_roundtrip(g0: GpioState, g1: GpioState, g2: GpioState, pin: u8)
    requires
        pin_valid(pin),
        spec_toggle_step(g0, g1, pin),
        spec_toggle_step(g1, g2, pin),
    ensures
        g2.lev0 == g0.lev0,
        g2.lev1 == g0.lev1,
        g2.fsel@ == g0.fsel@,
{
    let i: u8 = if pin < 32 {
        pin
    } else {
        (pin - 32) as u8
    };
    crate::bits::lemma_bit_flip_twice(
        if pin < 32 {
            g0.lev0
        } else {
            g0.lev1
        },
        i,
    );
}

} // verus!
