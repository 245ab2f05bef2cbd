use rusty_pi::gpio::{
    gpio_read, gpio_set_fn, gpio_set_input, gpio_set_off, gpio_set_on, gpio_set_output,
    gpio_toggle, gpio_write, GpioState,
};

#[test]
fn test_set_on_off_read() {
    let mut g = GpioState::reset();
    gpio_set_on(&mut g, 5);
    assert_eq!(gpio_read(&g, 5), 1);
    assert_eq!(gpio_read(&g, 6), 0);
    gpio_set_off(&mut g, 5);
    assert_eq!(gpio_read(&g, 5), 0);
}

#[test]
fn test_special_high_pin() {
    let mut g = GpioState::reset();
    gpio_set_on(&mut g, 47);
    assert_eq!(gpio_read(&g, 47), 1);
    assert_eq!(g.lev1, 1 << 15);
    gpio_set_off(&mut g, 47);
    assert_eq!(g.lev1, 0);
}

#[test]
fn test_unwired_high_pin_is_ignored() {
    let mut g = GpioState::reset();
    gpio_set_on(&mut g, 33);
    gpio_set_fn(&mut g, 40, 1);
    assert_eq!(g.lev0, 0);
    assert_eq!(g.lev1, 0);
    assert!(g.fsel.iter().all(|r| *r == 0));
}

#[test]
fn test_toggle_roundtrip() {
    // toggling twice returns the pin to its original level
    for pin in [0u8, 13, 20, 25, 31, 47] {
        let mut g = GpioState::reset();
        g.lev0 = 0x0F0F_0F0F;
        g.lev1 = 0x0000_8000;
        let before0 = g.lev0;
        let before1 = g.lev1;
        let level = gpio_read(&g, pin);
        gpio_toggle(&mut g, pin);
        assert_ne!(gpio_read(&g, pin), level);
        gpio_toggle(&mut g, pin);
        assert_eq!(gpio_read(&g, pin), level);
        assert_eq!(g.lev0, before0);
        assert_eq!(g.lev1, before1);
    }
}

#[test]
fn test_set_fn_field_isolated() {
    let mut g = GpioState::reset();
    g.fsel[1] = 0xFFFF_FFFF;
    gpio_set_fn(&mut g, 14, 0b010);
    // pin 14 sits at bits 14:12 of the second register
    assert_eq!(g.fsel[1], 0xFFFF_AFFF);
    assert_eq!(g.fsel[0], 0);
}

#[test]
fn test_set_output_input() {
    let mut g = GpioState::reset();
    gpio_set_output(&mut g, 20);
    assert_eq!(g.fsel[2], 1);
    gpio_set_input(&mut g, 20);
    assert_eq!(g.fsel[2], 0);
}

#[test]
fn test_gpio_write() {
    let mut g = GpioState::reset();
    gpio_write(&mut g, 9, 1);
    assert_eq!(gpio_read(&g, 9), 1);
    gpio_write(&mut g, 9, 0);
    assert_eq!(gpio_read(&g, 9), 0);
}
