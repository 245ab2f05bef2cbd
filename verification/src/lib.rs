//! Core of a cooperative, interrupt-aware kernel for a single-core ARM board,
//! modelled over explicit state so that every rule of the scheduler, the stack
//! pool and the interrupt subsystem is stated and proved.
//!
//! Hardware registers (GPIO banks, the interrupt controller, the mini-UART
//! FIFOs, the processor status word) are carried as plain values in state
//! structs; the memory-mapped accesses and the assembly that move them on a
//! real board live outside this crate.

pub mod bits;
pub mod context;
pub mod debug;
pub mod gpio;
pub mod interrupts;
pub mod threads;
pub mod time;
pub mod tstack;
pub mod uart;
pub mod user;
