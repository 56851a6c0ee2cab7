//! An interpreter for the CHIP-8 instruction set: memory, registers, call stack, display,
//! keypad and timers, advanced one instruction at a time by the host.
//!
//! `model` says what a machine is and what each operation makes of it; `machine` holds the
//! machine itself, each operation proved against the model; `laws` holds what follows for
//! every machine; `keypad` maps the keys of a keyboard to the keypad; `host` is the clock and
//! the source of random bytes.
//!
//! A timer counts billionths of a tick, so that a nanosecond takes exactly sixty of them and
//! no rounding enters. `Chip8::step` is told the random byte and the time that has passed;
//! `Chip8::tick` asks the host for both. A program that would leave the call stack, the
//! memory or the keypad is stopped before the instruction that would do so: the step
//! returns the `Fault` and leaves the machine as it was.

pub mod host;
pub mod keypad;
pub mod laws;
pub mod machine;
pub mod model;
mod sprite;

pub use keypad::key_for_code;
pub use machine::Chip8;
pub use model::{Fault, DISPLAY_BYTES, DISPLAY_HEIGHT, DISPLAY_WIDTH};
