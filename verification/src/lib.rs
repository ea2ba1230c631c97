//! A verified CHIP-8 virtual machine core.
//!
//! The library models the machine state (memory, registers, call stack,
//! display buffer, timers) and the fetch/decode/execute cycle, with the
//! semantics of every instruction stated as contracts over a mathematical
//! view of the state. Rendering, input polling, audio and ROM loading are
//! left to external collaborators behind the `Display` and `Keyboard`
//! traits.

pub mod cpu;
pub mod display;
pub mod keyboard;
pub mod laws;
pub mod op;
pub mod ram;
pub mod semantics;
pub mod stack;
pub mod state;

pub use cpu::Chip8;
pub use state::{State, DISPLAY_HEIGHT, DISPLAY_WIDTH};
