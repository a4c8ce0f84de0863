//! A CHIP-8 virtual machine: a verified interpreter core for the classic
//! 35-opcode, 4 KiB instruction set, with a 64x32 monochrome frame buffer,
//! sixteen 8-bit registers, a call stack, and two 8-bit timers.

mod chip;
mod graphics;
mod keyboard;
pub mod laws;
mod layout;
mod machine;
mod pacer;

pub use chip::mnemonic;
pub use chip::Chip;
pub use graphics::Graphics;
pub use keyboard::key_action;
pub use keyboard::step_action;
pub use keyboard::KeyAction;
pub use keyboard::Keyboard;
pub use keyboard::StepAction;
pub use layout::CursorPos;
pub use layout::DebuggerLayout;
pub use machine::ChipState;
pub use machine::Effect;
pub use machine::StepRes;
pub use machine::VmError;
pub use pacer::pacer_action;
pub use pacer::PacerAction;
