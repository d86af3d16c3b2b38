pub mod cpu;
pub mod display;
pub mod emulator;
pub mod error;
pub mod font;
pub mod keypad;
pub mod memory;
pub mod nibble;
pub mod operation;
pub mod quirks;
pub mod register;
pub mod state;
pub mod timer;

pub use display::Display;
pub use emulator::Emulator;
pub use error::Error;
pub use font::Font;
pub use keypad::{Key, Keypad};
pub use memory::Memory;
pub use quirks::Quirks;
pub use register::Register;
pub use timer::Timer;
