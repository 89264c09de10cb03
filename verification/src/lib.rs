//! Driver for the ST7789 serial TFT display controller.
//!
//! The protocol engine sequences controller commands and parameter bytes over
//! an abstract write-only bus, toggles a reset line, and waits through a delay
//! provider. Every operation's effect is specified as the exact sequence of
//! events it appends to the traces of those collaborators.

pub mod driver;
pub mod instruction;
pub mod interface;
pub mod laws;
pub mod mock;
pub mod trace;

pub use driver::Error;
pub use driver::Orientation;
pub use driver::ST7789;
pub use instruction::Instruction;
