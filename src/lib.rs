//! Driver for the full-speed USB device peripheral of STM32F103
//! microcontrollers, over a value-level model of its registers and packet
//! memory.
pub mod usb;
pub mod regs;
pub mod pma;
pub mod allocation;
pub mod event;
pub mod bus;
pub mod utils;
