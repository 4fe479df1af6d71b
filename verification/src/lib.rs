//! Verified core logic of the sabios toy kernel: physical frame bookkeeping,
//! task scheduling, the FAT file system reader, PCI configuration decoding,
//! graphics geometry and the text consoles.

pub mod acpi;
pub mod allocator;
pub mod bits;
pub mod console;
pub mod desktop;
pub mod emergency_console;
pub mod error;
pub mod fat;
pub mod fmt;
pub mod framed_window;
pub mod graphics;
pub mod keyboard;
pub mod layer;
pub mod log;
pub mod memory;
pub mod mouse;
pub mod pci;
pub mod task;
pub mod terminal;
pub mod terminal_screen;
pub mod text_window;
pub mod timer;
pub mod triple_buffer;
pub mod usb;
pub mod window;
pub mod xhc;
