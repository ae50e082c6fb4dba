//! Verified core of a small x86-64 hobby kernel: device register models,
//! PCI and ATA driver logic, PS/2 input decoding, scheduling, user-space
//! memory planning, executable loading and text-mode output.
//!
//! Port I/O is described as data: functions that talk to hardware return
//! the [`io::PortOp`] writes to perform and take the values read from the
//! hardware as arguments, so every decision the drivers make is verified.

pub mod input;
pub mod io;
pub mod ata;
pub mod ata_session;
pub mod cpu;
pub mod e1000;
pub mod e1000_init;
pub mod frames;
pub mod game;
pub mod keyboard;
pub mod loader;
pub mod memory;
pub mod mmio;
pub mod mouse;
pub mod net;
pub mod pci;
pub mod process;
pub mod ps2;
pub mod qemu;
pub mod scheduler;
pub mod syscall;
pub mod time;
pub mod vga;
