//! A minimal virtual machine monitor that boots a Linux kernel to a shell on a serial
//! console.
//!
//! This library holds what such a monitor decides and computes: how guest memory is laid
//! out and filled, the processor state in which the kernel is entered, the serial port
//! that the guest talks to, and what to do each time the virtual processor stops. The
//! system calls around it are left to the program that uses it.
pub mod boot;
pub mod boot_params;
pub mod bytes;
pub mod cmdline;
pub mod cpu;
pub mod kernel;
pub mod layout;
pub mod memory;
pub mod paging;
pub mod run_loop;
pub mod serial;
pub mod terminal;
