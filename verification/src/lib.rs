//! Verified core of the Umbra microkernel: IPC endpoints and message queues,
//! the process table and its round-robin scheduler, per-process capability
//! tables, system calls, the page
//! walk that checks user pointers, the frame allocator, the ELF and initramfs
//! readers, and the logic and wire formats of the user-space servers and shell.

pub mod caps;
pub mod elf;
pub mod fb;
pub mod frames;
pub mod interrupts;
pub mod ipc;
pub mod keyboard;
pub mod paging;
pub mod pci;
pub mod process;
pub mod protocol;
pub mod rtc;
pub mod shell;
pub mod syscall;
pub mod tar;
pub mod text;
