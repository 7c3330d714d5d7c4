# umbra

The verified core of Umbra, a small x86-64 microkernel with user-space
servers. The library under `src/` holds the kernel's and the servers'
logic with contracts proved by Verus; `app/` wires it to the machine
(port I/O, page tables, context switches, interrupt entry, system calls)
and runs the servers and the shell.

Modules of the library:

- `ipc` — fixed-size messages, bounded FIFO queues, endpoints, the
  endpoint registry and the kernel's IPC state.
- `process` — the process table, round-robin scheduling, preemption
  choice, process states (and what a blocked process waits for),
  identifiers, kernel stacks and the teardown of exited processes.
- `caps` — the per-process capability tables that gate port I/O.
- `syscall` — decoding of system calls and their effect on the kernel
  state: blocking receives, calls answered by the endpoint's owner,
  capability grants; the codes user space sees.
- `paging` — the four-level page walk and the canonical-address check
  used to validate user pointers.
- `frames` — the physical frame allocator over the boot memory map.
- `elf` — reading executables (from aligned copies of their header
  records): segments to load and how to copy them.
- `tar` — the initial ramdisk's archive reader.
- `interrupts` — interrupt vectors, the timer's reschedule decision,
  QEMU exit codes and the ACPI physical mapping.
- `fb` — the text console's cursor, glyphs, pixel encoding and display
  requests.
- `shell` — the shell's line editor, blinking cursor and command parser.
- `keyboard` — the PS/2 scancode decoder and the steps that turn a
  scancode into a shell edit or a keyboard-server reply.
- `protocol`, `pci`, `rtc`, `text` — the servers' message
  formats and the text they print.
