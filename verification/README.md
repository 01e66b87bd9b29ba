# vmm-demo

A minimal virtual machine monitor that boots a Linux kernel to an interactive shell under
KVM, with the parts that decide and compute verified by Verus.

## What it does

- Maps 128 MB of guest memory
- Loads a bzImage kernel and an initramfs into it
- Sets up 64-bit long mode with identity-mapped page tables
- Emulates a 16550 UART serial console (COM1)

## Layout

- `src/` is the verified library:
  - `layout`, `bytes`: addresses, and the model of memory as a sequence of bytes
  - `memory`, `kernel`, `cmdline`: guest memory, and what `vm-memory` and `linux-loader`
    store in it
  - `boot_params`, `paging`, `cpu`, `boot`: the zero page, the page tables, the descriptor
    table and registers, and all of it together
  - `serial`, `run_loop`: the serial port, and what to do when the processor stops
  - `terminal`: raw mode
- `app/` makes the system calls: KVM, the terminal, the files and the timer
- `tests/` runs the library

Functions named `law_...` state and prove what holds of the library as a whole: that the
first gigabyte is mapped to itself, that a kernel which follows its boot parameters finds
its command line and its initramfs, that the serial port loses no byte.

What the library takes on trust of its outside crates stands in `#[verifier::external_body]`
functions, each of which names the function that it calls and what it claims of it.

## Running

    vmm-demo <bzImage> <initramfs>

Diagnostic messages go to standard error.
