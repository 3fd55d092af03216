# kernel8

The verified core of kernel8, a small x86_64 kernel. `src/` is the library
Verus checks; `app/` is the bootable kernel around it (hardware access,
interrupt handlers, serial output).

- `src/interrupts.rs` — PIC vectors, the tick counter, and the replies to
  timer and keyboard interrupts (what to print, which line to acknowledge).
- `src/keyboard.rs` — the `pc_keyboard` PS/2 decoder the keyboard reply uses.
- `src/memory.rs` — the boot memory map and the frame allocator over it.
- `src/addr.rs` — canonical virtual-address and frame arithmetic via `x86_64`.
- `src/gdt.rs` — the double-fault stack of the TSS.
- `src/task.rs` — the cooperative yield point.
- `src/heap_check.rs` — the heap self-check run at boot.
