# ghostos

A small x86-64 kernel that boots a user-space game, with its logic verified
by Verus.

- `src/` is the verified library: the decisions of the kernel and its
  drivers, stated as contracts and proved. Device access is described, not
  performed: drivers return the port and memory-mapped accesses to make
  (`io::PortOp`, `mmio::MmioOp`) and take what the hardware answered as
  arguments. The modules:
  - `pci`, `e1000`, `net`, `mmio`: PCI configuration space, the function
    walk, base address registers, and the 82540EM network controller.
  - `ata`, `ata_session`: ATA drives over PIO, and the state machine that
    runs one command (identify, transfers, flushes, resets) event by event.
  - `ps2`, `keyboard`, `mouse`, `input`: the PS/2 controller, scancode
    decoding through `pc_keyboard`, mouse packets, and the input state
    programs read.
  - `vga`: the text console with colour tags, and the 320x200 graphics mode.
  - `memory`, `frames`, `loader`, `process`: page plans, the frame
    allocator, ELF executables (parsed by `elf`) and process layouts.
  - `scheduler`, `syscall`, `time`, `cpu`, `qemu`, `game`: round-robin
    scheduling, system calls, the timer clock, processor features, the QEMU
    exit device, and the game's frame buffer.
- `app/` is the kernel around it: the boot entry, interrupt and system call
  stubs, page-table edits through `x86_64`, the port and memory accesses
  themselves, and the game's floating-point physics.
- `tests/` runs the library on concrete inputs, among them simulated ATA
  drives and hand-built ELF images.
