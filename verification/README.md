# m5ros

The logic of the m5rOS x86_64 hobby kernel as a Verus-verified library.

- `src/` is the verified library. Each driver and subsystem states what it
  computes: the port or register writes to make, the screen, file system,
  allocator or network state after an operation, and the text it logs. Hardware
  reads reach it as plain values (status bytes, configuration words, scan
  codes), and what it asks of the hardware comes back as plain values.
  - `arch/`: GDT and IDT contents, the 8259 PIC and 8254 PIT programming,
    CPUID decoding, and PCI enumeration over a snapshot of configuration space.
  - `drivers/`: VGA text console, PS/2 keyboard, serial port, RTC decoding, ATA
    command sequences, framebuffer drawing, and the e1000, integrated GPU, Wi-Fi
    and Bluetooth drivers.
  - `mem/`: the bitmap frame allocator, page table entries and addresses, and
    the first-fit kernel heap, whose free regions never overlap or touch.
  - `net/`: Ethernet, ARP, IPv4, ICMP and UDP parsing and building.
  - `fs.rs`, `editor.rs`, `command.rs`, `sysinfo.rs`, `boot_animation.rs`: the
    in-memory file system (64 entries, 32 KiB each), the text editor, the 22
    shell commands and the boot screen.
  - Public `law_*` proof functions state properties that span operations.
- `tests/` runs the library on concrete values.
- `app/` is the kernel around it: port I/O and other processor instructions,
  the global state behind spin locks, interrupt entry points, the boot sequence.
