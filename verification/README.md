# jotunheim

The core of the Jotunheim x86-64 kernel and its UEFI loader, written in
Verus. Every decision the kernel takes (the GDB remote-protocol stub, ACPI
table parsing, the frame pools and heap bookkeeping, the reserved-memory
table, the schedulers, the interrupt tables, the fault log, APIC command
planning and the loader's page-table layout) lives in `src/` with a
contract and a proof.

- `src/` — the verified library. Functions that decide what the hardware
  should see take plain values (register contents, CPUID words, the bytes
  of physical memory) and return plain values (register writes to make,
  page mappings to install, packets to send).
- `tests/` — unit tests of the library on concrete values.
- `app/` — the program around the library: firmware calls, port and
  memory-mapped I/O, control registers, page-table edits, interrupt entry
  points and the loader's hand-off to the kernel.
