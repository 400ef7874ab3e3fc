//! Verified core logic of the Jotunheim kernel: the GDB remote serial
//! protocol stub, ACPI table parsing, frame and heap allocators, the
//! reserved-memory table, the schedulers, interrupt tables and the fault log.
pub mod hex;
pub mod regs;
pub mod packet;
pub mod breakpoint;
pub mod rsp;
pub mod acpi;
pub mod bootinfo;
pub mod reserved;
pub mod early;
pub mod frames;
pub mod sched;
pub mod slot_sched;
pub mod faultlog;
pub mod tables;
pub mod apic;
pub mod arch_gdt;
pub mod arch_idt;
pub mod mmio_map;
pub mod simple_alloc;
pub mod physmem;
pub mod bump;
pub mod exec;
pub mod sched_simd;
pub mod simd;
pub mod smp;
pub mod boot;
pub mod serial;
pub mod transport;
pub mod debug;
pub mod fault_walk;
pub mod tsc;
pub mod ioapic;
pub mod split_huge;
pub mod mapper;
