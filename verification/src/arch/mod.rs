pub mod cpuid;
pub mod pit;
pub mod pci;
pub mod gdt;
pub mod pic;
pub mod idt;
