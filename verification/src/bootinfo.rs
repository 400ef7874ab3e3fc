//! What the loader hands the kernel, with the memory map as a vector.
use vstd::prelude::*;

verus! {

/// The linear framebuffer the loader found.
#[derive(Clone, Copy, Debug, PartialEq, Eq)]
pub struct Framebuffer {
    /// Physical address of the first pixel.
    pub addr: u64,
    pub width: u32,
    pub height: u32,
    /// Bytes per scanline.
    pub pitch: u32,
    /// Bits per pixel.
    pub bpp: u32,
    /// 0 = RGB, 1 = BGR, 2 = bitmask, 3 = blit only.
    pub pixel_format: u32,
}

/// One memory-map entry; `typ` 1 is usable RAM.
#[derive(Clone, Copy, Debug, PartialEq, Eq)]
pub struct MemoryRegion {
    pub phys_start: u64,
    pub virt_start: u64,
    pub len: u64,
    pub typ: u32,
    pub attr: u64,
}

/// The boot information block.
#[derive(Debug)]
pub struct BootInfo {
    pub rsdp_addr: u64,
    pub memory_map: Vec<MemoryRegion>,
    pub framebuffer: Framebuffer,
    pub kernel_phys_base: u64,
    pub kernel_virt_base: u64,
    pub early_heap_paddr: u64,
    pub early_heap_len: u64,
    pub hhdm_base: u64,
    pub low32_pool_paddr: u64,
    pub low32_pool_len: u64,
}

/// The memory-map type of usable RAM.
pub const USABLE_RAM: u32 = 1;

} // verus!
