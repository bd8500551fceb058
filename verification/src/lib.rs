//! Core logic of an early-boot stage for a bare-metal kernel.
//!
//! The crate models the boot-time memory and exception bootstrap on plain
//! values: physical frame accounting over a firmware memory map, the
//! reconstruction of a free-range list once the early allocator retires,
//! the greedy large-page mapping planner for the new address space, the
//! descriptor-table bring-up order, and the framebuffer pixel encoding.
//! The hardware itself (page-table writes, control registers, MMIO) sits
//! outside the library; callers execute the plans this crate produces.

pub mod align;
pub mod boot;
pub mod early;
pub mod framebuffer;
pub mod proper;
pub mod memmap;
pub mod descriptor;
pub mod paging;
pub mod util;
