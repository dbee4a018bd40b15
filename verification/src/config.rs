//! What a VM is made from.
use vstd::prelude::*;

verus! {

/// The architecture of a guest.
#[derive(Debug, Clone, Copy, PartialEq, Eq, Structural)]
pub enum GuestArch {
    Aarch64,
    Riscv64,
    X86_64,
}

/// A vCPU and the physical CPUs that it may run on.
#[derive(Debug, Clone, Copy, PartialEq, Eq)]
pub struct VCpuAffinity {
    pub vcpu_id: usize,
    /// A bit mask of physical CPUs; `None` allows all of them.
    pub phys_cpu_set: Option<usize>,
    /// The physical CPU that the vCPU stands for in the guest's eyes.
    pub pcpu_id: usize,
}

/// How guest memory is backed by host memory.
#[derive(Debug, Clone, Copy, PartialEq, Eq, Structural)]
pub enum VmMemMappingType {
    /// The guest physical address is the host physical address.
    MapIentical,
    /// Host frames are allocated for the region, wherever they lie.
    MapAlloc,
}

/// A region of guest memory.
#[derive(Debug, Clone, Copy, PartialEq, Eq)]
pub struct MemoryRegion {
    pub gpa: usize,
    pub size: usize,
    /// Mapping flags, as bits.
    pub flags: usize,
    pub map_type: VmMemMappingType,
}

/// A host device that the guest uses directly.
#[derive(Debug, Clone, Copy, PartialEq, Eq)]
pub struct PassThroughDevice {
    pub base_gpa: usize,
    pub base_hpa: usize,
    pub length: usize,
}

/// The configuration of a VM. `E` describes one emulated device.
pub struct AxVMConfig<E> {
    pub id: usize,
    pub vcpus: Vec<VCpuAffinity>,
    /// Where the bootstrap vCPU starts.
    pub bsp_entry: usize,
    /// Where the other vCPUs start.
    pub ap_entry: usize,
    /// Where the device tree is loaded, if one is.
    pub dtb_load_gpa: Option<usize>,
    pub memory_regions: Vec<MemoryRegion>,
    pub pass_through_devices: Vec<PassThroughDevice>,
    pub emu_devices: Vec<E>,
}

} // verus!
