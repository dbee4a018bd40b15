//! Assembling a VM from its configuration.
//!
//! The work on vCPUs, page tables and devices is the host's. A [`VmBuilder`] says
//! what to do next and takes the outcome, until the VM is complete or a step has
//! failed.
use std::sync::Arc;

use vstd::prelude::*;

use crate::config::{AxVMConfig, GuestArch, MemoryRegion, PassThroughDevice, VCpuAffinity, VmMemMappingType};
use crate::error::VmError;
use crate::flags::{
    device_memory, device_memory_flags, has_device, is_device, known_flags, law_flags_are_bits,
    mapping_flags,
};

verus! {

/// The guest physical addresses of a VM start here.
pub const VM_ASPACE_BASE: usize = 0x0;

/// The size of the guest physical address space of a VM.
pub const VM_ASPACE_SIZE: u64 = 0x7fff_ffff_f000;

/// Where a RISC-V guest finds its device tree unless the configuration says so.
pub const RISCV_DTB_DEFAULT: usize = 0x9000_0000;

/// What a vCPU of each architecture is created with.
#[derive(Debug, Clone, Copy, PartialEq, Eq)]
pub enum VCpuCreateConfig {
    Aarch64 { mpidr_el1: u64, dtb_addr: usize },
    Riscv64 { hart_id: usize, dtb_addr: usize },
    X86_64,
}

/// What the host is to do next.
#[allow(inconsistent_fields)]
#[derive(Debug, Clone, Copy, PartialEq, Eq)]
pub enum BuildAction {
    /// Create a vCPU.
    CreateVCpu {
        vcpu_id: usize,
        favor_phys_cpu: usize,
        phys_cpu_set: Option<usize>,
        arch_config: VCpuCreateConfig,
    },
    /// Create the address space, with nothing mapped.
    CreateAddressSpace { base: usize, size: u64 },
    /// Try to allocate the host memory at `hpa`.
    AllocRegion { hpa: usize, size: usize },
    /// Map a guest region to the host region at `hpa`.
    MapLinear { gpa: usize, hpa: usize, size: usize, flags: usize },
    /// Map a guest region to newly allocated frames.
    MapAlloc { gpa: usize, size: usize, flags: usize, populate: bool },
    /// Create the emulated devices: one set, of those that
    /// [`VmBuilder::emu_devices`] lists, in that order.
    CreateDevices,
    /// Set up the vCPU at `index` of the list.
    SetupVCpu { index: usize, entry: usize, ept_root: usize },
    /// The VM is complete.
    Finish,
}

/// What came of an action. `V` is a vCPU, `D` the emulated devices, `X` an error
/// of the host.
pub enum BuildEvent<V, D, X> {
    VCpuCreated(Arc<V>),
    /// The address space was created; `root` is that of its page table.
    SpaceCreated { root: usize },
    /// Whether the host memory could be allocated.
    RegionAllocated(bool),
    Mapped,
    DevicesCreated(D),
    VCpuReady,
    /// The action failed.
    Failed(X),
}

/// The action that is under way.
#[derive(Debug, Clone, Copy, PartialEq, Eq, Structural)]
pub enum Phase {
    /// Creating the vCPU at this index.
    VCpu(usize),
    /// Creating the address space.
    Space,
    /// Allocating host memory for the memory region at this index.
    Alloc(usize),
    /// Mapping the memory region at this index.
    MapRegion(usize),
    /// Mapping the passed-through device at this index.
    MapDevice(usize),
    /// Creating the emulated devices.
    Devices,
    /// Setting up the vCPU at this index.
    Setup(usize),
    /// The VM is complete.
    Finished,
    /// A step has failed.
    Failed,
}

/// What a builder answers: the next action, or why it gave up.
pub type Answer<X> = Result<BuildAction, VmError<X>>;

/// What the vCPU `vcpu` is created with.
pub open spec fn create_config<E>(
    config: AxVMConfig<E>,
    arch: GuestArch,
    vcpu: VCpuAffinity,
) -> VCpuCreateConfig {
    match arch {
        GuestArch::Aarch64 => VCpuCreateConfig::Aarch64 {
            mpidr_el1: vcpu.pcpu_id as u64,
            dtb_addr: match config.dtb_load_gpa {
                Some(gpa) => gpa,
                None => 0,
            },
        },
        GuestArch::Riscv64 => VCpuCreateConfig::Riscv64 {
            hart_id: vcpu.vcpu_id,
            dtb_addr: match config.dtb_load_gpa {
                Some(gpa) => gpa,
                None => RISCV_DTB_DEFAULT,
            },
        },
        GuestArch::X86_64 => VCpuCreateConfig::X86_64,
    }
}

/// The creation of the vCPU at index `i`.
pub open spec fn create_vcpu<E>(config: AxVMConfig<E>, arch: GuestArch, i: int) -> BuildAction {
    let vcpu = config.vcpus@[i];
    BuildAction::CreateVCpu {
        vcpu_id: vcpu.vcpu_id,
        favor_phys_cpu: 0,
        phys_cpu_set: vcpu.phys_cpu_set,
        arch_config: create_config(config, arch, vcpu),
    }
}

/// The creation of the address space.
pub open spec fn create_space() -> BuildAction {
    BuildAction::CreateAddressSpace { base: VM_ASPACE_BASE, size: VM_ASPACE_SIZE }
}

/// The allocation of host memory for `region` at the region's own address.
pub open spec fn alloc_region(region: MemoryRegion) -> BuildAction {
    BuildAction::AllocRegion { hpa: region.gpa, size: region.size }
}

/// The mapping of `region` to the host memory at its own address.
pub open spec fn map_identical(region: MemoryRegion) -> BuildAction {
    BuildAction::MapLinear {
        gpa: region.gpa,
        hpa: region.gpa,
        size: region.size,
        flags: region.flags,
    }
}

/// The mapping of `region` to frames that are allocated at once.
pub open spec fn map_allocated(region: MemoryRegion) -> BuildAction {
    BuildAction::MapAlloc {
        gpa: region.gpa,
        size: region.size,
        flags: region.flags,
        populate: true,
    }
}

/// The mapping of a passed-through device.
pub open spec fn map_device(device: PassThroughDevice) -> BuildAction {
    BuildAction::MapLinear {
        gpa: device.base_gpa,
        hpa: device.base_hpa,
        size: device.length,
        flags: device_memory(),
    }
}

/// The setup of the vCPU at index `i`: vCPU 0 starts at the bootstrap entry, the
/// others at that of the application processors.
pub open spec fn setup_vcpu<E>(config: AxVMConfig<E>, root: usize, i: int) -> BuildAction {
    BuildAction::SetupVCpu {
        index: i as usize,
        entry: if config.vcpus@[i].vcpu_id == 0 {
            config.bsp_entry
        } else {
            config.ap_entry
        },
        ept_root: root,
    }
}

/// Where the builder is once the vCPUs before index `i` are created.
pub open spec fn at_vcpu<E, X>(config: AxVMConfig<E>, arch: GuestArch, i: int) -> (
    Phase,
    Answer<X>,
) {
    if i < config.vcpus@.len() {
        (Phase::VCpu(i as usize), Ok(create_vcpu(config, arch, i)))
    } else {
        (Phase::Space, Ok(create_space()))
    }
}

/// Where the builder is once the memory regions before index `i` are done with.
/// A region whose flags are no mapping flags ends the assembly; one that is marked
/// as device memory is passed over.
pub open spec fn at_region<E, X>(config: AxVMConfig<E>, i: int) -> (Phase, Answer<X>)
    decreases config.memory_regions@.len() - i,
{
    if 0 <= i < config.memory_regions@.len() {
        let region = config.memory_regions@[i];
        if !known_flags(region.flags) {
            (Phase::Failed, Err(VmError::InvalidInput))
        } else if has_device(region.flags) {
            at_region(config, i + 1)
        } else {
            match region.map_type {
                VmMemMappingType::MapIentical => (
                    Phase::Alloc(i as usize),
                    Ok(alloc_region(region)),
                ),
                VmMemMappingType::MapAlloc => (
                    Phase::MapRegion(i as usize),
                    Ok(map_allocated(region)),
                ),
            }
        }
    } else {
        at_device(config, 0)
    }
}

/// Where the builder is once the passed-through devices before index `i` are
/// mapped.
pub open spec fn at_device<E, X>(config: AxVMConfig<E>, i: int) -> (Phase, Answer<X>) {
    if i < config.pass_through_devices@.len() {
        (Phase::MapDevice(i as usize), Ok(map_device(config.pass_through_devices@[i])))
    } else {
        (Phase::Devices, Ok(BuildAction::CreateDevices))
    }
}

/// Where the builder is once the vCPUs before index `i` are set up.
pub open spec fn at_setup<E, X>(config: AxVMConfig<E>, root: usize, i: int) -> (Phase, Answer<X>) {
    if i < config.vcpus@.len() {
        (Phase::Setup(i as usize), Ok(setup_vcpu(config, root, i)))
    } else {
        (Phase::Finished, Ok(BuildAction::Finish))
    }
}

/// Where the builder is once the action of `phase` has succeeded. `granted` says
/// whether host memory could be allocated: a region without it is not mapped.
pub open spec fn advance<E, X>(
    config: AxVMConfig<E>,
    arch: GuestArch,
    root: usize,
    phase: Phase,
    granted: bool,
) -> (Phase, Answer<X>) {
    match phase {
        Phase::VCpu(i) => at_vcpu(config, arch, i + 1),
        Phase::Space => at_region(config, 0),
        Phase::Alloc(i) => if granted {
            (Phase::MapRegion(i), Ok(map_identical(config.memory_regions@[i as int])))
        } else {
            at_region(config, i + 1)
        },
        Phase::MapRegion(i) => at_region(config, i + 1),
        Phase::MapDevice(i) => at_device(config, i + 1),
        Phase::Devices => at_setup(config, root, 0),
        Phase::Setup(i) => at_setup(config, root, i + 1),
        Phase::Finished | Phase::Failed => (phase, Err(VmError::BadState)),
    }
}

/// A VM that is being assembled.
pub struct VmBuilder<V, D, E> {
    pub config: AxVMConfig<E>,
    pub arch: GuestArch,
    pub phase: Phase,
    /// The vCPUs created so far.
    pub vcpu_list: Vec<Arc<V>>,
    /// The root of the page table, once the address space exists.
    pub ept_root: usize,
    /// The emulated devices, once they exist.
    pub devices: Option<D>,
}

impl<V, D, E> VmBuilder<V, D, E> {
    /// The index of the phase lies within the configuration, and what the phase
    /// builds on has been created.
    pub open spec fn wf(self) -> bool {
        let n = self.config.vcpus@.len();
        match self.phase {
            Phase::VCpu(i) => i < n && self.vcpu_list@.len() == i,
            Phase::Space | Phase::Devices => self.vcpu_list@.len() == n,
            Phase::Alloc(i) | Phase::MapRegion(i) => self.vcpu_list@.len() == n && i
                < self.config.memory_regions@.len(),
            Phase::MapDevice(i) => self.vcpu_list@.len() == n && i
                < self.config.pass_through_devices@.len(),
            Phase::Setup(i) => self.vcpu_list@.len() == n && i < n && self.devices is Some,
            Phase::Finished => self.vcpu_list@.len() == n && self.devices is Some,
            Phase::Failed => true,
        }
    }

    /// `event` is an outcome of the action that is under way.
    pub open spec fn expects<X>(self, event: BuildEvent<V, D, X>) -> bool {
        match self.phase {
            Phase::VCpu(_) => event is VCpuCreated || event is Failed,
            Phase::Space => event is SpaceCreated || event is Failed,
            Phase::Alloc(_) => event is RegionAllocated,
            Phase::MapRegion(_) | Phase::MapDevice(_) => event is Mapped || event is Failed,
            Phase::Devices => event is DevicesCreated,
            Phase::Setup(_) => event is VCpuReady || event is Failed,
            Phase::Finished | Phase::Failed => false,
        }
    }

    /// The outcome `event` takes this builder to `after`, with this answer. A vCPU
    /// that was created is put at the end of the list; the root of the page table
    /// and the emulated devices are kept.
    pub open spec fn moves_to<X>(
        self,
        event: BuildEvent<V, D, X>,
        after: Self,
        answer: Answer<X>,
    ) -> bool {
        &&& after.wf()
        &&& after.config == self.config
        &&& after.arch == self.arch
        &&& (after.phase, answer) == (match event {
            BuildEvent::Failed(x) => (Phase::Failed, Err(VmError::Host(x))),
            _ => advance(
                self.config,
                self.arch,
                self.ept_root,
                self.phase,
                event == BuildEvent::<V, D, X>::RegionAllocated(true),
            ),
        })
        &&& after.vcpu_list@ == (match event {
            BuildEvent::VCpuCreated(vcpu) => self.vcpu_list@.push(vcpu),
            _ => self.vcpu_list@,
        })
        &&& after.ept_root == (match event {
            BuildEvent::SpaceCreated { root } => root,
            _ => self.ept_root,
        })
        &&& after.devices == (match event {
            BuildEvent::DevicesCreated(devices) => Some(devices),
            _ => self.devices,
        })
    }

    /// Starts the assembly; gives the first action.
    pub fn new(config: AxVMConfig<E>, arch: GuestArch) -> (r: (Self, BuildAction))
        ensures
            r.0.wf(),
            r.0.config == config,
            r.0.arch == arch,
            r.0.vcpu_list@ == Seq::<Arc<V>>::empty(),
            r.0.devices is None,
            at_vcpu::<E, ()>(config, arch, 0) == (r.0.phase, Ok::<BuildAction, VmError<()>>(r.1)),
            config.vcpus@.len() == 0 ==> r.1 == (BuildAction::CreateAddressSpace {
                base: 0,
                size: 0x7fff_ffff_f000,
            }),
            config.vcpus@.len() > 0 ==> (r.1 matches BuildAction::CreateVCpu {
                vcpu_id,
                favor_phys_cpu,
                phys_cpu_set,
                arch_config,
            } && vcpu_id == config.vcpus@[0].vcpu_id && favor_phys_cpu == 0 && phys_cpu_set
                == config.vcpus@[0].phys_cpu_set && arch_config == create_config(
                config,
                arch,
                config.vcpus@[0],
            )),
    {
        let mut builder = VmBuilder {
            config,
            arch,
            phase: Phase::Space,
            vcpu_list: Vec::new(),
            ept_root: 0,
            devices: None,
        };
        let action = builder.enter_vcpu(0);
        (builder, action)
    }

    /// Takes the outcome of the action that is under way; gives the next action,
    /// or the reason why there is none.
    pub fn next<X>(&mut self, event: BuildEvent<V, D, X>) -> (r: Answer<X>)
        requires
            old(self).wf(),
            old(self).expects(event),
        ensures
            old(self).moves_to(event, *final(self), r),
            final(self).wf(),
            final(self).config == old(self).config,
            final(self).arch == old(self).arch,
            event matches BuildEvent::Failed(x) ==> final(self).phase is Failed && r == Err::<
                BuildAction,
                VmError<X>,
            >(VmError::Host(x)),
            final(self).vcpu_list@ == (match event {
                BuildEvent::VCpuCreated(vcpu) => old(self).vcpu_list@.push(vcpu),
                _ => old(self).vcpu_list@,
            }),
            final(self).ept_root == (match event {
                BuildEvent::SpaceCreated { root } => root,
                _ => old(self).ept_root,
            }),
            final(self).devices == (match event {
                BuildEvent::DevicesCreated(devices) => Some(devices),
                _ => old(self).devices,
            }),
    {
        assert(self.config.vcpus.len() == self.config.vcpus@.len());
        assert(self.config.memory_regions.len() == self.config.memory_regions@.len());
        assert(self.config.pass_through_devices.len() == self.config.pass_through_devices@.len());
        match (self.phase, event) {
            (_, BuildEvent::Failed(x)) => {
                self.phase = Phase::Failed;
                Err(VmError::Host(x))
            },
            (Phase::VCpu(i), BuildEvent::VCpuCreated(vcpu)) => {
                self.vcpu_list.push(vcpu);
                Ok(self.enter_vcpu(i + 1))
            },
            (Phase::Space, BuildEvent::SpaceCreated { root }) => {
                self.ept_root = root;
                self.enter_region(0)
            },
            (Phase::Alloc(i), BuildEvent::RegionAllocated(true)) => {
                let region: MemoryRegion = self.config.memory_regions[i];
                self.phase = Phase::MapRegion(i);
                Ok(
                    BuildAction::MapLinear {
                        gpa: region.gpa,
                        hpa: region.gpa,
                        size: region.size,
                        flags: region.flags,
                    },
                )
            },
            (Phase::Alloc(i), _) | (Phase::MapRegion(i), _) => self.enter_region(i + 1),
            (Phase::MapDevice(i), _) => Ok(self.enter_device(i + 1)),
            (Phase::Devices, BuildEvent::DevicesCreated(devices)) => {
                self.devices = Some(devices);
                Ok(self.enter_setup(0))
            },
            (Phase::Setup(i), _) => Ok(self.enter_setup(i + 1)),
            _ => Err(VmError::BadState),
        }
    }

    /// The emulated devices that the configuration asks for, in its order. The
    /// passed-through ones are not among them.
    pub fn emu_devices(&self) -> (r: &[E])
        ensures
            r@ == self.config.emu_devices@,
    {
        self.config.emu_devices.as_slice()
    }

    fn enter_vcpu(&mut self, i: usize) -> (action: BuildAction)
        requires
            i <= old(self).config.vcpus@.len(),
            old(self).vcpu_list@.len() == i,
        ensures
            final(self).wf(),
            at_vcpu::<E, ()>(old(self).config, old(self).arch, i as int) == (
                final(self).phase,
                Ok::<BuildAction, VmError<()>>(action),
            ),
            *final(self) == (VmBuilder { phase: final(self).phase, ..*old(self) }),
    {
        if i < self.config.vcpus.len() {
            let vcpu: VCpuAffinity = self.config.vcpus[i];
            let arch_config = match self.arch {
                GuestArch::Aarch64 => VCpuCreateConfig::Aarch64 {
                    mpidr_el1: vcpu.pcpu_id as u64,
                    dtb_addr: match self.config.dtb_load_gpa {
                        Some(gpa) => gpa,
                        None => 0,
                    },
                },
                GuestArch::Riscv64 => VCpuCreateConfig::Riscv64 {
                    hart_id: vcpu.vcpu_id,
                    dtb_addr: match self.config.dtb_load_gpa {
                        Some(gpa) => gpa,
                        None => RISCV_DTB_DEFAULT,
                    },
                },
                GuestArch::X86_64 => VCpuCreateConfig::X86_64,
            };
            self.phase = Phase::VCpu(i);
            BuildAction::CreateVCpu {
                vcpu_id: vcpu.vcpu_id,
                favor_phys_cpu: 0,
                phys_cpu_set: vcpu.phys_cpu_set,
                arch_config,
            }
        } else {
            self.phase = Phase::Space;
            BuildAction::CreateAddressSpace { base: VM_ASPACE_BASE, size: VM_ASPACE_SIZE }
        }
    }

    fn enter_region<X>(&mut self, start: usize) -> (r: Answer<X>)
        requires
            start <= old(self).config.memory_regions@.len(),
            old(self).vcpu_list@.len() == old(self).config.vcpus@.len(),
        ensures
            final(self).wf(),
            (final(self).phase, r) == at_region::<E, X>(old(self).config, start as int),
            *final(self) == (VmBuilder { phase: final(self).phase, ..*old(self) }),
    {
        let mut i: usize = start;
        while i < self.config.memory_regions.len()
            invariant
                *self == *old(self),
                i <= self.config.memory_regions@.len(),
                self.vcpu_list@.len() == self.config.vcpus@.len(),
                at_region::<E, X>(self.config, start as int) == at_region::<E, X>(
                    self.config,
                    i as int,
                ),
            decreases self.config.memory_regions@.len() - i,
        {
            let region: MemoryRegion = self.config.memory_regions[i];
            let flags: usize = match mapping_flags(region.flags) {
                Some(flags) => flags,
                None => {
                    self.phase = Phase::Failed;
                    return Err(VmError::InvalidInput);
                },
            };
            if !is_device(flags) {
                match region.map_type {
                    VmMemMappingType::MapIentical => {
                        self.phase = Phase::Alloc(i);
                        return Ok(BuildAction::AllocRegion { hpa: region.gpa, size: region.size });
                    },
                    VmMemMappingType::MapAlloc => {
                        self.phase = Phase::MapRegion(i);
                        return Ok(
                            BuildAction::MapAlloc {
                                gpa: region.gpa,
                                size: region.size,
                                flags,
                                populate: true,
                            },
                        );
                    },
                }
            }
            i += 1;
        }
        Ok(self.enter_device(0))
    }

    fn enter_device(&mut self, i: usize) -> (action: BuildAction)
        requires
            i <= old(self).config.pass_through_devices@.len(),
            old(self).vcpu_list@.len() == old(self).config.vcpus@.len(),
        ensures
            final(self).wf(),
            at_device::<E, ()>(old(self).config, i as int) == (
                final(self).phase,
                Ok::<BuildAction, VmError<()>>(action),
            ),
            *final(self) == (VmBuilder { phase: final(self).phase, ..*old(self) }),
    {
        if i < self.config.pass_through_devices.len() {
            let device: PassThroughDevice = self.config.pass_through_devices[i];
            self.phase = Phase::MapDevice(i);
            BuildAction::MapLinear {
                gpa: device.base_gpa,
                hpa: device.base_hpa,
                size: device.length,
                flags: device_memory_flags(),
            }
        } else {
            self.phase = Phase::Devices;
            BuildAction::CreateDevices
        }
    }

    fn enter_setup(&mut self, i: usize) -> (action: BuildAction)
        requires
            i <= old(self).config.vcpus@.len(),
            old(self).vcpu_list@.len() == old(self).config.vcpus@.len(),
            old(self).devices is Some,
        ensures
            final(self).wf(),
            at_setup::<E, ()>(old(self).config, old(self).ept_root, i as int) == (
                final(self).phase,
                Ok::<BuildAction, VmError<()>>(action),
            ),
            *final(self) == (VmBuilder { phase: final(self).phase, ..*old(self) }),
    {
        if i < self.config.vcpus.len() {
            let entry: usize = if self.config.vcpus[i].vcpu_id == 0 {
                self.config.bsp_entry
            } else {
                self.config.ap_entry
            };
            self.phase = Phase::Setup(i);
            BuildAction::SetupVCpu { index: i, entry, ept_root: self.ept_root }
        } else {
            self.phase = Phase::Finished;
            BuildAction::Finish
        }
    }
}

/// The index of the phase lies within the configuration.
pub open spec fn in_range<E>(config: AxVMConfig<E>, phase: Phase) -> bool {
    match phase {
        Phase::VCpu(i) | Phase::Setup(i) => i < config.vcpus@.len(),
        Phase::Alloc(i) | Phase::MapRegion(i) => i < config.memory_regions@.len(),
        Phase::MapDevice(i) => i < config.pass_through_devices@.len(),
        _ => true,
    }
}

/// How many kinds of work are still ahead.
pub open spec fn stage(phase: Phase) -> nat {
    match phase {
        Phase::VCpu(_) => 6,
        Phase::Space => 5,
        Phase::Alloc(_) | Phase::MapRegion(_) => 4,
        Phase::MapDevice(_) => 3,
        Phase::Devices => 2,
        Phase::Setup(_) => 1,
        Phase::Finished | Phase::Failed => 0,
    }
}

/// How much of the present kind of work is still ahead.
pub open spec fn left<E>(config: AxVMConfig<E>, phase: Phase) -> int {
    match phase {
        Phase::VCpu(i) | Phase::Setup(i) => config.vcpus@.len() - i,
        Phase::Alloc(i) => 2 * (config.memory_regions@.len() - i) + 1,
        Phase::MapRegion(i) => 2 * (config.memory_regions@.len() - i),
        Phase::MapDevice(i) => config.pass_through_devices@.len() - i,
        _ => 0,
    }
}

/// Whether the allocation that is under way, if one is, succeeds.
pub open spec fn granted_in(phase: Phase, grants: spec_fn(int) -> bool) -> bool {
    match phase {
        Phase::Alloc(i) => grants(i as int),
        _ => false,
    }
}

/// Everything that a builder still answers after the action of `phase`, if the
/// host fails in nothing and the host memory of region `i` can be allocated just
/// where `grants(i)` holds.
pub open spec fn run<E, X>(
    config: AxVMConfig<E>,
    arch: GuestArch,
    root: usize,
    grants: spec_fn(int) -> bool,
    phase: Phase,
) -> Seq<Answer<X>>
    decreases stage(phase), left(config, phase),
    when in_range(config, phase)
{
    if stage(phase) == 0 {
        Seq::empty()
    } else {
        let next = advance::<E, X>(config, arch, root, phase, granted_in(phase, grants));
        proof {
            law_assembly_makes_progress::<E, X>(
                config,
                arch,
                root,
                phase,
                granted_in(phase, grants),
            );
        }
        seq![next.1] + run(config, arch, root, grants, next.0)
    }
}

proof fn lemma_lengths<E>(config: AxVMConfig<E>)
    ensures
        config.vcpus@.len() <= usize::MAX,
        config.memory_regions@.len() <= usize::MAX,
        config.pass_through_devices@.len() <= usize::MAX,
{
    assert(config.vcpus.len() == config.vcpus@.len());
    assert(config.memory_regions.len() == config.memory_regions@.len());
    assert(config.pass_through_devices.len() == config.pass_through_devices@.len());
}

proof fn lemma_region_in_range<E, X>(config: AxVMConfig<E>, i: int)
    requires
        0 <= i <= config.memory_regions@.len(),
    ensures
        ({
            let q = at_region::<E, X>(config, i).0;
            &&& in_range(config, q)
            &&& stage(q) <= 4
            &&& stage(q) == 4 ==> left(config, q) <= 2 * (config.memory_regions@.len() - i) + 1
        }),
    decreases config.memory_regions@.len() - i,
{
    lemma_lengths(config);
    if i < config.memory_regions@.len() {
        lemma_region_in_range::<E, X>(config, i + 1);
    }
}

/// An assembly comes to an end: every success leaves less work than before, and
/// the index of the next phase lies within the configuration.
pub proof fn law_assembly_makes_progress<E, X>(
    config: AxVMConfig<E>,
    arch: GuestArch,
    root: usize,
    phase: Phase,
    granted: bool,
)
    requires
        in_range(config, phase),
        stage(phase) > 0,
    ensures
        ({
            let q = advance::<E, X>(config, arch, root, phase, granted).0;
            &&& in_range(config, q)
            &&& stage(q) < stage(phase) || stage(q) == stage(phase) && 0 <= left(config, q)
                < left(config, phase)
        }),
{
    lemma_lengths(config);
    match phase {
        Phase::Space => lemma_region_in_range::<E, X>(config, 0),
        Phase::Alloc(i) | Phase::MapRegion(i) => lemma_region_in_range::<E, X>(config, i + 1),
        _ => {},
    }
}

/// The last part of an assembly, from the setup of the vCPU at index `i` on: the
/// vCPUs are set up in order.
pub open spec fn setup_plan<E, X>(config: AxVMConfig<E>, root: usize, i: int) -> Seq<Answer<X>> {
    Seq::new(
        (config.vcpus@.len() - i) as nat,
        |k: int| Ok::<BuildAction, VmError<X>>(setup_vcpu(config, root, i + k)),
    ).push(Ok(BuildAction::Finish))
}

/// The part from the passed-through device at index `i` on: the devices are
/// mapped in order, then the emulated ones are created.
pub open spec fn device_plan<E, X>(config: AxVMConfig<E>, root: usize, i: int) -> Seq<Answer<X>> {
    Seq::new(
        (config.pass_through_devices@.len() - i) as nat,
        |k: int|
            Ok::<BuildAction, VmError<X>>(map_device(config.pass_through_devices@[i + k])),
    ).push(Ok(BuildAction::CreateDevices)) + setup_plan(config, root, 0)
}

/// What is done for one memory region.
pub open spec fn region_actions<X>(region: MemoryRegion, granted: bool) -> Seq<Answer<X>> {
    if has_device(region.flags) {
        Seq::empty()
    } else if region.map_type == VmMemMappingType::MapAlloc {
        seq![Ok(map_allocated(region))]
    } else if granted {
        seq![Ok(alloc_region(region)), Ok(map_identical(region))]
    } else {
        seq![Ok(alloc_region(region))]
    }
}

/// The part from the memory region at index `i` on: the regions are done in order,
/// up to the first whose flags are no mapping flags, which ends the assembly.
pub open spec fn region_plan<E, X>(
    config: AxVMConfig<E>,
    root: usize,
    grants: spec_fn(int) -> bool,
    i: int,
) -> Seq<Answer<X>>
    decreases config.memory_regions@.len() - i,
{
    if 0 <= i < config.memory_regions@.len() {
        let region = config.memory_regions@[i];
        if !known_flags(region.flags) {
            seq![Err(VmError::InvalidInput)]
        } else {
            region_actions(region, grants(i)) + region_plan(config, root, grants, i + 1)
        }
    } else {
        device_plan(config, root, 0)
    }
}

/// Everything that is done to assemble a VM, in order: the vCPUs are created, then
/// the address space; the memory regions and the passed-through devices are
/// mapped; the emulated devices are created, and the vCPUs set up.
pub open spec fn plan<E, X>(
    config: AxVMConfig<E>,
    arch: GuestArch,
    root: usize,
    grants: spec_fn(int) -> bool,
) -> Seq<Answer<X>> {
    Seq::new(
        config.vcpus@.len(),
        |k: int| Ok::<BuildAction, VmError<X>>(create_vcpu(config, arch, k)),
    ).push(Ok(create_space())) + region_plan(config, root, grants, 0)
}

/// A builder whose host fails in nothing goes through the plan, from its first
/// action to its last.
pub proof fn law_assembly_follows_plan<E, X>(
    config: AxVMConfig<E>,
    arch: GuestArch,
    root: usize,
    grants: spec_fn(int) -> bool,
)
    ensures
        seq![at_vcpu::<E, X>(config, arch, 0).1] + run::<E, X>(
            config,
            arch,
            root,
            grants,
            at_vcpu::<E, X>(config, arch, 0).0,
        ) == plan::<E, X>(config, arch, root, grants),
{
    lemma_vcpu_run::<E, X>(config, arch, root, grants, 0);
    assert(Seq::new(
        (config.vcpus@.len() - 0) as nat,
        |k: int| Ok::<BuildAction, VmError<X>>(create_vcpu(config, arch, 0 + k)),
    ) =~= Seq::new(
        config.vcpus@.len(),
        |k: int| Ok::<BuildAction, VmError<X>>(create_vcpu(config, arch, k)),
    ));
}

proof fn lemma_run_step<E, X>(
    config: AxVMConfig<E>,
    arch: GuestArch,
    root: usize,
    grants: spec_fn(int) -> bool,
    phase: Phase,
)
    requires
        in_range(config, phase),
        stage(phase) > 0,
    ensures
        ({
            let next = advance::<E, X>(config, arch, root, phase, granted_in(phase, grants));
            run::<E, X>(config, arch, root, grants, phase) == seq![next.1] + run::<E, X>(
                config,
                arch,
                root,
                grants,
                next.0,
            )
        }),
{
    law_assembly_makes_progress::<E, X>(config, arch, root, phase, granted_in(phase, grants));
}

proof fn lemma_vcpu_run<E, X>(
    config: AxVMConfig<E>,
    arch: GuestArch,
    root: usize,
    grants: spec_fn(int) -> bool,
    i: int,
)
    requires
        0 <= i <= config.vcpus@.len(),
    ensures
        seq![at_vcpu::<E, X>(config, arch, i).1] + run::<E, X>(
            config,
            arch,
            root,
            grants,
            at_vcpu::<E, X>(config, arch, i).0,
        ) == Seq::new(
            (config.vcpus@.len() - i) as nat,
            |k: int| Ok::<BuildAction, VmError<X>>(create_vcpu(config, arch, i + k)),
        ).push(Ok(create_space())) + region_plan::<E, X>(config, root, grants, 0),
    decreases config.vcpus@.len() - i,
{
    lemma_lengths(config);
    let here = seq![at_vcpu::<E, X>(config, arch, i).1] + run::<E, X>(
        config,
        arch,
        root,
        grants,
        at_vcpu::<E, X>(config, arch, i).0,
    );
    let expected = Seq::new(
        (config.vcpus@.len() - i) as nat,
        |k: int| Ok::<BuildAction, VmError<X>>(create_vcpu(config, arch, i + k)),
    ).push(Ok(create_space())) + region_plan::<E, X>(config, root, grants, 0);
    if i < config.vcpus@.len() {
        lemma_vcpu_run::<E, X>(config, arch, root, grants, i + 1);
    } else {
        lemma_region_run::<E, X>(config, arch, root, grants, 0);
        lemma_run_step::<E, X>(config, arch, root, grants, Phase::Space);
    }
    assert(here =~= expected);
}

proof fn lemma_region_run<E, X>(
    config: AxVMConfig<E>,
    arch: GuestArch,
    root: usize,
    grants: spec_fn(int) -> bool,
    i: int,
)
    requires
        0 <= i <= config.memory_regions@.len(),
    ensures
        seq![at_region::<E, X>(config, i).1] + run::<E, X>(
            config,
            arch,
            root,
            grants,
            at_region::<E, X>(config, i).0,
        ) == region_plan::<E, X>(config, root, grants, i),
    decreases config.memory_regions@.len() - i,
{
    lemma_lengths(config);
    let here = seq![at_region::<E, X>(config, i).1] + run::<E, X>(
        config,
        arch,
        root,
        grants,
        at_region::<E, X>(config, i).0,
    );
    if i < config.memory_regions@.len() {
        lemma_region_run::<E, X>(config, arch, root, grants, i + 1);
        let region = config.memory_regions@[i];
        let rest = region_plan::<E, X>(config, root, grants, i + 1);
        if known_flags(region.flags) && !has_device(region.flags) {
            let mapped = run::<E, X>(config, arch, root, grants, Phase::MapRegion(i as usize));
            lemma_run_step::<E, X>(config, arch, root, grants, Phase::MapRegion(i as usize));
            assert(mapped =~= rest);
            if region.map_type == VmMemMappingType::MapIentical {
                let allocated = run::<E, X>(config, arch, root, grants, Phase::Alloc(i as usize));
                if grants(i) {
                    assert(allocated =~= seq![Ok(map_identical(region))] + mapped);
                } else {
                    assert(allocated =~= rest);
                }
            }
        }
        assert(here =~= region_plan::<E, X>(config, root, grants, i));
    } else {
        lemma_device_run::<E, X>(config, arch, root, grants, 0);
    }
}

proof fn lemma_device_run<E, X>(
    config: AxVMConfig<E>,
    arch: GuestArch,
    root: usize,
    grants: spec_fn(int) -> bool,
    i: int,
)
    requires
        0 <= i <= config.pass_through_devices@.len(),
    ensures
        seq![at_device::<E, X>(config, i).1] + run::<E, X>(
            config,
            arch,
            root,
            grants,
            at_device::<E, X>(config, i).0,
        ) == device_plan::<E, X>(config, root, i),
    decreases config.pass_through_devices@.len() - i,
{
    lemma_lengths(config);
    let here = seq![at_device::<E, X>(config, i).1] + run::<E, X>(
        config,
        arch,
        root,
        grants,
        at_device::<E, X>(config, i).0,
    );
    if i < config.pass_through_devices@.len() {
        lemma_device_run::<E, X>(config, arch, root, grants, i + 1);
    } else {
        lemma_setup_run::<E, X>(config, arch, root, grants, 0);
    }
    assert(here =~= device_plan::<E, X>(config, root, i));
}

proof fn lemma_setup_run<E, X>(
    config: AxVMConfig<E>,
    arch: GuestArch,
    root: usize,
    grants: spec_fn(int) -> bool,
    i: int,
)
    requires
        0 <= i <= config.vcpus@.len(),
    ensures
        seq![at_setup::<E, X>(config, root, i).1] + run::<E, X>(
            config,
            arch,
            root,
            grants,
            at_setup::<E, X>(config, root, i).0,
        ) == setup_plan::<E, X>(config, root, i),
    decreases config.vcpus@.len() - i,
{
    lemma_lengths(config);
    let here = seq![at_setup::<E, X>(config, root, i).1] + run::<E, X>(
        config,
        arch,
        root,
        grants,
        at_setup::<E, X>(config, root, i).0,
    );
    if i < config.vcpus@.len() {
        lemma_setup_run::<E, X>(config, arch, root, grants, i + 1);
    }
    assert(here =~= setup_plan::<E, X>(config, root, i));
}

/// An assembly whose host fails in nothing is completed just where every memory
/// region has valid mapping flags; else it ends as invalid input.
pub proof fn law_invalid_flags_are_refused<E, X>(
    config: AxVMConfig<E>,
    arch: GuestArch,
    root: usize,
    grants: spec_fn(int) -> bool,
)
    ensures
        plan::<E, X>(config, arch, root, grants).last() == (if all_flags_known(config, 0) {
            Ok::<BuildAction, VmError<X>>(BuildAction::Finish)
        } else {
            Err(VmError::InvalidInput)
        }),
{
    lemma_region_plan_ends::<E, X>(config, root, grants, 0);
}

/// The memory regions from index `i` on have valid mapping flags.
pub open spec fn all_flags_known<E>(config: AxVMConfig<E>, i: int) -> bool {
    forall|k: int|
        i <= k < config.memory_regions@.len() ==> known_flags(
            (#[trigger] config.memory_regions@[k]).flags,
        )
}

proof fn lemma_region_plan_ends<E, X>(
    config: AxVMConfig<E>,
    root: usize,
    grants: spec_fn(int) -> bool,
    i: int,
)
    requires
        0 <= i <= config.memory_regions@.len(),
    ensures
        region_plan::<E, X>(config, root, grants, i).len() > 0,
        region_plan::<E, X>(config, root, grants, i).last() == (if all_flags_known(config, i) {
            Ok::<BuildAction, VmError<X>>(BuildAction::Finish)
        } else {
            Err(VmError::InvalidInput)
        }),
    decreases config.memory_regions@.len() - i,
{
    if i < config.memory_regions@.len() {
        lemma_region_plan_ends::<E, X>(config, root, grants, i + 1);
        if known_flags(config.memory_regions@[i].flags) {
            assert(all_flags_known(config, i) <==> all_flags_known(config, i + 1)) by {
                if all_flags_known(config, i + 1) {
                    assert forall|k: int| i <= k < config.memory_regions@.len() implies known_flags(
                        (#[trigger] config.memory_regions@[k]).flags,
                    ) by {
                        if k > i {
                            assert(i + 1 <= k);
                        }
                    }
                }
            }
        } else {
            assert(!all_flags_known(config, i));
        }
    }
}

/// An assembly from its start: `states[t]` is where the builder is when `events[t]`
/// comes, and `answers[t]` what it then answers.
pub open spec fn is_assembly<V, D, E, X>(
    states: Seq<VmBuilder<V, D, E>>,
    events: Seq<BuildEvent<V, D, X>>,
    answers: Seq<Answer<X>>,
) -> bool {
    &&& states.len() == events.len() + 1
    &&& answers.len() == events.len()
    &&& states[0].wf()
    &&& states[0].vcpu_list@.len() == 0
    &&& states[0].phase == at_vcpu::<E, X>(states[0].config, states[0].arch, 0).0
    &&& forall|t: int|
        0 <= t < events.len() ==> {
            &&& states[t].expects(#[trigger] events[t])
            &&& states[t].moves_to(events[t], states[t + 1], answers[t])
        }
}

/// The vCPU at index `i` of the list is the one that was created for entry `i` of the
/// configuration: outcome `i` of an assembly brought it, and answered the action that
/// creates it.
pub proof fn law_vcpus_are_in_order<V, D, E, X>(
    states: Seq<VmBuilder<V, D, E>>,
    events: Seq<BuildEvent<V, D, X>>,
    answers: Seq<Answer<X>>,
)
    requires
        is_assembly(states, events, answers),
    ensures
        states.last().config == states[0].config,
        states.last().vcpu_list@.len() <= events.len(),
        forall|i: int|
            0 <= i < states.last().vcpu_list@.len() ==> {
                &&& states[i].phase == Phase::VCpu(i as usize)
                &&& #[trigger] events[i] == BuildEvent::<V, D, X>::VCpuCreated(
                    states.last().vcpu_list@[i],
                )
                &&& i > 0 ==> answers[i - 1] == Ok::<BuildAction, VmError<X>>(
                    create_vcpu(states[0].config, states[0].arch, i),
                )
            },
{
    lemma_vcpus_so_far(states, events, answers, events.len() as int);
}

proof fn lemma_vcpus_so_far<V, D, E, X>(
    states: Seq<VmBuilder<V, D, E>>,
    events: Seq<BuildEvent<V, D, X>>,
    answers: Seq<Answer<X>>,
    n: int,
)
    requires
        is_assembly(states, events, answers),
        0 <= n <= events.len(),
    ensures
        states[n].wf(),
        states[n].config == states[0].config,
        states[n].arch == states[0].arch,
        states[n].vcpu_list@.len() <= n,
        states[n].phase matches Phase::VCpu(i) ==> i == n,
        states[n].phase is VCpu && n > 0 ==> answers[n - 1] == Ok::<BuildAction, VmError<X>>(
            create_vcpu(states[0].config, states[0].arch, n),
        ),
        forall|i: int|
            0 <= i < states[n].vcpu_list@.len() ==> {
                &&& states[i].phase == Phase::VCpu(i as usize)
                &&& #[trigger] events[i] == BuildEvent::<V, D, X>::VCpuCreated(
                    states[n].vcpu_list@[i],
                )
                &&& i > 0 ==> answers[i - 1] == Ok::<BuildAction, VmError<X>>(
                    create_vcpu(states[0].config, states[0].arch, i),
                )
            },
    decreases n,
{
    if n > 0 {
        lemma_vcpus_so_far(states, events, answers, n - 1);
        let before = states[n - 1];
        let event = events[n - 1];
        assert(before.expects(event) && before.moves_to(event, states[n - 1 + 1], answers[n - 1]));
        lemma_lengths(before.config);
        match before.phase {
            Phase::Space => lemma_region_in_range::<E, X>(before.config, 0),
            Phase::Alloc(i) | Phase::MapRegion(i) => lemma_region_in_range::<E, X>(
                before.config,
                i + 1,
            ),
            _ => {},
        }
    }
}

/// Every vCPU of a complete VM has the id of its entry in the configuration, where
/// `id_of` tells the id that a vCPU was created with.
pub proof fn law_vcpus_have_configured_ids<V, D, E, X>(
    states: Seq<VmBuilder<V, D, E>>,
    events: Seq<BuildEvent<V, D, X>>,
    answers: Seq<Answer<X>>,
    id_of: spec_fn(Arc<V>) -> usize,
)
    requires
        is_assembly(states, events, answers),
        states.last().phase is Finished,
        forall|t: int|
            0 <= t < events.len() ==> (#[trigger] events[t] matches BuildEvent::VCpuCreated(vcpu)
                ==> (states[t].phase matches Phase::VCpu(i) ==> id_of(vcpu)
                == states[0].config.vcpus@[i as int].vcpu_id)),
    ensures
        states.last().vcpu_list@.len() == states[0].config.vcpus@.len(),
        forall|i: int|
            0 <= i < states[0].config.vcpus@.len() ==> id_of(
                #[trigger] states.last().vcpu_list@[i],
            ) == states[0].config.vcpus@[i].vcpu_id,
{
    law_vcpus_are_in_order(states, events, answers);
    lemma_vcpus_so_far(states, events, answers, events.len() as int);
    lemma_lengths(states[0].config);
    assert forall|i: int| 0 <= i < states[0].config.vcpus@.len() implies id_of(
        #[trigger] states.last().vcpu_list@[i],
    ) == states[0].config.vcpus@[i].vcpu_id by {
        assert(events[i] == BuildEvent::<V, D, X>::VCpuCreated(states.last().vcpu_list@[i]));
    }
}

/// A vCPU is created with the id and the physical CPUs of its entry in the
/// configuration, and no favoured CPU. An AArch64 one is told the entry's physical CPU,
/// a RISC-V one its own id; both are told where the device tree is, for which the
/// default is 0 and 0x9000_0000.
pub proof fn law_vcpu_is_created_as_configured<E>(config: AxVMConfig<E>, arch: GuestArch, i: int)
    requires
        0 <= i < config.vcpus@.len(),
    ensures
        ({
            let entry = config.vcpus@[i];
            let dtb = config.dtb_load_gpa;
            &&& create_vcpu(config, arch, i) matches BuildAction::CreateVCpu {
                vcpu_id,
                favor_phys_cpu,
                phys_cpu_set,
                arch_config,
            }
            &&& vcpu_id == entry.vcpu_id
            &&& favor_phys_cpu == 0
            &&& phys_cpu_set == entry.phys_cpu_set
            &&& arch is X86_64 <==> arch_config is X86_64
            &&& arch is Aarch64 <==> arch_config is Aarch64
            &&& arch is Riscv64 <==> arch_config is Riscv64
            &&& arch_config matches VCpuCreateConfig::Aarch64 { mpidr_el1, dtb_addr } ==> {
                &&& mpidr_el1 == entry.pcpu_id
                &&& dtb is Some ==> dtb == Some(dtb_addr)
                &&& dtb is None ==> dtb_addr == 0
            }
            &&& arch_config matches VCpuCreateConfig::Riscv64 { hart_id, dtb_addr } ==> {
                &&& hart_id == entry.vcpu_id
                &&& dtb is Some ==> dtb == Some(dtb_addr)
                &&& dtb is None ==> dtb_addr == 0x9000_0000
            }
        }),
{
}

/// Where [`at_region`] comes to from index `j`: at the first region that is not marked as
/// device memory, or behind the last one; or it has met a region with invalid flags.
proof fn lemma_next_region<E, X>(config: AxVMConfig<E>, j: int)
    requires
        0 <= j <= config.memory_regions@.len(),
    ensures
        ({
            let regions = config.memory_regions@;
            let (phase, answer) = at_region::<E, X>(config, j);
            match phase {
                Phase::Alloc(i) => {
                    &&& j <= i < regions.len()
                    &&& regions[i as int].map_type is MapIentical
                    &&& known_flags(regions[i as int].flags)
                    &&& !has_device(regions[i as int].flags)
                    &&& answer == Ok::<BuildAction, VmError<X>>(
                        BuildAction::AllocRegion {
                            hpa: regions[i as int].gpa,
                            size: regions[i as int].size,
                        },
                    )
                    &&& forall|k: int|
                        j <= k < i ==> has_device((#[trigger] regions[k]).flags) && known_flags(
                            regions[k].flags,
                        )
                },
                Phase::MapRegion(i) => {
                    &&& j <= i < regions.len()
                    &&& regions[i as int].map_type is MapAlloc
                    &&& known_flags(regions[i as int].flags)
                    &&& !has_device(regions[i as int].flags)
                    &&& answer == Ok::<BuildAction, VmError<X>>(
                        BuildAction::MapAlloc {
                            gpa: regions[i as int].gpa,
                            size: regions[i as int].size,
                            flags: regions[i as int].flags,
                            populate: true,
                        },
                    )
                    &&& forall|k: int|
                        j <= k < i ==> has_device((#[trigger] regions[k]).flags) && known_flags(
                            regions[k].flags,
                        )
                },
                Phase::Failed => {
                    &&& answer == Err::<BuildAction, VmError<X>>(VmError::InvalidInput)
                    &&& exists|k: int|
                        j <= k < regions.len() && !known_flags((#[trigger] regions[k]).flags)
                },
                _ => {
                    &&& (phase, answer) == at_device::<E, X>(config, 0)
                    &&& phase is MapDevice || phase is Devices
                    &&& forall|k: int|
                        j <= k < regions.len() ==> has_device((#[trigger] regions[k]).flags)
                            && known_flags(regions[k].flags)
                },
            }
        }),
    decreases config.memory_regions@.len() - j,
{
    lemma_lengths(config);
    if j < config.memory_regions@.len() {
        let region = config.memory_regions@[j];
        if known_flags(region.flags) && has_device(region.flags) {
            lemma_next_region::<E, X>(config, j + 1);
        }
    }
}

/// Every action is one that the configuration asks for, with the values that stand in
/// it; what the host reported decides only whether a region is mapped at its own address.
/// An assembly is refused only for a region with a bit set that is no flag, and errors of
/// the host are handed on.
pub proof fn law_actions_are_configured<V, D, E, X>(
    before: VmBuilder<V, D, E>,
    event: BuildEvent<V, D, X>,
    after: VmBuilder<V, D, E>,
    answer: Answer<X>,
)
    requires
        before.wf(),
        before.expects(event),
        before.moves_to(event, after, answer),
    ensures
        ({
            let vcpus = before.config.vcpus@;
            let regions = before.config.memory_regions@;
            let devices = before.config.pass_through_devices@;
            match answer {
                Ok(BuildAction::CreateVCpu { vcpu_id, favor_phys_cpu, phys_cpu_set, arch_config })
                => {
                    &&& after.phase matches Phase::VCpu(i)
                    &&& i > 0
                    &&& before.phase == Phase::VCpu((i - 1) as usize)
                    &&& vcpu_id == vcpus[i as int].vcpu_id
                    &&& favor_phys_cpu == 0
                    &&& phys_cpu_set == vcpus[i as int].phys_cpu_set
                    &&& arch_config == create_config(before.config, before.arch, vcpus[i as int])
                },
                Ok(BuildAction::CreateAddressSpace { base, size }) => {
                    &&& after.phase is Space
                    &&& before.phase matches Phase::VCpu(i)
                    &&& i + 1 == vcpus.len()
                    &&& base == 0
                    &&& size == 0x7fff_ffff_f000
                },
                Ok(BuildAction::AllocRegion { hpa, size }) => {
                    &&& after.phase matches Phase::Alloc(i)
                    &&& regions[i as int].map_type is MapIentical
                    &&& regions[i as int].flags & 0x10usize == 0
                    &&& regions[i as int].flags & !0x3fusize == 0
                    &&& hpa == regions[i as int].gpa
                    &&& size == regions[i as int].size
                },
                Ok(BuildAction::MapAlloc { gpa, size, flags, populate }) => {
                    &&& after.phase matches Phase::MapRegion(i)
                    &&& regions[i as int].map_type is MapAlloc
                    &&& regions[i as int].flags & 0x10usize == 0
                    &&& regions[i as int].flags & !0x3fusize == 0
                    &&& gpa == regions[i as int].gpa
                    &&& size == regions[i as int].size
                    &&& flags == regions[i as int].flags
                    &&& populate
                },
                Ok(BuildAction::MapLinear { gpa, hpa, size, flags }) => match after.phase {
                    Phase::MapRegion(i) => {
                        &&& before.phase == Phase::Alloc(i)
                        &&& event == BuildEvent::<V, D, X>::RegionAllocated(true)
                        &&& gpa == regions[i as int].gpa
                        &&& hpa == regions[i as int].gpa
                        &&& size == regions[i as int].size
                        &&& flags == regions[i as int].flags
                    },
                    Phase::MapDevice(i) => {
                        &&& gpa == devices[i as int].base_gpa
                        &&& hpa == devices[i as int].base_hpa
                        &&& size == devices[i as int].length
                        &&& flags == 0x13
                    },
                    _ => false,
                },
                Ok(BuildAction::CreateDevices) => after.phase is Devices,
                Ok(BuildAction::SetupVCpu { index, entry, ept_root }) => {
                    &&& after.phase == Phase::Setup(index)
                    &&& vcpus[index as int].vcpu_id == 0 ==> entry == before.config.bsp_entry
                    &&& vcpus[index as int].vcpu_id != 0 ==> entry == before.config.ap_entry
                    &&& ept_root == before.ept_root
                },
                Ok(BuildAction::Finish) => after.phase is Finished,
                Err(VmError::InvalidInput) => {
                    &&& after.phase is Failed
                    &&& exists|k: int|
                        0 <= k < regions.len() && (#[trigger] regions[k]).flags & !0x3fusize != 0
                },
                Err(VmError::Host(x)) => after.phase is Failed && event == BuildEvent::<
                    V,
                    D,
                    X,
                >::Failed(x),
                Err(_) => false,
            }
        }),
{
    lemma_lengths(before.config);
    law_flags_are_bits(0x13);
    let regions = before.config.memory_regions@;
    match before.phase {
        Phase::Space => lemma_next_region::<E, X>(before.config, 0),
        Phase::Alloc(i) | Phase::MapRegion(i) => lemma_next_region::<E, X>(before.config, i + 1),
        _ => {},
    }
    match after.phase {
        Phase::Alloc(i) | Phase::MapRegion(i) => law_flags_are_bits(regions[i as int].flags),
        _ => {},
    }
    if answer == Err::<BuildAction, VmError<X>>(VmError::InvalidInput) {
        let k = choose|k: int|
            0 <= k < regions.len() && !known_flags((#[trigger] regions[k]).flags);
        law_flags_are_bits(regions[k].flags);
        assert(regions[k].flags & !0x3fusize != 0);
    }
}

/// An assembly goes through its work in order: the vCPUs, the address space, the memory
/// regions, the passed-through devices, the emulated devices, the setup of the vCPUs; of
/// each kind nothing is left out but regions that are marked as device memory, or that no
/// host memory could be had for, and nothing comes twice.
pub proof fn law_assembly_keeps_its_order<V, D, E, X>(
    before: VmBuilder<V, D, E>,
    event: BuildEvent<V, D, X>,
    after: VmBuilder<V, D, E>,
    answer: Answer<X>,
)
    requires
        before.wf(),
        before.expects(event),
        before.moves_to(event, after, answer),
        answer is Ok,
    ensures
        ({
            let vcpus = before.config.vcpus@.len();
            let regions = before.config.memory_regions@;
            let devices = before.config.pass_through_devices@.len();
            // The first region that is still to be done.
            let first: int = match before.phase {
                Phase::Alloc(i) | Phase::MapRegion(i) => i + 1,
                _ => 0,
            };
            match before.phase {
                Phase::VCpu(i) => if i + 1 < vcpus {
                    after.phase matches Phase::VCpu(j) && j == i + 1
                } else {
                    after.phase is Space
                },
                Phase::Space | Phase::Alloc(_) | Phase::MapRegion(_) => {
                    ||| {
                        &&& before.phase matches Phase::Alloc(i)
                        &&& event == BuildEvent::<V, D, X>::RegionAllocated(true)
                        &&& after.phase == Phase::MapRegion(i)
                    }
                    ||| {
                        &&& after.phase matches Phase::Alloc(j)
                        &&& first <= j < regions.len()
                        &&& forall|k: int|
                            first <= k < j ==> (#[trigger] regions[k]).flags & 0x10usize != 0
                                && regions[k].flags & !0x3fusize == 0
                    }
                    ||| {
                        &&& after.phase matches Phase::MapRegion(j)
                        &&& first <= j < regions.len()
                        &&& forall|k: int|
                            first <= k < j ==> (#[trigger] regions[k]).flags & 0x10usize != 0
                                && regions[k].flags & !0x3fusize == 0
                    }
                    ||| {
                        &&& if devices > 0 {
                            after.phase == Phase::MapDevice(0)
                        } else {
                            after.phase is Devices
                        }
                        &&& forall|k: int|
                            first <= k < regions.len() ==> (#[trigger] regions[k]).flags
                                & 0x10usize != 0 && regions[k].flags & !0x3fusize == 0
                    }
                },
                Phase::MapDevice(i) => if i + 1 < devices {
                    after.phase matches Phase::MapDevice(j) && j == i + 1
                } else {
                    after.phase is Devices
                },
                Phase::Devices => if vcpus > 0 {
                    after.phase == Phase::Setup(0)
                } else {
                    after.phase is Finished
                },
                Phase::Setup(i) => if i + 1 < vcpus {
                    after.phase matches Phase::Setup(j) && j == i + 1
                } else {
                    after.phase is Finished
                },
                Phase::Finished | Phase::Failed => false,
            }
        }),
{
    lemma_lengths(before.config);
    let regions = before.config.memory_regions@;
    assert forall|k: int| 0 <= k < regions.len() && has_device(
        (#[trigger] regions[k]).flags,
    ) && known_flags(regions[k].flags) implies regions[k].flags & 0x10usize != 0
        && regions[k].flags & !0x3fusize == 0 by {
        law_flags_are_bits(regions[k].flags);
    }
    match before.phase {
        Phase::Space => lemma_next_region::<E, X>(before.config, 0),
        Phase::Alloc(i) | Phase::MapRegion(i) => lemma_next_region::<E, X>(before.config, i + 1),
        _ => {},
    }
}

/// How many memory regions have been come to.
spec fn regions_begun<E>(config: AxVMConfig<E>, phase: Phase) -> int {
    match phase {
        Phase::VCpu(_) | Phase::Space | Phase::Failed => 0,
        Phase::Alloc(i) | Phase::MapRegion(i) => i + 1,
        _ => config.memory_regions@.len() as int,
    }
}

/// How many passed-through devices have been come to.
spec fn devices_begun<E>(config: AxVMConfig<E>, phase: Phase) -> int {
    match phase {
        Phase::MapDevice(i) => i + 1,
        Phase::Devices | Phase::Setup(_) | Phase::Finished => {
            config.pass_through_devices@.len() as int
        },
        _ => 0,
    }
}

/// How many vCPUs the setup of which has been come to.
spec fn setups_begun<E>(config: AxVMConfig<E>, phase: Phase) -> int {
    match phase {
        Phase::Setup(i) => i + 1,
        Phase::Finished => config.vcpus@.len() as int,
        _ => 0,
    }
}

proof fn lemma_move<V, D, E, X>(
    states: Seq<VmBuilder<V, D, E>>,
    events: Seq<BuildEvent<V, D, X>>,
    answers: Seq<Answer<X>>,
    t: int,
)
    requires
        is_assembly(states, events, answers),
        0 <= t < events.len(),
    ensures
        states[t].wf(),
        states[t].expects(events[t]),
        states[t].moves_to(events[t], states[t + 1], answers[t]),
        states[t].config == states[0].config,
        states[t + 1].config == states[0].config,
        states.last().phase is Finished ==> answers[t] is Ok && !(events[t] is Failed),
{
    lemma_vcpus_so_far(states, events, answers, t);
    assert(states[t].expects(events[t]));
    law_actions_are_configured(states[t], events[t], states[t + 1], answers[t]);
    if states.last().phase is Finished && t + 1 < events.len() {
        assert(states[t + 1].expects(events[t + 1]));
    }
}

/// The answer that came to region `i`.
proof fn lemma_region_begun<V, D, E, X>(
    states: Seq<VmBuilder<V, D, E>>,
    events: Seq<BuildEvent<V, D, X>>,
    answers: Seq<Answer<X>>,
    n: int,
    i: int,
) -> (t: int)
    requires
        is_assembly(states, events, answers),
        states.last().phase is Finished,
        0 <= n <= events.len(),
        0 <= i < states[0].config.memory_regions@.len(),
        i < regions_begun(states[0].config, states[n].phase),
        states[0].config.memory_regions@[i].flags & 0x10usize == 0,
    ensures
        0 <= t < n,
        states[t + 1].phase == (if states[0].config.memory_regions@[i].map_type is MapAlloc {
            Phase::MapRegion(i as usize)
        } else {
            Phase::Alloc(i as usize)
        }),
        regions_begun(states[0].config, states[t].phase) <= i,
    decreases n,
{
    if n == 0 {
        0
    } else {
        lemma_move(states, events, answers, n - 1);
        lemma_lengths(states[0].config);
        if i < regions_begun(states[0].config, states[n - 1].phase) {
            lemma_region_begun(states, events, answers, n - 1, i)
        } else {
            law_assembly_keeps_its_order(
                states[n - 1],
                events[n - 1],
                states[n],
                answers[n - 1],
            );
            law_actions_are_configured(states[n - 1], events[n - 1], states[n], answers[n - 1]);
            match states[n - 1].phase {
                Phase::Space => lemma_next_region::<E, X>(states[0].config, 0),
                Phase::Alloc(k) | Phase::MapRegion(k) => lemma_next_region::<E, X>(
                    states[0].config,
                    k + 1,
                ),
                _ => {},
            }
            n - 1
        }
    }
}

/// Guest memory is mapped as it was configured: in an assembly that is completed, every
/// region of allocated memory that is not marked as device memory is mapped, over its
/// whole length, with its own flags.
pub proof fn law_allocated_regions_are_mapped<V, D, E, X>(
    states: Seq<VmBuilder<V, D, E>>,
    events: Seq<BuildEvent<V, D, X>>,
    answers: Seq<Answer<X>>,
    region: MemoryRegion,
)
    requires
        is_assembly(states, events, answers),
        states.last().phase is Finished,
        states[0].config.memory_regions@.contains(region),
        region.map_type is MapAlloc,
        region.flags & 0x10usize == 0,
    ensures
        exists|t: int|
            #![trigger answers[t]]
            {
                &&& 0 <= t && t + 1 < events.len()
                &&& answers[t] matches Ok(BuildAction::MapAlloc { gpa, size, flags, populate })
                &&& flags == region.flags
                &&& populate
                &&& gpa == region.gpa
                &&& size == region.size
                &&& events[t + 1] is Mapped
            },
{
    let i = choose|i: int|
        0 <= i < states[0].config.memory_regions@.len() && states[0].config.memory_regions@[i]
            == region;
    let t = lemma_region_begun(states, events, answers, events.len() as int, i);
    lemma_move(states, events, answers, t);
    law_actions_are_configured(states[t], events[t], states[t + 1], answers[t]);
    lemma_lengths(states[0].config);
    lemma_move(states, events, answers, t + 1);
    match states[t].phase {
        Phase::Alloc(k) | Phase::MapRegion(k) => lemma_next_region::<E, X>(
            states[0].config,
            k + 1,
        ),
        Phase::Space => lemma_next_region::<E, X>(states[0].config, 0),
        _ => {},
    }
    assert(answers[t] is Ok);
}

/// In an assembly that is completed, host memory is asked for at the address and in the
/// size of every region that is to be mapped at its own address and is not marked as
/// device memory; where it could be had, the region is mapped to it, over its whole
/// length, with its own flags.
pub proof fn law_identical_regions_are_mapped<V, D, E, X>(
    states: Seq<VmBuilder<V, D, E>>,
    events: Seq<BuildEvent<V, D, X>>,
    answers: Seq<Answer<X>>,
    region: MemoryRegion,
)
    requires
        is_assembly(states, events, answers),
        states.last().phase is Finished,
        states[0].config.memory_regions@.contains(region),
        region.map_type is MapIentical,
        region.flags & 0x10usize == 0,
    ensures
        exists|t: int|
            #![trigger answers[t]]
            {
                &&& 0 <= t && t + 1 < events.len()
                &&& answers[t] matches Ok(BuildAction::AllocRegion { hpa, size })
                &&& hpa == region.gpa
                &&& size == region.size
                &&& events[t + 1] matches BuildEvent::RegionAllocated(granted)
                &&& granted ==> {
                    &&& t + 2 < events.len()
                    &&& answers[t + 1] matches Ok(
                        BuildAction::MapLinear { gpa, hpa: to, size: mapped, flags },
                    )
                    &&& gpa == region.gpa
                    &&& to == region.gpa
                    &&& mapped == region.size
                    &&& flags == region.flags
                    &&& events[t + 2] is Mapped
                }
            },
{
    let i = choose|i: int|
        0 <= i < states[0].config.memory_regions@.len() && states[0].config.memory_regions@[i]
            == region;
    let t = lemma_region_begun(states, events, answers, events.len() as int, i);
    lemma_move(states, events, answers, t);
    law_actions_are_configured(states[t], events[t], states[t + 1], answers[t]);
    lemma_lengths(states[0].config);
    lemma_move(states, events, answers, t + 1);
    law_actions_are_configured(states[t + 1], events[t + 1], states[t + 2], answers[t + 1]);
    if events[t + 1] == BuildEvent::<V, D, X>::RegionAllocated(true) {
        lemma_move(states, events, answers, t + 2);
    }
    match states[t].phase {
        Phase::Alloc(k) | Phase::MapRegion(k) => lemma_next_region::<E, X>(
            states[0].config,
            k + 1,
        ),
        Phase::Space => lemma_next_region::<E, X>(states[0].config, 0),
        _ => {},
    }
    assert(answers[t] is Ok);
}

/// The answer that came to passed-through device `i`.
proof fn lemma_device_begun<V, D, E, X>(
    states: Seq<VmBuilder<V, D, E>>,
    events: Seq<BuildEvent<V, D, X>>,
    answers: Seq<Answer<X>>,
    n: int,
    i: int,
) -> (t: int)
    requires
        is_assembly(states, events, answers),
        states.last().phase is Finished,
        0 <= n <= events.len(),
        0 <= i < devices_begun(states[0].config, states[n].phase),
        i < states[0].config.pass_through_devices@.len(),
    ensures
        0 <= t < n,
        states[t + 1].phase == Phase::MapDevice(i as usize),
    decreases n,
{
    lemma_lengths(states[0].config);
    if n == 0 {
        0
    } else {
        lemma_move(states, events, answers, n - 1);
        law_assembly_keeps_its_order(states[n - 1], events[n - 1], states[n], answers[n - 1]);
        if i < devices_begun(states[0].config, states[n - 1].phase) {
            lemma_device_begun(states, events, answers, n - 1, i)
        } else {
            n - 1
        }
    }
}

/// In an assembly that is completed, every passed-through device is mapped to its host
/// memory, over its whole length, as device memory that can be read and written.
pub proof fn law_devices_are_passed_through<V, D, E, X>(
    states: Seq<VmBuilder<V, D, E>>,
    events: Seq<BuildEvent<V, D, X>>,
    answers: Seq<Answer<X>>,
    device: PassThroughDevice,
)
    requires
        is_assembly(states, events, answers),
        states.last().phase is Finished,
        states[0].config.pass_through_devices@.contains(device),
    ensures
        exists|t: int|
            #![trigger answers[t]]
            {
                &&& 0 <= t && t + 1 < events.len()
                &&& answers[t] matches Ok(BuildAction::MapLinear { gpa, hpa, size, flags })
                &&& gpa == device.base_gpa
                &&& hpa == device.base_hpa
                &&& size == device.length
                &&& flags == 0x13
                &&& events[t + 1] is Mapped
            },
{
    let devices = states[0].config.pass_through_devices@;
    let i = choose|i: int| 0 <= i < devices.len() && devices[i] == device;
    let t = lemma_device_begun(states, events, answers, events.len() as int, i);
    lemma_move(states, events, answers, t);
    law_actions_are_configured(states[t], events[t], states[t + 1], answers[t]);
    lemma_lengths(states[0].config);
    lemma_move(states, events, answers, t + 1);
    law_assembly_keeps_its_order(states[t], events[t], states[t + 1], answers[t]);
    match states[t].phase {
        Phase::Alloc(k) | Phase::MapRegion(k) => lemma_next_region::<E, X>(
            states[0].config,
            k + 1,
        ),
        Phase::Space => lemma_next_region::<E, X>(states[0].config, 0),
        _ => {},
    }
    assert(answers[t] is Ok);
}

/// Once the address space exists, the root of its page table stays the same.
proof fn lemma_root_is_kept<V, D, E, X>(
    states: Seq<VmBuilder<V, D, E>>,
    events: Seq<BuildEvent<V, D, X>>,
    answers: Seq<Answer<X>>,
    n: int,
)
    requires
        is_assembly(states, events, answers),
        states.last().phase is Finished,
        0 <= n <= events.len(),
        !(states[n].phase is VCpu),
        !(states[n].phase is Space),
    ensures
        states.last().ept_root == states[n].ept_root,
        states[n].phase is Setup || states[n].phase is Finished ==> states.last().devices
            == states[n].devices,
    decreases events.len() - n,
{
    if n < events.len() {
        lemma_move(states, events, answers, n);
        law_assembly_keeps_its_order(states[n], events[n], states[n + 1], answers[n]);
        lemma_root_is_kept(states, events, answers, n + 1);
    }
}

/// The answer that came to the setup of vCPU `i`.
proof fn lemma_setup_begun<V, D, E, X>(
    states: Seq<VmBuilder<V, D, E>>,
    events: Seq<BuildEvent<V, D, X>>,
    answers: Seq<Answer<X>>,
    n: int,
    i: int,
) -> (t: int)
    requires
        is_assembly(states, events, answers),
        states.last().phase is Finished,
        0 <= n <= events.len(),
        0 <= i < setups_begun(states[0].config, states[n].phase),
        i < states[0].config.vcpus@.len(),
    ensures
        0 <= t < n,
        states[t + 1].phase == Phase::Setup(i as usize),
    decreases n,
{
    lemma_lengths(states[0].config);
    if n == 0 {
        0
    } else {
        lemma_move(states, events, answers, n - 1);
        law_assembly_keeps_its_order(states[n - 1], events[n - 1], states[n], answers[n - 1]);
        if i < setups_begun(states[0].config, states[n - 1].phase) {
            lemma_setup_begun(states, events, answers, n - 1, i)
        } else {
            n - 1
        }
    }
}

/// In an assembly that is completed, every vCPU is set up on the page table of the VM:
/// the one with id 0 to start at the bootstrap entry, every other one at the entry of
/// the application processors.
pub proof fn law_vcpus_are_set_up<V, D, E, X>(
    states: Seq<VmBuilder<V, D, E>>,
    events: Seq<BuildEvent<V, D, X>>,
    answers: Seq<Answer<X>>,
    i: int,
)
    requires
        is_assembly(states, events, answers),
        states.last().phase is Finished,
        0 <= i < states[0].config.vcpus@.len(),
    ensures
        exists|t: int|
            #![trigger answers[t]]
            {
                &&& 0 <= t && t + 1 < events.len()
                &&& answers[t] matches Ok(BuildAction::SetupVCpu { index, entry, ept_root })
                &&& index == i
                &&& states[0].config.vcpus@[i].vcpu_id == 0 ==> entry
                    == states[0].config.bsp_entry
                &&& states[0].config.vcpus@[i].vcpu_id != 0 ==> entry == states[0].config.ap_entry
                &&& ept_root == states.last().ept_root
                &&& events[t + 1] is VCpuReady
            },
{
    let t = lemma_setup_begun(states, events, answers, events.len() as int, i);
    lemma_move(states, events, answers, t);
    law_actions_are_configured(states[t], events[t], states[t + 1], answers[t]);
    law_assembly_keeps_its_order(states[t], events[t], states[t + 1], answers[t]);
    lemma_lengths(states[0].config);
    lemma_move(states, events, answers, t + 1);
    lemma_root_is_kept(states, events, answers, t + 1);
    match states[t].phase {
        Phase::Alloc(k) | Phase::MapRegion(k) => lemma_next_region::<E, X>(
            states[0].config,
            k + 1,
        ),
        Phase::Space => lemma_next_region::<E, X>(states[0].config, 0),
        _ => {},
    }
    assert(answers[t] is Ok);
}

/// A complete VM is made of what the host created: its page table is that of the address
/// space, and its emulated devices are those that were created.
pub proof fn law_vm_is_made_of_what_was_created<V, D, E, X>(
    states: Seq<VmBuilder<V, D, E>>,
    events: Seq<BuildEvent<V, D, X>>,
    answers: Seq<Answer<X>>,
)
    requires
        is_assembly(states, events, answers),
        states.last().phase is Finished,
    ensures
        exists|t: int|
            0 <= t < events.len() && #[trigger] events[t] == (BuildEvent::<V, D, X>::SpaceCreated {
                root: states.last().ept_root,
            }),
        exists|t: int|
            0 <= t < events.len() && (#[trigger] events[t] matches BuildEvent::DevicesCreated(
                devices,
            ) && states.last().devices == Some(devices)),
{
    let t = lemma_comes_by(states, events, answers, events.len() as int, false);
    lemma_move(states, events, answers, t);
    law_assembly_keeps_its_order(states[t], events[t], states[t + 1], answers[t]);
    lemma_root_is_kept(states, events, answers, t + 1);
    assert(events[t] == (BuildEvent::<V, D, X>::SpaceCreated { root: states.last().ept_root }));
    let u = lemma_comes_by(states, events, answers, events.len() as int, true);
    lemma_move(states, events, answers, u);
    law_assembly_keeps_its_order(states[u], events[u], states[u + 1], answers[u]);
    lemma_root_is_kept(states, events, answers, u + 1);
    assert(events[u] is DevicesCreated);
}

/// A builder that is past the creation of the address space, or of the emulated devices,
/// has come by it.
proof fn lemma_comes_by<V, D, E, X>(
    states: Seq<VmBuilder<V, D, E>>,
    events: Seq<BuildEvent<V, D, X>>,
    answers: Seq<Answer<X>>,
    n: int,
    devices: bool,
) -> (t: int)
    requires
        is_assembly(states, events, answers),
        states.last().phase is Finished,
        0 <= n <= events.len(),
        if devices {
            states[n].phase is Setup || states[n].phase is Finished
        } else {
            !(states[n].phase is VCpu) && !(states[n].phase is Space)
        },
    ensures
        0 <= t < n,
        devices ==> states[t].phase is Devices,
        !devices ==> states[t].phase is Space,
    decreases n,
{
    if n == 0 {
        0
    } else {
        lemma_move(states, events, answers, n - 1);
        law_assembly_keeps_its_order(states[n - 1], events[n - 1], states[n], answers[n - 1]);
        if devices && states[n - 1].phase is Devices || !devices && states[n - 1].phase is Space {
            n - 1
        } else {
            lemma_comes_by(states, events, answers, n - 1, devices)
        }
    }
}

} // verus!
