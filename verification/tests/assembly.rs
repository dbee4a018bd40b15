use std::sync::Arc;

use axaddrspace::MappingFlags;
use axvm::assembly::{BuildAction, BuildEvent, VCpuCreateConfig, VmBuilder};
use axvm::config::{
    AxVMConfig, GuestArch, MemoryRegion, PassThroughDevice, VCpuAffinity, VmMemMappingType,
};
use axvm::error::VmError;
use axvm::flags::{device_memory_flags, is_device, DEVICE, READ, WRITE};
use axvm::vm::AxVM;

type Builder = VmBuilder<&'static str, u8, u8>;
type Event = BuildEvent<&'static str, u8, i32>;

fn region(gpa: usize, flags: usize, map_type: VmMemMappingType) -> MemoryRegion {
    MemoryRegion { gpa, size: 0x1000, flags, map_type }
}

fn config(vcpus: usize, memory_regions: Vec<MemoryRegion>, devices: usize) -> AxVMConfig<u8> {
    let mut affinities = Vec::new();
    for i in 0..vcpus {
        affinities.push(VCpuAffinity { vcpu_id: i, phys_cpu_set: Some(1 << i), pcpu_id: 10 + i });
    }
    let mut pass_through_devices = Vec::new();
    for i in 0..devices {
        pass_through_devices.push(PassThroughDevice {
            base_gpa: 0x100_0000 * (i + 1),
            base_hpa: 0x200_0000 * (i + 1),
            length: 0x4000,
        });
    }
    AxVMConfig {
        id: 3,
        vcpus: affinities,
        bsp_entry: 0x8020_0000,
        ap_entry: 0x8030_0000,
        dtb_load_gpa: None,
        memory_regions,
        pass_through_devices,
        emu_devices: vec![1, 2],
    }
}

/// Drives a builder to its end. Nothing fails; host memory is granted as `grant`
/// says.
fn drive(
    config: AxVMConfig<u8>,
    arch: GuestArch,
    grant: bool,
) -> (Builder, Vec<Result<BuildAction, VmError<i32>>>) {
    let (mut builder, first) = Builder::new(config, arch);
    let mut answers: Vec<Result<BuildAction, VmError<i32>>> = vec![Ok(first)];
    let mut action = first;
    loop {
        let event: Event = match action {
            BuildAction::CreateVCpu { .. } => BuildEvent::VCpuCreated(Arc::new("vcpu")),
            BuildAction::CreateAddressSpace { .. } => BuildEvent::SpaceCreated { root: 0xabc000 },
            BuildAction::AllocRegion { .. } => BuildEvent::RegionAllocated(grant),
            BuildAction::MapLinear { .. } | BuildAction::MapAlloc { .. } => BuildEvent::Mapped,
            BuildAction::CreateDevices => BuildEvent::DevicesCreated(77),
            BuildAction::SetupVCpu { .. } => BuildEvent::VCpuReady,
            BuildAction::Finish => return (builder, answers),
        };
        match builder.next(event) {
            Ok(next) => {
                answers.push(Ok(next));
                action = next;
            }
            Err(e) => {
                answers.push(Err(e));
                return (builder, answers);
            }
        }
    }
}

#[test]
fn flag_bits_are_those_of_the_page_table() {
    assert_eq!(READ, MappingFlags::READ.bits());
    assert_eq!(WRITE, MappingFlags::WRITE.bits());
    assert_eq!(DEVICE, MappingFlags::DEVICE.bits());
    assert_eq!(
        device_memory_flags(),
        (MappingFlags::DEVICE | MappingFlags::READ | MappingFlags::WRITE).bits()
    );
    assert_eq!(MappingFlags::all().bits(), 0x3f);
    assert!(is_device(0x13));
    assert!(!is_device(0x2f));
}

#[test]
fn assembly_goes_through_the_plan() {
    let regions = vec![
        region(0x8000_0000, 0x7, VmMemMappingType::MapIentical),
        region(0x9000_0000, 0x17, VmMemMappingType::MapAlloc),
        region(0xa000_0000, 0x3, VmMemMappingType::MapAlloc),
    ];
    let (builder, answers) = drive(config(2, regions, 1), GuestArch::X86_64, true);
    let expected: Vec<Result<BuildAction, VmError<i32>>> = vec![
        Ok(BuildAction::CreateVCpu {
            vcpu_id: 0,
            favor_phys_cpu: 0,
            phys_cpu_set: Some(1),
            arch_config: VCpuCreateConfig::X86_64,
        }),
        Ok(BuildAction::CreateVCpu {
            vcpu_id: 1,
            favor_phys_cpu: 0,
            phys_cpu_set: Some(2),
            arch_config: VCpuCreateConfig::X86_64,
        }),
        Ok(BuildAction::CreateAddressSpace { base: 0, size: 0x7fff_ffff_f000 }),
        Ok(BuildAction::AllocRegion { hpa: 0x8000_0000, size: 0x1000 }),
        Ok(BuildAction::MapLinear {
            gpa: 0x8000_0000,
            hpa: 0x8000_0000,
            size: 0x1000,
            flags: 0x7,
        }),
        Ok(BuildAction::MapAlloc { gpa: 0xa000_0000, size: 0x1000, flags: 0x3, populate: true }),
        Ok(BuildAction::MapLinear {
            gpa: 0x100_0000,
            hpa: 0x200_0000,
            size: 0x4000,
            flags: 0x13,
        }),
        Ok(BuildAction::CreateDevices),
        Ok(BuildAction::SetupVCpu { index: 0, entry: 0x8020_0000, ept_root: 0xabc000 }),
        Ok(BuildAction::SetupVCpu { index: 1, entry: 0x8030_0000, ept_root: 0xabc000 }),
        Ok(BuildAction::Finish),
    ];
    assert_eq!(answers, expected);
    let vm = AxVM::new(builder);
    assert_eq!(vm.id(), 3);
    assert_eq!(vm.vcpu_num(), 2);
    assert_eq!(vm.ept_root(), 0xabc000);
    assert_eq!(*vm.get_devices(), 77);
    assert!(!vm.running());
}

#[test]
fn a_region_without_host_memory_is_not_mapped() {
    let regions = vec![region(0x8000_0000, 0x7, VmMemMappingType::MapIentical)];
    let (_, answers) = drive(config(0, regions, 0), GuestArch::X86_64, false);
    assert_eq!(answers.len(), 4);
    assert_eq!(answers[1], Ok(BuildAction::AllocRegion { hpa: 0x8000_0000, size: 0x1000 }));
    assert_eq!(answers[2], Ok(BuildAction::CreateDevices));
}

#[test]
fn unknown_flags_are_refused() {
    let regions = vec![
        region(0x8000_0000, 0x7, VmMemMappingType::MapAlloc),
        region(0x9000_0000, 0x40, VmMemMappingType::MapAlloc),
        region(0xa000_0000, 0x7, VmMemMappingType::MapAlloc),
    ];
    let (_, answers) = drive(config(1, regions, 1), GuestArch::X86_64, true);
    assert_eq!(answers.len(), 4);
    assert_eq!(answers[3], Err(VmError::InvalidInput));
}

#[test]
fn all_known_flags_are_accepted() {
    let regions = vec![region(0x8000_0000, 0x2f, VmMemMappingType::MapAlloc)];
    let (_, answers) = drive(config(0, regions, 0), GuestArch::X86_64, true);
    assert_eq!(
        answers[1],
        Ok(BuildAction::MapAlloc { gpa: 0x8000_0000, size: 0x1000, flags: 0x2f, populate: true })
    );
}

#[test]
fn each_architecture_has_its_own_vcpu_config() {
    let (_, action) = Builder::new(config(1, vec![], 0), GuestArch::Riscv64);
    assert_eq!(
        action,
        BuildAction::CreateVCpu {
            vcpu_id: 0,
            favor_phys_cpu: 0,
            phys_cpu_set: Some(1),
            arch_config: VCpuCreateConfig::Riscv64 { hart_id: 0, dtb_addr: 0x9000_0000 },
        }
    );
    let (_, action) = Builder::new(config(1, vec![], 0), GuestArch::Aarch64);
    assert_eq!(
        action,
        BuildAction::CreateVCpu {
            vcpu_id: 0,
            favor_phys_cpu: 0,
            phys_cpu_set: Some(1),
            arch_config: VCpuCreateConfig::Aarch64 { mpidr_el1: 10, dtb_addr: 0 },
        }
    );
    let mut with_dtb = config(1, vec![], 0);
    with_dtb.dtb_load_gpa = Some(0x4000);
    let (_, action) = Builder::new(with_dtb, GuestArch::Riscv64);
    assert_eq!(
        action,
        BuildAction::CreateVCpu {
            vcpu_id: 0,
            favor_phys_cpu: 0,
            phys_cpu_set: Some(1),
            arch_config: VCpuCreateConfig::Riscv64 { hart_id: 0, dtb_addr: 0x4000 },
        }
    );
}

#[test]
fn a_host_error_ends_the_assembly() {
    let (mut builder, _) = Builder::new(config(1, vec![], 0), GuestArch::X86_64);
    let failed: Event = BuildEvent::Failed(-12);
    assert_eq!(builder.next(failed), Err(VmError::Host(-12)));

    let (mut builder, _) = Builder::new(config(0, vec![], 1), GuestArch::X86_64);
    let created: Event = BuildEvent::SpaceCreated { root: 0 };
    assert!(builder.next(created).is_ok());
    let failed: Event = BuildEvent::Failed(-22);
    assert_eq!(builder.next(failed), Err(VmError::Host(-22)));
}

#[test]
fn a_vm_without_anything() {
    let (builder, answers) = drive(config(0, vec![], 0), GuestArch::X86_64, true);
    assert_eq!(
        answers,
        vec![
            Ok(BuildAction::CreateAddressSpace { base: 0, size: 0x7fff_ffff_f000 }),
            Ok(BuildAction::CreateDevices),
            Ok(BuildAction::Finish),
        ]
    );
    assert_eq!(AxVM::new(builder).vcpu_num(), 0);
}

#[test]
fn emulated_devices_come_from_the_configuration() {
    let (builder, _) = Builder::new(config(1, vec![], 2), GuestArch::X86_64);
    assert_eq!(builder.emu_devices(), &[1, 2]);
}

#[test]
fn vcpus_stand_in_the_order_of_the_configuration() {
    let mut reversed = config(2, vec![], 0);
    reversed.vcpus.reverse();
    let (mut builder, mut action): (VmBuilder<usize, u8, u8>, _) =
        VmBuilder::new(reversed, GuestArch::X86_64);
    while let BuildAction::CreateVCpu { vcpu_id, .. } = action {
        let created: BuildEvent<usize, u8, i32> = BuildEvent::VCpuCreated(Arc::new(vcpu_id));
        action = builder.next(created).unwrap();
    }
    assert_eq!(builder.vcpu_list, vec![Arc::new(1), Arc::new(0)]);
}
