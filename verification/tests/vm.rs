use std::sync::Arc;

use axvm::access::{join, write_parts, GuestPage, GuestPart, VirtualAccess};
use axvm::assembly::{BuildEvent, VmBuilder};
use axvm::config::{AxVMConfig, GuestArch, VCpuAffinity};
use axvm::error::VmError;
use axvm::run::{AccessWidth, ExitKind, RunAction, RunEvent, VCpuRun};
use axvm::vm::AxVM;

type Vm = AxVM<char, u8, ()>;

fn vm() -> Vm {
    let mut vcpus = Vec::new();
    for i in 0..2 {
        vcpus.push(VCpuAffinity { vcpu_id: i, phys_cpu_set: None, pcpu_id: i });
    }
    let config = AxVMConfig {
        id: 9,
        vcpus,
        bsp_entry: 0,
        ap_entry: 0,
        dtb_load_gpa: None,
        memory_regions: vec![],
        pass_through_devices: vec![],
        emu_devices: vec![],
    };
    let (mut builder, _) = VmBuilder::new(config, GuestArch::X86_64);
    let events: Vec<BuildEvent<char, u8, ()>> = vec![
        BuildEvent::VCpuCreated(Arc::new('a')),
        BuildEvent::VCpuCreated(Arc::new('b')),
        BuildEvent::SpaceCreated { root: 0x5000 },
        BuildEvent::DevicesCreated(4),
        BuildEvent::VCpuReady,
        BuildEvent::VCpuReady,
    ];
    for event in events {
        assert!(builder.next(event).is_ok());
    }
    AxVM::new(builder)
}

#[test]
fn a_new_vm_shows_what_it_was_made_of() {
    let vm = vm();
    assert_eq!(vm.id(), 9);
    assert_eq!(vm.vcpu_num(), 2);
    assert_eq!(vm.vcpu_list(), &[Arc::new('a'), Arc::new('b')]);
    assert_eq!(vm.vcpu(0), Some(Arc::new('a')));
    assert_eq!(vm.vcpu(1), Some(Arc::new('b')));
    assert!(Arc::ptr_eq(&vm.vcpu(1).unwrap(), &vm.vcpu_list()[1]));
    assert_eq!(vm.vcpu(2), None);
    assert_eq!(vm.ept_root(), 0x5000);
    assert_eq!(*vm.get_devices(), 4);
    assert!(!vm.running());
}

#[test]
fn a_vm_boots_once() {
    let mut vm = vm();
    assert_eq!(vm.boot::<()>(false), Err(VmError::Unsupported));
    assert!(!vm.running());
    assert_eq!(vm.boot::<()>(true), Ok(()));
    assert!(vm.running());
    assert_eq!(vm.boot::<()>(true), Err(VmError::BadState));
    assert_eq!(vm.boot::<()>(false), Err(VmError::Unsupported));
    assert!(vm.running());
}

#[test]
fn guest_memory_is_read_across_segments() {
    let vm = vm();
    let mut a = [1u8, 2];
    let mut b = [3u8, 4, 5];
    let segments: Vec<&mut [u8]> = vec![&mut a, &mut b];
    assert_eq!(vm.read_guest_memory(&Some(segments), 5), Some(vec![1, 2, 3, 4, 5]));
    assert_eq!(vm.read_guest_memory(&None, 5), None);
}

#[test]
fn guest_memory_gives_back_what_was_written() {
    let vm = vm();
    let mut a = [0u8; 3];
    let mut b = [0u8; 2];
    assert_eq!(vm.write_guest_memory(Some(vec![&mut a, &mut b]), &[9, 8, 7, 6, 5]), Some(()));
    assert_eq!(a, [9, 8, 7]);
    assert_eq!(b, [6, 5]);
    let read = vm.read_guest_memory(&Some(vec![&mut a, &mut b]), 5);
    assert_eq!(read, Some(vec![9, 8, 7, 6, 5]));
    assert_eq!(vm.write_guest_memory(None, &[1]), None);
}

/// All parts of an access. Each page maps to the frame that `frame` gives for its
/// number.
fn parts(access: VirtualAccess, frame: fn(usize) -> Option<usize>) -> Option<Vec<GuestPart>> {
    let mut parts = Vec::new();
    let mut next = Some(access);
    while let Some(access) = next {
        let page = match access {
            VirtualAccess::Walk { gva, .. } => frame(gva / 0x1000)
                .map(|f| GuestPage { gpa: f * 0x1000 + gva % 0x1000, size: 0x1000 }),
            _ => None,
        };
        let (part, rest) = access.range(page)?;
        parts.push(part);
        next = rest;
    }
    Some(parts)
}

/// Pages 4, 5 and 6 lie in frames 9, 2 and 7; nothing else is mapped.
fn scattered(page: usize) -> Option<usize> {
    match page {
        4 => Some(9),
        5 => Some(2),
        6 => Some(7),
        _ => None,
    }
}

#[test]
fn virtual_memory_needs_a_vcpu() {
    let vm = vm();
    let page = Some(GuestPage { gpa: 0x7000, size: 0x1000 });
    let access = vm.read_guest_virtual_memory(2, 0x1000, 0x4000, 8);
    assert_eq!(access, VirtualAccess::NoVCpu);
    assert_eq!(access.range(page), None);
    assert_eq!(vm.write_guest_virtual_memory(2, 0, 0x4000, &[1]), VirtualAccess::NoVCpu);
}

#[test]
fn virtual_memory_without_paging_is_physical() {
    let vm = vm();
    let access = vm.read_guest_virtual_memory(0, 0, 0x4000, 8);
    assert_eq!(access, VirtualAccess::Direct { gpa: 0x4000, len: 8 });
    assert_eq!(access.range(None), Some((GuestPart { gpa: 0x4000, len: 8 }, None)));
    let access = vm.write_guest_virtual_memory(1, 0, 0x4000, &[1, 2, 3]);
    assert_eq!(access, VirtualAccess::Direct { gpa: 0x4000, len: 3 });
    assert_eq!(access.range(None), Some((GuestPart { gpa: 0x4000, len: 3 }, None)));
}

#[test]
fn virtual_memory_with_paging_is_looked_up() {
    let vm = vm();
    let access = vm.read_guest_virtual_memory(0, 0x8000, 0x4010, 8);
    assert_eq!(access, VirtualAccess::Walk { root: 0x8000, gva: 0x4010, len: 8 });
    let page = Some(GuestPage { gpa: 0x7_0010, size: 0x1000 });
    assert_eq!(access.range(page), Some((GuestPart { gpa: 0x7_0010, len: 8 }, None)));
    assert_eq!(access.range(None), None);
    assert_eq!(access.range(Some(GuestPage { gpa: 0, size: 0 })), None);
}

#[test]
fn virtual_memory_is_reached_page_by_page() {
    let vm = vm();
    let access = vm.read_guest_virtual_memory(0, 0x8000, 0x4ffe, 0x1004);
    let page = Some(GuestPage { gpa: 0x9ffe, size: 0x1000 });
    let rest = VirtualAccess::Walk { root: 0x8000, gva: 0x5000, len: 0x1002 };
    assert_eq!(access.range(page), Some((GuestPart { gpa: 0x9ffe, len: 2 }, Some(rest))));
    assert_eq!(
        parts(access, scattered),
        Some(vec![
            GuestPart { gpa: 0x9ffe, len: 2 },
            GuestPart { gpa: 0x2000, len: 0x1000 },
            GuestPart { gpa: 0x7000, len: 2 },
        ])
    );
}

#[test]
fn a_read_of_two_pages_has_all_its_bytes() {
    let access = vm().read_guest_virtual_memory(0, 0x8000, 0x4000, 0x2000);
    let found = parts(access, scattered).unwrap();
    assert_eq!(found.iter().map(|p| p.len).sum::<usize>(), 0x2000);
    let chunks: Vec<Vec<u8>> =
        found.iter().map(|p| vec![(p.gpa / 0x1000) as u8; p.len]).collect();
    let data = join(&chunks);
    assert_eq!(data.len(), 0x2000);
    assert_eq!((data[0], data[0xfff], data[0x1000], data[0x1fff]), (9, 9, 2, 2));
}

#[test]
fn an_unmapped_page_fails_the_whole_access() {
    let vm = vm();
    let access = vm.read_guest_virtual_memory(0, 0x8000, 0x6ffe, 4);
    assert_eq!(parts(access, scattered), None);
    let access = vm.read_guest_virtual_memory(0, 0x8000, 0x6ffe, 2);
    assert!(parts(access, scattered).is_some());
    let access = vm.read_guest_virtual_memory(0, 0x8000, 0x3000, 0);
    assert_eq!(parts(access, scattered), None);
    let access = vm.read_guest_virtual_memory(0, 0x8000, 0x4000, 0);
    assert_eq!(parts(access, scattered), Some(vec![GuestPart { gpa: 0x9000, len: 0 }]));
}

#[test]
fn an_access_ends_with_the_address_space() {
    let vm = vm();
    let top = usize::MAX - 0xfff;
    let page = Some(GuestPage { gpa: 0x3000, size: 0x1000 });
    let access = vm.read_guest_virtual_memory(0, 0x8000, top, 0x1000);
    assert_eq!(access.range(page), Some((GuestPart { gpa: 0x3000, len: 0x1000 }, None)));
    let access = vm.read_guest_virtual_memory(0, 0x8000, top, 0x1001);
    assert_eq!(access.range(page), None);
}

#[test]
fn virtual_memory_gives_back_what_was_written() {
    let vm = vm();
    let mut memory = vec![0u8; 0xa000];
    let data = [1u8, 2, 3, 4, 5, 6];
    let written = vm.write_guest_virtual_memory(0, 0x8000, 0x4ffe, &data);
    let found = parts(written, scattered).unwrap();
    assert_eq!(
        found,
        vec![GuestPart { gpa: 0x9ffe, len: 2 }, GuestPart { gpa: 0x2000, len: 4 }]
    );
    let (low, high) = memory.split_at_mut(0x9000);
    let (middle, tail) = low[0x2000..0x2004].split_at_mut(3);
    let translated = vec![Some(vec![&mut high[0xffe..]]), Some(vec![middle, tail])];
    assert_eq!(write_parts(translated, &found, &data), Some(()));
    assert_eq!(memory[0x9ffe..0xa000], [1, 2]);
    assert_eq!(memory[0x2000..0x2005], [3, 4, 5, 6, 0]);

    let read = vm.read_guest_virtual_memory(0, 0x8000, 0x4ffe, data.len());
    let mut bytes = Vec::new();
    for part in parts(read, scattered).unwrap() {
        let segment = &mut memory[part.gpa..part.gpa + part.len];
        bytes.push(vm.read_guest_memory(&Some(vec![segment]), part.len).unwrap());
    }
    assert_eq!(join(&bytes), data);
}

#[test]
fn a_write_that_cannot_be_completed_changes_nothing() {
    let parts = vec![GuestPart { gpa: 0, len: 2 }, GuestPart { gpa: 0x5000, len: 2 }];
    let mut first = [7u8, 7];
    let mut last = [8u8, 8];
    assert_eq!(
        write_parts(vec![Some(vec![&mut first[..]]), None], &parts, &[1, 2, 3, 4]),
        None
    );
    assert_eq!(
        write_parts(vec![None, Some(vec![&mut last[..]])], &parts, &[1, 2, 3, 4]),
        None
    );
    assert_eq!((first, last), ([7, 7], [8, 8]));
    let both = vec![Some(vec![&mut first[..]]), Some(vec![&mut last[..]])];
    assert_eq!(write_parts(both, &parts, &[1, 2, 3, 4]), Some(()));
    assert_eq!((first, last), ([1, 2], [3, 4]));
}

fn start() -> VCpuRun<&'static str> {
    let vm = vm();
    let (run, action) = match vm.run_vcpu::<&'static str, i32>(1) {
        Ok(started) => started,
        Err(_) => panic!("the vCPU exists"),
    };
    assert_eq!(action, RunAction::Bind);
    run
}

/// Feeds the events to a run; gives the last action.
fn feed(events: Vec<RunEvent<&'static str, i32>>) -> RunAction<&'static str, i32> {
    let mut run = start();
    let mut action = RunAction::Bind;
    for event in events {
        (run, action) = run.next(event);
    }
    action
}

#[test]
fn only_an_existing_vcpu_runs() {
    let vm = vm();
    assert!(matches!(vm.run_vcpu::<(), i32>(2), Err(VmError::InvalidInput)));
    assert!(vm.run_vcpu::<(), i32>(1).is_ok());
}

#[test]
fn mmio_reads_are_served() {
    let exit =
        || RunEvent::Exited(ExitKind::MmioRead { addr: 0x10, width: AccessWidth::Dword, reg: 7 }, "r");
    assert_eq!(feed(vec![RunEvent::Done]), RunAction::Run);
    assert_eq!(
        feed(vec![RunEvent::Done, exit()]),
        RunAction::ReadMmio { addr: 0x10, width: 4 }
    );
    assert_eq!(
        feed(vec![RunEvent::Done, exit(), RunEvent::Value(0x55)]),
        RunAction::SetGpr { reg: 7, val: 0x55 }
    );
    assert_eq!(
        feed(vec![RunEvent::Done, exit(), RunEvent::Value(0x55), RunEvent::Done]),
        RunAction::Run
    );
    assert_eq!(
        feed(vec![RunEvent::Done, exit(), RunEvent::Failed(-5)]),
        RunAction::Return(Err(-5))
    );
}

#[test]
fn mmio_writes_and_ports_are_served() {
    let exit = || {
        RunEvent::Exited(
            ExitKind::MmioWrite { addr: 0x20, width: AccessWidth::Qword, data: u64::MAX },
            "w",
        )
    };
    assert_eq!(
        feed(vec![RunEvent::Done, exit()]),
        RunAction::WriteMmio { addr: 0x20, width: 8, data: u64::MAX }
    );
    assert_eq!(feed(vec![RunEvent::Done, exit(), RunEvent::Done]), RunAction::Run);
    assert_eq!(
        feed(vec![RunEvent::Done, RunEvent::Exited(ExitKind::IoRead, "in")]),
        RunAction::Run
    );
    assert_eq!(
        feed(vec![RunEvent::Done, RunEvent::Exited(ExitKind::IoWrite, "out")]),
        RunAction::Run
    );
}

#[test]
fn page_faults_are_resolved_or_returned() {
    let exit = || {
        RunEvent::Exited(ExitKind::NestedPageFault { addr: 0x30, access_flags: 2 }, "fault")
    };
    assert_eq!(
        feed(vec![RunEvent::Done, exit()]),
        RunAction::HandlePageFault { addr: 0x30, access_flags: 2 }
    );
    assert_eq!(
        feed(vec![RunEvent::Done, exit(), RunEvent::Resolved(true)]),
        RunAction::Run
    );
    assert_eq!(
        feed(vec![RunEvent::Done, exit(), RunEvent::Resolved(false)]),
        RunAction::Unbind
    );
    assert_eq!(
        feed(vec![RunEvent::Done, exit(), RunEvent::Resolved(false), RunEvent::Done]),
        RunAction::Return(Ok("fault"))
    );
}

#[test]
fn other_exits_are_returned_once_unbound() {
    let exit = || RunEvent::Exited(ExitKind::Other, "halt");
    assert_eq!(feed(vec![RunEvent::Done, exit()]), RunAction::Unbind);
    assert_eq!(
        feed(vec![RunEvent::Done, exit(), RunEvent::Done]),
        RunAction::Return(Ok("halt"))
    );
    assert_eq!(
        feed(vec![RunEvent::Done, exit(), RunEvent::Failed(-1)]),
        RunAction::Return(Err(-1))
    );
}

#[test]
fn failures_end_a_run() {
    assert_eq!(feed(vec![RunEvent::Failed(-2)]), RunAction::Return(Err(-2)));
    assert_eq!(feed(vec![RunEvent::Done, RunEvent::Failed(-3)]), RunAction::Return(Err(-3)));
}

#[test]
fn access_widths_in_bytes() {
    assert_eq!(AccessWidth::Byte.size(), 1);
    assert_eq!(AccessWidth::Word.size(), 2);
    assert_eq!(AccessWidth::Dword.size(), 4);
    assert_eq!(AccessWidth::Qword.size(), 8);
}
