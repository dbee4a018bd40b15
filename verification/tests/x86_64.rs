use axvm::gdb::arch::x86_64::{X86_64Registers, X86_64Target};
use axvm::gdb::arch::{ArchTarget, VCpuRegisters};

/// Each register holds its number in the vCPU's order.
fn numbered() -> VCpuRegisters<16> {
    let mut gprs = [0u64; 16];
    for i in 0..16 {
        gprs[i] = i as u64;
    }
    VCpuRegisters { gprs, pc: 0xfff0 }
}

#[test]
fn registers_are_put_in_debugger_order() {
    let mut regs = X86_64Registers { regs: [0; 16], rip: 0 };
    X86_64Target::new().read_registers(&Some(numbered()), &mut regs);
    assert_eq!(regs.regs, [0, 3, 1, 2, 6, 7, 5, 4, 8, 9, 10, 11, 12, 13, 14, 15]);
    assert_eq!(regs.rip, 0xfff0);
}

#[test]
fn x86_registers_round_trip() {
    let target = X86_64Target::new();
    let mut regs = X86_64Registers { regs: [0; 16], rip: 0 };
    target.read_registers(&Some(numbered()), &mut regs);
    let mut vcpu = Some(VCpuRegisters { gprs: [99; 16], pc: 99 });
    target.write_registers(&mut vcpu, &regs);
    assert_eq!(vcpu, Some(numbered()));
}

#[test]
fn x86_registers_without_a_vcpu() {
    let target = X86_64Target::new();
    let mut regs = X86_64Registers { regs: [1; 16], rip: 2 };
    target.read_registers(&None, &mut regs);
    assert_eq!(regs, X86_64Registers { regs: [1; 16], rip: 2 });
    let mut none = None;
    target.write_registers(&mut none, &regs);
    assert_eq!(none, None);
}
