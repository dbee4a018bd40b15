//! What a debugger needs to know of each guest architecture.
pub mod decode;
pub mod riscv;
pub mod x86_64;

use vstd::prelude::*;

verus! {

/// The registers of a vCPU, by the vCPU's own numbering, and its program counter.
#[derive(Debug, Clone, Copy, PartialEq, Eq)]
pub struct VCpuRegisters<const N: usize> {
    pub gprs: [u64; N],
    pub pc: u64,
}

/// How the registers of a vCPU and the debugger's register file of one
/// architecture are brought in line.
pub trait ArchTarget {
    /// The registers of the vCPU.
    type VCpu;

    /// The debugger's register file.
    type Registers;

    /// The register file shows exactly what the vCPU's registers hold.
    spec fn mirrors(vcpu: Self::VCpu, regs: Self::Registers) -> bool;

    /// Copies the registers of the vCPU to the register file. Without a vCPU the
    /// register file is left alone.
    fn read_registers(&self, vcpu: &Option<Self::VCpu>, regs: &mut Self::Registers)
        ensures
            match *vcpu {
                Some(v) => Self::mirrors(v, *final(regs)),
                None => *final(regs) == *old(regs),
            },
    ;

    /// Copies the register file to the registers of the vCPU, if there is one.
    fn write_registers(&self, vcpu: &mut Option<Self::VCpu>, regs: &Self::Registers)
        ensures
            match *old(vcpu) {
                Some(_) => *final(vcpu) matches Some(v) && Self::mirrors(v, *regs),
                None => *final(vcpu) is None,
            },
    ;
}

} // verus!
