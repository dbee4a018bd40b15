//! The register file of an x86-64 guest.
use vstd::prelude::*;

use super::{ArchTarget, VCpuRegisters};

verus! {

/// The debugger's view of the x86-64 registers that a vCPU gives access to.
#[derive(Debug, Clone, Copy, PartialEq, Eq)]
pub struct X86_64Registers {
    /// RAX, RBX, RCX, RDX, RSI, RDI, RBP, RSP, R8 to R15.
    pub regs: [u64; 16],
    pub rip: u64,
}

/// The debug target for x86-64 guests.
pub struct X86_64Target;

/// The vCPU's number of the register that stands at `i` in the debugger's file.
/// The vCPU counts RAX, RCX, RDX, RBX, RSP, RBP, RSI, RDI, R8 to R15.
pub open spec fn gpr_index(i: int) -> int {
    if i == 1 {
        3
    } else if i == 2 {
        1
    } else if i == 3 {
        2
    } else if i == 4 {
        6
    } else if i == 5 {
        7
    } else if i == 6 {
        5
    } else if i == 7 {
        4
    } else {
        i
    }
}

/// The place in the debugger's file of the vCPU's register `g`.
pub open spec fn file_index(g: int) -> int {
    if g == 3 {
        1
    } else if g == 1 {
        2
    } else if g == 2 {
        3
    } else if g == 6 {
        4
    } else if g == 7 {
        5
    } else if g == 5 {
        6
    } else if g == 4 {
        7
    } else {
        g
    }
}

/// Each of the vCPU's sixteen registers stands at exactly one place of the
/// debugger's file.
pub proof fn law_gpr_index_is_a_permutation(i: int)
    requires
        0 <= i < 16,
    ensures
        0 <= gpr_index(i) < 16,
        0 <= file_index(i) < 16,
        file_index(gpr_index(i)) == i,
        gpr_index(file_index(i)) == i,
{
}

/// What the debugger writes it reads back, and a register file that was read
/// writes back what the vCPU held: vCPU and register file determine each other.
pub proof fn law_registers_round_trip(
    v1: VCpuRegisters<16>,
    r1: X86_64Registers,
    v2: VCpuRegisters<16>,
    r2: X86_64Registers,
)
    requires
        X86_64Target::mirrors(v1, r1),
        X86_64Target::mirrors(v2, r2),
    ensures
        r1.regs@ == r2.regs@ && r1.rip == r2.rip <==> v1.gprs@ == v2.gprs@ && v1.pc == v2.pc,
{
    if r1.regs@ == r2.regs@ {
        assert forall|g: int| 0 <= g < 16 implies v1.gprs@[g] == v2.gprs@[g] by {
            law_gpr_index_is_a_permutation(g);
            assert(r1.regs@[file_index(g)] == r2.regs@[file_index(g)]);
        }
        assert(v1.gprs@ =~= v2.gprs@);
    }
    if v1.gprs@ == v2.gprs@ {
        assert(r1.regs@ =~= r2.regs@);
    }
}

/// Every register of the vCPU stands under its own name in the debugger's file.
pub proof fn law_registers_keep_their_names(vcpu: VCpuRegisters<16>, regs: X86_64Registers)
    requires
        X86_64Target::mirrors(vcpu, regs),
    ensures
        regs.regs@[0] == vcpu.gprs@[0],  // RAX
        regs.regs@[1] == vcpu.gprs@[3],  // RBX
        regs.regs@[2] == vcpu.gprs@[1],  // RCX
        regs.regs@[3] == vcpu.gprs@[2],  // RDX
        regs.regs@[4] == vcpu.gprs@[6],  // RSI
        regs.regs@[5] == vcpu.gprs@[7],  // RDI
        regs.regs@[6] == vcpu.gprs@[5],  // RBP
        regs.regs@[7] == vcpu.gprs@[4],  // RSP
        forall|i: int| 8 <= i < 16 ==> #[trigger] regs.regs@[i] == vcpu.gprs@[i],  // R8 to R15
        regs.rip == vcpu.pc,
{
}

/// The vCPU's number of the register at `i`.
fn gpr_of(i: usize) -> (g: usize)
    requires
        i < 16,
    ensures
        g == gpr_index(i as int),
        g < 16,
{
    match i {
        1 => 3,
        2 => 1,
        3 => 2,
        4 => 6,
        5 => 7,
        6 => 5,
        7 => 4,
        _ => i,
    }
}

impl X86_64Target {
    pub fn new() -> (r: Self)
        ensures
            r == X86_64Target,
    {
        Self
    }
}

impl ArchTarget for X86_64Target {
    type VCpu = VCpuRegisters<16>;

    type Registers = X86_64Registers;

    open spec fn mirrors(vcpu: VCpuRegisters<16>, regs: X86_64Registers) -> bool {
        &&& forall|i: int|
            0 <= i < 16 ==> #[trigger] regs.regs@[i] == vcpu.gprs@[gpr_index(i)]
        &&& regs.rip == vcpu.pc
    }

    fn read_registers(&self, vcpu: &Option<VCpuRegisters<16>>, regs: &mut X86_64Registers)
        ensures
            *vcpu matches Some(v) ==> {
                &&& final(regs).regs@[0] == v.gprs@[0]
                &&& final(regs).regs@[1] == v.gprs@[3]
                &&& final(regs).regs@[2] == v.gprs@[1]
                &&& final(regs).regs@[3] == v.gprs@[2]
                &&& final(regs).regs@[4] == v.gprs@[6]
                &&& final(regs).regs@[5] == v.gprs@[7]
                &&& final(regs).regs@[6] == v.gprs@[5]
                &&& final(regs).regs@[7] == v.gprs@[4]
                &&& forall|i: int| 8 <= i < 16 ==> #[trigger] final(regs).regs@[i] == v.gprs@[i]
                &&& final(regs).rip == v.pc
            },
    {
        if let Some(v) = vcpu {
            let mut i: usize = 0;
            while i < 16
                invariant
                    i <= 16,
                    forall|k: int| 0 <= k < i ==> #[trigger] regs.regs@[k] == v.gprs@[gpr_index(k)],
                decreases 16 - i,
            {
                let g: usize = gpr_of(i);
                regs.regs[i] = v.gprs[g];
                i += 1;
            }
            regs.rip = v.pc;
        }
    }

    fn write_registers(&self, vcpu: &mut Option<VCpuRegisters<16>>, regs: &X86_64Registers)
        ensures
            *final(vcpu) matches Some(v) ==> {
                &&& regs.regs@[0] == v.gprs@[0]
                &&& regs.regs@[1] == v.gprs@[3]
                &&& regs.regs@[2] == v.gprs@[1]
                &&& regs.regs@[3] == v.gprs@[2]
                &&& regs.regs@[4] == v.gprs@[6]
                &&& regs.regs@[5] == v.gprs@[7]
                &&& regs.regs@[6] == v.gprs@[5]
                &&& regs.regs@[7] == v.gprs@[4]
                &&& forall|i: int| 8 <= i < 16 ==> #[trigger] regs.regs@[i] == v.gprs@[i]
                &&& regs.rip == v.pc
            },
    {
        if let Some(v) = vcpu {
            let mut i: usize = 0;
            while i < 16
                invariant
                    i <= 16,
                    forall|k: int| 0 <= k < i ==> #[trigger] regs.regs@[k] == v.gprs@[gpr_index(k)],
                decreases 16 - i,
            {
                let g: usize = gpr_of(i);
                v.gprs[g] = regs.regs[i];
                i += 1;
            }
            v.pc = regs.rip;
        }
    }
}

} // verus!
