//! Single-stepping a RISC-V guest: find where execution goes on after the current
//! instruction, save the instruction there, and plant a breakpoint in its place.
use vstd::arithmetic::power2::pow2;
use vstd::prelude::*;

use super::decode::{
    decode_u16, decode_u32, decoded_u16, decoded_u32, law_mnemonics_name_their_operations,
    offset_even, opcode_of, operands_present, Instruction, Opcode,
};
use super::{ArchTarget, VCpuRegisters};
use crate::memory::zeros;

verus! {

/// A decoded instruction as the decoder's view gives it: mnemonic, first and
/// second source register, immediate.
pub type Decoded = (Seq<char>, Option<usize>, Option<usize>, Option<i32>);

/// Where `sret` is taken to return to.
pub const SRET_TARGET: u64 = 0x130ee;

/// `v` modulo 2^64.
pub open spec fn wrap64(v: int) -> u64 {
    (v % 0x1_0000_0000_0000_0000) as u64
}

/// The number that the bits of `v` denote in two's complement.
pub open spec fn signed64(v: u64) -> int {
    if v < 0x8000_0000_0000_0000 {
        v as int
    } else {
        v - 0x1_0000_0000_0000_0000
    }
}

/// `v` with its lowest bit cleared.
pub open spec fn evened(v: u64) -> u64 {
    (v - v % 2) as u64
}

/// The number that the lowest `bits` bits of `value` denote in two's complement.
pub open spec fn low_bits_signed(value: int, bits: nat) -> int {
    let low = value % pow2(bits) as int;
    if 2 * low >= pow2(bits) {
        low - pow2(bits)
    } else {
        low
    }
}

/// Whether the branch `op` is taken on the operand values `a` and `b`. The
/// compressed branches compare `a` with zero.
pub open spec fn taken(op: Opcode, a: u64, b: u64) -> bool {
    match op {
        Opcode::CBeqz => a == 0,
        Opcode::CBnez => a != 0,
        Opcode::Beq => a == b,
        Opcode::Bne => a != b,
        Opcode::Blt => signed64(a) < signed64(b),
        Opcode::Bge => signed64(a) >= signed64(b),
        Opcode::Bltu => a < b,
        Opcode::Bgeu => a >= b,
        _ => false,
    }
}

/// The address that execution goes on at after the instruction `inst` of `len`
/// bytes at `pc`, with the registers holding `x`.
///
/// The offset of a compressed jump is read from the lowest 11 bits of its
/// immediate, that of a compressed branch from the lowest 8.
pub open spec fn successor(inst: Decoded, len: int, pc: u64, x: Seq<u64>) -> u64 {
    let op = opcode_of(inst.0);
    let rs1 = x[inst.1->0 as int];
    let rs2 = x[inst.2->0 as int];
    let imm = inst.3->0 as int;
    match op {
        Opcode::CJalr | Opcode::CJr => evened(rs1),
        Opcode::CJ => wrap64(pc + low_bits_signed(imm, 11)),
        Opcode::CBeqz | Opcode::CBnez => if taken(op, rs1, 0) {
            wrap64(pc + low_bits_signed(imm, 8))
        } else {
            wrap64(pc + len)
        },
        Opcode::Beq
        | Opcode::Bne
        | Opcode::Blt
        | Opcode::Bge
        | Opcode::Bltu
        | Opcode::Bgeu => if taken(op, rs1, rs2) {
            wrap64(pc + imm)
        } else {
            wrap64(pc + len)
        },
        Opcode::Jal => wrap64(pc + imm),
        Opcode::Jalr => evened(wrap64(rs1 + imm)),
        Opcode::Sret => SRET_TARGET,
        Opcode::Other => wrap64(pc + len),
    }
}

/// Reads the lowest `bits` bits of `value` as a signed number.
pub fn sign_extend(value: u16, bits: usize) -> (r: i16)
    requires
        1 <= bits <= 16,
    ensures
        r == low_bits_signed(value as int, bits as nat),
        -pow2(bits as nat) <= 2 * r < pow2(bits as nat),
        (value - r) % pow2(bits as nat) as int == 0,
{
    let shift: usize = 16 - bits;
    let r: i16 = ((value << shift) as i16) >> shift;
    proof {
        let p: u32 = 1u32 << (bits as u32);
        assert(p == pow2(bits as nat)) by {
            vstd::arithmetic::power2::lemma2_to64();
            vstd::arithmetic::power2::lemma_pow2_strictly_increases(bits as nat, 32);
            vstd::bits::lemma_u32_shl_is_mul(1, bits as u32);
        }
        assert(((value << shift) as i16) >> shift == (if 2 * ((value as u32) % p) >= p {
            (value as u32) % p - p
        } else {
            (value as u32) % p + 0
        })) by (bit_vector)
            requires
                1 <= bits <= 16,
                shift == 16 - bits,
                p == 1u32 << (bits as u32),
        ;
        law_sign_extension_is_congruent(value as int, bits as nat);
    }
    r
}

/// `base` plus a signed `offset`, modulo 2^64.
fn displaced(base: u64, offset: i64) -> (r: u64)
    ensures
        r == wrap64(base + offset),
{
    proof {
        assert(offset >= 0 ==> (offset as u64) == offset) by (bit_vector);
        assert(offset < 0 ==> (offset as u64) == offset + 0x1_0000_0000_0000_0000) by (bit_vector);
    }
    base.wrapping_add(offset as u64)
}

/// Clears the lowest bit.
fn to_even(v: u64) -> (r: u64)
    ensures
        r == evened(v),
{
    assert(v & !1u64 == v - v % 2) by (bit_vector);
    v & !1u64
}

/// The offset that the lowest `bits` bits of the immediate of a compressed
/// instruction hold.
fn compressed_offset(imm: i32, bits: usize) -> (r: i64)
    requires
        1 <= bits <= 16,
    ensures
        r == low_bits_signed(imm as int, bits as nat),
{
    let low: u16 = imm as u16;
    proof {
        lemma_low_half_keeps_low_bits(imm, low, bits as nat);
    }
    sign_extend(low, bits) as i64
}

proof fn lemma_low_half_keeps_low_bits(imm: i32, low: u16, bits: nat)
    requires
        low == imm as u16,
        1 <= bits <= 16,
    ensures
        low_bits_signed(low as int, bits) == low_bits_signed(imm as int, bits),
{
    let q = (imm - low) / 0x10000;
    assert(imm == low + 0x10000 * q) by {
        let u = imm as u32;
        assert(low == u % 0x10000) by (bit_vector)
            requires
                low == imm as u16,
                u == imm as u32,
        ;
        assert(u == (if imm >= 0 {
            imm + 0
        } else {
            imm + 0x1_0000_0000
        })) by (bit_vector)
            requires
                u == imm as u32,
        ;
    }
    let p = pow2(bits) as int;
    let rest = pow2((16 - bits) as nat) as int;
    vstd::arithmetic::power2::lemma_pow2_pos(bits);
    vstd::arithmetic::power2::lemma_pow2_adds(bits, (16 - bits) as nat);
    vstd::arithmetic::power2::lemma2_to64();
    assert(0x10000 * q == p * (rest * q)) by (nonlinear_arith)
        requires
            p * rest == 0x10000,
    ;
    vstd::arithmetic::div_mod::lemma_mod_multiples_vanish(rest * q, low as int, p);
}

/// The address that execution goes on at after `inst`, an instruction of `len`
/// bytes at `pc`, with the registers holding `x`.
pub fn next_pc(inst: &Instruction, len: u64, pc: u64, x: &[u64; 32]) -> (r: u64)
    requires
        operands_present(inst@),
    ensures
        r == successor(inst@, len as int, pc, x@),
        inst.mnemonic@ == "beq"@ ==> r as int == (if x@[inst.rs1->0 as int] == x@[inst.rs2->0 as int] {
            (pc + inst.imm->0) % 0x1_0000_0000_0000_0000
        } else {
            (pc + len) % 0x1_0000_0000_0000_0000
        }),
        inst.mnemonic@ == "bne"@ ==> r as int == (if x@[inst.rs1->0 as int] != x@[inst.rs2->0 as int] {
            (pc + inst.imm->0) % 0x1_0000_0000_0000_0000
        } else {
            (pc + len) % 0x1_0000_0000_0000_0000
        }),
        inst.mnemonic@ == "blt"@ ==> r as int == (if (x@[inst.rs1->0 as int] as i64) < (x@[inst.rs2->0 as int] as i64) {
            (pc + inst.imm->0) % 0x1_0000_0000_0000_0000
        } else {
            (pc + len) % 0x1_0000_0000_0000_0000
        }),
        inst.mnemonic@ == "bge"@ ==> r as int == (if (x@[inst.rs1->0 as int] as i64) >= (x@[inst.rs2->0 as int] as i64) {
            (pc + inst.imm->0) % 0x1_0000_0000_0000_0000
        } else {
            (pc + len) % 0x1_0000_0000_0000_0000
        }),
        inst.mnemonic@ == "bltu"@ ==> r as int == (if x@[inst.rs1->0 as int] < x@[inst.rs2->0 as int] {
            (pc + inst.imm->0) % 0x1_0000_0000_0000_0000
        } else {
            (pc + len) % 0x1_0000_0000_0000_0000
        }),
        inst.mnemonic@ == "bgeu"@ ==> r as int == (if x@[inst.rs1->0 as int] >= x@[inst.rs2->0 as int] {
            (pc + inst.imm->0) % 0x1_0000_0000_0000_0000
        } else {
            (pc + len) % 0x1_0000_0000_0000_0000
        }),
        inst.mnemonic@ == "jal"@ ==> r as int == (pc + inst.imm->0) % 0x1_0000_0000_0000_0000,
        inst.mnemonic@ == "jalr"@ ==> r % 2 == 0 && ({
            let sum = (x@[inst.rs1->0 as int] + inst.imm->0) % 0x1_0000_0000_0000_0000;
            r == sum || r + 1 == sum
        }),
        inst.mnemonic@ == "C.jr"@ || inst.mnemonic@ == "C.jalr"@ ==> r % 2 == 0 && (r
            == x@[inst.rs1->0 as int] || r + 1 == x@[inst.rs1->0 as int]),
        inst.mnemonic@ == "sret"@ ==> r == 0x130ee,
{
    proof {
        law_mnemonics_name_their_operations(inst.mnemonic@);
        if inst.rs1 is Some && inst.rs2 is Some {
            lemma_signed64(x@[inst.rs1->0 as int]);
            lemma_signed64(x@[inst.rs2->0 as int]);
        }
    }
    let op = inst.opcode();
    match op {
        Opcode::CJalr | Opcode::CJr => to_even(x[inst.rs1.unwrap()]),
        Opcode::CJ => displaced(pc, compressed_offset(inst.imm.unwrap(), 11)),
        Opcode::CBeqz | Opcode::CBnez => if branches(op, x[inst.rs1.unwrap()], 0) {
            displaced(pc, compressed_offset(inst.imm.unwrap(), 8))
        } else {
            pc.wrapping_add(len)
        },
        Opcode::Beq
        | Opcode::Bne
        | Opcode::Blt
        | Opcode::Bge
        | Opcode::Bltu
        | Opcode::Bgeu => if branches(op, x[inst.rs1.unwrap()], x[inst.rs2.unwrap()]) {
            displaced(pc, inst.imm.unwrap() as i64)
        } else {
            pc.wrapping_add(len)
        },
        Opcode::Jal => displaced(pc, inst.imm.unwrap() as i64),
        Opcode::Jalr => to_even(displaced(x[inst.rs1.unwrap()], inst.imm.unwrap() as i64)),
        Opcode::Sret => SRET_TARGET,
        Opcode::Other => pc.wrapping_add(len),
    }
}

/// Whether the branch `op` is taken on `a` and `b`.
fn branches(op: Opcode, a: u64, b: u64) -> (r: bool)
    ensures
        r == taken(op, a, b),
{
    proof {
        lemma_signed64(a);
        lemma_signed64(b);
    }
    match op {
        Opcode::CBeqz => a == 0,
        Opcode::CBnez => a != 0,
        Opcode::Beq => a == b,
        Opcode::Bne => a != b,
        Opcode::Blt => (a as i64) < (b as i64),
        Opcode::Bge => (a as i64) >= (b as i64),
        Opcode::Bltu => a < b,
        Opcode::Bgeu => a >= b,
        _ => false,
    }
}

proof fn lemma_signed64(v: u64)
    ensures
        (v as i64) == signed64(v),
{
    assert((v as i64) == (if v < 0x8000_0000_0000_0000 {
        v + 0
    } else {
        v - 0x1_0000_0000_0000_0000
    })) by (bit_vector);
}

/// The debugger's view of the RISC-V registers.
#[derive(Debug, Clone, Copy, PartialEq, Eq)]
pub struct RiscvRegisters {
    pub x: [u64; 32],
    pub pc: u64,
}

/// The debug target for RISC-V guests.
pub struct RiscvTarget;

impl ArchTarget for RiscvTarget {
    type VCpu = VCpuRegisters<32>;

    type Registers = RiscvRegisters;

    open spec fn mirrors(vcpu: VCpuRegisters<32>, regs: RiscvRegisters) -> bool {
        regs.x@ == vcpu.gprs@ && regs.pc == vcpu.pc
    }

    fn read_registers(&self, vcpu: &Option<VCpuRegisters<32>>, regs: &mut RiscvRegisters)
        ensures
            *vcpu matches Some(v) ==> {
                &&& forall|i: int| 0 <= i < 32 ==> #[trigger] final(regs).x@[i] == v.gprs@[i]
                &&& final(regs).pc == v.pc
            },
    {
        if let Some(v) = vcpu {
            let mut i: usize = 0;
            while i < 32
                invariant
                    i <= 32,
                    forall|k: int| 0 <= k < i ==> #[trigger] regs.x@[k] == v.gprs@[k],
                decreases 32 - i,
            {
                regs.x[i] = v.gprs[i];
                i += 1;
            }
            regs.pc = v.pc;
            assert(regs.x@ =~= v.gprs@);
        }
    }

    fn write_registers(&self, vcpu: &mut Option<VCpuRegisters<32>>, regs: &RiscvRegisters)
        ensures
            *final(vcpu) matches Some(v) ==> {
                &&& forall|i: int| 0 <= i < 32 ==> #[trigger] regs.x@[i] == v.gprs@[i]
                &&& regs.pc == v.pc
            },
    {
        if let Some(v) = vcpu {
            let mut i: usize = 0;
            while i < 32
                invariant
                    i <= 32,
                    forall|k: int| 0 <= k < i ==> #[trigger] regs.x@[k] == v.gprs@[k],
                decreases 32 - i,
            {
                v.gprs[i] = regs.x[i];
                i += 1;
            }
            v.pc = regs.pc;
            assert(regs.x@ =~= v.gprs@);
        }
    }
}

/// Why a step could not be prepared.
#[derive(Debug, Clone, Copy, PartialEq, Eq)]
pub enum StepFault {
    /// The current instruction could not be read.
    FetchFailed,
    /// Fewer bytes than the current instruction has could be read.
    Incomplete { expected: usize, got: usize },
    /// The current instruction is not one that the decoder knows.
    Undecodable,
    /// The instruction at the next address could not be read.
    ReadFailed,
    /// The read at the next address gave another number of bytes than asked for.
    WrongLength,
}

/// An instruction that a breakpoint stands in place of.
#[derive(Debug, Clone, Copy, PartialEq, Eq)]
pub struct SavedInst {
    pub pc: u64,
    /// The first `len` bytes are those of the instruction, the others are zero.
    pub inst: [u8; 4],
    pub len: usize,
}

/// The first byte says that a compressed instruction stands here.
pub open spec fn is_compressed(raw: Seq<u8>) -> bool {
    raw.len() > 0 && raw[0] % 4 != 3
}

/// The length of the instruction that starts with `raw`.
pub open spec fn instruction_len(raw: Seq<u8>) -> usize {
    if is_compressed(raw) {
        2
    } else {
        4
    }
}

/// The instruction that starts with `raw`, read in little-endian order.
pub open spec fn decoded(raw: Seq<u8>) -> Option<Decoded> {
    if is_compressed(raw) {
        decoded_u16((raw[0] + 0x100 * raw[1]) as u16)
    } else {
        decoded_u32(
            (raw[0] + 0x100 * raw[1] + 0x1_0000 * raw[2] + 0x100_0000 * raw[3]) as u32,
        )
    }
}

/// Where execution goes on after the instruction that `raw` was read for.
pub open spec fn stepped(regs: VCpuRegisters<32>, raw: Option<Seq<u8>>) -> Result<u64, StepFault> {
    match raw {
        None => Err(StepFault::FetchFailed),
        Some(raw) => if raw.len() < instruction_len(raw) {
            Err(
                StepFault::Incomplete {
                    expected: instruction_len(raw),
                    got: raw.len() as usize,
                },
            )
        } else {
            match decoded(raw) {
                None => Err(StepFault::Undecodable),
                Some(inst) => Ok(
                    successor(inst, instruction_len(raw) as int, regs.pc, regs.gprs@),
                ),
            }
        },
    }
}

/// The length of the breakpoint that is planted at `pc`.
pub open spec fn breakpoint_len_at(pc: u64) -> usize {
    if pc % 4 == 3 {
        4
    } else {
        2
    }
}

/// `ebreak`, or `c.ebreak` where only two bytes are taken.
pub open spec fn breakpoint_bytes(len: usize) -> Seq<u8> {
    if len == 2 {
        seq![0x02u8, 0x90u8]
    } else {
        seq![0x73u8, 0x00u8, 0x10u8, 0x00u8]
    }
}

/// Decodes the instruction that starts with `raw`; gives its length too.
fn decode_fetched(raw: &Vec<u8>) -> (r: Result<(Instruction, usize), StepFault>)
    ensures
        match r {
            Ok((inst, len)) => {
                &&& len == instruction_len(raw@) <= raw@.len()
                &&& decoded(raw@) == Some(inst@)
                &&& operands_present(inst@)
                &&& offset_even(inst@)
            },
            Err(e) => e == (if raw@.len() < instruction_len(raw@) {
                StepFault::Incomplete { expected: instruction_len(raw@), got: raw@.len() as usize }
            } else {
                StepFault::Undecodable
            }) && (raw@.len() >= instruction_len(raw@) ==> decoded(raw@) is None),
        },
{
    let compressed: bool = raw.len() > 0 && raw[0] % 4 != 3;
    let len: usize = if compressed {
        2
    } else {
        4
    };
    if raw.len() < len {
        return Err(StepFault::Incomplete { expected: len, got: raw.len() });
    }
    let inst = if compressed {
        decode_u16(raw[0] as u16 + 0x100 * raw[1] as u16)
    } else {
        decode_u32(
            raw[0] as u32 + 0x100 * raw[1] as u32 + 0x1_0000 * raw[2] as u32 + 0x100_0000
                * raw[3] as u32,
        )
    };
    match inst {
        Some(inst) => Ok((inst, len)),
        None => Err(StepFault::Undecodable),
    }
}

/// The length of the breakpoint that is planted at `pc`.
pub fn breakpoint_len(pc: u64) -> (len: usize)
    ensures
        len == breakpoint_len_at(pc),
{
    if pc % 4 == 3 {
        4
    } else {
        2
    }
}

impl RiscvTarget {
    pub fn new() -> (r: Self)
        ensures
            r == RiscvTarget,
    {
        Self
    }

    /// Starts a step: says where to read the first two bytes of the current
    /// instruction. Without a vCPU there is nothing to step.
    pub fn step(&self, vcpu: &Option<VCpuRegisters<32>>) -> (fetch: Option<(u64, usize)>)
        ensures
            fetch == (match *vcpu {
                Some(v) => Some((v.pc, 2usize)),
                None => None,
            }),
    {
        match vcpu {
            Some(v) => Some((v.pc, 2)),
            None => None,
        }
    }

    /// Goes on with what the read of the first two bytes gave: says where to read
    /// the whole instruction, if the first byte announces a longer one. `None` if
    /// there is nothing more to read, because the bytes are the instruction or
    /// because they could not be read.
    pub fn step_more(&self, vcpu: &VCpuRegisters<32>, first: &Option<Vec<u8>>) -> (fetch: Option<
        (u64, usize),
    >)
        ensures
            fetch == (match *first {
                Some(bytes) => if is_compressed(bytes@) {
                    None
                } else {
                    Some((vcpu.pc, 4usize))
                },
                None => None,
            }),
    {
        match first {
            Some(bytes) => {
                if bytes.len() > 0 && bytes[0] % 4 != 3 {
                    None
                } else {
                    Some((vcpu.pc, 4))
                }
            },
            None => None,
        }
    }

    /// Goes on with what the read of the current instruction gave: the address
    /// that the breakpoint goes to. From an even address a step leads to an even
    /// one, where the short breakpoint is planted.
    pub fn step_fetched(&self, vcpu: &VCpuRegisters<32>, raw: &Option<Vec<u8>>) -> (r: Result<
        u64,
        StepFault,
    >)
        ensures
            r == stepped(
                *vcpu,
                match *raw {
                    Some(bytes) => Some(bytes@),
                    None => None,
                },
            ),
            vcpu.pc % 2 == 0 ==> (r matches Ok(next) ==> next % 2 == 0 && breakpoint_len_at(next)
                == 2),
    {
        match raw {
            None => Err(StepFault::FetchFailed),
            Some(bytes) => match decode_fetched(bytes) {
                Ok((inst, len)) => {
                    proof {
                        if vcpu.pc % 2 == 0 {
                            law_even_addresses_stay_even(
                                inst@,
                                len as int,
                                vcpu.pc,
                                vcpu.gprs@,
                            );
                        }
                    }
                    Ok(next_pc(&inst, len as u64, vcpu.pc, &vcpu.gprs))
                },
                Err(e) => Err(e),
            },
        }
    }

    /// Ends a step with the bytes that stand at `pc`: saves them, and gives the
    /// breakpoint to write in their place.
    pub fn step_saved(
        &self,
        pc: u64,
        bytes: &Option<Vec<u8>>,
        saved_inst: &mut Option<SavedInst>,
    ) -> (r: Result<Vec<u8>, StepFault>)
        ensures
            match r {
                Ok(trap) => {
                    &&& *bytes matches Some(b)
                    &&& b@.len() == breakpoint_len_at(pc)
                    &&& *final(saved_inst) matches Some(saved)
                    &&& saved.pc == pc
                    &&& saved.len == b@.len()
                    &&& saved.inst@ == b@ + zeros((4 - b@.len()) as nat)
                    &&& trap@ == breakpoint_bytes(breakpoint_len_at(pc))
                },
                Err(e) => *final(saved_inst) == *old(saved_inst) && match *bytes {
                    None => e == StepFault::ReadFailed,
                    Some(b) => b@.len() != breakpoint_len_at(pc) && e == StepFault::WrongLength,
                },
            },
    {
        let len: usize = breakpoint_len(pc);
        match bytes {
            None => Err(StepFault::ReadFailed),
            Some(b) => {
                if b.len() != len {
                    return Err(StepFault::WrongLength);
                }
                let mut inst: [u8; 4] = [0, 0, 0, 0];
                let mut i: usize = 0;
                while i < len
                    invariant
                        i <= len <= 4,
                        len == b@.len(),
                        inst@ == b@.take(i as int) + zeros((4 - i) as nat),
                    decreases len - i,
                {
                    inst[i] = b[i];
                    i += 1;
                    assert(inst@ =~= b@.take(i as int) + zeros((4 - i) as nat));
                }
                assert(b@.take(len as int) =~= b@);
                let mut trap: Vec<u8> = Vec::new();
                if len == 2 {
                    trap.push(0x02);
                    trap.push(0x90);
                } else {
                    trap.push(0x73);
                    trap.push(0x00);
                    trap.push(0x10);
                    trap.push(0x00);
                }
                assert(trap@ =~= breakpoint_bytes(len));
                *saved_inst = Some(SavedInst { pc, inst, len });
                Ok(trap)
            },
        }
    }
}

/// A compressed instruction is stepped by its first two bytes alone: what stands
/// behind them, and whether it can be read, does not matter.
pub proof fn law_compressed_needs_two_bytes(regs: VCpuRegisters<32>, raw: Seq<u8>)
    requires
        raw.len() >= 2,
        is_compressed(raw),
    ensures
        is_compressed(raw.take(2)),
        stepped(regs, Some(raw)) == stepped(regs, Some(raw.take(2))),
{
    assert(raw.take(2)[0] == raw[0] && raw.take(2)[1] == raw[1]);
}

/// The bytes of `memory` with `bytes` written at `at`.
pub open spec fn overwritten(memory: Seq<u8>, at: int, bytes: Seq<u8>) -> Seq<u8> {
    memory.take(at) + bytes + memory.skip(at + bytes.len())
}

/// A breakpoint can be taken out again: where `saved` and `trap` are what
/// [`RiscvTarget::step_saved`] saves and gives for the bytes that stand at `pc`,
/// planting the breakpoint changes no other byte, and writing the saved bytes over
/// it restores the memory.
pub proof fn law_breakpoint_is_reversible(memory: Seq<u8>, pc: u64, saved: SavedInst, trap: Seq<u8>)
    requires
        pc + breakpoint_len_at(pc) <= memory.len(),
        saved.len == breakpoint_len_at(pc),
        saved.inst@ == memory.subrange(pc as int, pc + saved.len) + zeros((4 - saved.len) as nat),
        trap == breakpoint_bytes(breakpoint_len_at(pc)),
    ensures
        ({
            let planted = overwritten(memory, pc as int, trap);
            &&& planted.len() == memory.len()
            &&& planted.subrange(pc as int, pc + saved.len) == trap
            &&& forall|a: int|
                0 <= a < memory.len() && !(pc <= a < pc + saved.len) ==> #[trigger] planted[a]
                    == memory[a]
            &&& overwritten(planted, pc as int, saved.inst@.take(saved.len as int)) == memory
        }),
{
    let planted = overwritten(memory, pc as int, trap);
    let bytes = saved.inst@.take(saved.len as int);
    assert(bytes =~= memory.subrange(pc as int, pc + saved.len));
    assert(trap.len() == saved.len);
    assert(planted.subrange(pc as int, pc + saved.len) =~= trap);
    assert(overwritten(planted, pc as int, bytes) =~= memory);
}

/// At an even address the breakpoint is `c.ebreak`: two bytes are saved, and
/// nothing behind them.
pub proof fn law_even_breakpoint_is_short(bytes: Seq<u8>, pc: u64, saved: SavedInst, trap: Seq<u8>)
    requires
        pc % 2 == 0,
        bytes.len() == breakpoint_len_at(pc),
        saved.len == bytes.len(),
        saved.inst@ == bytes + zeros((4 - bytes.len()) as nat),
        trap == breakpoint_bytes(breakpoint_len_at(pc)),
    ensures
        saved.len == 2,
        saved.inst@ == seq![bytes[0], bytes[1], 0u8, 0u8],
        trap == seq![0x02u8, 0x90u8],
{
    assert(saved.inst@ =~= seq![bytes[0], bytes[1], 0u8, 0u8]);
}

/// From an even address execution goes on at an even address, and a breakpoint
/// there is the short one.
pub proof fn law_even_addresses_stay_even(inst: Decoded, len: int, pc: u64, x: Seq<u64>)
    requires
        pc % 2 == 0,
        len == 2 || len == 4,
        offset_even(inst),
    ensures
        successor(inst, len, pc, x) % 2 == 0,
        breakpoint_len_at(successor(inst, len, pc, x)) == 2,
{
    let imm = inst.3->0 as int;
    lemma_wrapping_keeps_even(pc + len);
    if imm % 2 == 0 {
        lemma_low_bits_keep_even(imm);
        lemma_wrapping_keeps_even(pc + imm);
        lemma_wrapping_keeps_even(pc + low_bits_signed(imm, 8));
        lemma_wrapping_keeps_even(pc + low_bits_signed(imm, 11));
    }
    let next = successor(inst, len, pc, x);
    assert(next % 2 == 0);
    assert(next % 4 != 3);
}

proof fn lemma_wrapping_keeps_even(v: int)
    requires
        v % 2 == 0,
    ensures
        wrap64(v) % 2 == 0,
{
}

proof fn lemma_low_bits_keep_even(v: int)
    requires
        v % 2 == 0,
    ensures
        low_bits_signed(v, 8) % 2 == 0,
        low_bits_signed(v, 11) % 2 == 0,
{
    vstd::arithmetic::power2::lemma2_to64();
}

/// A branch compares the values of its two registers, as its mnemonic says, `blt` and
/// `bge` as two's complement numbers and the others as they are. Where it is taken,
/// execution goes on at the current address plus the immediate, else behind the
/// instruction; addresses wrap around at 2^64.
pub proof fn law_branches_compare_their_registers(
    inst: Decoded,
    len: int,
    pc: u64,
    x: Seq<u64>,
    r1: usize,
    r2: usize,
    imm: i32,
)
    requires
        inst.1 == Some(r1),
        inst.2 == Some(r2),
        inst.3 == Some(imm),
    ensures
        ({
            let next = successor(inst, len, pc, x) as int;
            let there = (pc + imm) % 0x1_0000_0000_0000_0000;
            let on = (pc + len) % 0x1_0000_0000_0000_0000;
            let a = x[r1 as int];
            let b = x[r2 as int];
            &&& inst.0 == "beq"@ ==> next == (if a == b { there } else { on })
            &&& inst.0 == "bne"@ ==> next == (if a == b { on } else { there })
            &&& inst.0 == "blt"@ ==> next == (if (a as i64) < (b as i64) { there } else { on })
            &&& inst.0 == "bge"@ ==> next == (if (a as i64) < (b as i64) { on } else { there })
            &&& inst.0 == "bltu"@ ==> next == (if a < b { there } else { on })
            &&& inst.0 == "bgeu"@ ==> next == (if a < b { on } else { there })
        }),
{
    law_mnemonics_name_their_operations(inst.0);
    lemma_signed64(x[r1 as int]);
    lemma_signed64(x[r2 as int]);
}

/// A compressed branch compares its register with zero; where it is taken, execution
/// goes on at the current address plus `offset`, the number between -128 and 127 that
/// agrees with the immediate in the lowest 8 bits.
pub proof fn law_compressed_branches_compare_with_zero(
    inst: Decoded,
    len: int,
    pc: u64,
    x: Seq<u64>,
    r1: usize,
    imm: i32,
    offset: int,
)
    requires
        inst.1 == Some(r1),
        inst.3 == Some(imm),
        -128 <= offset < 128,
        (imm - offset) % 256 == 0,
    ensures
        ({
            let next = successor(inst, len, pc, x) as int;
            let there = (pc + offset) % 0x1_0000_0000_0000_0000;
            let on = (pc + len) % 0x1_0000_0000_0000_0000;
            &&& inst.0 == "C.beqz"@ ==> next == (if x[r1 as int] == 0 { there } else { on })
            &&& inst.0 == "C.bnez"@ ==> next == (if x[r1 as int] == 0 { on } else { there })
        }),
{
    law_mnemonics_name_their_operations(inst.0);
    vstd::arithmetic::power2::lemma2_to64();
    assert(low_bits_signed(imm as int, 8) == offset);
}

/// A relative jump goes to the current address plus its offset: that of `jal` is the
/// immediate, that of `C.j` the number between -1024 and 1023 that agrees with it in the
/// lowest 11 bits.
pub proof fn law_relative_jumps_go_by_their_offset(
    inst: Decoded,
    len: int,
    pc: u64,
    x: Seq<u64>,
    imm: i32,
    offset: int,
)
    requires
        inst.3 == Some(imm),
        -1024 <= offset < 1024,
        (imm - offset) % 2048 == 0,
    ensures
        inst.0 == "jal"@ ==> successor(inst, len, pc, x) as int == (pc + imm) % 0x1_0000_0000_0000_0000,
        inst.0 == "C.j"@ ==> successor(inst, len, pc, x) as int == (pc + offset) % 0x1_0000_0000_0000_0000,
{
    law_mnemonics_name_their_operations(inst.0);
    vstd::arithmetic::power2::lemma2_to64();
    assert(low_bits_signed(imm as int, 11) == offset);
}

/// A jump through a register goes to the even address at or just below what the register
/// holds, for `jalr` plus the immediate.
pub proof fn law_register_jumps_follow_their_register(
    inst: Decoded,
    len: int,
    pc: u64,
    x: Seq<u64>,
    r1: usize,
    imm: i32,
)
    requires
        inst.1 == Some(r1),
        inst.0 == "jalr"@ ==> inst.3 == Some(imm),
    ensures
        ({
            let next = successor(inst, len, pc, x);
            let sum = (x[r1 as int] + imm) % 0x1_0000_0000_0000_0000;
            &&& inst.0 == "jalr"@ ==> next % 2 == 0 && (next == sum || next + 1 == sum)
            &&& inst.0 == "C.jr"@ || inst.0 == "C.jalr"@ ==> next % 2 == 0 && (next
                == x[r1 as int] || next + 1 == x[r1 as int])
        }),
{
    law_mnemonics_name_their_operations(inst.0);
}

/// `sret` is taken to return to a fixed address, whatever the registers hold.
pub proof fn law_sret_has_a_fixed_target(inst: Decoded, len: int, pc: u64, x: Seq<u64>)
    requires
        inst.0 == "sret"@,
    ensures
        successor(inst, len, pc, x) == 0x130ee,
{
    law_mnemonics_name_their_operations(inst.0);
}

/// After any other instruction execution goes on behind it.
pub proof fn law_other_instructions_fall_through(inst: Decoded, len: int, pc: u64, x: Seq<u64>)
    requires
        inst.0 != "C.jalr"@,
        inst.0 != "C.jr"@,
        inst.0 != "C.j"@,
        inst.0 != "C.beqz"@,
        inst.0 != "C.bnez"@,
        inst.0 != "beq"@,
        inst.0 != "bne"@,
        inst.0 != "blt"@,
        inst.0 != "bge"@,
        inst.0 != "bltu"@,
        inst.0 != "bgeu"@,
        inst.0 != "jal"@,
        inst.0 != "jalr"@,
        inst.0 != "sret"@,
    ensures
        successor(inst, len, pc, x) as int == (pc + len) % 0x1_0000_0000_0000_0000,
{
    law_mnemonics_name_their_operations(inst.0);
}

/// Sign extension gives a number that fits in the bits and agrees with the value in
/// them.
pub proof fn law_sign_extension_is_congruent(v: int, bits: nat)
    ensures
        -pow2(bits) <= 2 * low_bits_signed(v, bits) < pow2(bits),
        (v - low_bits_signed(v, bits)) % pow2(bits) as int == 0,
{
    vstd::arithmetic::power2::lemma_pow2_pos(bits);
    let p = pow2(bits) as int;
    let q = v / p;
    vstd::arithmetic::div_mod::lemma_fundamental_div_mod(v, p);
    vstd::arithmetic::div_mod::lemma_mod_bound(v, p);
    vstd::arithmetic::div_mod::lemma_mod_multiples_basic(q, p);
    vstd::arithmetic::div_mod::lemma_mod_multiples_basic(q + 1, p);
    assert((q + 1) * p == q * p + p) by (nonlinear_arith);
    assert(p * q == q * p) by (nonlinear_arith);
}

/// A compressed instruction is stepped as the decoder reads the two bytes that stand
/// first, the lower one first; behind it stand two bytes more.
pub proof fn law_short_instruction_is_stepped(
    regs: VCpuRegisters<32>,
    raw: Seq<u8>,
    word: u16,
)
    requires
        raw.len() >= 2,
        raw[0] == word % 0x100,
        raw[1] == word / 0x100,
        word % 4 != 3,
    ensures
        decoded_u16(word) is None ==> stepped(regs, Some(raw)) == Err::<u64, StepFault>(
            StepFault::Undecodable,
        ),
        decoded_u16(word) matches Some(inst) ==> stepped(regs, Some(raw)) == Ok::<u64, StepFault>(
            successor(inst, 2, regs.pc, regs.gprs@),
        ),
{
    assert((raw[0] + 0x100 * raw[1]) as u16 == word);
}

/// A longer instruction is stepped as the decoder reads its four bytes, the lowest one
/// first; behind it stand four bytes more.
pub proof fn law_long_instruction_is_stepped(regs: VCpuRegisters<32>, raw: Seq<u8>, word: u32)
    requires
        raw.len() >= 4,
        raw[0] == word % 0x100,
        raw[1] == word / 0x100 % 0x100,
        raw[2] == word / 0x1_0000 % 0x100,
        raw[3] == word / 0x100_0000,
        word % 4 == 3,
    ensures
        decoded_u32(word) is None ==> stepped(regs, Some(raw)) == Err::<u64, StepFault>(
            StepFault::Undecodable,
        ),
        decoded_u32(word) matches Some(inst) ==> stepped(regs, Some(raw)) == Ok::<u64, StepFault>(
            successor(inst, 4, regs.pc, regs.gprs@),
        ),
{
    assert((raw[0] + 0x100 * raw[1] + 0x1_0000 * raw[2] + 0x100_0000 * raw[3]) as u32 == word);
}

/// What cannot be read cannot be stepped, and it is told what was missing: an
/// instruction has two bytes where its first byte says so, else four.
pub proof fn law_unread_instructions_are_faults(regs: VCpuRegisters<32>, raw: Seq<u8>)
    requires
        raw.len() < 4,
    ensures
        stepped(regs, None) == Err::<u64, StepFault>(StepFault::FetchFailed),
        raw.len() == 0 || raw[0] % 4 == 3 ==> stepped(regs, Some(raw)) == Err::<u64, StepFault>(
            StepFault::Incomplete { expected: 4, got: raw.len() as usize },
        ),
        raw.len() == 1 && raw[0] % 4 != 3 ==> stepped(regs, Some(raw)) == Err::<u64, StepFault>(
            StepFault::Incomplete { expected: 2, got: 1 },
        ),
{
}

/// A breakpoint is `c.ebreak` or, at an address that ends in two set bits, `ebreak`.
pub proof fn law_breakpoints_are_break_instructions(pc: u64)
    ensures
        pc % 4 == 3 ==> breakpoint_len_at(pc) == 4 && breakpoint_bytes(breakpoint_len_at(pc))
            == seq![0x73u8, 0x00u8, 0x10u8, 0x00u8],
        pc % 4 != 3 ==> breakpoint_len_at(pc) == 2 && breakpoint_bytes(breakpoint_len_at(pc))
            == seq![0x02u8, 0x90u8],
        breakpoint_bytes(breakpoint_len_at(pc)).len() == breakpoint_len_at(pc),
{
}

/// Of two opposite branches on the same operands exactly one is taken.
pub proof fn law_opposite_branches(a: u64, b: u64)
    ensures
        taken(Opcode::Beq, a, b) != taken(Opcode::Bne, a, b),
        taken(Opcode::Blt, a, b) != taken(Opcode::Bge, a, b),
        taken(Opcode::Bltu, a, b) != taken(Opcode::Bgeu, a, b),
        taken(Opcode::CBeqz, a, b) != taken(Opcode::CBnez, a, b),
{
}

/// A jump through a register lands on an even address.
pub proof fn law_register_jumps_are_even(inst: Decoded, len: int, pc: u64, x: Seq<u64>)
    requires
        opcode_of(inst.0) == Opcode::CJr || opcode_of(inst.0) == Opcode::CJalr || opcode_of(inst.0)
            == Opcode::Jalr,
    ensures
        successor(inst, len, pc, x) % 2 == 0,
{
}

/// Sign extension keeps a number that fits: what the lowest `bits` bits of `v`
/// denote is `v` itself.
pub proof fn law_sign_extension_keeps_what_fits(v: int, bits: nat)
    requires
        bits >= 1,
        -pow2(bits) <= 2 * v < pow2(bits),
    ensures
        low_bits_signed(v, bits) == v,
{
    vstd::arithmetic::power2::lemma_pow2_pos(bits);
    let p = pow2(bits) as int;
    if v >= 0 {
        vstd::arithmetic::div_mod::lemma_small_mod(v as nat, p as nat);
    } else {
        vstd::arithmetic::div_mod::lemma_small_mod((v + p) as nat, p as nat);
        vstd::arithmetic::div_mod::lemma_mod_add_multiples_vanish(v, p);
    }
}

/// A compressed jump whose offset lies within 1024 bytes, and a taken compressed
/// branch whose offset lies within 128 bytes, go to the current address plus the
/// offset.
pub proof fn law_short_compressed_jumps(inst: Decoded, len: int, pc: u64, x: Seq<u64>)
    requires
        inst.3 is Some,
        ({
            let op = opcode_of(inst.0);
            let imm = inst.3->0;
            ||| op == Opcode::CJ && -1024 <= imm < 1024
            ||| (op == Opcode::CBeqz || op == Opcode::CBnez) && -128 <= imm < 128 && taken(
                op,
                x[inst.1->0 as int],
                0,
            )
        }),
    ensures
        successor(inst, len, pc, x) == wrap64(pc + inst.3->0),
{
    vstd::arithmetic::power2::lemma2_to64();
    if opcode_of(inst.0) == Opcode::CJ {
        law_sign_extension_keeps_what_fits(inst.3->0 as int, 11);
    } else {
        law_sign_extension_keeps_what_fits(inst.3->0 as int, 8);
    }
}

/// Every register of the vCPU stands under its own number in the debugger's file.
pub proof fn law_registers_keep_their_numbers(vcpu: VCpuRegisters<32>, regs: RiscvRegisters)
    requires
        RiscvTarget::mirrors(vcpu, regs),
    ensures
        forall|i: int| 0 <= i < 32 ==> #[trigger] regs.x@[i] == vcpu.gprs@[i],
        regs.pc == vcpu.pc,
{
}

/// What the debugger writes it reads back, and a register file that was read
/// writes back what the vCPU held: vCPU and register file determine each other.
pub proof fn law_registers_round_trip(
    v1: VCpuRegisters<32>,
    r1: RiscvRegisters,
    v2: VCpuRegisters<32>,
    r2: RiscvRegisters,
)
    requires
        RiscvTarget::mirrors(v1, r1),
        RiscvTarget::mirrors(v2, r2),
    ensures
        r1.x@ == r2.x@ && r1.pc == r2.pc <==> v1.gprs@ == v2.gprs@ && v1.pc == v2.pc,
{
}

} // verus!
