use axvm::gdb::arch::decode::{Instruction, Opcode};
use axvm::gdb::arch::riscv::{
    breakpoint_len, next_pc, sign_extend, RiscvRegisters, RiscvTarget, SavedInst, StepFault,
};
use axvm::gdb::arch::{ArchTarget, VCpuRegisters};
use raki::{Decode, Isa};

const PC: u64 = 0x8000_1000;

fn vcpu(set: &[(usize, u64)]) -> VCpuRegisters<32> {
    let mut gprs = [0u64; 32];
    for (reg, val) in set {
        gprs[*reg] = *val;
    }
    VCpuRegisters { gprs, pc: PC }
}

fn step32(inst: u32, set: &[(usize, u64)]) -> Result<u64, StepFault> {
    RiscvTarget::new().step_fetched(&vcpu(set), &Some(inst.to_le_bytes().to_vec()))
}

/// The two bytes after a compressed instruction do not matter.
fn step16(inst: u16, set: &[(usize, u64)]) -> Result<u64, StepFault> {
    let mut raw = inst.to_le_bytes().to_vec();
    raw.push(0xff);
    raw.push(0xff);
    RiscvTarget::new().step_fetched(&vcpu(set), &Some(raw))
}

#[test]
fn sign_extension() {
    assert_eq!(sign_extend(0x7ff, 11), -1);
    assert_eq!(sign_extend(0x400, 11), -1024);
    assert_eq!(sign_extend(0x3ff, 11), 1023);
    assert_eq!(sign_extend(0x80, 8), -128);
    assert_eq!(sign_extend(0xff7f, 8), 127);
    assert_eq!(sign_extend(1, 1), -1);
    assert_eq!(sign_extend(0x8000, 16), -0x8000);
}

#[test]
fn step_asks_for_two_bytes_at_pc() {
    let target = RiscvTarget::new();
    assert_eq!(target.step(&Some(vcpu(&[]))), Some((PC, 2)));
    assert_eq!(target.step(&None), None);
}

#[test]
fn step_asks_for_four_bytes_only_where_they_are_needed() {
    let target = RiscvTarget::new();
    let regs = vcpu(&[]);
    // The first half of addi a0, zero, 1
    assert_eq!(target.step_more(&regs, &Some(vec![0x13, 0x05])), Some((PC, 4)));
    // c.jr ra
    assert_eq!(target.step_more(&regs, &Some(vec![0x82, 0x80])), None);
    assert_eq!(target.step_more(&regs, &Some(vec![])), Some((PC, 4)));
    assert_eq!(target.step_more(&regs, &None), None);
}

#[test]
fn compressed_instructions_step_by_their_two_bytes() {
    let target = RiscvTarget::new();
    let regs = vcpu(&[(1, 0x4000)]);
    // c.jr ra, with nothing readable behind it
    assert_eq!(target.step_fetched(&regs, &Some(vec![0x82, 0x80])), Ok(0x4000));
    assert_eq!(target.step_fetched(&regs, &Some(vec![0x82, 0x80, 9, 9])), Ok(0x4000));
}

#[test]
fn plain_instructions_fall_through() {
    // addi a0, zero, 1
    assert_eq!(step32(0x0010_0513, &[]), Ok(PC + 4));
    // c.nop
    assert_eq!(step16(0x0001, &[]), Ok(PC + 2));
    // ecall
    assert_eq!(step32(0x0000_0073, &[]), Ok(PC + 4));
}

#[test]
fn falling_through_wraps_around() {
    let mut v = vcpu(&[]);
    v.pc = u64::MAX - 1;
    let raw = Some(vec![0x01, 0x00]);
    assert_eq!(RiscvTarget::new().step_fetched(&v, &raw), Ok(0));
}

#[test]
fn branches_compare_their_registers() {
    // beq a5, a4, 36
    assert_eq!(step32(0x02e7_8263, &[(15, 7), (14, 7)]), Ok(PC + 36));
    assert_eq!(step32(0x02e7_8263, &[(15, 7), (14, 8)]), Ok(PC + 4));
    // bne a5, a4, 36
    assert_eq!(step32(0x02e7_9263, &[(15, 7), (14, 8)]), Ok(PC + 36));
    assert_eq!(step32(0x02e7_9263, &[(15, 7), (14, 7)]), Ok(PC + 4));
    // blt a0, zero, 24
    assert_eq!(step32(0x0005_4c63, &[(10, u64::MAX)]), Ok(PC + 24));
    assert_eq!(step32(0x0005_4c63, &[(10, 1)]), Ok(PC + 4));
    // bge a0, zero, 24
    assert_eq!(step32(0x0005_5c63, &[(10, 0)]), Ok(PC + 24));
    assert_eq!(step32(0x0005_5c63, &[(10, 1 << 63)]), Ok(PC + 4));
    // bltu s9, a4, 278
    assert_eq!(step32(0x10ec_eb63, &[(25, 1), (14, u64::MAX)]), Ok(PC + 278));
    assert_eq!(step32(0x10ec_eb63, &[(25, u64::MAX), (14, 1)]), Ok(PC + 4));
    // bgeu s9, a4, 278
    assert_eq!(step32(0x10ec_fb63, &[(25, u64::MAX), (14, 1)]), Ok(PC + 278));
    assert_eq!(step32(0x10ec_fb63, &[(25, 1), (14, 2)]), Ok(PC + 4));
}

#[test]
fn jumps_go_to_their_target() {
    // jal ra, -1582
    assert_eq!(step32(0x9d3f_f0ef, &[]), Ok(PC - 1582));
    // jalr ra, -4(t0)
    assert_eq!(step32(0xffc2_80e7, &[(5, 0x2000)]), Ok(0x1ffc));
    assert_eq!(step32(0xffc2_80e7, &[(5, 0x2001)]), Ok(0x1ffc));
    assert_eq!(step32(0xffc2_80e7, &[(5, 0)]), Ok(u64::MAX - 3));
    // sret
    assert_eq!(step32(0x1020_0073, &[]), Ok(0x130ee));
}

#[test]
fn compressed_jumps_go_to_their_target() {
    // c.jr ra
    assert_eq!(step16(0x8082, &[(1, 0x2001)]), Ok(0x2000));
    // c.jalr ra
    assert_eq!(step16(0x9082, &[(1, 0x3000)]), Ok(0x3000));
    // c.j -280
    assert_eq!(step16(0xb5e5, &[]), Ok(PC - 280));
}

#[test]
fn compressed_branches_compare_with_zero() {
    // c.bnez a3, 38
    assert_eq!(step16(0xe29d, &[(13, 1)]), Ok(PC + 38));
    assert_eq!(step16(0xe29d, &[(13, 0)]), Ok(PC + 2));
    // c.beqz a3, 38
    assert_eq!(step16(0xc29d, &[(13, 0)]), Ok(PC + 38));
    assert_eq!(step16(0xc29d, &[(13, 1)]), Ok(PC + 2));
}

#[test]
fn long_compressed_offsets_are_folded() {
    // c.j 1024
    assert_eq!(step16(0xa101, &[]), Ok(PC - 1024));
    // c.beqz s0, 128
    assert_eq!(step16(0xc041, &[(8, 0)]), Ok(PC - 128));
}

#[test]
fn step_faults() {
    let target = RiscvTarget::new();
    let v = vcpu(&[]);
    assert_eq!(target.step_fetched(&v, &None), Err(StepFault::FetchFailed));
    assert_eq!(
        target.step_fetched(&v, &Some(vec![])),
        Err(StepFault::Incomplete { expected: 4, got: 0 })
    );
    assert_eq!(
        target.step_fetched(&v, &Some(vec![0x01])),
        Err(StepFault::Incomplete { expected: 2, got: 1 })
    );
    assert_eq!(
        target.step_fetched(&v, &Some(vec![0x13, 0x05, 0x10])),
        Err(StepFault::Incomplete { expected: 4, got: 3 })
    );
    assert_eq!(target.step_fetched(&v, &Some(vec![0, 0, 0, 0])), Err(StepFault::Undecodable));
    assert_eq!(target.step_fetched(&v, &Some(vec![0xff; 4])), Err(StepFault::Undecodable));
}

#[test]
fn next_pc_reads_the_instruction_it_is_given() {
    let inst = Instruction {
        mnemonic: String::from("jalr"),
        rs1: Some(6),
        rs2: None,
        imm: Some(16),
    };
    assert_eq!(inst.opcode(), Opcode::Jalr);
    let mut x = [0u64; 32];
    x[6] = 0x101;
    assert_eq!(next_pc(&inst, 4, 0, &x), 0x110);
    let other = Instruction { mnemonic: String::from("mul"), rs1: None, rs2: None, imm: None };
    assert_eq!(other.opcode(), Opcode::Other);
    assert_eq!(next_pc(&other, 4, 0x20, &x), 0x24);
}

#[test]
fn every_mnemonic_names_its_operation() {
    let all = [
        ("C.jalr", Opcode::CJalr),
        ("C.jr", Opcode::CJr),
        ("C.j", Opcode::CJ),
        ("C.beqz", Opcode::CBeqz),
        ("C.bnez", Opcode::CBnez),
        ("beq", Opcode::Beq),
        ("bne", Opcode::Bne),
        ("blt", Opcode::Blt),
        ("bge", Opcode::Bge),
        ("bltu", Opcode::Bltu),
        ("bgeu", Opcode::Bgeu),
        ("jal", Opcode::Jal),
        ("jalr", Opcode::Jalr),
        ("sret", Opcode::Sret),
        ("mret", Opcode::Other),
        ("C.ebreak", Opcode::Other),
    ];
    for (mnemonic, opcode) in all {
        let inst =
            Instruction { mnemonic: String::from(mnemonic), rs1: None, rs2: None, imm: None };
        assert_eq!(inst.opcode(), opcode);
    }
}

#[test]
fn breakpoint_takes_two_or_four_bytes() {
    assert_eq!(breakpoint_len(0x1000), 2);
    assert_eq!(breakpoint_len(0x1002), 2);
    assert_eq!(breakpoint_len(0x1003), 4);
}

#[test]
fn step_saves_what_the_breakpoint_replaces() {
    let target = RiscvTarget::new();
    let mut saved = None;
    let trap = target.step_saved(0x1000, &Some(vec![0x11, 0x22]), &mut saved);
    assert_eq!(trap, Ok(vec![0x02, 0x90]));
    assert_eq!(saved, Some(SavedInst { pc: 0x1000, inst: [0x11, 0x22, 0, 0], len: 2 }));
    let trap = target.step_saved(0x1003, &Some(vec![1, 2, 3, 4]), &mut saved);
    assert_eq!(trap, Ok(vec![0x73, 0x00, 0x10, 0x00]));
    assert_eq!(saved, Some(SavedInst { pc: 0x1003, inst: [1, 2, 3, 4], len: 4 }));
}

#[test]
fn step_cannot_save_without_the_bytes() {
    let target = RiscvTarget::new();
    let kept = Some(SavedInst { pc: 8, inst: [1, 2, 0, 0], len: 2 });
    let mut saved = kept;
    assert_eq!(target.step_saved(0x1000, &None, &mut saved), Err(StepFault::ReadFailed));
    assert_eq!(
        target.step_saved(0x1000, &Some(vec![1]), &mut saved),
        Err(StepFault::WrongLength)
    );
    assert_eq!(
        target.step_saved(0x1003, &Some(vec![1, 2]), &mut saved),
        Err(StepFault::WrongLength)
    );
    assert_eq!(saved, kept);
}

#[test]
fn breakpoints_are_break_instructions() {
    let target = RiscvTarget::new();
    let mut saved = None;
    let short = target.step_saved(0, &Some(vec![0, 0]), &mut saved).unwrap();
    let inst = u16::from_le_bytes([short[0], short[1]]).decode(Isa::Rv64).unwrap();
    assert_eq!(inst.opc.to_string(), "C.ebreak");
    let long = target.step_saved(3, &Some(vec![0; 4]), &mut saved).unwrap();
    let inst = u32::from_le_bytes([long[0], long[1], long[2], long[3]]).decode(Isa::Rv64).unwrap();
    assert_eq!(inst.opc.to_string(), "ebreak");
}

#[test]
fn breakpoint_can_be_taken_out_again() {
    let mut memory = vec![0xaau8, 0xbb, 0xcc, 0xdd, 0xee, 0x11];
    let before = memory.clone();
    let pc = 2usize;
    let len = breakpoint_len(pc as u64);
    let bytes = memory[pc..pc + len].to_vec();
    let mut saved = None;
    let trap = RiscvTarget::new().step_saved(pc as u64, &Some(bytes), &mut saved).unwrap();
    let saved = saved.unwrap();
    memory[pc..pc + len].copy_from_slice(&trap);
    assert_ne!(memory, before);
    memory[pc..pc + len].copy_from_slice(&saved.inst[..saved.len]);
    assert_eq!(memory, before);
}

#[test]
fn riscv_registers_round_trip() {
    let target = RiscvTarget::new();
    let mut gprs = [0u64; 32];
    for i in 0..32 {
        gprs[i] = 100 + i as u64;
    }
    let held = VCpuRegisters { gprs, pc: 0x80 };
    let mut regs = RiscvRegisters { x: [0; 32], pc: 0 };
    target.read_registers(&Some(held), &mut regs);
    assert_eq!(regs.x[31], 131);
    assert_eq!(regs.pc, 0x80);
    let mut vcpu = Some(VCpuRegisters { gprs: [0; 32], pc: 0 });
    target.write_registers(&mut vcpu, &regs);
    assert_eq!(vcpu, Some(held));
}

#[test]
fn riscv_registers_without_a_vcpu() {
    let target = RiscvTarget::new();
    let mut regs = RiscvRegisters { x: [5; 32], pc: 6 };
    target.read_registers(&None, &mut regs);
    assert_eq!(regs, RiscvRegisters { x: [5; 32], pc: 6 });
    let mut none = None;
    target.write_registers(&mut none, &regs);
    assert_eq!(none, None);
}

#[test]
fn even_addresses_lead_to_even_addresses() {
    let mut steps = 0;
    for inst in 0..=u16::MAX {
        if inst % 4 == 3 {
            continue;
        }
        if let Ok(next) = step16(inst, &[(1, 0x2001), (8, 1), (10, 0x77)]) {
            assert_eq!(next % 2, 0);
            assert_eq!(breakpoint_len(next), 2);
            steps += 1;
        }
    }
    assert!(steps > 10_000);
    // Jumps and branches, with every setting of some of the immediate's bits.
    for opcode in [0x6fu32, 0x63, 0x67] {
        for bits in 0..0x2000u32 {
            let inst = opcode | (bits & 0x1f) << 7 | (bits >> 5) << 24;
            assert_eq!(step32(inst, &[]).unwrap() % 2, 0);
        }
    }
}
