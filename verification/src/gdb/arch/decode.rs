//! Decoding of RISC-V instructions.
use raki::{Decode, Isa};
use vstd::prelude::*;

verus! {

/// What the stepper reads of a decoded instruction.
pub struct Instruction {
    /// The operation as an assembler writes it, such as `beq`; that of a
    /// compressed instruction starts with `C.`.
    pub mnemonic: String,
    /// First source register.
    pub rs1: Option<usize>,
    /// Second source register.
    pub rs2: Option<usize>,
    /// Immediate operand.
    pub imm: Option<i32>,
}

impl View for Instruction {
    type V = (Seq<char>, Option<usize>, Option<usize>, Option<i32>);

    open spec fn view(&self) -> Self::V {
        (self.mnemonic@, self.rs1, self.rs2, self.imm)
    }
}

/// The operations after which execution need not go on at the next instruction.
#[derive(Debug, Clone, Copy, PartialEq, Eq, Structural)]
pub enum Opcode {
    CJalr,
    CJr,
    CJ,
    CBeqz,
    CBnez,
    Beq,
    Bne,
    Blt,
    Bge,
    Bltu,
    Bgeu,
    Jal,
    Jalr,
    Sret,
    /// Any operation that goes on at the next instruction.
    Other,
}

/// The operation that a mnemonic names.
pub open spec fn opcode_of(mnemonic: Seq<char>) -> Opcode {
    if mnemonic == "C.jalr"@ {
        Opcode::CJalr
    } else if mnemonic == "C.jr"@ {
        Opcode::CJr
    } else if mnemonic == "C.j"@ {
        Opcode::CJ
    } else if mnemonic == "C.beqz"@ {
        Opcode::CBeqz
    } else if mnemonic == "C.bnez"@ {
        Opcode::CBnez
    } else if mnemonic == "beq"@ {
        Opcode::Beq
    } else if mnemonic == "bne"@ {
        Opcode::Bne
    } else if mnemonic == "blt"@ {
        Opcode::Blt
    } else if mnemonic == "bge"@ {
        Opcode::Bge
    } else if mnemonic == "bltu"@ {
        Opcode::Bltu
    } else if mnemonic == "bgeu"@ {
        Opcode::Bgeu
    } else if mnemonic == "jal"@ {
        Opcode::Jal
    } else if mnemonic == "jalr"@ {
        Opcode::Jalr
    } else if mnemonic == "sret"@ {
        Opcode::Sret
    } else {
        Opcode::Other
    }
}

/// The register number is present and names one of the 32 registers.
pub open spec fn is_register(r: Option<usize>) -> bool {
    r matches Some(n) && n < 32
}

/// Every operand that the operation works with is present.
pub open spec fn operands_present(
    inst: (Seq<char>, Option<usize>, Option<usize>, Option<i32>),
) -> bool {
    match opcode_of(inst.0) {
        Opcode::CJalr | Opcode::CJr => is_register(inst.1),
        Opcode::CJ | Opcode::Jal => inst.3 is Some,
        Opcode::CBeqz | Opcode::CBnez | Opcode::Jalr => is_register(inst.1) && inst.3 is Some,
        Opcode::Beq
        | Opcode::Bne
        | Opcode::Blt
        | Opcode::Bge
        | Opcode::Bltu
        | Opcode::Bgeu => is_register(inst.1) && is_register(inst.2) && inst.3 is Some,
        Opcode::Sret | Opcode::Other => true,
    }
}

/// The immediate of a jump or branch that is relative to the current address is a
/// multiple of 2.
pub open spec fn offset_even(
    inst: (Seq<char>, Option<usize>, Option<usize>, Option<i32>),
) -> bool {
    match opcode_of(inst.0) {
        Opcode::CJ
        | Opcode::CBeqz
        | Opcode::CBnez
        | Opcode::Beq
        | Opcode::Bne
        | Opcode::Blt
        | Opcode::Bge
        | Opcode::Bltu
        | Opcode::Bgeu
        | Opcode::Jal => inst.3->0 % 2 == 0,
        _ => true,
    }
}

/// What `raki` makes of a 16-bit instruction for RV64: mnemonic, first and second
/// source register, and immediate; `None` where it reports an error.
pub uninterp spec fn decoded_u16(raw: u16) -> Option<
    (Seq<char>, Option<usize>, Option<usize>, Option<i32>),
>;

/// What `raki` makes of a 32-bit instruction for RV64, as for 16-bit ones.
pub uninterp spec fn decoded_u32(raw: u32) -> Option<
    (Seq<char>, Option<usize>, Option<usize>, Option<i32>),
>;

/// Decodes a 16-bit instruction with `raki`'s `Decode::decode` for `u16`, and
/// writes its operation out with the `Display` of `OpcodeKind`.
///
/// Trusted: the outcome is a function of `raw` alone, an instruction that transfers
/// control comes with the operands of its format, and the offset of one that jumps
/// relative to the current address is a multiple of 2, since its format has no bit
/// for the lowest one.
#[verifier::external_body]
pub(crate) fn decode_u16(raw: u16) -> (r: Option<Instruction>)
    ensures
        match r {
            Some(inst) => decoded_u16(raw) == Some(inst@) && operands_present(inst@) && offset_even(
                inst@,
            ),
            None => decoded_u16(raw) is None,
        },
{
    match raw.decode(Isa::Rv64) {
        Ok(inst) => Some(
            Instruction {
                mnemonic: inst.opc.to_string(),
                rs1: inst.rs1,
                rs2: inst.rs2,
                imm: inst.imm,
            },
        ),
        Err(_) => None,
    }
}

/// Decodes a 32-bit instruction with `raki`'s `Decode::decode` for `u32`, and
/// writes its operation out with the `Display` of `OpcodeKind`.
///
/// Trusted: the outcome is a function of `raw` alone, an instruction that transfers
/// control comes with the operands of its format, and the offset of one that jumps
/// relative to the current address is a multiple of 2, since its format has no bit
/// for the lowest one.
#[verifier::external_body]
pub(crate) fn decode_u32(raw: u32) -> (r: Option<Instruction>)
    ensures
        match r {
            Some(inst) => decoded_u32(raw) == Some(inst@) && operands_present(inst@) && offset_even(
                inst@,
            ),
            None => decoded_u32(raw) is None,
        },
{
    match raw.decode(Isa::Rv64) {
        Ok(inst) => Some(
            Instruction {
                mnemonic: inst.opc.to_string(),
                rs1: inst.rs1,
                rs2: inst.rs2,
                imm: inst.imm,
            },
        ),
        Err(_) => None,
    }
}

/// `a` and `b` hold the same characters.
fn same_text(a: &String, b: &str) -> (r: bool)
    ensures
        r == (a@ == b@),
{
    *a == b.to_owned()
}

impl Instruction {
    /// The operation that the mnemonic names.
    pub fn opcode(&self) -> (op: Opcode)
        ensures
            op == opcode_of(self@.0),
            self.mnemonic@ == "C.jalr"@ <==> op == Opcode::CJalr,
            self.mnemonic@ == "C.jr"@ <==> op == Opcode::CJr,
            self.mnemonic@ == "C.j"@ <==> op == Opcode::CJ,
            self.mnemonic@ == "C.beqz"@ <==> op == Opcode::CBeqz,
            self.mnemonic@ == "C.bnez"@ <==> op == Opcode::CBnez,
            self.mnemonic@ == "beq"@ <==> op == Opcode::Beq,
            self.mnemonic@ == "bne"@ <==> op == Opcode::Bne,
            self.mnemonic@ == "blt"@ <==> op == Opcode::Blt,
            self.mnemonic@ == "bge"@ <==> op == Opcode::Bge,
            self.mnemonic@ == "bltu"@ <==> op == Opcode::Bltu,
            self.mnemonic@ == "bgeu"@ <==> op == Opcode::Bgeu,
            self.mnemonic@ == "jal"@ <==> op == Opcode::Jal,
            self.mnemonic@ == "jalr"@ <==> op == Opcode::Jalr,
            self.mnemonic@ == "sret"@ <==> op == Opcode::Sret,
    {
        proof {
            law_mnemonics_name_their_operations(self.mnemonic@);
        }
        if same_text(&self.mnemonic, "C.jalr") {
            Opcode::CJalr
        } else if same_text(&self.mnemonic, "C.jr") {
            Opcode::CJr
        } else if same_text(&self.mnemonic, "C.j") {
            Opcode::CJ
        } else if same_text(&self.mnemonic, "C.beqz") {
            Opcode::CBeqz
        } else if same_text(&self.mnemonic, "C.bnez") {
            Opcode::CBnez
        } else if same_text(&self.mnemonic, "beq") {
            Opcode::Beq
        } else if same_text(&self.mnemonic, "bne") {
            Opcode::Bne
        } else if same_text(&self.mnemonic, "blt") {
            Opcode::Blt
        } else if same_text(&self.mnemonic, "bge") {
            Opcode::Bge
        } else if same_text(&self.mnemonic, "bltu") {
            Opcode::Bltu
        } else if same_text(&self.mnemonic, "bgeu") {
            Opcode::Bgeu
        } else if same_text(&self.mnemonic, "jal") {
            Opcode::Jal
        } else if same_text(&self.mnemonic, "jalr") {
            Opcode::Jalr
        } else if same_text(&self.mnemonic, "sret") {
            Opcode::Sret
        } else {
            Opcode::Other
        }
    }
}

/// Each operation goes by one mnemonic, and each of these mnemonics names its own
/// operation.
pub proof fn law_mnemonics_name_their_operations(mnemonic: Seq<char>)
    ensures
        mnemonic == "C.jalr"@ <==> opcode_of(mnemonic) == Opcode::CJalr,
        mnemonic == "C.jr"@ <==> opcode_of(mnemonic) == Opcode::CJr,
        mnemonic == "C.j"@ <==> opcode_of(mnemonic) == Opcode::CJ,
        mnemonic == "C.beqz"@ <==> opcode_of(mnemonic) == Opcode::CBeqz,
        mnemonic == "C.bnez"@ <==> opcode_of(mnemonic) == Opcode::CBnez,
        mnemonic == "beq"@ <==> opcode_of(mnemonic) == Opcode::Beq,
        mnemonic == "bne"@ <==> opcode_of(mnemonic) == Opcode::Bne,
        mnemonic == "blt"@ <==> opcode_of(mnemonic) == Opcode::Blt,
        mnemonic == "bge"@ <==> opcode_of(mnemonic) == Opcode::Bge,
        mnemonic == "bltu"@ <==> opcode_of(mnemonic) == Opcode::Bltu,
        mnemonic == "bgeu"@ <==> opcode_of(mnemonic) == Opcode::Bgeu,
        mnemonic == "jal"@ <==> opcode_of(mnemonic) == Opcode::Jal,
        mnemonic == "jalr"@ <==> opcode_of(mnemonic) == Opcode::Jalr,
        mnemonic == "sret"@ <==> opcode_of(mnemonic) == Opcode::Sret,
{
    reveal_strlit("C.jalr");
    reveal_strlit("C.jr");
    reveal_strlit("C.j");
    reveal_strlit("C.beqz");
    reveal_strlit("C.bnez");
    reveal_strlit("beq");
    reveal_strlit("bne");
    reveal_strlit("blt");
    reveal_strlit("bge");
    reveal_strlit("bltu");
    reveal_strlit("bgeu");
    reveal_strlit("jal");
    reveal_strlit("jalr");
    reveal_strlit("sret");
    if mnemonic.len() == 3 {
        assert("C.j"@[0] == 'C' && "beq"@[1] == 'e' && "bne"@[1] == 'n' && "blt"@[1] == 'l');
        assert("bge"@[1] == 'g' && "jal"@[0] == 'j');
    } else if mnemonic.len() == 4 {
        assert("C.jr"@[0] == 'C' && "bltu"@[1] == 'l' && "bgeu"@[1] == 'g');
        assert("jalr"@[0] == 'j' && "sret"@[0] == 's');
    } else if mnemonic.len() == 6 {
        assert("C.jalr"@[2] == 'j' && "C.beqz"@[3] == 'e' && "C.bnez"@[3] == 'n');
    }
}

} // verus!
