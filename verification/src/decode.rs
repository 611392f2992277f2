//! Instruction formats of the RV32I base integer set: the bit fields of an
//! instruction word, its immediates, and the decoded instruction.
use vstd::prelude::*;

verus! {

// ---------------------------------------------------------------------------
// Bit fields of an instruction word.
// ---------------------------------------------------------------------------

/// Bits 6..0: the major opcode.
pub open spec fn opcode_of(i: u32) -> u32 {
    i & 0x7f
}

/// Bits 11..7: the destination register.
pub open spec fn rd_of(i: u32) -> u32 {
    (i >> 7) & 0x1f
}

/// Bits 19..15: the first source register.
pub open spec fn rs1_of(i: u32) -> u32 {
    (i >> 15) & 0x1f
}

/// Bits 24..20: the second source register.
pub open spec fn rs2_of(i: u32) -> u32 {
    (i >> 20) & 0x1f
}

/// Bits 14..12: the minor opcode.
pub open spec fn funct3_of(i: u32) -> u32 {
    (i >> 12) & 0x07
}

/// Bits 31..25.
pub open spec fn funct7_of(i: u32) -> u32 {
    (i >> 25) & 0x7f
}

// ---------------------------------------------------------------------------
// Sign extension, stated arithmetically: a field of `w` bits whose top bit is
// set stands for the field's value minus 2^w, taken modulo 2^32.
// ---------------------------------------------------------------------------

pub open spec fn sext8(v: u32) -> u32 {
    if v < 0x80 { v } else { (v + 0xffff_ff00) as u32 }
}

pub open spec fn sext12(v: u32) -> u32 {
    if v < 0x800 { v } else { (v + 0xffff_f000) as u32 }
}

pub open spec fn sext13(v: u32) -> u32 {
    if v < 0x1000 { v } else { (v + 0xffff_e000) as u32 }
}

pub open spec fn sext16(v: u32) -> u32 {
    if v < 0x8000 { v } else { (v + 0xffff_0000) as u32 }
}

pub open spec fn sext21(v: u32) -> u32 {
    if v < 0x10_0000 { v } else { (v + 0xffe0_0000) as u32 }
}

/// The value of a word read as a two's complement number.
pub open spec fn signed(v: u32) -> int {
    if v < 0x8000_0000 { v as int } else { v as int - 0x1_0000_0000 }
}

// ---------------------------------------------------------------------------
// Immediates, as the sum of their scattered pieces.
// ---------------------------------------------------------------------------

/// I-type: bits 31..20, sign-extended.
pub open spec fn imm_i_of(i: u32) -> u32 {
    sext12(i / 0x10_0000)
}

/// S-type: imm[11:5] from bits 31..25 and imm[4:0] from bits 11..7.
pub open spec fn imm_s_of(i: u32) -> u32 {
    sext12((((i / 0x200_0000) % 0x80) * 0x20 + (i / 0x80) % 0x20) as u32)
}

/// B-type: imm[12] from bit 31, imm[11] from bit 7, imm[10:5] from bits
/// 30..25, imm[4:1] from bits 11..8; imm[0] is zero.
pub open spec fn imm_b_of(i: u32) -> u32 {
    sext13(
        ((i / 0x8000_0000) * 0x1000 + ((i / 0x80) % 2) * 0x800 + ((i / 0x200_0000) % 0x40)
            * 0x20 + ((i / 0x100) % 0x10) * 2) as u32,
    )
}

/// J-type: imm[20] from bit 31, imm[19:12] from bits 19..12, imm[11] from
/// bit 20, imm[10:1] from bits 30..21; imm[0] is zero.
pub open spec fn imm_j_of(i: u32) -> u32 {
    sext21(
        ((i / 0x8000_0000) * 0x10_0000 + ((i / 0x1000) % 0x100) * 0x1000 + ((i / 0x10_0000)
            % 2) * 0x800 + ((i / 0x20_0000) % 0x400) * 2) as u32,
    )
}

/// U-type: bits 31..12 in place, the low twelve bits cleared.
pub open spec fn imm_u_of(i: u32) -> u32 {
    ((i / 0x1000) * 0x1000) as u32
}

/// The shift amount of a shift-immediate instruction: bits 24..20.
pub open spec fn shamt_of(i: u32) -> u32 {
    (i / 0x10_0000) % 0x20
}

// ---------------------------------------------------------------------------
// Decoded instructions.
// ---------------------------------------------------------------------------

/// An instruction word, decoded. Register fields are register numbers
/// (below 32); immediates are already sign-extended to 32 bits.
#[derive(Clone, Copy, Debug, PartialEq, Eq, Structural)]
pub enum Instr {
    Add { rd: u32, rs1: u32, rs2: u32 },
    Sub { rd: u32, rs1: u32, rs2: u32 },
    Or { rd: u32, rs1: u32, rs2: u32 },
    And { rd: u32, rs1: u32, rs2: u32 },
    Xor { rd: u32, rs1: u32, rs2: u32 },
    Sll { rd: u32, rs1: u32, rs2: u32 },
    Srl { rd: u32, rs1: u32, rs2: u32 },
    Sra { rd: u32, rs1: u32, rs2: u32 },
    Slt { rd: u32, rs1: u32, rs2: u32 },
    Sltu { rd: u32, rs1: u32, rs2: u32 },
    Addi { rd: u32, rs1: u32, imm: u32 },
    Xori { rd: u32, rs1: u32, imm: u32 },
    Ori { rd: u32, rs1: u32, imm: u32 },
    Andi { rd: u32, rs1: u32, imm: u32 },
    Slli { rd: u32, rs1: u32, shamt: u32 },
    Srli { rd: u32, rs1: u32, shamt: u32 },
    Srai { rd: u32, rs1: u32, shamt: u32 },
    Slti { rd: u32, rs1: u32, imm: u32 },
    Sltiu { rd: u32, rs1: u32, imm: u32 },
    Lb { rd: u32, rs1: u32, imm: u32 },
    Lh { rd: u32, rs1: u32, imm: u32 },
    Lw { rd: u32, rs1: u32, imm: u32 },
    Lbu { rd: u32, rs1: u32, imm: u32 },
    Lhu { rd: u32, rs1: u32, imm: u32 },
    Jalr { rd: u32, rs1: u32, imm: u32 },
    Sb { rs1: u32, rs2: u32, imm: u32 },
    Sh { rs1: u32, rs2: u32, imm: u32 },
    Sw { rs1: u32, rs2: u32, imm: u32 },
    Beq { rs1: u32, rs2: u32, imm: u32 },
    Bne { rs1: u32, rs2: u32, imm: u32 },
    Blt { rs1: u32, rs2: u32, imm: u32 },
    Bge { rs1: u32, rs2: u32, imm: u32 },
    Bltu { rs1: u32, rs2: u32, imm: u32 },
    Bgeu { rs1: u32, rs2: u32, imm: u32 },
    Jal { rd: u32, imm: u32 },
    Ecall,
    Lui { rd: u32, imm: u32 },
    Auipc { rd: u32, imm: u32 },
    /// Opcode 0x33 with a funct3/funct7 pair that is not implemented.
    UnknownRType,
    /// Opcode 0x03 with a funct3 that is not implemented.
    UnknownLoad,
    /// Opcode 0x23 with a funct3 that is not implemented.
    UnknownStore,
    /// Opcode 0x63 with a funct3 that is not implemented.
    UnknownBranch,
    /// Opcode 0x73 in a word other than `ecall` itself; it does nothing.
    OtherSystem,
    /// Any other major opcode.
    UnknownOpcode { opcode: u32 },
}

/// The decoding of one instruction word.
pub open spec fn decode_spec(i: u32) -> Instr {
    let op = opcode_of(i);
    let rd = rd_of(i);
    let rs1 = rs1_of(i);
    let rs2 = rs2_of(i);
    let f3 = funct3_of(i);
    let f7 = funct7_of(i);
    if op == 0x33 {
        if f3 == 0 && f7 == 0 {
            Instr::Add { rd, rs1, rs2 }
        } else if f3 == 0 && f7 == 0x20 {
            Instr::Sub { rd, rs1, rs2 }
        } else if f3 == 6 && f7 == 0 {
            Instr::Or { rd, rs1, rs2 }
        } else if f3 == 7 && f7 == 0 {
            Instr::And { rd, rs1, rs2 }
        } else if f3 == 4 && f7 == 0 {
            Instr::Xor { rd, rs1, rs2 }
        } else if f3 == 1 && f7 == 0 {
            Instr::Sll { rd, rs1, rs2 }
        } else if f3 == 5 && f7 == 0 {
            Instr::Srl { rd, rs1, rs2 }
        } else if f3 == 5 && f7 == 0x20 {
            Instr::Sra { rd, rs1, rs2 }
        } else if f3 == 2 && f7 == 0 {
            Instr::Slt { rd, rs1, rs2 }
        } else if f3 == 3 && f7 == 0 {
            Instr::Sltu { rd, rs1, rs2 }
        } else {
            Instr::UnknownRType
        }
    } else if op == 0x13 {
        let imm = imm_i_of(i);
        let shamt = shamt_of(i);
        if f3 == 0 {
            Instr::Addi { rd, rs1, imm }
        } else if f3 == 4 {
            Instr::Xori { rd, rs1, imm }
        } else if f3 == 6 {
            Instr::Ori { rd, rs1, imm }
        } else if f3 == 7 {
            Instr::Andi { rd, rs1, imm }
        } else if f3 == 2 {
            Instr::Slti { rd, rs1, imm }
        } else if f3 == 3 {
            Instr::Sltiu { rd, rs1, imm }
        } else if f3 == 1 {
            Instr::Slli { rd, rs1, shamt }
        } else if f7 == 0 {
            // funct3 is 5, the only value left
            Instr::Srli { rd, rs1, shamt }
        } else {
            Instr::Srai { rd, rs1, shamt }
        }
    } else if op == 0x03 {
        let imm = imm_i_of(i);
        if f3 == 0 {
            Instr::Lb { rd, rs1, imm }
        } else if f3 == 1 {
            Instr::Lh { rd, rs1, imm }
        } else if f3 == 2 {
            Instr::Lw { rd, rs1, imm }
        } else if f3 == 4 {
            Instr::Lbu { rd, rs1, imm }
        } else if f3 == 5 {
            Instr::Lhu { rd, rs1, imm }
        } else {
            Instr::UnknownLoad
        }
    } else if op == 0x67 {
        Instr::Jalr { rd, rs1, imm: imm_i_of(i) }
    } else if op == 0x23 {
        let imm = imm_s_of(i);
        if f3 == 0 {
            Instr::Sb { rs1, rs2, imm }
        } else if f3 == 1 {
            Instr::Sh { rs1, rs2, imm }
        } else if f3 == 2 {
            Instr::Sw { rs1, rs2, imm }
        } else {
            Instr::UnknownStore
        }
    } else if op == 0x63 {
        let imm = imm_b_of(i);
        if f3 == 0 {
            Instr::Beq { rs1, rs2, imm }
        } else if f3 == 1 {
            Instr::Bne { rs1, rs2, imm }
        } else if f3 == 4 {
            Instr::Blt { rs1, rs2, imm }
        } else if f3 == 5 {
            Instr::Bge { rs1, rs2, imm }
        } else if f3 == 6 {
            Instr::Bltu { rs1, rs2, imm }
        } else if f3 == 7 {
            Instr::Bgeu { rs1, rs2, imm }
        } else {
            Instr::UnknownBranch
        }
    } else if op == 0x6f {
        Instr::Jal { rd, imm: imm_j_of(i) }
    } else if op == 0x73 {
        if i == 0x73 {
            Instr::Ecall
        } else {
            Instr::OtherSystem
        }
    } else if op == 0x37 {
        Instr::Lui { rd, imm: imm_u_of(i) }
    } else if op == 0x17 {
        Instr::Auipc { rd, imm: imm_u_of(i) }
    } else {
        Instr::UnknownOpcode { opcode: op }
    }
}

impl Instr {
    /// Every register number in the instruction names one of the 32 registers.
    pub open spec fn regs_in_range(self) -> bool {
        match self {
            Instr::Add { rd, rs1, rs2 } | Instr::Sub { rd, rs1, rs2 } | Instr::Or { rd, rs1, rs2 }
            | Instr::And { rd, rs1, rs2 } | Instr::Xor { rd, rs1, rs2 } | Instr::Sll {
                rd,
                rs1,
                rs2,
            } | Instr::Srl { rd, rs1, rs2 } | Instr::Sra { rd, rs1, rs2 } | Instr::Slt { rd, rs1, rs2 }
            | Instr::Sltu { rd, rs1, rs2 } => rd < 32 && rs1 < 32
                && rs2 < 32,
            Instr::Addi { rd, rs1, .. } | Instr::Xori { rd, rs1, .. } | Instr::Ori { rd, rs1, .. }
            | Instr::Andi { rd, rs1, .. } | Instr::Slli { rd, rs1, .. } | Instr::Srli {
                rd,
                rs1,
                ..
            } | Instr::Srai { rd, rs1, .. } | Instr::Slti { rd, rs1, .. } | Instr::Sltiu { rd, rs1, .. }
            | Instr::Lb { rd, rs1, .. } | Instr::Lh { rd, rs1, .. }
            | Instr::Lw { rd, rs1, .. } | Instr::Lbu { rd, rs1, .. } | Instr::Lhu { rd, rs1, .. }
            | Instr::Jalr { rd, rs1, .. } => rd < 32 && rs1 < 32,
            Instr::Sb { rs1, rs2, .. } | Instr::Sh { rs1, rs2, .. } | Instr::Sw { rs1, rs2, .. }
            | Instr::Beq { rs1, rs2, .. } | Instr::Bne { rs1, rs2, .. } | Instr::Blt {
                rs1,
                rs2,
                ..
            } | Instr::Bge { rs1, rs2, .. } | Instr::Bltu { rs1, rs2, .. } | Instr::Bgeu {
                rs1,
                rs2,
                ..
            } => rs1 < 32 && rs2 < 32,
            Instr::Jal { rd, .. } | Instr::Lui { rd, .. } | Instr::Auipc { rd, .. } => rd < 32,
            _ => true,
        }
    }

    /// A shift-immediate instruction shifts by less than 32.
    pub open spec fn shamt_in_range(self) -> bool {
        match self {
            Instr::Slli { shamt, .. } | Instr::Srli { shamt, .. } | Instr::Srai { shamt, .. } => shamt
                < 32,
            _ => true,
        }
    }

    /// A register-register operation (opcode 0x33).
    pub open spec fn is_reg_op(self) -> bool {
        ||| self is Add
        ||| self is Sub
        ||| self is Or
        ||| self is And
        ||| self is Xor
        ||| self is Sll
        ||| self is Srl
        ||| self is Sra
        ||| self is Slt
        ||| self is Sltu
    }

    /// A register-immediate operation (opcode 0x13).
    pub open spec fn is_imm_op(self) -> bool {
        ||| self is Addi
        ||| self is Xori
        ||| self is Ori
        ||| self is Andi
        ||| self is Slli
        ||| self is Srli
        ||| self is Srai
        ||| self is Slti
        ||| self is Sltiu
    }

    /// A load (opcode 0x03).
    pub open spec fn is_load(self) -> bool {
        ||| self is Lb
        ||| self is Lh
        ||| self is Lw
        ||| self is Lbu
        ||| self is Lhu
    }

    /// A store (opcode 0x23).
    pub open spec fn is_store(self) -> bool {
        ||| self is Sb
        ||| self is Sh
        ||| self is Sw
    }

    /// A conditional branch (opcode 0x63).
    pub open spec fn is_branch(self) -> bool {
        ||| self is Beq
        ||| self is Bne
        ||| self is Blt
        ||| self is Bge
        ||| self is Bltu
        ||| self is Bgeu
    }

    /// The register the instruction writes, if it writes one (`ecall` aside,
    /// whose write depends on the call).
    pub open spec fn dest(self) -> Option<u32> {
        match self {
            Instr::Add { rd, .. } | Instr::Sub { rd, .. } | Instr::Or { rd, .. } | Instr::And {
                rd,
                ..
            } | Instr::Xor { rd, .. } | Instr::Sll { rd, .. } | Instr::Srl { rd, .. }
            | Instr::Sra { rd, .. } | Instr::Slt { rd, .. } | Instr::Sltu { rd, .. }
            | Instr::Slti { rd, .. } | Instr::Sltiu { rd, .. } | Instr::Auipc { rd, .. }
            | Instr::Addi { rd, .. } | Instr::Xori { rd, .. }
            | Instr::Ori { rd, .. } | Instr::Andi { rd, .. } | Instr::Slli { rd, .. }
            | Instr::Srli { rd, .. } | Instr::Srai { rd, .. } | Instr::Lb { rd, .. }
            | Instr::Lh { rd, .. } | Instr::Lw { rd, .. } | Instr::Lbu { rd, .. }
            | Instr::Lhu { rd, .. } | Instr::Jalr { rd, .. } | Instr::Jal { rd, .. }
            | Instr::Lui { rd, .. } => Some(rd),
            _ => None,
        }
    }

    /// What every decoded instruction satisfies.
    pub open spec fn well_formed(self) -> bool {
        self.regs_in_range() && self.shamt_in_range()
    }
}

// ---------------------------------------------------------------------------
// Executable decoding.
// ---------------------------------------------------------------------------

/// Sign-extends the low twelve bits of `imm`.
pub fn sign_extend_12(imm: u32) -> (r: u32)
    requires
        imm < 0x1000,
    ensures
        r == sext12(imm),
{
    let r = ((imm << 20) as i32 >> 20) as u32;
    assert(((imm << 20) as i32 >> 20) as u32 == sext12(imm)) by (bit_vector)
        requires
            imm < 0x1000,
    ;
    r
}

/// The I-type immediate of an instruction word.
pub fn imm_i(instruction: u32) -> (r: u32)
    ensures
        r == imm_i_of(instruction),
{
    let imm = (instruction >> 20) & 0xfff;
    assert(((instruction >> 20) & 0xfff) == instruction / 0x10_0000 && instruction / 0x10_0000
        < 0x1000) by (bit_vector);
    sign_extend_12(imm)
}

/// The S-type immediate of an instruction word.
pub fn imm_s(instruction: u32) -> (r: u32)
    ensures
        r == imm_s_of(instruction),
{
    let imm = (((instruction >> 25) & 0x7f) << 5) | ((instruction >> 7) & 0x1f);
    assert((((instruction >> 25) & 0x7f) << 5) | ((instruction >> 7) & 0x1f) == ((
    instruction / 0x200_0000) % 0x80) * 0x20 + (instruction / 0x80) % 0x20) by (bit_vector);
    assert(((instruction / 0x200_0000) % 0x80) * 0x20 + (instruction / 0x80) % 0x20 < 0x1000)
        by (bit_vector);
    sign_extend_12(imm)
}

/// The B-type immediate of an instruction word.
pub fn imm_b(instruction: u32) -> (r: u32)
    ensures
        r == imm_b_of(instruction),
{
    let i = instruction;
    let imm = (((i >> 31) & 1) << 12) | (((i >> 7) & 0x1) << 11) | (((i >> 25) & 0x3f) << 5) | (((
    i >> 8) & 0x0f) << 1);
    let r = ((imm << 19) as i32 >> 19) as u32;
    assert(((((((i >> 31) & 1) << 12) | (((i >> 7) & 0x1) << 11) | (((i >> 25) & 0x3f) << 5) | (((
    i >> 8) & 0x0f) << 1)) << 19) as i32 >> 19) as u32 == sext13(
        ((i / 0x8000_0000) * 0x1000 + ((i / 0x80) % 2) * 0x800 + ((i / 0x200_0000) % 0x40)
            * 0x20 + ((i / 0x100) % 0x10) * 2) as u32,
    )) by (bit_vector);
    r
}

/// The J-type immediate of an instruction word.
pub fn imm_j(instruction: u32) -> (r: u32)
    ensures
        r == imm_j_of(instruction),
{
    let i = instruction;
    let imm = (((i >> 31) & 1) << 20) | (((i >> 12) & 0xff) << 12) | (((i >> 20) & 1) << 11) | (((
    i >> 21) & 0x3ff) << 1);
    let r = ((imm << 11) as i32 >> 11) as u32;
    assert(((((((i >> 31) & 1) << 20) | (((i >> 12) & 0xff) << 12) | (((i >> 20) & 1) << 11) | (((
    i >> 21) & 0x3ff) << 1)) << 11) as i32 >> 11) as u32 == sext21(
        ((i / 0x8000_0000) * 0x10_0000 + ((i / 0x1000) % 0x100) * 0x1000 + ((i / 0x10_0000)
            % 2) * 0x800 + ((i / 0x20_0000) % 0x400) * 2) as u32,
    )) by (bit_vector);
    r
}

/// Field extraction stays within the field's width.
proof fn lemma_fields_in_range(i: u32)
    ensures
        rd_of(i) < 32,
        rs1_of(i) < 32,
        rs2_of(i) < 32,
        shamt_of(i) < 32,
{
    assert((i >> 7) & 0x1f < 32) by (bit_vector);
    assert((i >> 15) & 0x1f < 32) by (bit_vector);
    assert((i >> 20) & 0x1f < 32) by (bit_vector);
}

/// Every decoded instruction is well formed.
pub proof fn lemma_decode_well_formed(i: u32)
    ensures
        decode_spec(i).well_formed(),
{
    lemma_fields_in_range(i);
}

/// Decodes one instruction word.
pub fn decode(instruction: u32) -> (r: Instr)
    ensures
        r == decode_spec(instruction),
        r.well_formed(),
{
    proof {
        lemma_decode_well_formed(instruction);
    }
    let opcode = instruction & 0x7f;
    let rd = (instruction >> 7) & 0x1f;
    let rs1 = (instruction >> 15) & 0x1f;
    let rs2 = (instruction >> 20) & 0x1f;
    let funct3 = (instruction >> 12) & 0x07;
    let funct7 = (instruction >> 25) & 0x7f;
    match opcode {
        0x33 => {
            if funct3 == 0x0 && funct7 == 0x00 {
                Instr::Add { rd, rs1, rs2 }
            } else if funct3 == 0x0 && funct7 == 0x20 {
                Instr::Sub { rd, rs1, rs2 }
            } else if funct3 == 0x6 && funct7 == 0x00 {
                Instr::Or { rd, rs1, rs2 }
            } else if funct3 == 0x7 && funct7 == 0x00 {
                Instr::And { rd, rs1, rs2 }
            } else if funct3 == 0x4 && funct7 == 0x00 {
                Instr::Xor { rd, rs1, rs2 }
            } else if funct3 == 0x1 && funct7 == 0x00 {
                Instr::Sll { rd, rs1, rs2 }
            } else if funct3 == 0x5 && funct7 == 0x00 {
                Instr::Srl { rd, rs1, rs2 }
            } else if funct3 == 0x5 && funct7 == 0x20 {
                Instr::Sra { rd, rs1, rs2 }
            } else if funct3 == 0x2 && funct7 == 0x00 {
                Instr::Slt { rd, rs1, rs2 }
            } else if funct3 == 0x3 && funct7 == 0x00 {
                Instr::Sltu { rd, rs1, rs2 }
            } else {
                Instr::UnknownRType
            }
        },
        0x13 => {
            let imm = imm_i(instruction);
            let raw = (instruction >> 20) & 0xfff;
            let shamt = raw & 0x1f;
            assert(((instruction >> 20) & 0xfff) & 0x1f == (instruction / 0x10_0000) % 0x20)
                by (bit_vector);
            assert((((instruction >> 20) & 0xfff) >> 5) & 0x7f == (instruction >> 25) & 0x7f)
                by (bit_vector);
            match funct3 {
                0x0 => Instr::Addi { rd, rs1, imm },
                0x4 => Instr::Xori { rd, rs1, imm },
                0x6 => Instr::Ori { rd, rs1, imm },
                0x7 => Instr::Andi { rd, rs1, imm },
                0x2 => Instr::Slti { rd, rs1, imm },
                0x3 => Instr::Sltiu { rd, rs1, imm },
                0x1 => Instr::Slli { rd, rs1, shamt },
                _ => {
                    // funct3 is 5, the only value left
                    if (raw >> 5) & 0x7f == 0x00 {
                        Instr::Srli { rd, rs1, shamt }
                    } else {
                        Instr::Srai { rd, rs1, shamt }
                    }
                },
            }
        },
        0x03 => {
            let imm = imm_i(instruction);
            match funct3 {
                0x0 => Instr::Lb { rd, rs1, imm },
                0x1 => Instr::Lh { rd, rs1, imm },
                0x2 => Instr::Lw { rd, rs1, imm },
                0x4 => Instr::Lbu { rd, rs1, imm },
                0x5 => Instr::Lhu { rd, rs1, imm },
                _ => Instr::UnknownLoad,
            }
        },
        0x67 => Instr::Jalr { rd, rs1, imm: imm_i(instruction) },
        0x23 => {
            let imm = imm_s(instruction);
            match funct3 {
                0x0 => Instr::Sb { rs1, rs2, imm },
                0x1 => Instr::Sh { rs1, rs2, imm },
                0x2 => Instr::Sw { rs1, rs2, imm },
                _ => Instr::UnknownStore,
            }
        },
        0x63 => {
            let imm = imm_b(instruction);
            match funct3 {
                0x0 => Instr::Beq { rs1, rs2, imm },
                0x1 => Instr::Bne { rs1, rs2, imm },
                0x4 => Instr::Blt { rs1, rs2, imm },
                0x5 => Instr::Bge { rs1, rs2, imm },
                0x6 => Instr::Bltu { rs1, rs2, imm },
                0x7 => Instr::Bgeu { rs1, rs2, imm },
                _ => Instr::UnknownBranch,
            }
        },
        0x6f => Instr::Jal { rd, imm: imm_j(instruction) },
        0x73 => {
            if instruction == 0x0000_0073 {
                Instr::Ecall
            } else {
                Instr::OtherSystem
            }
        },
        0x37 => {
            let imm = instruction & 0xffff_f000;
            assert(instruction & 0xffff_f000 == ((instruction / 0x1000) * 0x1000) as u32)
                by (bit_vector);
            Instr::Lui { rd, imm }
        },
        0x17 => {
            let imm = instruction & 0xffff_f000;
            assert(instruction & 0xffff_f000 == ((instruction / 0x1000) * 0x1000) as u32)
                by (bit_vector);
            Instr::Auipc { rd, imm }
        },
        _ => Instr::UnknownOpcode { opcode },
    }
}

} // verus!
