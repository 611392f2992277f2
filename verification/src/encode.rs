//! Instruction encodings, built by placing each field at its bit position, and
//! the laws that decoding an encoded instruction gives back its fields and its
//! signed offset.
use vstd::prelude::*;
use crate::decode::{Instr, decode_spec, sext12, sext13, sext21};

verus! {

// ---------------------------------------------------------------------------
// Encodings, written as sums of fields times powers of two.
// ---------------------------------------------------------------------------

/// R-type: funct7 | rs2 | rs1 | funct3 | rd | opcode.
pub open spec fn word_r(funct7: u32, rs2: u32, rs1: u32, funct3: u32, rd: u32, opcode: u32) -> u32 {
    (funct7 * 0x200_0000 + rs2 * 0x10_0000 + rs1 * 0x8000 + funct3 * 0x1000 + rd * 0x80
        + opcode) as u32
}

/// I-type: imm[11:0] | rs1 | funct3 | rd | opcode.
pub open spec fn word_i(imm12: u32, rs1: u32, funct3: u32, rd: u32, opcode: u32) -> u32 {
    (imm12 * 0x10_0000 + rs1 * 0x8000 + funct3 * 0x1000 + rd * 0x80 + opcode) as u32
}

/// S-type: imm[11:5] | rs2 | rs1 | funct3 | imm[4:0] | 0x23.
pub open spec fn word_s(imm12: u32, rs2: u32, rs1: u32, funct3: u32) -> u32 {
    ((imm12 / 0x20) * 0x200_0000 + rs2 * 0x10_0000 + rs1 * 0x8000 + funct3 * 0x1000 + (imm12
        % 0x20) * 0x80 + 0x23) as u32
}

/// B-type: imm[12] | imm[10:5] | rs2 | rs1 | funct3 | imm[4:1] | imm[11] | 0x63.
pub open spec fn word_b(imm13: u32, rs2: u32, rs1: u32, funct3: u32) -> u32 {
    ((imm13 / 0x1000) * 0x8000_0000 + ((imm13 / 0x20) % 0x40) * 0x200_0000 + rs2 * 0x10_0000
        + rs1 * 0x8000 + funct3 * 0x1000 + ((imm13 / 2) % 0x10) * 0x100 + ((imm13 / 0x800) % 2)
        * 0x80 + 0x63) as u32
}

/// J-type: imm[20] | imm[10:1] | imm[11] | imm[19:12] | rd | 0x6f.
pub open spec fn word_j(imm21: u32, rd: u32) -> u32 {
    ((imm21 / 0x10_0000) * 0x8000_0000 + ((imm21 / 2) % 0x400) * 0x20_0000 + ((imm21 / 0x800)
        % 2) * 0x10_0000 + ((imm21 / 0x1000) % 0x100) * 0x1000 + rd * 0x80 + 0x6f) as u32
}

/// U-type: imm[31:12] | rd | opcode.
pub open spec fn word_u(upper: u32, rd: u32, opcode: u32) -> u32 {
    (upper * 0x1000 + rd * 0x80 + opcode) as u32
}

/// A signed offset as the 32-bit word that holds it (two's complement).
pub open spec fn word_of_offset(offset: int) -> u32 {
    (offset % 0x1_0000_0000) as u32
}

/// A 12-bit field holding `offset` sign-extends to `offset` as a word.
proof fn lemma_sext12_of_offset(offset: int)
    requires
        -0x800 <= offset < 0x800,
    ensures
        sext12((offset % 0x1000) as u32) == word_of_offset(offset),
{
}

/// A 13-bit field holding the even `offset` is even and sign-extends to
/// `offset` as a word.
proof fn lemma_sext13_of_offset(offset: int)
    requires
        -0x1000 <= offset < 0x1000,
        offset % 2 == 0,
    ensures
        (offset % 0x2000) as u32 % 2 == 0,
        sext13((offset % 0x2000) as u32) == word_of_offset(offset),
{
    if offset >= 0 {
        assert(offset % 0x2000 == offset);
        assert(offset % 0x1_0000_0000 == offset);
    } else {
        assert(offset % 0x2000 == offset + 0x2000);
        assert(offset % 0x1_0000_0000 == offset + 0x1_0000_0000);
        assert((offset + 0x2000) % 2 == 0);
    }
}

/// A 21-bit field holding the even `offset` is even and sign-extends to
/// `offset` as a word.
proof fn lemma_sext21_of_offset(offset: int)
    requires
        -0x10_0000 <= offset < 0x10_0000,
        offset % 2 == 0,
    ensures
        (offset % 0x20_0000) as u32 % 2 == 0,
        sext21((offset % 0x20_0000) as u32) == word_of_offset(offset),
{
    if offset >= 0 {
        assert(offset % 0x20_0000 == offset);
        assert(offset % 0x1_0000_0000 == offset);
    } else {
        assert(offset % 0x20_0000 == offset + 0x20_0000);
        assert(offset % 0x1_0000_0000 == offset + 0x1_0000_0000);
        assert((offset + 0x20_0000) % 2 == 0);
    }
}

// ---------------------------------------------------------------------------
// Where each field lands.
// ---------------------------------------------------------------------------

proof fn lemma_r_fields(funct7: u32, rs2: u32, rs1: u32, funct3: u32, rd: u32, opcode: u32)
    by (bit_vector)
    requires
        funct7 < 0x80,
        rs2 < 32,
        rs1 < 32,
        funct3 < 8,
        rd < 32,
        opcode < 0x80,
    ensures
        word_r(funct7, rs2, rs1, funct3, rd, opcode) & 0x7f == opcode,
        (word_r(funct7, rs2, rs1, funct3, rd, opcode) >> 7) & 0x1f == rd,
        (word_r(funct7, rs2, rs1, funct3, rd, opcode) >> 12) & 0x07 == funct3,
        (word_r(funct7, rs2, rs1, funct3, rd, opcode) >> 15) & 0x1f == rs1,
        (word_r(funct7, rs2, rs1, funct3, rd, opcode) >> 20) & 0x1f == rs2,
        (word_r(funct7, rs2, rs1, funct3, rd, opcode) >> 25) & 0x7f == funct7,
{
}

proof fn lemma_i_fields(imm12: u32, rs1: u32, funct3: u32, rd: u32, opcode: u32)
    by (bit_vector)
    requires
        imm12 < 0x1000,
        rs1 < 32,
        funct3 < 8,
        rd < 32,
        opcode < 0x80,
    ensures
        word_i(imm12, rs1, funct3, rd, opcode) & 0x7f == opcode,
        (word_i(imm12, rs1, funct3, rd, opcode) >> 7) & 0x1f == rd,
        (word_i(imm12, rs1, funct3, rd, opcode) >> 12) & 0x07 == funct3,
        (word_i(imm12, rs1, funct3, rd, opcode) >> 15) & 0x1f == rs1,
        (word_i(imm12, rs1, funct3, rd, opcode) >> 25) & 0x7f == imm12 / 0x20,
        word_i(imm12, rs1, funct3, rd, opcode) / 0x10_0000 == imm12,
{
}

proof fn lemma_s_fields(imm12: u32, rs2: u32, rs1: u32, funct3: u32)
    by (bit_vector)
    requires
        imm12 < 0x1000,
        rs2 < 32,
        rs1 < 32,
        funct3 < 8,
    ensures
        word_s(imm12, rs2, rs1, funct3) & 0x7f == 0x23,
        (word_s(imm12, rs2, rs1, funct3) >> 12) & 0x07 == funct3,
        (word_s(imm12, rs2, rs1, funct3) >> 15) & 0x1f == rs1,
        (word_s(imm12, rs2, rs1, funct3) >> 20) & 0x1f == rs2,
        ((word_s(imm12, rs2, rs1, funct3) / 0x200_0000) % 0x80) * 0x20 + (word_s(
            imm12,
            rs2,
            rs1,
            funct3,
        ) / 0x80) % 0x20 == imm12,
{
}

proof fn lemma_b_fields(imm13: u32, rs2: u32, rs1: u32, funct3: u32)
    by (bit_vector)
    requires
        imm13 < 0x2000,
        imm13 % 2 == 0,
        rs2 < 32,
        rs1 < 32,
        funct3 < 8,
    ensures
        word_b(imm13, rs2, rs1, funct3) & 0x7f == 0x63,
        (word_b(imm13, rs2, rs1, funct3) >> 12) & 0x07 == funct3,
        (word_b(imm13, rs2, rs1, funct3) >> 15) & 0x1f == rs1,
        (word_b(imm13, rs2, rs1, funct3) >> 20) & 0x1f == rs2,
        (word_b(imm13, rs2, rs1, funct3) / 0x8000_0000) * 0x1000 + ((word_b(
            imm13,
            rs2,
            rs1,
            funct3,
        ) / 0x80) % 2) * 0x800 + ((word_b(imm13, rs2, rs1, funct3) / 0x200_0000) % 0x40)
            * 0x20 + ((word_b(imm13, rs2, rs1, funct3) / 0x100) % 0x10) * 2 == imm13,
{
}

proof fn lemma_j_fields(imm21: u32, rd: u32)
    by (bit_vector)
    requires
        imm21 < 0x20_0000,
        imm21 % 2 == 0,
        rd < 32,
    ensures
        word_j(imm21, rd) & 0x7f == 0x6f,
        (word_j(imm21, rd) >> 7) & 0x1f == rd,
        (word_j(imm21, rd) / 0x8000_0000) * 0x10_0000 + ((word_j(imm21, rd) / 0x1000) % 0x100)
            * 0x1000 + ((word_j(imm21, rd) / 0x10_0000) % 2) * 0x800 + ((word_j(imm21, rd)
            / 0x20_0000) % 0x400) * 2 == imm21,
{
}

proof fn lemma_u_fields(upper: u32, rd: u32, opcode: u32)
    by (bit_vector)
    requires
        upper < 0x10_0000,
        rd < 32,
        opcode < 0x80,
    ensures
        word_u(upper, rd, opcode) & 0x7f == opcode,
        (word_u(upper, rd, opcode) >> 7) & 0x1f == rd,
        ((word_u(upper, rd, opcode) / 0x1000) * 0x1000) as u32 == upper * 0x1000,
{
}

// ---------------------------------------------------------------------------
// Decoding undoes encoding.
// ---------------------------------------------------------------------------

/// Every register-register instruction decodes to its operation with the
/// three register numbers it was encoded with.
pub proof fn lemma_decode_r_type(rd: u32, rs1: u32, rs2: u32)
    requires
        rd < 32,
        rs1 < 32,
        rs2 < 32,
    ensures
        decode_spec(word_r(0, rs2, rs1, 0, rd, 0x33)) == (Instr::Add { rd, rs1, rs2 }),
        decode_spec(word_r(0x20, rs2, rs1, 0, rd, 0x33)) == (Instr::Sub { rd, rs1, rs2 }),
        decode_spec(word_r(0, rs2, rs1, 1, rd, 0x33)) == (Instr::Sll { rd, rs1, rs2 }),
        decode_spec(word_r(0, rs2, rs1, 2, rd, 0x33)) == (Instr::Slt { rd, rs1, rs2 }),
        decode_spec(word_r(0, rs2, rs1, 3, rd, 0x33)) == (Instr::Sltu { rd, rs1, rs2 }),
        decode_spec(word_r(0, rs2, rs1, 4, rd, 0x33)) == (Instr::Xor { rd, rs1, rs2 }),
        decode_spec(word_r(0, rs2, rs1, 5, rd, 0x33)) == (Instr::Srl { rd, rs1, rs2 }),
        decode_spec(word_r(0x20, rs2, rs1, 5, rd, 0x33)) == (Instr::Sra { rd, rs1, rs2 }),
        decode_spec(word_r(0, rs2, rs1, 6, rd, 0x33)) == (Instr::Or { rd, rs1, rs2 }),
        decode_spec(word_r(0, rs2, rs1, 7, rd, 0x33)) == (Instr::And { rd, rs1, rs2 }),
{
    assert(decode_spec(word_r(0, rs2, rs1, 0, rd, 0x33)) == (Instr::Add { rd, rs1, rs2 })) by {
        lemma_r_fields(0, rs2, rs1, 0, rd, 0x33);
    }
    assert(decode_spec(word_r(0x20, rs2, rs1, 0, rd, 0x33)) == (Instr::Sub { rd, rs1, rs2 })) by {
        lemma_r_fields(0x20, rs2, rs1, 0, rd, 0x33);
    }
    assert(decode_spec(word_r(0, rs2, rs1, 1, rd, 0x33)) == (Instr::Sll { rd, rs1, rs2 })) by {
        lemma_r_fields(0, rs2, rs1, 1, rd, 0x33);
    }
    assert(decode_spec(word_r(0, rs2, rs1, 2, rd, 0x33)) == (Instr::Slt { rd, rs1, rs2 })) by {
        lemma_r_fields(0, rs2, rs1, 2, rd, 0x33);
    }
    assert(decode_spec(word_r(0, rs2, rs1, 3, rd, 0x33)) == (Instr::Sltu { rd, rs1, rs2 })) by {
        lemma_r_fields(0, rs2, rs1, 3, rd, 0x33);
    }
    assert(decode_spec(word_r(0, rs2, rs1, 4, rd, 0x33)) == (Instr::Xor { rd, rs1, rs2 })) by {
        lemma_r_fields(0, rs2, rs1, 4, rd, 0x33);
    }
    assert(decode_spec(word_r(0, rs2, rs1, 5, rd, 0x33)) == (Instr::Srl { rd, rs1, rs2 })) by {
        lemma_r_fields(0, rs2, rs1, 5, rd, 0x33);
    }
    assert(decode_spec(word_r(0x20, rs2, rs1, 5, rd, 0x33)) == (Instr::Sra { rd, rs1, rs2 })) by {
        lemma_r_fields(0x20, rs2, rs1, 5, rd, 0x33);
    }
    assert(decode_spec(word_r(0, rs2, rs1, 6, rd, 0x33)) == (Instr::Or { rd, rs1, rs2 })) by {
        lemma_r_fields(0, rs2, rs1, 6, rd, 0x33);
    }
    assert(decode_spec(word_r(0, rs2, rs1, 7, rd, 0x33)) == (Instr::And { rd, rs1, rs2 })) by {
        lemma_r_fields(0, rs2, rs1, 7, rd, 0x33);
    }
}

/// Every instruction with a 12-bit immediate (register-immediate arithmetic,
/// loads, `jalr`) decodes to its operation, its register numbers, and the
/// signed offset it was encoded with, as a two's complement word.
pub proof fn lemma_decode_i_type(rd: u32, rs1: u32, offset: int)
    requires
        rd < 32,
        rs1 < 32,
        -0x800 <= offset < 0x800,
    ensures
        ({
            let f = (offset % 0x1000) as u32;
            let imm = word_of_offset(offset);
            &&& decode_spec(word_i(f, rs1, 0, rd, 0x13)) == (Instr::Addi { rd, rs1, imm })
            &&& decode_spec(word_i(f, rs1, 2, rd, 0x13)) == (Instr::Slti { rd, rs1, imm })
            &&& decode_spec(word_i(f, rs1, 3, rd, 0x13)) == (Instr::Sltiu { rd, rs1, imm })
            &&& decode_spec(word_i(f, rs1, 4, rd, 0x13)) == (Instr::Xori { rd, rs1, imm })
            &&& decode_spec(word_i(f, rs1, 6, rd, 0x13)) == (Instr::Ori { rd, rs1, imm })
            &&& decode_spec(word_i(f, rs1, 7, rd, 0x13)) == (Instr::Andi { rd, rs1, imm })
            &&& decode_spec(word_i(f, rs1, 0, rd, 0x03)) == (Instr::Lb { rd, rs1, imm })
            &&& decode_spec(word_i(f, rs1, 1, rd, 0x03)) == (Instr::Lh { rd, rs1, imm })
            &&& decode_spec(word_i(f, rs1, 2, rd, 0x03)) == (Instr::Lw { rd, rs1, imm })
            &&& decode_spec(word_i(f, rs1, 4, rd, 0x03)) == (Instr::Lbu { rd, rs1, imm })
            &&& decode_spec(word_i(f, rs1, 5, rd, 0x03)) == (Instr::Lhu { rd, rs1, imm })
            &&& decode_spec(word_i(f, rs1, 0, rd, 0x67)) == (Instr::Jalr { rd, rs1, imm })
        }),
{
    let f = (offset % 0x1000) as u32;
    let imm = word_of_offset(offset);
    lemma_sext12_of_offset(offset);
    assert(decode_spec(word_i(f, rs1, 0, rd, 0x13)) == (Instr::Addi { rd, rs1, imm })) by {
        lemma_i_fields(f, rs1, 0, rd, 0x13);
    }
    assert(decode_spec(word_i(f, rs1, 2, rd, 0x13)) == (Instr::Slti { rd, rs1, imm })) by {
        lemma_i_fields(f, rs1, 2, rd, 0x13);
    }
    assert(decode_spec(word_i(f, rs1, 3, rd, 0x13)) == (Instr::Sltiu { rd, rs1, imm })) by {
        lemma_i_fields(f, rs1, 3, rd, 0x13);
    }
    assert(decode_spec(word_i(f, rs1, 4, rd, 0x13)) == (Instr::Xori { rd, rs1, imm })) by {
        lemma_i_fields(f, rs1, 4, rd, 0x13);
    }
    assert(decode_spec(word_i(f, rs1, 6, rd, 0x13)) == (Instr::Ori { rd, rs1, imm })) by {
        lemma_i_fields(f, rs1, 6, rd, 0x13);
    }
    assert(decode_spec(word_i(f, rs1, 7, rd, 0x13)) == (Instr::Andi { rd, rs1, imm })) by {
        lemma_i_fields(f, rs1, 7, rd, 0x13);
    }
    assert(decode_spec(word_i(f, rs1, 0, rd, 0x03)) == (Instr::Lb { rd, rs1, imm })) by {
        lemma_i_fields(f, rs1, 0, rd, 0x03);
    }
    assert(decode_spec(word_i(f, rs1, 1, rd, 0x03)) == (Instr::Lh { rd, rs1, imm })) by {
        lemma_i_fields(f, rs1, 1, rd, 0x03);
    }
    assert(decode_spec(word_i(f, rs1, 2, rd, 0x03)) == (Instr::Lw { rd, rs1, imm })) by {
        lemma_i_fields(f, rs1, 2, rd, 0x03);
    }
    assert(decode_spec(word_i(f, rs1, 4, rd, 0x03)) == (Instr::Lbu { rd, rs1, imm })) by {
        lemma_i_fields(f, rs1, 4, rd, 0x03);
    }
    assert(decode_spec(word_i(f, rs1, 5, rd, 0x03)) == (Instr::Lhu { rd, rs1, imm })) by {
        lemma_i_fields(f, rs1, 5, rd, 0x03);
    }
    assert(decode_spec(word_i(f, rs1, 0, rd, 0x67)) == (Instr::Jalr { rd, rs1, imm })) by {
        lemma_i_fields(f, rs1, 0, rd, 0x67);
    }
}

/// The shift-immediate instructions decode to their shift amount; bit 30
/// of the word picks the arithmetic right shift.
pub proof fn lemma_decode_shift_imm(rd: u32, rs1: u32, shamt: u32)
    requires
        rd < 32,
        rs1 < 32,
        shamt < 32,
    ensures
        decode_spec(word_i(shamt, rs1, 1, rd, 0x13)) == (Instr::Slli { rd, rs1, shamt }),
        decode_spec(word_i(shamt, rs1, 5, rd, 0x13)) == (Instr::Srli { rd, rs1, shamt }),
        decode_spec(word_i((0x400 + shamt) as u32, rs1, 5, rd, 0x13)) == (Instr::Srai { rd, rs1, shamt }),
{
    lemma_i_fields(shamt, rs1, 1, rd, 0x13);
    lemma_i_fields(shamt, rs1, 5, rd, 0x13);
    lemma_i_fields((0x400 + shamt) as u32, rs1, 5, rd, 0x13);
}

/// Every store decodes to its width, its two register numbers and its signed
/// offset.
pub proof fn lemma_decode_s_type(rs1: u32, rs2: u32, offset: int)
    requires
        rs1 < 32,
        rs2 < 32,
        -0x800 <= offset < 0x800,
    ensures
        ({
            let f = (offset % 0x1000) as u32;
            let imm = word_of_offset(offset);
            &&& decode_spec(word_s(f, rs2, rs1, 0)) == (Instr::Sb { rs1, rs2, imm })
            &&& decode_spec(word_s(f, rs2, rs1, 1)) == (Instr::Sh { rs1, rs2, imm })
            &&& decode_spec(word_s(f, rs2, rs1, 2)) == (Instr::Sw { rs1, rs2, imm })
        }),
{
    let f = (offset % 0x1000) as u32;
    let imm = word_of_offset(offset);
    lemma_sext12_of_offset(offset);
    assert(decode_spec(word_s(f, rs2, rs1, 0)) == (Instr::Sb { rs1, rs2, imm })) by {
        lemma_s_fields(f, rs2, rs1, 0);
    }
    assert(decode_spec(word_s(f, rs2, rs1, 1)) == (Instr::Sh { rs1, rs2, imm })) by {
        lemma_s_fields(f, rs2, rs1, 1);
    }
    assert(decode_spec(word_s(f, rs2, rs1, 2)) == (Instr::Sw { rs1, rs2, imm })) by {
        lemma_s_fields(f, rs2, rs1, 2);
    }
}

/// Every conditional branch decodes to its condition, its two register
/// numbers and its (even) signed offset.
pub proof fn lemma_decode_b_type(rs1: u32, rs2: u32, offset: int)
    requires
        rs1 < 32,
        rs2 < 32,
        -0x1000 <= offset < 0x1000,
        offset % 2 == 0,
    ensures
        ({
            let f = (offset % 0x2000) as u32;
            let imm = word_of_offset(offset);
            &&& decode_spec(word_b(f, rs2, rs1, 0)) == (Instr::Beq { rs1, rs2, imm })
            &&& decode_spec(word_b(f, rs2, rs1, 1)) == (Instr::Bne { rs1, rs2, imm })
            &&& decode_spec(word_b(f, rs2, rs1, 4)) == (Instr::Blt { rs1, rs2, imm })
            &&& decode_spec(word_b(f, rs2, rs1, 5)) == (Instr::Bge { rs1, rs2, imm })
            &&& decode_spec(word_b(f, rs2, rs1, 6)) == (Instr::Bltu { rs1, rs2, imm })
            &&& decode_spec(word_b(f, rs2, rs1, 7)) == (Instr::Bgeu { rs1, rs2, imm })
        }),
{
    let f = (offset % 0x2000) as u32;
    let imm = word_of_offset(offset);
    lemma_sext13_of_offset(offset);
    assert(decode_spec(word_b(f, rs2, rs1, 0)) == (Instr::Beq { rs1, rs2, imm })) by {
        lemma_b_fields(f, rs2, rs1, 0);
    }
    assert(decode_spec(word_b(f, rs2, rs1, 1)) == (Instr::Bne { rs1, rs2, imm })) by {
        lemma_b_fields(f, rs2, rs1, 1);
    }
    assert(decode_spec(word_b(f, rs2, rs1, 4)) == (Instr::Blt { rs1, rs2, imm })) by {
        lemma_b_fields(f, rs2, rs1, 4);
    }
    assert(decode_spec(word_b(f, rs2, rs1, 5)) == (Instr::Bge { rs1, rs2, imm })) by {
        lemma_b_fields(f, rs2, rs1, 5);
    }
    assert(decode_spec(word_b(f, rs2, rs1, 6)) == (Instr::Bltu { rs1, rs2, imm })) by {
        lemma_b_fields(f, rs2, rs1, 6);
    }
    assert(decode_spec(word_b(f, rs2, rs1, 7)) == (Instr::Bgeu { rs1, rs2, imm })) by {
        lemma_b_fields(f, rs2, rs1, 7);
    }
}

/// `jal` decodes to its register number and its (even) signed offset.
pub proof fn lemma_decode_j_type(rd: u32, offset: int)
    requires
        rd < 32,
        -0x10_0000 <= offset < 0x10_0000,
        offset % 2 == 0,
    ensures
        decode_spec(word_j((offset % 0x20_0000) as u32, rd)) == (Instr::Jal {
            rd,
            imm: word_of_offset(offset),
        }),
{
    lemma_sext21_of_offset(offset);
    lemma_j_fields((offset % 0x20_0000) as u32, rd);
}

/// A word whose major opcode is none of the implemented ones decodes to
/// an unknown instruction carrying that opcode.
pub proof fn lemma_decode_unknown_opcode(i: u32)
    requires
        i & 0x7f != 0x33 && i & 0x7f != 0x13 && i & 0x7f != 0x03 && i & 0x7f != 0x67 && i & 0x7f
            != 0x23 && i & 0x7f != 0x63 && i & 0x7f != 0x6f && i & 0x7f != 0x73 && i & 0x7f != 0x37
            && i & 0x7f != 0x17,
    ensures
        decode_spec(i) == (Instr::UnknownOpcode { opcode: i & 0x7f }),
{
}

/// `lui` and `auipc` decode to their register number and the upper twenty
/// bits in place; `ecall` is the single word 0x73.
pub proof fn lemma_decode_u_type(rd: u32, upper: u32)
    requires
        rd < 32,
        upper < 0x10_0000,
    ensures
        decode_spec(word_u(upper, rd, 0x37)) == (Instr::Lui { rd, imm: (upper * 0x1000) as u32 }),
        decode_spec(word_u(upper, rd, 0x17)) == (Instr::Auipc {
            rd,
            imm: (upper * 0x1000) as u32,
        }),
        decode_spec(0x73) == Instr::Ecall,
{
    lemma_u_fields(upper, rd, 0x37);
    lemma_u_fields(upper, rd, 0x17);
    assert(0x73u32 & 0x7f == 0x73) by (bit_vector);
}

/// Encodings with a funct3/funct7 combination that is not implemented decode
/// to the unknown instruction of their format, and a word with opcode 0x73
/// other than `ecall` itself decodes to the ignored system instruction.
pub proof fn lemma_decode_unimplemented(funct7: u32, funct3: u32, rd: u32, rs1: u32, rs2: u32, imm12: u32)
    requires
        funct7 < 0x80,
        funct3 < 8,
        rd < 32,
        rs1 < 32,
        rs2 < 32,
        imm12 < 0x1000,
    ensures
        !(funct7 == 0 || (funct7 == 0x20 && (funct3 == 0 || funct3 == 5))) ==> decode_spec(
            word_r(funct7, rs2, rs1, funct3, rd, 0x33),
        ) == Instr::UnknownRType,
        funct3 == 3 || funct3 == 6 || funct3 == 7 ==> decode_spec(
            word_i(imm12, rs1, funct3, rd, 0x03),
        ) == Instr::UnknownLoad,
        funct3 >= 3 ==> decode_spec(word_s(imm12, rs2, rs1, funct3)) == Instr::UnknownStore,
        word_i(imm12, rs1, funct3, rd, 0x73) != 0x73 ==> decode_spec(
            word_i(imm12, rs1, funct3, rd, 0x73),
        ) == Instr::OtherSystem,
{
    lemma_r_fields(funct7, rs2, rs1, funct3, rd, 0x33);
    lemma_i_fields(imm12, rs1, funct3, rd, 0x03);
    lemma_s_fields(imm12, rs2, rs1, funct3);
    lemma_i_fields(imm12, rs1, funct3, rd, 0x73);
}

/// Branch encodings with funct3 2 or 3 decode to the unknown branch.
pub proof fn lemma_decode_unimplemented_branch(funct3: u32, rs1: u32, rs2: u32, imm13: u32)
    requires
        funct3 == 2 || funct3 == 3,
        rs1 < 32,
        rs2 < 32,
        imm13 < 0x2000,
        imm13 % 2 == 0,
    ensures
        decode_spec(word_b(imm13, rs2, rs1, funct3)) == Instr::UnknownBranch,
{
    lemma_b_fields(imm13, rs2, rs1, funct3);
}

} // verus!
