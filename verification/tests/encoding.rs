use lib::decode::{decode, imm_b, imm_i, imm_j, imm_s, sign_extend_12, Instr};

fn r_type(funct7: u32, rs2: u32, rs1: u32, funct3: u32, rd: u32, opcode: u32) -> u32 {
    (funct7 << 25) | (rs2 << 20) | (rs1 << 15) | (funct3 << 12) | (rd << 7) | opcode
}

fn i_type(imm: i32, rs1: u32, funct3: u32, rd: u32, opcode: u32) -> u32 {
    (((imm as u32) & 0xfff) << 20) | (rs1 << 15) | (funct3 << 12) | (rd << 7) | opcode
}

fn s_type(imm: i32, rs2: u32, rs1: u32, funct3: u32) -> u32 {
    let imm = imm as u32;
    (((imm >> 5) & 0x7f) << 25) | (rs2 << 20) | (rs1 << 15) | (funct3 << 12) | ((imm & 0x1f) << 7) | 0x23
}

fn b_type(imm: i32, rs2: u32, rs1: u32, funct3: u32) -> u32 {
    let imm = imm as u32;
    (((imm >> 12) & 1) << 31)
        | (((imm >> 5) & 0x3f) << 25)
        | (rs2 << 20)
        | (rs1 << 15)
        | (funct3 << 12)
        | (((imm >> 1) & 0xf) << 8)
        | (((imm >> 11) & 1) << 7)
        | 0x63
}

fn j_type(imm: i32, rd: u32) -> u32 {
    let imm = imm as u32;
    (((imm >> 20) & 1) << 31)
        | (((imm >> 1) & 0x3ff) << 21)
        | (((imm >> 11) & 1) << 20)
        | (((imm >> 12) & 0xff) << 12)
        | (rd << 7)
        | 0x6f
}

#[test]
fn known_words_decode() {
    // add x3, x1, x2
    assert_eq!(decode(0x002081b3), Instr::Add { rd: 3, rs1: 1, rs2: 2 });
    // sub x3, x1, x2
    assert_eq!(decode(0x402081b3), Instr::Sub { rd: 3, rs1: 1, rs2: 2 });
    // addi a0, x0, 42
    assert_eq!(decode(0x02a00513), Instr::Addi { rd: 10, rs1: 0, imm: 42 });
    // addi x1, x0, -1
    assert_eq!(decode(0xfff00093), Instr::Addi { rd: 1, rs1: 0, imm: 0xffff_ffff });
    // sw x2, 8(x1)
    assert_eq!(decode(0x0020a423), Instr::Sw { rs1: 1, rs2: 2, imm: 8 });
    // beq x0, x0, -4
    assert_eq!(decode(0xfe000ee3), Instr::Beq { rs1: 0, rs2: 0, imm: 0xffff_fffc });
    // jal x1, 8
    assert_eq!(decode(0x008000ef), Instr::Jal { rd: 1, imm: 8 });
    // jal x0, -8
    assert_eq!(decode(0xff9ff06f), Instr::Jal { rd: 0, imm: 0xffff_fff8 });
    // lui x5, 0x12345
    assert_eq!(decode(0x123452b7), Instr::Lui { rd: 5, imm: 0x1234_5000 });
    // ecall, and ebreak which is not implemented
    assert_eq!(decode(0x0000_0073), Instr::Ecall);
    assert_eq!(decode(0x0010_0073), Instr::OtherSystem);
}

#[test]
fn r_type_table() {
    let cases = [
        (0x00, 0, Instr::Add { rd: 5, rs1: 6, rs2: 7 }),
        (0x20, 0, Instr::Sub { rd: 5, rs1: 6, rs2: 7 }),
        (0x00, 6, Instr::Or { rd: 5, rs1: 6, rs2: 7 }),
        (0x00, 7, Instr::And { rd: 5, rs1: 6, rs2: 7 }),
        (0x00, 4, Instr::Xor { rd: 5, rs1: 6, rs2: 7 }),
        (0x00, 1, Instr::Sll { rd: 5, rs1: 6, rs2: 7 }),
        (0x00, 5, Instr::Srl { rd: 5, rs1: 6, rs2: 7 }),
        (0x20, 5, Instr::Sra { rd: 5, rs1: 6, rs2: 7 }),
        (0x00, 2, Instr::Slt { rd: 5, rs1: 6, rs2: 7 }),
        (0x00, 3, Instr::Sltu { rd: 5, rs1: 6, rs2: 7 }),
        // mul belongs to the M extension, which is not implemented
        (0x01, 0, Instr::UnknownRType),
    ];
    for (f7, f3, expected) in cases {
        assert_eq!(decode(r_type(f7, 7, 6, f3, 5, 0x33)), expected);
    }
}

#[test]
fn i_type_table() {
    assert_eq!(decode(i_type(-5, 2, 0, 1, 0x13)), Instr::Addi { rd: 1, rs1: 2, imm: (-5i32) as u32 });
    assert_eq!(decode(i_type(0x7ff, 2, 4, 1, 0x13)), Instr::Xori { rd: 1, rs1: 2, imm: 0x7ff });
    assert_eq!(decode(i_type(-1, 2, 6, 1, 0x13)), Instr::Ori { rd: 1, rs1: 2, imm: 0xffff_ffff });
    assert_eq!(decode(i_type(0xf0, 2, 7, 1, 0x13)), Instr::Andi { rd: 1, rs1: 2, imm: 0xf0 });
    assert_eq!(decode(i_type(3, 2, 1, 1, 0x13)), Instr::Slli { rd: 1, rs1: 2, shamt: 3 });
    assert_eq!(decode(i_type(31, 2, 5, 1, 0x13)), Instr::Srli { rd: 1, rs1: 2, shamt: 31 });
    assert_eq!(decode(i_type(0x400 | 4, 2, 5, 1, 0x13)), Instr::Srai { rd: 1, rs1: 2, shamt: 4 });
    assert_eq!(decode(i_type(1, 2, 2, 1, 0x13)), Instr::Slti { rd: 1, rs1: 2, imm: 1 });
    assert_eq!(decode(i_type(-1, 2, 3, 1, 0x13)), Instr::Sltiu { rd: 1, rs1: 2, imm: 0xffff_ffff });
}

#[test]
fn load_store_tables() {
    assert_eq!(decode(i_type(-4, 3, 0, 4, 0x03)), Instr::Lb { rd: 4, rs1: 3, imm: 0xffff_fffc });
    assert_eq!(decode(i_type(2, 3, 1, 4, 0x03)), Instr::Lh { rd: 4, rs1: 3, imm: 2 });
    assert_eq!(decode(i_type(4, 3, 2, 4, 0x03)), Instr::Lw { rd: 4, rs1: 3, imm: 4 });
    assert_eq!(decode(i_type(1, 3, 4, 4, 0x03)), Instr::Lbu { rd: 4, rs1: 3, imm: 1 });
    assert_eq!(decode(i_type(6, 3, 5, 4, 0x03)), Instr::Lhu { rd: 4, rs1: 3, imm: 6 });
    assert_eq!(decode(i_type(0, 3, 3, 4, 0x03)), Instr::UnknownLoad);
    assert_eq!(decode(s_type(-1, 9, 8, 0)), Instr::Sb { rs1: 8, rs2: 9, imm: 0xffff_ffff });
    assert_eq!(decode(s_type(0x7fe, 9, 8, 1)), Instr::Sh { rs1: 8, rs2: 9, imm: 0x7fe });
    assert_eq!(decode(s_type(-2048, 9, 8, 2)), Instr::Sw { rs1: 8, rs2: 9, imm: 0xffff_f800 });
    assert_eq!(decode(s_type(0, 9, 8, 3)), Instr::UnknownStore);
    assert_eq!(decode(i_type(-3, 7, 0, 1, 0x67)), Instr::Jalr { rd: 1, rs1: 7, imm: 0xffff_fffd });
}

#[test]
fn branch_and_jump_tables() {
    let cases = [
        (0, Instr::Beq { rs1: 1, rs2: 2, imm: 16 }),
        (1, Instr::Bne { rs1: 1, rs2: 2, imm: 16 }),
        (4, Instr::Blt { rs1: 1, rs2: 2, imm: 16 }),
        (5, Instr::Bge { rs1: 1, rs2: 2, imm: 16 }),
        (6, Instr::Bltu { rs1: 1, rs2: 2, imm: 16 }),
        (7, Instr::Bgeu { rs1: 1, rs2: 2, imm: 16 }),
        (2, Instr::UnknownBranch),
    ];
    for (f3, expected) in cases {
        assert_eq!(decode(b_type(16, 2, 1, f3)), expected);
    }
    assert_eq!(decode(b_type(-4096, 2, 1, 0)), Instr::Beq { rs1: 1, rs2: 2, imm: 0xffff_f000 });
    assert_eq!(decode(b_type(4094, 2, 1, 0)), Instr::Beq { rs1: 1, rs2: 2, imm: 4094 });
    assert_eq!(decode(j_type(-1048576, 3)), Instr::Jal { rd: 3, imm: 0xfff0_0000 });
    assert_eq!(decode(j_type(1048574, 3)), Instr::Jal { rd: 3, imm: 1048574 });
    assert_eq!(decode(j_type(2048, 0)), Instr::Jal { rd: 0, imm: 2048 });
}

#[test]
fn unknown_opcode() {
    assert_eq!(decode(0x0000_007f), Instr::UnknownOpcode { opcode: 0x7f });
    assert_eq!(decode(0), Instr::UnknownOpcode { opcode: 0 });
    // auipc x5, 0
    assert_eq!(decode(0x0000_0297), Instr::Auipc { rd: 5, imm: 0 });
    // auipc x1, 0xfffff
    assert_eq!(decode(0xffff_f097), Instr::Auipc { rd: 1, imm: 0xffff_f000 });
    // fence is not implemented
    assert_eq!(decode(0x0000_000f), Instr::UnknownOpcode { opcode: 0x0f });
}

#[test]
fn immediates() {
    assert_eq!(sign_extend_12(0x7ff), 0x7ff);
    assert_eq!(sign_extend_12(0x800), 0xffff_f800);
    assert_eq!(sign_extend_12(0xfff), 0xffff_ffff);
    assert_eq!(imm_i(0xfff0_0093), 0xffff_ffff);
    assert_eq!(imm_s(s_type(-7, 1, 2, 2)), (-7i32) as u32);
    assert_eq!(imm_b(b_type(-2, 1, 2, 0)), (-2i32) as u32);
    assert_eq!(imm_j(j_type(-2, 1)), (-2i32) as u32);
    assert_eq!(imm_j(j_type(0x8_0000, 1)), 0x8_0000);
}
