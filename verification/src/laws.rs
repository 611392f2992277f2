//! Properties of the machine that hold across instructions and states.
use vstd::prelude::*;
use crate::decode::{Instr, sext8, imm_b_of, imm_j_of};
use crate::memory::{le8, le16, le32, store8, store16, store32, lemma_bytes_of_word};
use crate::semantics::{
    CpuState,
    MMIO_PUTCHAR,
    access_ok,
    execute_spec,
    taken_spec,
    wrap_add,
    wrap_sub,
    jump_target,
    indirect_target,
};

verus! {

// ---------------------------------------------------------------------------
// Memory.
// ---------------------------------------------------------------------------

/// Reading a word back where it was stored gives the stored word.
pub proof fn lemma_load_word_of_store(m: Seq<u8>, a: int, v: u32)
    requires
        0 <= a,
        a + 4 <= m.len(),
    ensures
        le32(store32(m, a, v), a) == v,
        store32(m, a, v).len() == m.len(),
{
    lemma_bytes_of_word(v);
}

/// Reading a half word back where it was stored gives the low half of the
/// stored word.
pub proof fn lemma_load_half_of_store(m: Seq<u8>, a: int, v: u32)
    requires
        0 <= a,
        a + 2 <= m.len(),
    ensures
        le16(store16(m, a, v), a) == v % 0x1_0000,
        store16(m, a, v).len() == m.len(),
{
    lemma_bytes_of_word(v);
}

/// Reading a byte back where it was stored gives the low byte of the stored
/// word.
pub proof fn lemma_load_byte_of_store(m: Seq<u8>, a: int, v: u32)
    requires
        0 <= a < m.len(),
    ensures
        le8(store8(m, a, v), a) == v % 0x100,
        store8(m, a, v).len() == m.len(),
{
}

/// A word store changes only the four bytes it writes.
pub proof fn lemma_store_word_frame(m: Seq<u8>, a: int, v: u32, b: int)
    requires
        0 <= a,
        a + 4 <= m.len(),
        0 <= b < m.len(),
        b < a || a + 4 <= b,
    ensures
        store32(m, a, v)[b] == m[b],
{
}

// ---------------------------------------------------------------------------
// Invariants of every instruction.
// ---------------------------------------------------------------------------

/// Every instruction keeps the machine valid: x0 still reads zero, there are
/// still 32 registers and memory keeps its size.
pub proof fn lemma_execute_keeps_valid(s: CpuState, ins: Instr)
    requires
        s.valid(),
        ins.well_formed(),
        access_ok(s, ins),
    ensures
        execute_spec(s, ins).valid(),
{
}

/// Register x0 reads zero after every instruction, whatever it names as its
/// destination.
pub proof fn lemma_x0_stays_zero(s: CpuState, ins: Instr)
    requires
        s.valid(),
        ins.well_formed(),
        access_ok(s, ins),
    ensures
        execute_spec(s, ins).regs[0] == 0,
{
    lemma_execute_keeps_valid(s, ins);
}

/// Only stores change memory.
pub proof fn lemma_only_stores_write_memory(s: CpuState, ins: Instr)
    requires
        !ins.is_store(),
    ensures
        execute_spec(s, ins).mem == s.mem,
{
}

/// A byte store to the terminal address leaves memory unchanged.
pub proof fn lemma_terminal_store_keeps_memory(s: CpuState, rs1: u32, rs2: u32, imm: u32)
    requires
        s.eff_addr(rs1, imm) == MMIO_PUTCHAR,
    ensures
        execute_spec(s, Instr::Sb { rs1, rs2, imm }).mem == s.mem,
{
}

/// Every instruction other than a jump or a taken branch moves the program
/// counter to the next instruction.
pub proof fn lemma_sequential_flow(s: CpuState, ins: Instr)
    requires
        !(ins is Jal),
        !(ins is Jalr),
        !taken_spec(s, ins),
        s.pc + 4 <= usize::MAX,
    ensures
        execute_spec(s, ins).pc == s.pc + 4,
{
}

/// Every instruction but `ecall` changes at most its destination register;
/// the others keep their values.
pub proof fn lemma_other_registers_unchanged(s: CpuState, ins: Instr, r: u32)
    requires
        s.valid(),
        ins.well_formed(),
        access_ok(s, ins),
        r < 32,
        !(ins is Ecall),
        ins.dest() != Some(r),
    ensures
        execute_spec(s, ins).reg(r) == s.reg(r),
{
}

/// An `ecall` changes no register but a0 (x10).
pub proof fn lemma_ecall_registers(s: CpuState, r: u32)
    requires
        s.valid(),
        r < 32,
        r != 10,
    ensures
        execute_spec(s, Instr::Ecall).reg(r) == s.reg(r),
{
}

// ---------------------------------------------------------------------------
// Stores and loads through instructions.
// ---------------------------------------------------------------------------

/// `lw` from the address that an `sw` just wrote reads back the stored
/// register.
pub proof fn lemma_sw_then_lw(
    s: CpuState,
    rs1: u32,
    rs2: u32,
    imm: u32,
    rd: u32,
    base: u32,
    offset: u32,
)
    requires
        s.valid(),
        rs1 < 32,
        rs2 < 32,
        rd < 32,
        base < 32,
        rd != 0,
        access_ok(s, Instr::Sw { rs1, rs2, imm }),
        s.eff_addr(base, offset) == s.eff_addr(rs1, imm),
    ensures
        ({
            let t = execute_spec(s, Instr::Sw { rs1, rs2, imm });
            execute_spec(t, Instr::Lw { rd, rs1: base, imm: offset }).reg(rd) == s.reg(rs2)
        }),
{
    lemma_load_word_of_store(s.mem, s.eff_addr(rs1, imm), s.reg(rs2));
}

/// `lhu` from the address that an `sh` just wrote reads back the low half of
/// the stored register.
pub proof fn lemma_sh_then_lhu(
    s: CpuState,
    rs1: u32,
    rs2: u32,
    imm: u32,
    rd: u32,
    base: u32,
    offset: u32,
)
    requires
        s.valid(),
        rs1 < 32,
        rs2 < 32,
        rd < 32,
        base < 32,
        rd != 0,
        access_ok(s, Instr::Sh { rs1, rs2, imm }),
        s.eff_addr(base, offset) == s.eff_addr(rs1, imm),
    ensures
        ({
            let t = execute_spec(s, Instr::Sh { rs1, rs2, imm });
            execute_spec(t, Instr::Lhu { rd, rs1: base, imm: offset }).reg(rd) == s.reg(rs2)
                % 0x1_0000
        }),
{
    lemma_load_half_of_store(s.mem, s.eff_addr(rs1, imm), s.reg(rs2));
}

/// `lbu` and `lb` from the memory address that an `sb` just wrote read back
/// the low byte of the stored register, zero- and sign-extended.
pub proof fn lemma_sb_then_lb(
    s: CpuState,
    rs1: u32,
    rs2: u32,
    imm: u32,
    rd: u32,
    base: u32,
    offset: u32,
)
    requires
        s.valid(),
        rs1 < 32,
        rs2 < 32,
        rd < 32,
        base < 32,
        rd != 0,
        s.eff_addr(rs1, imm) != MMIO_PUTCHAR,
        access_ok(s, Instr::Sb { rs1, rs2, imm }),
        s.eff_addr(base, offset) == s.eff_addr(rs1, imm),
    ensures
        ({
            let t = execute_spec(s, Instr::Sb { rs1, rs2, imm });
            &&& execute_spec(t, Instr::Lbu { rd, rs1: base, imm: offset }).reg(rd) == s.reg(rs2)
                % 0x100
            &&& execute_spec(t, Instr::Lb { rd, rs1: base, imm: offset }).reg(rd) == sext8(
                s.reg(rs2) % 0x100,
            )
        }),
{
    lemma_load_byte_of_store(s.mem, s.eff_addr(rs1, imm), s.reg(rs2));
}

// ---------------------------------------------------------------------------
// Arithmetic.
// ---------------------------------------------------------------------------

/// Subtracting what was added gives back the original word, modulo 2^32.
pub proof fn lemma_sub_undoes_add(a: u32, b: u32)
    ensures
        wrap_sub(wrap_add(a, b), b) == a,
{
}

/// `add rd, ra, rb` followed by `sub rd, rd, rb` leaves in rd what ra held.
pub proof fn lemma_add_then_sub(s: CpuState, rd: u32, ra: u32, rb: u32)
    requires
        s.valid(),
        rd < 32,
        ra < 32,
        rb < 32,
        rd != 0,
        rd != rb,
    ensures
        ({
            let t = execute_spec(s, Instr::Add { rd, rs1: ra, rs2: rb });
            execute_spec(t, Instr::Sub { rd, rs1: rd, rs2: rb }).reg(rd) == s.reg(ra)
        }),
{
    lemma_sub_undoes_add(s.reg(ra), s.reg(rb));
}

/// `xori` twice with the same immediate restores the register.
pub proof fn lemma_xori_twice(s: CpuState, rd: u32, imm: u32)
    requires
        s.valid(),
        rd < 32,
    ensures
        ({
            let t = execute_spec(s, Instr::Xori { rd, rs1: rd, imm });
            execute_spec(t, Instr::Xori { rd, rs1: rd, imm }).reg(rd) == s.reg(rd)
        }),
{
    let v = s.reg(rd);
    assert((v ^ imm) ^ imm == v) by (bit_vector);
}

// ---------------------------------------------------------------------------
// Branches and jumps.
// ---------------------------------------------------------------------------

/// Of `beq` and `bne` on the same registers exactly one is taken; likewise
/// `blt` and `bge`, and `bltu` and `bgeu`.
pub proof fn lemma_branch_pairs_complement(s: CpuState, rs1: u32, rs2: u32, imm: u32)
    ensures
        taken_spec(s, Instr::Beq { rs1, rs2, imm }) != taken_spec(s, Instr::Bne { rs1, rs2, imm }),
        taken_spec(s, Instr::Blt { rs1, rs2, imm }) != taken_spec(s, Instr::Bge { rs1, rs2, imm }),
        taken_spec(s, Instr::Bltu { rs1, rs2, imm }) != taken_spec(
            s,
            Instr::Bgeu { rs1, rs2, imm },
        ),
{
}

/// Branch and jump offsets are even, so relative jumps from an even address
/// land on even addresses.
pub proof fn lemma_offsets_even(i: u32)
    ensures
        imm_b_of(i) % 2 == 0,
        imm_j_of(i) % 2 == 0,
{
    let b = ((i / 0x8000_0000) * 0x1000 + ((i / 0x80) % 2) * 0x800 + ((i / 0x200_0000) % 0x40)
        * 0x20 + ((i / 0x100) % 0x10) * 2) as u32;
    let j = ((i / 0x8000_0000) * 0x10_0000 + ((i / 0x1000) % 0x100) * 0x1000 + ((i / 0x10_0000)
        % 2) * 0x800 + ((i / 0x20_0000) % 0x400) * 2) as u32;
    assert(b % 2 == 0 && b < 0x2000) by (bit_vector)
        requires
            b == ((i / 0x8000_0000) * 0x1000 + ((i / 0x80) % 2) * 0x800 + ((i / 0x200_0000)
                % 0x40) * 0x20 + ((i / 0x100) % 0x10) * 2) as u32,
    ;
    assert(j % 2 == 0 && j < 0x20_0000) by (bit_vector)
        requires
            j == ((i / 0x8000_0000) * 0x10_0000 + ((i / 0x1000) % 0x100) * 0x1000 + ((i
                / 0x10_0000) % 2) * 0x800 + ((i / 0x20_0000) % 0x400) * 2) as u32,
    ;
}

/// `jal` and `jalr` put the address of the next instruction in rd; `jalr`
/// jumps to rs1 + offset as rs1 was before the link is written.
pub proof fn lemma_jumps_link(s: CpuState, rd: u32, rs1: u32, imm: u32)
    requires
        s.valid(),
        rd < 32,
        rs1 < 32,
        rd != 0,
    ensures
        execute_spec(s, Instr::Jal { rd, imm }).reg(rd) == s.link(),
        execute_spec(s, Instr::Jal { rd, imm }).pc == jump_target(s.pc, imm),
        execute_spec(s, Instr::Jalr { rd, rs1, imm }).reg(rd) == s.link(),
        execute_spec(s, Instr::Jalr { rd, rs1, imm }).pc == indirect_target(s.reg(rs1), imm),
        execute_spec(s, Instr::Jalr { rd, rs1, imm }).pc % 2 == 0,
{
}

} // verus!
