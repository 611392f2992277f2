//! What each instruction computes, stated from its inputs with plain integer
//! arithmetic: sums modulo 2^32, two's complement read off the sign bit,
//! little-endian bytes, and jump targets as pc plus a signed offset.
use vstd::prelude::*;
use crate::decode::Instr;
use crate::encode::word_of_offset;
use crate::semantics::{
    CpuState,
    EffectView,
    MMIO_PUTCHAR,
    access_ok,
    effect_spec,
    execute_spec,
    fetch_spec,
    shift_left,
    shift_right_arith,
};
use vstd::arithmetic::power2::{pow2, lemma_pow2_adds, lemma_pow2_pos, lemma2_to64};
use vstd::arithmetic::div_mod::{lemma_fundamental_div_mod, lemma_fundamental_div_mod_converse};
use vstd::bits::{lemma_u32_shl_is_mul, lemma_u32_shr_is_div, lemma_u32_mul_pow2_le_max_iff_max_shr};

verus! {

/// `a` is below `b` when both words are read as two's complement numbers:
/// with equal sign bits the unsigned order decides; otherwise the word with
/// the sign bit set is the smaller.
pub open spec fn below_signed(a: u32, b: u32) -> bool {
    if (a >= 0x8000_0000) == (b >= 0x8000_0000) {
        a < b
    } else {
        a >= 0x8000_0000
    }
}

/// The two's complement value of a word, read off its sign bit.
pub open spec fn value_signed(v: u32) -> int {
    if v >= 0x8000_0000 { v - 0x1_0000_0000 } else { v as int }
}

/// A signed offset that fits in 32 bits, held in `imm` as a two's complement
/// word.
pub open spec fn holds_offset(imm: u32, offset: int) -> bool {
    &&& -0x8000_0000 <= offset < 0x8000_0000
    &&& imm == word_of_offset(offset)
}

// ---------------------------------------------------------------------------
// Branches.
// ---------------------------------------------------------------------------

/// Each conditional branch goes to pc + offset exactly when its condition
/// holds (equal, not equal, signed less, signed not less, unsigned less,
/// unsigned not less) and to pc + 4 otherwise; registers and memory are left
/// alone.
pub proof fn lemma_branch_behaviour(s: CpuState, rs1: u32, rs2: u32, imm: u32, offset: int)
    requires
        s.valid(),
        rs1 < 32,
        rs2 < 32,
        holds_offset(imm, offset),
        0 <= s.pc + offset <= usize::MAX,
        s.pc + 4 <= usize::MAX,
    ensures
        ({
            let a = s.reg(rs1);
            let b = s.reg(rs2);
            let to = s.pc + offset;
            let next = s.pc + 4;
            &&& execute_spec(s, Instr::Beq { rs1, rs2, imm }).pc == if a == b { to } else { next }
            &&& execute_spec(s, Instr::Bne { rs1, rs2, imm }).pc == if a != b { to } else { next }
            &&& execute_spec(s, Instr::Blt { rs1, rs2, imm }).pc == if below_signed(a, b) {
                to
            } else {
                next
            }
            &&& execute_spec(s, Instr::Bge { rs1, rs2, imm }).pc == if !below_signed(a, b) {
                to
            } else {
                next
            }
            &&& execute_spec(s, Instr::Bltu { rs1, rs2, imm }).pc == if a < b { to } else { next }
            &&& execute_spec(s, Instr::Bgeu { rs1, rs2, imm }).pc == if a >= b {
                to
            } else {
                next
            }
        }),
        execute_spec(s, Instr::Blt { rs1, rs2, imm }).regs == s.regs,
        execute_spec(s, Instr::Blt { rs1, rs2, imm }).mem == s.mem,
        execute_spec(s, Instr::Bge { rs1, rs2, imm }).regs == s.regs,
        execute_spec(s, Instr::Bge { rs1, rs2, imm }).mem == s.mem,
{
}

/// With equal registers `beq`, `bge` and `bgeu` are taken and `bne`, `blt`
/// and `bltu` are not.
pub proof fn lemma_branch_on_equal(s: CpuState, rs1: u32, rs2: u32, imm: u32, offset: int)
    requires
        s.valid(),
        rs1 < 32,
        rs2 < 32,
        s.reg(rs1) == s.reg(rs2),
        holds_offset(imm, offset),
        0 <= s.pc + offset <= usize::MAX,
        s.pc + 4 <= usize::MAX,
    ensures
        execute_spec(s, Instr::Beq { rs1, rs2, imm }).pc == s.pc + offset,
        execute_spec(s, Instr::Bge { rs1, rs2, imm }).pc == s.pc + offset,
        execute_spec(s, Instr::Bgeu { rs1, rs2, imm }).pc == s.pc + offset,
        execute_spec(s, Instr::Bne { rs1, rs2, imm }).pc == s.pc + 4,
        execute_spec(s, Instr::Blt { rs1, rs2, imm }).pc == s.pc + 4,
        execute_spec(s, Instr::Bltu { rs1, rs2, imm }).pc == s.pc + 4,
{
    lemma_branch_behaviour(s, rs1, rs2, imm, offset);
}

// ---------------------------------------------------------------------------
// Jumps.
// ---------------------------------------------------------------------------

/// `jal` goes to pc + offset; `jalr` goes to x[rs1] + offset modulo 2^32 with
/// bit 0 cleared, x[rs1] read before the link is written; both write pc + 4
/// to rd.
pub proof fn lemma_jump_behaviour(s: CpuState, rd: u32, rs1: u32, imm: u32, offset: int)
    requires
        s.valid(),
        rd < 32,
        rs1 < 32,
        rd != 0,
        holds_offset(imm, offset),
        s.pc + 4 <= s.mem.len(),
    ensures
        ({
            let t = (s.reg(rs1) + offset) % 0x1_0000_0000;
            &&& execute_spec(s, Instr::Jalr { rd, rs1, imm }).pc == t - t % 2
            &&& execute_spec(s, Instr::Jalr { rd, rs1, imm }).reg(rd) == s.pc + 4
        }),
        execute_spec(s, Instr::Jal { rd, imm }).reg(rd) == s.pc + 4,
        0 <= s.pc + offset ==> execute_spec(s, Instr::Jal { rd, imm }).pc == s.pc + offset,
        execute_spec(s, Instr::Jal { rd, imm }).mem == s.mem,
        execute_spec(s, Instr::Jalr { rd, rs1, imm }).mem == s.mem,
{
    let a = s.reg(rs1);
    if offset >= 0 {
        assert(imm == offset);
    } else {
        assert(imm == offset + 0x1_0000_0000);
        assert((a + imm) % 0x1_0000_0000 == (a + offset) % 0x1_0000_0000);
    }
}

/// With a negative offset -k and x[rs1] >= k, `jalr` goes to x[rs1] - k
/// rounded down to even.
pub proof fn lemma_jalr_backwards(s: CpuState, rd: u32, rs1: u32, k: int)
    requires
        s.valid(),
        rd < 32,
        rs1 < 32,
        0 < k <= 0x800,
        s.reg(rs1) >= k,
    ensures
        ({
            let target = s.reg(rs1) - k;
            execute_spec(s, Instr::Jalr { rd, rs1, imm: word_of_offset(-k) }).pc == target
                - target % 2
        }),
{
    assert(word_of_offset(-k) == 0x1_0000_0000 - k);
}

// ---------------------------------------------------------------------------
// The proxy kernel.
// ---------------------------------------------------------------------------

/// A `write` call (a7 = 64) to descriptor 1 or 2 with the buffer in memory
/// shows the a2 bytes at address a1, the same for both descriptors, and
/// returns the length in a0; memory and the other registers stay.
pub proof fn lemma_write_call(s: CpuState)
    requires
        s.valid(),
        s.reg(17) == 64,
        s.reg(10) == 1 || s.reg(10) == 2,
        s.reg(11) + s.reg(12) <= s.mem.len(),
    ensures
        effect_spec(s, Instr::Ecall) matches EffectView::Write(bytes) && bytes.len() == s.reg(12)
            && forall|k: int| 0 <= k < s.reg(12) ==> bytes[k] == s.mem[s.reg(11) + k],
        effect_spec(s, Instr::Ecall) == effect_spec(s.with_reg(10, 1), Instr::Ecall),
        effect_spec(s, Instr::Ecall) == effect_spec(s.with_reg(10, 2), Instr::Ecall),
        execute_spec(s, Instr::Ecall).reg(10) == s.reg(12),
        execute_spec(s, Instr::Ecall).mem == s.mem,
        execute_spec(s, Instr::Ecall).pc == s.pc + 4 || s.pc + 4 > usize::MAX,
        forall|r: u32| r < 32 && r != 10 ==> execute_spec(s, Instr::Ecall).reg(r) == s.reg(r),
{
    assert(s.with_reg(10, 1).reg(10) == 1);
    assert(s.with_reg(10, 2).reg(10) == 2);
}

/// A `write` call to any other descriptor shows nothing but still returns
/// the length in a0.
pub proof fn lemma_write_call_other_descriptor(s: CpuState)
    requires
        s.valid(),
        s.reg(17) == 64,
        s.reg(10) != 1,
        s.reg(10) != 2,
    ensures
        effect_spec(s, Instr::Ecall) == EffectView::Nothing,
        execute_spec(s, Instr::Ecall).reg(10) == s.reg(12),
{
}

/// An `exit` call (a7 = 93) ends the program with the code in a0 and changes
/// no register or memory; any other call number is reported as unknown.
pub proof fn lemma_exit_and_unknown_calls(s: CpuState)
    requires
        s.valid(),
    ensures
        s.reg(17) == 93 ==> effect_spec(s, Instr::Ecall) == EffectView::Exit(s.reg(10)),
        s.reg(17) == 93 ==> execute_spec(s, Instr::Ecall).regs == s.regs,
        s.reg(17) != 93 && s.reg(17) != 64 ==> effect_spec(s, Instr::Ecall)
            == EffectView::UnknownSyscall(s.reg(17)),
        execute_spec(s, Instr::Ecall).mem == s.mem,
{
}

// ---------------------------------------------------------------------------
// Arithmetic and comparison.
// ---------------------------------------------------------------------------

/// What the register-register and register-immediate operations write to rd:
/// sums and differences modulo 2^32, the bitwise operations, and 1 or 0 for
/// the signed and unsigned comparisons; `lui` writes the immediate and
/// `auipc` pc plus the immediate modulo 2^32.
pub proof fn lemma_alu_behaviour(s: CpuState, rd: u32, rs1: u32, rs2: u32, imm: u32)
    requires
        s.valid(),
        rd < 32,
        rs1 < 32,
        rs2 < 32,
        rd != 0,
        s.pc + 4 <= s.mem.len(),
    ensures
        ({
            let a = s.reg(rs1);
            let b = s.reg(rs2);
            &&& execute_spec(s, Instr::Add { rd, rs1, rs2 }).reg(rd) == (a + b) % 0x1_0000_0000
            &&& execute_spec(s, Instr::Sub { rd, rs1, rs2 }).reg(rd) == (a - b) % 0x1_0000_0000
            &&& execute_spec(s, Instr::And { rd, rs1, rs2 }).reg(rd) == a & b
            &&& execute_spec(s, Instr::Or { rd, rs1, rs2 }).reg(rd) == a | b
            &&& execute_spec(s, Instr::Xor { rd, rs1, rs2 }).reg(rd) == a ^ b
            &&& execute_spec(s, Instr::Slt { rd, rs1, rs2 }).reg(rd) == if below_signed(a, b) {
                1int
            } else {
                0
            }
            &&& execute_spec(s, Instr::Sltu { rd, rs1, rs2 }).reg(rd) == if a < b {
                1int
            } else {
                0
            }
            &&& execute_spec(s, Instr::Addi { rd, rs1, imm }).reg(rd) == (a + imm) % 0x1_0000_0000
            &&& execute_spec(s, Instr::Andi { rd, rs1, imm }).reg(rd) == a & imm
            &&& execute_spec(s, Instr::Ori { rd, rs1, imm }).reg(rd) == a | imm
            &&& execute_spec(s, Instr::Xori { rd, rs1, imm }).reg(rd) == a ^ imm
            &&& execute_spec(s, Instr::Slti { rd, rs1, imm }).reg(rd) == if below_signed(
                a,
                imm,
            ) {
                1int
            } else {
                0
            }
            &&& execute_spec(s, Instr::Sltiu { rd, rs1, imm }).reg(rd) == if a < imm {
                1int
            } else {
                0
            }
            &&& execute_spec(s, Instr::Lui { rd, imm }).reg(rd) == imm
            &&& execute_spec(s, Instr::Auipc { rd, imm }).reg(rd) == (s.pc + imm) % 0x1_0000_0000
        }),
{
}

/// Shifting left by `sh` multiplies by 2^sh modulo 2^32.
proof fn lemma_shift_left_is_mul(a: u32, sh: u32)
    requires
        sh < 32,
    ensures
        shift_left(a, sh) == (a * pow2(sh as nat)) % 0x1_0000_0000,
{
    let q = pow2(sh as nat);
    lemma_pow2_pos(sh as nat);
    lemma2_to64();
    assert(sh % 32 == sh);
    if sh == 0 {
        assert(a << 0u32 == a) by (bit_vector);
        assert(a * 1 == a);
    } else {
        let up = (32 - sh) as u32;
        let p = pow2(up as nat);
        lemma_pow2_adds(up as nat, sh as nat);
        assert(p * q == 0x1_0000_0000);
        let x = a & (0xffff_ffffu32 >> sh);
        let k = a >> up;
        assert(a << sh == (a & (0xffff_ffffu32 >> sh)) << sh && (a & (0xffff_ffffu32 >> sh))
            <= 0xffff_ffffu32 >> sh && (a >> up) <= 0xffff_ffffu32 >> up && a - (a & (0xffff_ffffu32
            >> sh)) == (a >> up) << up) by (bit_vector)
            requires
                0 < sh < 32,
                up == 32 - sh,
        ;
        lemma_u32_mul_pow2_le_max_iff_max_shr(x, sh, 0xffff_ffff);
        lemma_u32_shl_is_mul(x, sh);
        lemma_u32_mul_pow2_le_max_iff_max_shr(k, up, 0xffff_ffff);
        lemma_u32_shl_is_mul(k, up);
        assert(a == k * p + x);
        assert(a * q == k * 0x1_0000_0000 + x * q) by (nonlinear_arith)
            requires
                a == k * p + x,
                p * q == 0x1_0000_0000,
        ;
        lemma_fundamental_div_mod_converse(a * q, 0x1_0000_0000, k as int, x * q);
    }
}

/// Arithmetic right shift by `sh` divides the two's complement value by 2^sh,
/// rounding down.
proof fn lemma_shift_right_arith_is_div(a: u32, sh: u32)
    requires
        sh < 32,
    ensures
        value_signed(shift_right_arith(a, sh)) == value_signed(a) / (pow2(sh as nat) as int),
{
    let q = pow2(sh as nat);
    lemma_pow2_pos(sh as nat);
    assert(sh % 32 == sh);
    if a < 0x8000_0000 {
        lemma_u32_shr_is_div(a, sh);
        assert(a as nat / q <= a) by (nonlinear_arith)
            requires
                q > 0,
        ;
    } else {
        let na = !a;
        assert(a + !a == 0xffff_ffff) by (bit_vector);
        lemma_u32_shr_is_div(na, sh);
        let y = na >> sh;
        assert(y + !y == 0xffff_ffff) by (bit_vector);
        assert(y <= na) by (nonlinear_arith)
            requires
                y == na as nat / q,
                q > 0,
        ;
        let n = 0x1_0000_0000 - a;
        lemma_fundamental_div_mod(n - 1, q as int);
        let qq = (n - 1) / (q as int);
        let r = (n - 1) % (q as int);
        assert(-n == (-qq - 1) * q + (q - 1 - r)) by (nonlinear_arith)
            requires
                n - 1 == q * qq + r,
        ;
        lemma_fundamental_div_mod_converse(-n, q as int, -qq - 1, q - 1 - r);
    }
}

/// Shifts left multiply by a power of two modulo 2^32; arithmetic right
/// shifts divide the two's complement value by a power of two, rounding down.
pub proof fn lemma_shift_behaviour(s: CpuState, rd: u32, rs1: u32, rs2: u32, shamt: u32)
    requires
        s.valid(),
        rd < 32,
        rs1 < 32,
        rs2 < 32,
        rd != 0,
        shamt < 32,
    ensures
        execute_spec(s, Instr::Slli { rd, rs1, shamt }).reg(rd) == (s.reg(rs1) * pow2(shamt as nat))
            % 0x1_0000_0000,
        execute_spec(s, Instr::Sll { rd, rs1, rs2 }).reg(rd) == (s.reg(rs1) * pow2(
            (s.reg(rs2) % 32) as nat,
        )) % 0x1_0000_0000,
        value_signed(execute_spec(s, Instr::Srai { rd, rs1, shamt }).reg(rd)) == value_signed(
            s.reg(rs1),
        ) / (pow2(shamt as nat) as int),
        value_signed(execute_spec(s, Instr::Sra { rd, rs1, rs2 }).reg(rd)) == value_signed(
            s.reg(rs1),
        ) / (pow2((s.reg(rs2) % 32) as nat) as int),
{
    let b = (s.reg(rs2) % 32) as u32;
    lemma_shift_left_is_mul(s.reg(rs1), shamt);
    lemma_shift_left_is_mul(s.reg(rs1), b);
    lemma_shift_right_arith_is_div(s.reg(rs1), shamt);
    lemma_shift_right_arith_is_div(s.reg(rs1), b);
    assert(shift_left(s.reg(rs1), s.reg(rs2)) == shift_left(s.reg(rs1), b));
    assert(shift_right_arith(s.reg(rs1), s.reg(rs2)) == shift_right_arith(s.reg(rs1), b));
}

/// Logical right shifts divide by a power of two: by register (low five bits
/// of x[rs2]) and by immediate.
pub proof fn lemma_logical_right_shift(s: CpuState, rd: u32, rs1: u32, rs2: u32, shamt: u32)
    requires
        s.valid(),
        rd < 32,
        rs1 < 32,
        rs2 < 32,
        rd != 0,
        shamt < 32,
    ensures
        execute_spec(s, Instr::Srli { rd, rs1, shamt }).reg(rd) == s.reg(rs1) as nat / pow2(shamt as nat),
        execute_spec(s, Instr::Srl { rd, rs1, rs2 }).reg(rd) == s.reg(rs1) as nat / pow2((s.reg(rs2) % 32) as nat),
{
    lemma_u32_shr_is_div(s.reg(rs1), shamt);
    lemma_u32_shr_is_div(s.reg(rs1), (s.reg(rs2) % 32) as u32);
}

// ---------------------------------------------------------------------------
// Loads and stores.
// ---------------------------------------------------------------------------

/// Loads read the little-endian bytes at x[rs1] + offset (modulo 2^32): `lbu`
/// and `lhu` zero-extend, `lb` and `lh` sign-extend by the top bit, `lw`
/// reads four bytes.
pub proof fn lemma_load_behaviour(s: CpuState, rd: u32, rs1: u32, imm: u32, offset: int)
    requires
        s.valid(),
        rd < 32,
        rs1 < 32,
        rd != 0,
        holds_offset(imm, offset),
        ({
            let a = (s.reg(rs1) + offset) % 0x1_0000_0000;
            a + 4 <= s.mem.len()
        }),
    ensures
        ({
            let a = (s.reg(rs1) + offset) % 0x1_0000_0000;
            let m = s.mem;
            &&& execute_spec(s, Instr::Lbu { rd, rs1, imm }).reg(rd) == m[a]
            &&& execute_spec(s, Instr::Lb { rd, rs1, imm }).reg(rd) == if m[a] < 0x80 {
                m[a] as int
            } else {
                m[a] + 0xffff_ff00
            }
            &&& execute_spec(s, Instr::Lhu { rd, rs1, imm }).reg(rd) == m[a] + 0x100 * m[a + 1]
            &&& execute_spec(s, Instr::Lh { rd, rs1, imm }).reg(rd) == if m[a + 1] < 0x80 {
                m[a] + 0x100 * m[a + 1]
            } else {
                m[a] + 0x100 * m[a + 1] + 0xffff_0000
            }
            &&& execute_spec(s, Instr::Lw { rd, rs1, imm }).reg(rd) == m[a] + 0x100 * m[a + 1]
                + 0x1_0000 * m[a + 2] + 0x100_0000 * m[a + 3]
        }),
{
    let a = s.reg(rs1);
    if offset >= 0 {
        assert(imm == offset);
    } else {
        assert(imm == offset + 0x1_0000_0000);
        assert((a + imm) % 0x1_0000_0000 == (a + offset) % 0x1_0000_0000);
    }
}

/// Stores write the low byte, half word or word of x[rs2] little-endian at
/// x[rs1] + offset (modulo 2^32) and leave every other byte alone; a byte
/// store to the terminal address writes no memory.
pub proof fn lemma_store_behaviour(
    s: CpuState,
    rs1: u32,
    rs2: u32,
    imm: u32,
    offset: int,
    x: int,
)
    requires
        s.valid(),
        rs1 < 32,
        rs2 < 32,
        holds_offset(imm, offset),
        ({
            let a = (s.reg(rs1) + offset) % 0x1_0000_0000;
            a + 4 <= s.mem.len()
        }),
        0 <= x < s.mem.len(),
    ensures
        ({
            let a = (s.reg(rs1) + offset) % 0x1_0000_0000;
            let v = s.reg(rs2);
            let sw = execute_spec(s, Instr::Sw { rs1, rs2, imm }).mem;
            let sh = execute_spec(s, Instr::Sh { rs1, rs2, imm }).mem;
            let sb = execute_spec(s, Instr::Sb { rs1, rs2, imm }).mem;
            &&& sw[a] == v % 0x100 && sw[a + 1] == (v / 0x100) % 0x100
            &&& sw[a + 2] == (v / 0x1_0000) % 0x100 && sw[a + 3] == v / 0x100_0000
            &&& (x < a || a + 4 <= x) ==> sw[x] == s.mem[x]
            &&& sh[a] == v % 0x100 && sh[a + 1] == (v / 0x100) % 0x100
            &&& (x < a || a + 2 <= x) ==> sh[x] == s.mem[x]
            &&& sb[a] == v % 0x100
            &&& x != a ==> sb[x] == s.mem[x]
            &&& sw.len() == s.mem.len() && sh.len() == s.mem.len() && sb.len() == s.mem.len()
        }),
{
    let a = s.reg(rs1);
    if offset >= 0 {
        assert(imm == offset);
    } else {
        assert(imm == offset + 0x1_0000_0000);
        assert((a + imm) % 0x1_0000_0000 == (a + offset) % 0x1_0000_0000);
    }
}

/// A byte store to the terminal address shows the low byte of x[rs2] and
/// writes no memory.
pub proof fn lemma_terminal_output(s: CpuState, rs1: u32, rs2: u32, imm: u32, offset: int)
    requires
        s.valid(),
        rs1 < 32,
        rs2 < 32,
        holds_offset(imm, offset),
        (s.reg(rs1) + offset) % 0x1_0000_0000 == 0x1000_0000,
    ensures
        effect_spec(s, Instr::Sb { rs1, rs2, imm }) == EffectView::PutChar(
            (s.reg(rs2) % 0x100) as u8,
        ),
        execute_spec(s, Instr::Sb { rs1, rs2, imm }).mem == s.mem,
        access_ok(s, Instr::Sb { rs1, rs2, imm }),
{
    let a = s.reg(rs1);
    if offset >= 0 {
        assert(imm == offset);
    } else {
        assert(imm == offset + 0x1_0000_0000);
        assert((a + imm) % 0x1_0000_0000 == (a + offset) % 0x1_0000_0000);
    }
    assert(MMIO_PUTCHAR == 0x1000_0000);
}

/// The instruction word at pc is read little-endian: the byte at pc is the
/// least significant.
pub proof fn lemma_fetch_little_endian(s: CpuState)
    requires
        s.pc + 4 <= s.mem.len(),
    ensures
        fetch_spec(s) == s.mem[s.pc as int] + 0x100 * s.mem[s.pc + 1] + 0x1_0000 * s.mem[s.pc + 2]
            + 0x100_0000 * s.mem[s.pc + 3],
{
}

/// Every access that lies inside memory is allowed: a load or store whose
/// bytes are all in memory, any byte store to the terminal address, and a
/// `write` call whose buffer is in memory.
pub proof fn lemma_in_memory_accesses_allowed(s: CpuState, rd: u32, rs1: u32, rs2: u32, imm: u32)
    requires
        s.valid(),
    ensures
        ({
            let a = (s.reg(rs1) + imm) % 0x1_0000_0000;
            let len = s.mem.len();
            &&& a < len ==> access_ok(s, Instr::Lb { rd, rs1, imm }) && access_ok(
                s,
                Instr::Lbu { rd, rs1, imm },
            ) && access_ok(s, Instr::Sb { rs1, rs2, imm })
            &&& a + 2 <= len ==> access_ok(s, Instr::Lh { rd, rs1, imm }) && access_ok(
                s,
                Instr::Lhu { rd, rs1, imm },
            ) && access_ok(s, Instr::Sh { rs1, rs2, imm })
            &&& a + 4 <= len ==> access_ok(s, Instr::Lw { rd, rs1, imm }) && access_ok(
                s,
                Instr::Sw { rs1, rs2, imm },
            )
            &&& a == 0x1000_0000 ==> access_ok(s, Instr::Sb { rs1, rs2, imm })
            &&& s.reg(11) + s.reg(12) <= len ==> access_ok(s, Instr::Ecall)
        }),
{
}

/// Instructions that touch no memory are always allowed to run.
pub proof fn lemma_non_memory_instructions_allowed(s: CpuState, ins: Instr)
    requires
        !ins.is_load(),
        !ins.is_store(),
        !(ins is Ecall),
    ensures
        access_ok(s, ins),
{
}

} // verus!
