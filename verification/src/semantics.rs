//! What one instruction does to the machine: the architectural state, the
//! effect on the outside world, and when an instruction may run at all.
use vstd::prelude::*;
use crate::decode::{Instr, decode_spec, signed, sext8, sext16};
use crate::memory::{MEM_SIZE, le8, le16, le32, store8, store16, store32, byte_of};

verus! {

/// The architectural state of the machine.
pub struct CpuState {
    /// The 32 general-purpose registers x0..x31.
    pub regs: Seq<u32>,
    /// The program counter: the address of the next instruction.
    pub pc: usize,
    /// The simulated memory, one byte per address.
    pub mem: Seq<u8>,
}

/// The address at which a byte store is shown on the host terminal.
pub const MMIO_PUTCHAR: u32 = 0x1000_0000;

/// The proxy-kernel call number (in a7) of `write`.
pub const SYS_WRITE: u32 = 64;

/// The proxy-kernel call number (in a7) of `exit`.
pub const SYS_EXIT: u32 = 93;

impl CpuState {
    /// Thirty-two registers, x0 reading zero, and a memory of `MEM_SIZE` bytes.
    pub open spec fn valid(self) -> bool {
        &&& self.regs.len() == 32
        &&& self.regs[0] == 0
        &&& self.mem.len() == MEM_SIZE
    }

    /// The value of register `r`.
    pub open spec fn reg(self, r: u32) -> u32 {
        self.regs[r as int]
    }

    /// The state after writing `v` to register `rd`; writes to x0 are dropped.
    pub open spec fn with_reg(self, rd: u32, v: u32) -> CpuState {
        if rd == 0 {
            self
        } else {
            CpuState { regs: self.regs.update(rd as int, v), ..self }
        }
    }

    pub open spec fn with_pc(self, pc: usize) -> CpuState {
        CpuState { pc, ..self }
    }

    pub open spec fn with_mem(self, mem: Seq<u8>) -> CpuState {
        CpuState { mem, ..self }
    }

    /// The address of the instruction that follows the current one.
    pub open spec fn next_pc(self) -> usize {
        (self.pc + 4) as usize
    }

    /// The state with the program counter moved to the next instruction.
    pub open spec fn advance(self) -> CpuState {
        self.with_pc(self.next_pc())
    }

    /// The return address that a jump-and-link writes: pc + 4.
    pub open spec fn link(self) -> u32 {
        (self.pc + 4) as u32
    }

    /// The address `base + offset` that a load or store reaches, modulo 2^32.
    pub open spec fn eff_addr(self, rs1: u32, imm: u32) -> int {
        wrap_add(self.reg(rs1), imm) as int
    }
}

/// Sum modulo 2^32.
pub open spec fn wrap_add(a: u32, b: u32) -> u32 {
    ((a + b) % 0x1_0000_0000) as u32
}

/// Difference modulo 2^32.
pub open spec fn wrap_sub(a: u32, b: u32) -> u32 {
    ((a - b) % 0x1_0000_0000) as u32
}

/// 1 for true, 0 for false: the result of the set-less-than instructions.
pub open spec fn flag(b: bool) -> u32 {
    if b { 1 } else { 0 }
}

/// Logical shift left by the low five bits of `s`.
pub open spec fn shift_left(a: u32, s: u32) -> u32 {
    a << (s % 32)
}

/// Logical shift right by the low five bits of `s`.
pub open spec fn shift_right(a: u32, s: u32) -> u32 {
    a >> (s % 32)
}

/// Arithmetic shift right by the low five bits of `s`: the vacated bits take
/// the sign bit of `a`.
pub open spec fn shift_right_arith(a: u32, s: u32) -> u32 {
    if a < 0x8000_0000 {
        a >> (s % 32)
    } else {
        !((!a) >> (s % 32))
    }
}

/// `pc + offset` modulo the width of an address.
pub open spec fn wrap_usize(t: int) -> usize {
    if t > usize::MAX {
        (t - usize::MAX - 1) as usize
    } else if t < 0 {
        (t + usize::MAX + 1) as usize
    } else {
        t as usize
    }
}

/// The target of a relative jump by the signed offset `imm`.
pub open spec fn jump_target(pc: usize, imm: u32) -> usize {
    wrap_usize(pc + signed(imm))
}

/// The target of an indirect jump: `base + offset` with bit 0 cleared.
pub open spec fn indirect_target(base: u32, imm: u32) -> usize {
    let t = wrap_add(base, imm);
    (t - t % 2) as usize
}

/// Whether a branch instruction takes its branch; false for every other
/// instruction.
pub open spec fn taken_spec(s: CpuState, ins: Instr) -> bool {
    match ins {
        Instr::Beq { rs1, rs2, .. } => s.reg(rs1) == s.reg(rs2),
        Instr::Bne { rs1, rs2, .. } => s.reg(rs1) != s.reg(rs2),
        Instr::Blt { rs1, rs2, .. } => signed(s.reg(rs1)) < signed(s.reg(rs2)),
        Instr::Bge { rs1, rs2, .. } => signed(s.reg(rs1)) >= signed(s.reg(rs2)),
        Instr::Bltu { rs1, rs2, .. } => s.reg(rs1) < s.reg(rs2),
        Instr::Bgeu { rs1, rs2, .. } => s.reg(rs1) >= s.reg(rs2),
        _ => false,
    }
}

/// The state after one instruction.
///
/// A store byte to `MMIO_PUTCHAR` leaves memory alone (the byte goes to the
/// terminal); an `ecall` for `write` sets a0 to the length in a2; an `ecall`
/// for `exit` only moves past the instruction (the host ends the run);
/// instructions that are not implemented only move past themselves.
pub open spec fn execute_spec(s: CpuState, ins: Instr) -> CpuState {
    match ins {
        Instr::Add { rd, rs1, rs2 } => s.with_reg(rd, wrap_add(s.reg(rs1), s.reg(rs2))).advance(),
        Instr::Sub { rd, rs1, rs2 } => s.with_reg(rd, wrap_sub(s.reg(rs1), s.reg(rs2))).advance(),
        Instr::Or { rd, rs1, rs2 } => s.with_reg(rd, s.reg(rs1) | s.reg(rs2)).advance(),
        Instr::And { rd, rs1, rs2 } => s.with_reg(rd, s.reg(rs1) & s.reg(rs2)).advance(),
        Instr::Xor { rd, rs1, rs2 } => s.with_reg(rd, s.reg(rs1) ^ s.reg(rs2)).advance(),
        Instr::Sll { rd, rs1, rs2 } => s.with_reg(rd, shift_left(s.reg(rs1), s.reg(rs2))).advance(),
        Instr::Srl { rd, rs1, rs2 } => s.with_reg(
            rd,
            shift_right(s.reg(rs1), s.reg(rs2)),
        ).advance(),
        Instr::Sra { rd, rs1, rs2 } => s.with_reg(
            rd,
            shift_right_arith(s.reg(rs1), s.reg(rs2)),
        ).advance(),
        Instr::Slt { rd, rs1, rs2 } => s.with_reg(
            rd,
            flag(signed(s.reg(rs1)) < signed(s.reg(rs2))),
        ).advance(),
        Instr::Sltu { rd, rs1, rs2 } => s.with_reg(rd, flag(s.reg(rs1) < s.reg(rs2))).advance(),
        Instr::Slti { rd, rs1, imm } => s.with_reg(
            rd,
            flag(signed(s.reg(rs1)) < signed(imm)),
        ).advance(),
        Instr::Sltiu { rd, rs1, imm } => s.with_reg(rd, flag(s.reg(rs1) < imm)).advance(),
        Instr::Addi { rd, rs1, imm } => s.with_reg(rd, wrap_add(s.reg(rs1), imm)).advance(),
        Instr::Xori { rd, rs1, imm } => s.with_reg(rd, s.reg(rs1) ^ imm).advance(),
        Instr::Ori { rd, rs1, imm } => s.with_reg(rd, s.reg(rs1) | imm).advance(),
        Instr::Andi { rd, rs1, imm } => s.with_reg(rd, s.reg(rs1) & imm).advance(),
        Instr::Slli { rd, rs1, shamt } => s.with_reg(rd, shift_left(s.reg(rs1), shamt)).advance(),
        Instr::Srli { rd, rs1, shamt } => s.with_reg(rd, shift_right(s.reg(rs1), shamt)).advance(),
        Instr::Srai { rd, rs1, shamt } => s.with_reg(
            rd,
            shift_right_arith(s.reg(rs1), shamt),
        ).advance(),
        Instr::Lb { rd, rs1, imm } => s.with_reg(
            rd,
            sext8(le8(s.mem, s.eff_addr(rs1, imm))),
        ).advance(),
        Instr::Lh { rd, rs1, imm } => s.with_reg(
            rd,
            sext16(le16(s.mem, s.eff_addr(rs1, imm))),
        ).advance(),
        Instr::Lw { rd, rs1, imm } => s.with_reg(rd, le32(s.mem, s.eff_addr(rs1, imm))).advance(),
        Instr::Lbu { rd, rs1, imm } => s.with_reg(rd, le8(s.mem, s.eff_addr(rs1, imm))).advance(),
        Instr::Lhu { rd, rs1, imm } => s.with_reg(rd, le16(s.mem, s.eff_addr(rs1, imm))).advance(),
        Instr::Jalr { rd, rs1, imm } => s.with_reg(rd, s.link()).with_pc(
            indirect_target(s.reg(rs1), imm),
        ),
        Instr::Sb { rs1, rs2, imm } => {
            let a = s.eff_addr(rs1, imm);
            if a == MMIO_PUTCHAR {
                s.advance()
            } else {
                s.with_mem(store8(s.mem, a, s.reg(rs2))).advance()
            }
        },
        Instr::Sh { rs1, rs2, imm } => s.with_mem(
            store16(s.mem, s.eff_addr(rs1, imm), s.reg(rs2)),
        ).advance(),
        Instr::Sw { rs1, rs2, imm } => s.with_mem(
            store32(s.mem, s.eff_addr(rs1, imm), s.reg(rs2)),
        ).advance(),
        Instr::Beq { imm, .. } | Instr::Bne { imm, .. } | Instr::Blt { imm, .. } | Instr::Bge {
            imm,
            ..
        } | Instr::Bltu { imm, .. } | Instr::Bgeu { imm, .. } => {
            if taken_spec(s, ins) {
                s.with_pc(jump_target(s.pc, imm))
            } else {
                s.advance()
            }
        },
        Instr::Jal { rd, imm } => s.with_reg(rd, s.link()).with_pc(jump_target(s.pc, imm)),
        Instr::Ecall => {
            if s.reg(17) == SYS_WRITE {
                s.with_reg(10, s.reg(12)).advance()
            } else {
                s.advance()
            }
        },
        Instr::Lui { rd, imm } => s.with_reg(rd, imm).advance(),
        Instr::Auipc { rd, imm } => s.with_reg(rd, wrap_add(s.pc as u32, imm)).advance(),
        _ => s.advance(),
    }
}

/// What an instruction asks of the outside world, as values.
pub enum EffectView {
    Nothing,
    /// Show one byte on the terminal.
    PutChar(u8),
    /// Show these bytes on the terminal.
    Write(Seq<u8>),
    /// End the program with this exit code.
    Exit(u32),
    /// An `ecall` with a call number the proxy kernel does not know.
    UnknownSyscall(u32),
}

/// The effect of one instruction on the outside world.
pub open spec fn effect_spec(s: CpuState, ins: Instr) -> EffectView {
    match ins {
        Instr::Sb { rs1, rs2, imm } => {
            if s.eff_addr(rs1, imm) == MMIO_PUTCHAR {
                EffectView::PutChar(byte_of(s.reg(rs2), 0))
            } else {
                EffectView::Nothing
            }
        },
        Instr::Ecall => {
            let a7 = s.reg(17);
            if a7 == SYS_WRITE {
                let fd = s.reg(10);
                if fd == 1 || fd == 2 {
                    EffectView::Write(Seq::new(s.reg(12) as nat, |k: int| s.mem[s.reg(11) + k]))
                } else {
                    EffectView::Nothing
                }
            } else if a7 == SYS_EXIT {
                EffectView::Exit(s.reg(10))
            } else {
                EffectView::UnknownSyscall(a7)
            }
        },
        _ => EffectView::Nothing,
    }
}

/// Every memory access of the instruction stays inside memory.
pub open spec fn access_ok(s: CpuState, ins: Instr) -> bool {
    let len = s.mem.len();
    match ins {
        Instr::Lb { rs1, imm, .. } | Instr::Lbu { rs1, imm, .. } => s.eff_addr(rs1, imm) < len,
        Instr::Lh { rs1, imm, .. } | Instr::Lhu { rs1, imm, .. } => s.eff_addr(rs1, imm) + 2 <= len,
        Instr::Lw { rs1, imm, .. } => s.eff_addr(rs1, imm) + 4 <= len,
        Instr::Sb { rs1, imm, .. } => s.eff_addr(rs1, imm) == MMIO_PUTCHAR || s.eff_addr(rs1, imm)
            < len,
        Instr::Sh { rs1, imm, .. } => s.eff_addr(rs1, imm) + 2 <= len,
        Instr::Sw { rs1, imm, .. } => s.eff_addr(rs1, imm) + 4 <= len,
        Instr::Ecall => (s.reg(17) == SYS_WRITE && (s.reg(10) == 1 || s.reg(10) == 2) && s.reg(12)
            != 0) ==> s.reg(11) + s.reg(12) <= len,
        _ => true,
    }
}

/// The instruction word at the program counter.
pub open spec fn fetch_spec(s: CpuState) -> u32 {
    le32(s.mem, s.pc as int)
}

/// The instruction at the program counter.
pub open spec fn current_instr(s: CpuState) -> Instr {
    decode_spec(fetch_spec(s))
}

/// The whole instruction word lies in memory and every access the
/// instruction makes does too.
pub open spec fn can_step_spec(s: CpuState) -> bool {
    &&& s.pc + 4 <= s.mem.len()
    &&& access_ok(s, current_instr(s))
}

/// The state after one step.
pub open spec fn step_spec(s: CpuState) -> CpuState {
    execute_spec(s, current_instr(s))
}

} // verus!
