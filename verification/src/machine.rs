//! The processor: registers, program counter and memory, and the executable
//! fetch, execute and step.
use vstd::prelude::*;
use crate::decode::{Instr, decode, signed, sext8, sext16};
use crate::memory::{MEM_SIZE, le16, le32, store8, store16, store32};
use crate::semantics::{
    CpuState,
    EffectView,
    MMIO_PUTCHAR,
    SYS_WRITE,
    SYS_EXIT,
    access_ok,
    can_step_spec,
    current_instr,
    effect_spec,
    execute_spec,
    fetch_spec,
    taken_spec,
    shift_right_arith,
    jump_target,
};

verus! {

/// What an instruction asks of the host.
#[derive(Debug, PartialEq, Eq)]
pub enum Effect {
    Nothing,
    /// Show one byte on the terminal.
    PutChar(u8),
    /// Show these bytes on the terminal.
    Write(Vec<u8>),
    /// End the program with this exit code.
    Exit(u32),
    /// An `ecall` with a call number the proxy kernel does not know.
    UnknownSyscall(u32),
}

impl View for Effect {
    type V = EffectView;

    open spec fn view(&self) -> EffectView {
        match self {
            Effect::Nothing => EffectView::Nothing,
            Effect::PutChar(b) => EffectView::PutChar(*b),
            Effect::Write(bytes) => EffectView::Write(bytes@),
            Effect::Exit(code) => EffectView::Exit(*code),
            Effect::UnknownSyscall(n) => EffectView::UnknownSyscall(*n),
        }
    }
}

/// What one step did: the instruction it ran, whether a branch was taken,
/// and what it asks of the host.
#[derive(Debug, PartialEq, Eq)]
pub struct StepOutcome {
    pub instr: Instr,
    pub taken: bool,
    pub effect: Effect,
}

/// A 32-bit RISC-V processor with its memory.
pub struct CPU {
    registers: [u32; 32],
    pc: usize,
    memory: Vec<u8>,
}

impl View for CPU {
    type V = CpuState;

    closed spec fn view(&self) -> CpuState {
        CpuState { regs: self.registers@, pc: self.pc, mem: self.memory@ }
    }
}

impl CPU {
    /// The machine is in a state that it can reach: x0 reads zero and the
    /// memory has its full size.
    pub open spec fn wf(&self) -> bool {
        self@.valid()
    }

    /// A machine with every register zero, the program counter at 0 and
    /// `MEM_SIZE` bytes of zeroed memory.
    pub fn new() -> (cpu: Self)
        ensures
            cpu.wf(),
            cpu@.pc == 0,
            forall|r: int| 0 <= r < 32 ==> cpu@.regs[r] == 0,
            forall|a: int| 0 <= a < MEM_SIZE ==> cpu@.mem[a] == 0,
    {
        let memory = vec![0u8; 1024 * 1024];
        let cpu = CPU { registers: [0; 32], pc: 0, memory };
        assert(cpu.memory@.len() == MEM_SIZE);
        assert forall|a: int| 0 <= a < MEM_SIZE implies cpu@.mem[a] == 0 by {
            assert(vstd::pervasive::cloned(0u8, cpu.memory@[a]));
        }
        cpu
    }

    /// The program counter.
    pub fn pc(&self) -> (pc: usize)
        ensures
            pc == self@.pc,
    {
        self.pc
    }

    /// The value of register `index`.
    pub fn read_register(&self, index: usize) -> (value: u32)
        requires
            index < 32,
        ensures
            value == self@.regs[index as int],
    {
        self.registers[index]
    }

    /// The size of the memory in bytes.
    pub fn memory_len(&self) -> (len: usize)
        ensures
            len == self@.mem.len(),
    {
        self.memory.len()
    }

    /// The byte at address `addr`.
    pub fn read_byte(&self, addr: usize) -> (b: u8)
        requires
            addr < self@.mem.len(),
        ensures
            b == self@.mem[addr as int],
    {
        self.memory[addr]
    }

    /// Writes `value` to register `index`; a write to x0 is dropped, so x0
    /// always reads zero.
    pub fn write_register(&mut self, index: usize, value: u32)
        requires
            index < 32,
        ensures
            final(self)@ == old(self)@.with_reg(index as u32, value),
    {
        if index != 0 {
            self.registers[index] = value;
        }
    }

    /// The little-endian word at `index`.
    fn load_word(&self, index: usize) -> (w: u32)
        requires
            self.wf(),
            index + 4 <= self@.mem.len(),
        ensures
            w == le32(self@.mem, index as int),
    {
        let byte0 = self.memory[index] as u32;
        let byte1: u32 = self.memory[index + 1] as u32;
        let byte2: u32 = self.memory[index + 2] as u32;
        let byte3: u32 = self.memory[index + 3] as u32;
        assert(byte0 | (byte1 << 8) | (byte2 << 16) | (byte3 << 24) == byte0 + 0x100 * byte1
            + 0x1_0000 * byte2 + 0x100_0000 * byte3) by (bit_vector)
            requires
                byte0 < 0x100,
                byte1 < 0x100,
                byte2 < 0x100,
                byte3 < 0x100,
        ;
        byte0 | (byte1 << 8) | (byte2 << 16) | (byte3 << 24)
    }

    /// The little-endian half word at `index`.
    fn load_half(&self, index: usize) -> (h: u32)
        requires
            self.wf(),
            index + 2 <= self@.mem.len(),
        ensures
            h == le16(self@.mem, index as int),
    {
        let byte0 = self.memory[index] as u32;
        let byte1 = self.memory[index + 1] as u32;
        assert(byte0 | (byte1 << 8) == byte0 + 0x100 * byte1) by (bit_vector)
            requires
                byte0 < 0x100,
                byte1 < 0x100,
        ;
        byte0 | (byte1 << 8)
    }

    /// Reads the 32-bit instruction word at the program counter,
    /// little-endian.
    pub fn fetch(&mut self) -> (instruction: u32)
        requires
            old(self).wf(),
            old(self)@.pc + 4 <= old(self)@.mem.len(),
        ensures
            instruction == fetch_spec(old(self)@),
            final(self)@ == old(self)@,
    {
        let index = self.pc;
        self.load_word(index)
    }

    /// Stores the low byte of `val` at `addr`.
    fn store_byte(&mut self, addr: usize, val: u32)
        requires
            old(self).wf(),
            addr < old(self)@.mem.len(),
        ensures
            final(self).wf(),
            final(self)@ == old(self)@.with_mem(store8(old(self)@.mem, addr as int, val)),
    {
        proof {
            lemma_byte_masks(val);
        }
        let b = (val & 0xff) as u8;
        self.memory[addr] = b;
    }

    /// Stores the low half word of `val` at `addr`, little-endian.
    fn store_half(&mut self, addr: usize, val: u32)
        requires
            old(self).wf(),
            addr + 2 <= old(self)@.mem.len(),
        ensures
            final(self).wf(),
            final(self)@ == old(self)@.with_mem(store16(old(self)@.mem, addr as int, val)),
    {
        proof {
            lemma_byte_masks(val);
        }
        self.memory[addr] = (val & 0xff) as u8;
        self.memory[addr + 1] = ((val >> 8) & 0xff) as u8;
    }

    /// Stores `val` at `addr`, little-endian.
    fn store_word(&mut self, addr: usize, val: u32)
        requires
            old(self).wf(),
            addr + 4 <= old(self)@.mem.len(),
        ensures
            final(self).wf(),
            final(self)@ == old(self)@.with_mem(store32(old(self)@.mem, addr as int, val)),
    {
        proof {
            lemma_byte_masks(val);
        }
        self.memory[addr] = (val & 0xff) as u8;
        self.memory[addr + 1] = ((val >> 8) & 0xff) as u8;
        self.memory[addr + 2] = ((val >> 16) & 0xff) as u8;
        self.memory[addr + 3] = ((val >> 24) & 0xff) as u8;
    }

    /// The address `x[rs1] + imm` (modulo 2^32) of a load or store.
    fn effective_address(&self, rs1: u32, imm: u32) -> (addr: usize)
        requires
            rs1 < 32,
        ensures
            addr == self@.eff_addr(rs1, imm),
    {
        self.registers[rs1 as usize].wrapping_add(imm) as usize
    }

    /// Copies `len` bytes starting at `start` out of memory.
    fn copy_out(&self, start: usize, len: usize) -> (bytes: Vec<u8>)
        requires
            self.wf(),
            len == 0 || start + len <= self@.mem.len(),
        ensures
            bytes@ == Seq::new(len as nat, |k: int| self@.mem[start + k]),
    {
        let mut bytes: Vec<u8> = Vec::new();
        let mut i: usize = 0;
        while i < len
            invariant
                self.wf(),
                len == 0 || start + len <= self@.mem.len(),
                i <= len,
                bytes@ =~= Seq::new(i as nat, |k: int| self@.mem[start + k]),
            decreases len - i,
        {
            bytes.push(self.memory[start + i]);
            i = i + 1;
        }
        assert(bytes@ =~= Seq::new(len as nat, |k: int| self@.mem[start + k]));
        bytes
    }

    /// Runs a register-register operation.
    fn exec_reg_op(&mut self, instr: Instr) -> (out: (bool, Effect))
        requires
            old(self).wf(),
            instr.well_formed(),
            instr.is_reg_op(),
            old(self)@.pc + 4 <= old(self)@.mem.len(),
            access_ok(old(self)@, instr),
        ensures
            final(self).wf(),
            final(self)@ == execute_spec(old(self)@, instr),
            out.0 == taken_spec(old(self)@, instr),
            out.1@ == effect_spec(old(self)@, instr),
    {
        let next_pc = self.pc + 4;
        match instr {
            Instr::Add { rd, rs1, rs2 } => {
                let result = self.registers[rs1 as usize].wrapping_add(self.registers[rs2 as usize]);
                self.write_register(rd as usize, result);
            },
            Instr::Sub { rd, rs1, rs2 } => {
                let result = self.registers[rs1 as usize].wrapping_sub(self.registers[rs2 as usize]);
                self.write_register(rd as usize, result);
            },
            Instr::Or { rd, rs1, rs2 } => {
                let result = self.registers[rs1 as usize] | self.registers[rs2 as usize];
                self.write_register(rd as usize, result);
            },
            Instr::And { rd, rs1, rs2 } => {
                let result = self.registers[rs1 as usize] & self.registers[rs2 as usize];
                self.write_register(rd as usize, result);
            },
            Instr::Xor { rd, rs1, rs2 } => {
                let result = self.registers[rs1 as usize] ^ self.registers[rs2 as usize];
                self.write_register(rd as usize, result);
            },
            Instr::Sll { rd, rs1, rs2 } => {
                let b = self.registers[rs2 as usize];
                let sh_amt = b & 0x1f;
                proof {
                    lemma_low_five_bits(b);
                }
                let result = self.registers[rs1 as usize] << sh_amt;
                self.write_register(rd as usize, result);
            },
            Instr::Srl { rd, rs1, rs2 } => {
                let b = self.registers[rs2 as usize];
                let sh_amt = b & 0x1f;
                proof {
                    lemma_low_five_bits(b);
                }
                let result = self.registers[rs1 as usize] >> sh_amt;
                self.write_register(rd as usize, result);
            },
            Instr::Slt { rd, rs1, rs2 } => {
                let a = self.registers[rs1 as usize];
                let b = self.registers[rs2 as usize];
                proof {
                    lemma_signed_view(a);
                    lemma_signed_view(b);
                }
                let result: u32 = if (a as i32) < (b as i32) { 1 } else { 0 };
                self.write_register(rd as usize, result);
            },
            Instr::Sltu { rd, rs1, rs2 } => {
                let result: u32 = if self.registers[rs1 as usize] < self.registers[rs2 as usize] {
                    1
                } else {
                    0
                };
                self.write_register(rd as usize, result);
            },
            Instr::Sra { rd, rs1, rs2 } => {
                let b = self.registers[rs2 as usize];
                let sh_amt = b & 0x1f;
                proof {
                    lemma_low_five_bits(b);
                }
                let result = sra(self.registers[rs1 as usize], sh_amt);
                self.write_register(rd as usize, result);
            },
            _ => {},
        }
        self.pc = next_pc;
        (false, Effect::Nothing)
    }

    /// Runs a register-immediate operation, `lui` or `auipc`.
    fn exec_imm_op(&mut self, instr: Instr) -> (out: (bool, Effect))
        requires
            old(self).wf(),
            instr.well_formed(),
            instr.is_imm_op() || instr is Lui || instr is Auipc,
            old(self)@.pc + 4 <= old(self)@.mem.len(),
            access_ok(old(self)@, instr),
        ensures
            final(self).wf(),
            final(self)@ == execute_spec(old(self)@, instr),
            out.0 == taken_spec(old(self)@, instr),
            out.1@ == effect_spec(old(self)@, instr),
    {
        let next_pc = self.pc + 4;
        match instr {
            Instr::Addi { rd, rs1, imm } => {
                let result = self.registers[rs1 as usize].wrapping_add(imm);
                self.write_register(rd as usize, result);
            },
            Instr::Xori { rd, rs1, imm } => {
                let result = self.registers[rs1 as usize] ^ imm;
                self.write_register(rd as usize, result);
            },
            Instr::Ori { rd, rs1, imm } => {
                let result = self.registers[rs1 as usize] | imm;
                self.write_register(rd as usize, result);
            },
            Instr::Andi { rd, rs1, imm } => {
                let result = self.registers[rs1 as usize] & imm;
                self.write_register(rd as usize, result);
            },
            Instr::Slli { rd, rs1, shamt } => {
                let result = self.registers[rs1 as usize] << shamt;
                self.write_register(rd as usize, result);
            },
            Instr::Srli { rd, rs1, shamt } => {
                let result = self.registers[rs1 as usize] >> shamt;
                self.write_register(rd as usize, result);
            },
            Instr::Srai { rd, rs1, shamt } => {
                let result = sra(self.registers[rs1 as usize], shamt);
                self.write_register(rd as usize, result);
            },
            Instr::Slti { rd, rs1, imm } => {
                let a = self.registers[rs1 as usize];
                proof {
                    lemma_signed_view(a);
                    lemma_signed_view(imm);
                }
                let result: u32 = if (a as i32) < (imm as i32) { 1 } else { 0 };
                self.write_register(rd as usize, result);
            },
            Instr::Sltiu { rd, rs1, imm } => {
                let result: u32 = if self.registers[rs1 as usize] < imm { 1 } else { 0 };
                self.write_register(rd as usize, result);
            },
            Instr::Lui { rd, imm } => {
                self.write_register(rd as usize, imm);
            },
            Instr::Auipc { rd, imm } => {
                let result = (self.pc as u32).wrapping_add(imm);
                self.write_register(rd as usize, result);
            },
            _ => {},
        }
        self.pc = next_pc;
        (false, Effect::Nothing)
    }

    /// Runs a load.
    fn exec_load(&mut self, instr: Instr) -> (out: (bool, Effect))
        requires
            old(self).wf(),
            instr.well_formed(),
            instr.is_load(),
            old(self)@.pc + 4 <= old(self)@.mem.len(),
            access_ok(old(self)@, instr),
        ensures
            final(self).wf(),
            final(self)@ == execute_spec(old(self)@, instr),
            out.0 == taken_spec(old(self)@, instr),
            out.1@ == effect_spec(old(self)@, instr),
    {
        let next_pc = self.pc + 4;
        match instr {
            Instr::Lb { rd, rs1, imm } => {
                let addr = self.effective_address(rs1, imm);
                let val = self.memory[addr] as u32;
                let result = ((val << 24) as i32 >> 24) as u32;
                assert(((val << 24) as i32 >> 24) as u32 == sext8(val)) by (bit_vector)
                    requires
                        val < 0x100,
                ;
                self.write_register(rd as usize, result);
            },
            Instr::Lh { rd, rs1, imm } => {
                let addr = self.effective_address(rs1, imm);
                let val = self.load_half(addr);
                let result = ((val << 16) as i32 >> 16) as u32;
                assert(((val << 16) as i32 >> 16) as u32 == sext16(val)) by (bit_vector)
                    requires
                        val < 0x1_0000,
                ;
                self.write_register(rd as usize, result);
            },
            Instr::Lw { rd, rs1, imm } => {
                let addr = self.effective_address(rs1, imm);
                let result = self.load_word(addr);
                self.write_register(rd as usize, result);
            },
            Instr::Lbu { rd, rs1, imm } => {
                let addr = self.effective_address(rs1, imm);
                let result = self.memory[addr] as u32;
                self.write_register(rd as usize, result);
            },
            Instr::Lhu { rd, rs1, imm } => {
                let addr = self.effective_address(rs1, imm);
                let result = self.load_half(addr);
                self.write_register(rd as usize, result);
            },
            _ => {},
        }
        self.pc = next_pc;
        (false, Effect::Nothing)
    }

    /// Runs a store; a byte store to `MMIO_PUTCHAR` becomes terminal output.
    fn exec_store(&mut self, instr: Instr) -> (out: (bool, Effect))
        requires
            old(self).wf(),
            instr.well_formed(),
            instr.is_store(),
            old(self)@.pc + 4 <= old(self)@.mem.len(),
            access_ok(old(self)@, instr),
        ensures
            final(self).wf(),
            final(self)@ == execute_spec(old(self)@, instr),
            out.0 == taken_spec(old(self)@, instr),
            out.1@ == effect_spec(old(self)@, instr),
    {
        let next_pc = self.pc + 4;
        let mut effect = Effect::Nothing;
        match instr {
            Instr::Sb { rs1, rs2, imm } => {
                let addr = self.effective_address(rs1, imm);
                let val = self.registers[rs2 as usize];
                if addr == MMIO_PUTCHAR as usize {
                    proof {
                        lemma_byte_masks(val);
                    }
                    effect = Effect::PutChar((val & 0xff) as u8);
                } else {
                    self.store_byte(addr, val);
                }
            },
            Instr::Sh { rs1, rs2, imm } => {
                let addr = self.effective_address(rs1, imm);
                let val = self.registers[rs2 as usize];
                self.store_half(addr, val);
            },
            Instr::Sw { rs1, rs2, imm } => {
                let addr = self.effective_address(rs1, imm);
                let val = self.registers[rs2 as usize];
                self.store_word(addr, val);
            },
            _ => {},
        }
        self.pc = next_pc;
        (false, effect)
    }

    /// Runs a conditional branch.
    fn exec_branch(&mut self, instr: Instr) -> (out: (bool, Effect))
        requires
            old(self).wf(),
            instr.well_formed(),
            instr.is_branch(),
            old(self)@.pc + 4 <= old(self)@.mem.len(),
            access_ok(old(self)@, instr),
        ensures
            final(self).wf(),
            final(self)@ == execute_spec(old(self)@, instr),
            out.0 == taken_spec(old(self)@, instr),
            out.1@ == effect_spec(old(self)@, instr),
    {
        let mut next_pc = self.pc + 4;
        let mut branch_taken = false;
        match instr {
            Instr::Beq { rs1, rs2, imm } => {
                branch_taken = self.registers[rs1 as usize] == self.registers[rs2 as usize];
                if branch_taken {
                    next_pc = branch_target(self.pc, imm);
                }
            },
            Instr::Bne { rs1, rs2, imm } => {
                branch_taken = self.registers[rs1 as usize] != self.registers[rs2 as usize];
                if branch_taken {
                    next_pc = branch_target(self.pc, imm);
                }
            },
            Instr::Blt { rs1, rs2, imm } => {
                let a = self.registers[rs1 as usize];
                let b = self.registers[rs2 as usize];
                proof {
                    lemma_signed_view(a);
                    lemma_signed_view(b);
                }
                branch_taken = (a as i32) < (b as i32);
                if branch_taken {
                    next_pc = branch_target(self.pc, imm);
                }
            },
            Instr::Bge { rs1, rs2, imm } => {
                let a = self.registers[rs1 as usize];
                let b = self.registers[rs2 as usize];
                proof {
                    lemma_signed_view(a);
                    lemma_signed_view(b);
                }
                branch_taken = (a as i32) >= (b as i32);
                if branch_taken {
                    next_pc = branch_target(self.pc, imm);
                }
            },
            Instr::Bltu { rs1, rs2, imm } => {
                branch_taken = self.registers[rs1 as usize] < self.registers[rs2 as usize];
                if branch_taken {
                    next_pc = branch_target(self.pc, imm);
                }
            },
            Instr::Bgeu { rs1, rs2, imm } => {
                branch_taken = self.registers[rs1 as usize] >= self.registers[rs2 as usize];
                if branch_taken {
                    next_pc = branch_target(self.pc, imm);
                }
            },
            _ => {},
        }
        self.pc = next_pc;
        (branch_taken, Effect::Nothing)
    }

    /// Runs `jal` or `jalr`.
    fn exec_jump(&mut self, instr: Instr) -> (out: (bool, Effect))
        requires
            old(self).wf(),
            instr.well_formed(),
            instr is Jal || instr is Jalr,
            old(self)@.pc + 4 <= old(self)@.mem.len(),
            access_ok(old(self)@, instr),
        ensures
            final(self).wf(),
            final(self)@ == execute_spec(old(self)@, instr),
            out.0 == taken_spec(old(self)@, instr),
            out.1@ == effect_spec(old(self)@, instr),
    {
        let mut next_pc = self.pc + 4;
        match instr {
            Instr::Jalr { rd, rs1, imm } => {
                // The target comes from rs1 as it was before the link is written.
                let t = self.registers[rs1 as usize].wrapping_add(imm);
                assert(t & !1u32 == t - t % 2) by (bit_vector);
                next_pc = (t & !1u32) as usize;
                let link = self.pc as u32 + 4;
                self.write_register(rd as usize, link);
            },
            Instr::Jal { rd, imm } => {
                let link = self.pc as u32 + 4;
                self.write_register(rd as usize, link);
                next_pc = branch_target(self.pc, imm);
            },
            _ => {},
        }
        self.pc = next_pc;
        (false, Effect::Nothing)
    }

    /// Runs an `ecall` to the proxy kernel.
    fn exec_ecall(&mut self, instr: Instr) -> (out: (bool, Effect))
        requires
            old(self).wf(),
            instr.well_formed(),
            instr is Ecall,
            old(self)@.pc + 4 <= old(self)@.mem.len(),
            access_ok(old(self)@, instr),
        ensures
            final(self).wf(),
            final(self)@ == execute_spec(old(self)@, instr),
            out.0 == taken_spec(old(self)@, instr),
            out.1@ == effect_spec(old(self)@, instr),
    {
        let next_pc = self.pc + 4;
        let mut effect = Effect::Nothing;
        match instr {
            Instr::Ecall => {
                let syscall_id = self.registers[17];
                if syscall_id == SYS_WRITE {
                    let fd = self.registers[10];
                    let buffer_addr = self.registers[11] as usize;
                    let len = self.registers[12] as usize;
                    if fd == 1 || fd == 2 {
                        effect = Effect::Write(self.copy_out(buffer_addr, len));
                    }
                    self.registers[10] = len as u32;
                } else if syscall_id == SYS_EXIT {
                    effect = Effect::Exit(self.registers[10]);
                } else {
                    effect = Effect::UnknownSyscall(syscall_id);
                }
            },
            _ => {},
        }
        self.pc = next_pc;
        (false, effect)
    }

    /// Runs one decoded instruction: updates registers, memory and the
    /// program counter, and reports whether a branch was taken and what the
    /// instruction asks of the host.
    pub fn execute(&mut self, instr: Instr) -> (out: (bool, Effect))
        requires
            old(self).wf(),
            instr.well_formed(),
            old(self)@.pc + 4 <= old(self)@.mem.len(),
            access_ok(old(self)@, instr),
        ensures
            final(self).wf(),
            final(self)@ == execute_spec(old(self)@, instr),
            out.0 == taken_spec(old(self)@, instr),
            out.1@ == effect_spec(old(self)@, instr),
    {
        match instr {
            Instr::Add { .. } | Instr::Sub { .. } | Instr::Or { .. } | Instr::And { .. }
            | Instr::Xor { .. } | Instr::Sll { .. } | Instr::Srl { .. } | Instr::Sra { .. }
            | Instr::Slt { .. } | Instr::Sltu { .. } => {
                self.exec_reg_op(instr)
            },
            Instr::Addi { .. } | Instr::Xori { .. } | Instr::Ori { .. } | Instr::Andi { .. }
            | Instr::Slli { .. } | Instr::Srli { .. } | Instr::Srai { .. } | Instr::Slti { .. }
            | Instr::Sltiu { .. } | Instr::Lui { .. } | Instr::Auipc { .. } => {
                self.exec_imm_op(instr)
            },
            Instr::Lb { .. } | Instr::Lh { .. } | Instr::Lw { .. } | Instr::Lbu { .. }
            | Instr::Lhu { .. } => self.exec_load(instr),
            Instr::Sb { .. } | Instr::Sh { .. } | Instr::Sw { .. } => self.exec_store(instr),
            Instr::Beq { .. } | Instr::Bne { .. } | Instr::Blt { .. } | Instr::Bge { .. }
            | Instr::Bltu { .. } | Instr::Bgeu { .. } => self.exec_branch(instr),
            Instr::Jal { .. } | Instr::Jalr { .. } => self.exec_jump(instr),
            Instr::Ecall => self.exec_ecall(instr),
            _ => {
                self.pc = self.pc + 4;
                (false, Effect::Nothing)
            },
        }
    }

    /// Whether every memory access of `instr` stays inside memory.
    pub fn access_ok(&self, instr: Instr) -> (ok: bool)
        requires
            self.wf(),
            instr.well_formed(),
        ensures
            ok == access_ok(self@, instr),
    {
        let len = self.memory.len();
        match instr {
            Instr::Lb { rs1, imm, .. } | Instr::Lbu { rs1, imm, .. } => {
                self.effective_address(rs1, imm) < len
            },
            Instr::Lh { rs1, imm, .. } | Instr::Lhu { rs1, imm, .. } | Instr::Sh { rs1, imm, .. } => {
                self.effective_address(rs1, imm) <= len - 2
            },
            Instr::Lw { rs1, imm, .. } | Instr::Sw { rs1, imm, .. } => {
                self.effective_address(rs1, imm) <= len - 4
            },
            Instr::Sb { rs1, imm, .. } => {
                let addr = self.effective_address(rs1, imm);
                addr == MMIO_PUTCHAR as usize || addr < len
            },
            Instr::Ecall => {
                let fd = self.registers[10];
                if self.registers[17] == SYS_WRITE && (fd == 1 || fd == 2) && self.registers[12] != 0 {
                    let start = self.registers[11] as usize;
                    let count = self.registers[12] as usize;
                    count <= len && start <= len - count
                } else {
                    true
                }
            },
            _ => true,
        }
    }

    /// Whether `step` can run here: the instruction word at the program
    /// counter lies in memory, and so does every access that instruction
    /// makes.
    pub fn can_step(&self) -> (ok: bool)
        requires
            self.wf(),
        ensures
            ok == can_step_spec(self@),
    {
        if self.pc > self.memory.len() - 4 {
            return false;
        }
        let instr = decode(self.load_word(self.pc));
        self.access_ok(instr)
    }

    /// Fetches, decodes and executes the instruction at the program counter.
    pub fn step(&mut self) -> (out: StepOutcome)
        requires
            old(self).wf(),
            can_step_spec(old(self)@),
        ensures
            final(self).wf(),
            out.instr == current_instr(old(self)@),
            final(self)@ == execute_spec(old(self)@, out.instr),
            out.taken == taken_spec(old(self)@, out.instr),
            out.effect@ == effect_spec(old(self)@, out.instr),
    {
        let instruction = self.fetch();
        let instr = decode(instruction);
        let (taken, effect) = self.execute(instr);
        StepOutcome { instr, taken, effect }
    }

    /// Copies `program` into memory from address 0; bytes beyond the end of
    /// memory are left out.
    pub fn load_program(&mut self, program: &[u8])
        requires
            old(self).wf(),
        ensures
            final(self).wf(),
            final(self)@.regs == old(self)@.regs,
            final(self)@.pc == old(self)@.pc,
            forall|a: int|
                0 <= a < MEM_SIZE ==> #[trigger] final(self)@.mem[a] == if a < program@.len() {
                    program@[a]
                } else {
                    old(self)@.mem[a]
                },
    {
        let mut i: usize = 0;
        while i < program.len()
            invariant
                self.wf(),
                i <= program@.len(),
                self@.regs == old(self)@.regs,
                self@.pc == old(self)@.pc,
                forall|a: int|
                    0 <= a < MEM_SIZE ==> #[trigger] self@.mem[a] == if a < i && a
                        < program@.len() {
                        program@[a]
                    } else {
                        old(self)@.mem[a]
                    },
            decreases program@.len() - i,
        {
            if i < self.memory.len() {
                self.memory[i] = program[i];
            }
            i = i + 1;
        }
    }

    /// A machine ready to run `program`: zeroed registers, except the stack
    /// pointer x2 at the top of memory; the program copied to address 0 (as
    /// much of it as fits); the rest of memory zero; the program counter at 0.
    pub fn boot(program: &[u8]) -> (cpu: CPU)
        ensures
            cpu.wf(),
            cpu@.pc == 0,
            cpu@.regs[2] == MEM_SIZE,
            forall|r: int| 0 <= r < 32 && r != 2 ==> cpu@.regs[r] == 0,
            forall|a: int|
                0 <= a < MEM_SIZE ==> #[trigger] cpu@.mem[a] == if a < program@.len() {
                    program@[a]
                } else {
                    0
                },
    {
        let mut cpu = CPU::new();
        let top = cpu.memory_len() as u32;
        cpu.write_register(2, top);
        cpu.load_program(program);
        cpu
    }
}

/// Masking with 0x1f keeps the low five bits.
proof fn lemma_low_five_bits(b: u32)
    ensures
        b & 0x1f == b % 32,
{
    assert(b & 0x1f == b % 32) by (bit_vector);
}

/// Reinterpreting a word as `i32` gives its two's complement value.
proof fn lemma_signed_view(a: u32)
    ensures
        (a as i32) as int == signed(a),
{
    assert((a as i32) as int == signed(a)) by (bit_vector);
}

/// Shifting and masking picks out the bytes of a word.
proof fn lemma_byte_masks(val: u32)
    ensures
        (val & 0xff) as u8 == (val % 0x100) as u8,
        ((val >> 8) & 0xff) as u8 == ((val / 0x100) % 0x100) as u8,
        ((val >> 16) & 0xff) as u8 == ((val / 0x1_0000) % 0x100) as u8,
        ((val >> 24) & 0xff) as u8 == (val / 0x100_0000) as u8,
{
    assert((val & 0xff) as u8 == (val % 0x100) as u8) by (bit_vector);
    assert(((val >> 8) & 0xff) as u8 == ((val / 0x100) % 0x100) as u8) by (bit_vector);
    assert(((val >> 16) & 0xff) as u8 == ((val / 0x1_0000) % 0x100) as u8) by (bit_vector);
    assert(((val >> 24) & 0xff) as u8 == (val / 0x100_0000) as u8) by (bit_vector);
}

/// Arithmetic shift right of a word by `sh` (below 32).
fn sra(a: u32, sh: u32) -> (r: u32)
    requires
        sh < 32,
    ensures
        r == shift_right_arith(a, sh),
{
    assert(sh % 32 == sh);
    assert((a as i32 >> sh) as u32 == (if a < 0x8000_0000 {
        a >> sh
    } else {
        !((!a) >> sh)
    })) by (bit_vector)
        requires
            sh < 32,
    ;
    (a as i32 >> sh) as u32
}

/// `pc` moved by the signed offset `imm`, modulo the width of an address.
fn branch_target(pc: usize, imm: u32) -> (r: usize)
    ensures
        r == jump_target(pc, imm),
{
    let off = imm as i32;
    assert(off as int == signed(imm)) by (bit_vector)
        requires
            off == imm as i32,
    ;
    pc.wrapping_add_signed(off as isize)
}

} // verus!
