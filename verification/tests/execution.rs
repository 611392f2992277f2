use lib::decode::Instr;
use lib::machine::{Effect, CPU};
use lib::memory::MEM_SIZE;

fn r_type(funct7: u32, rs2: u32, rs1: u32, funct3: u32, rd: u32) -> u32 {
    (funct7 << 25) | (rs2 << 20) | (rs1 << 15) | (funct3 << 12) | (rd << 7) | 0x33
}

fn i_type(imm: i32, rs1: u32, funct3: u32, rd: u32, opcode: u32) -> u32 {
    (((imm as u32) & 0xfff) << 20) | (rs1 << 15) | (funct3 << 12) | (rd << 7) | opcode
}

fn addi(rd: u32, rs1: u32, imm: i32) -> u32 {
    i_type(imm, rs1, 0, rd, 0x13)
}

fn lui(rd: u32, imm20: u32) -> u32 {
    (imm20 << 12) | (rd << 7) | 0x37
}

fn s_type(imm: i32, rs2: u32, rs1: u32, funct3: u32) -> u32 {
    let imm = imm as u32;
    (((imm >> 5) & 0x7f) << 25) | (rs2 << 20) | (rs1 << 15) | (funct3 << 12) | ((imm & 0x1f) << 7) | 0x23
}

fn b_type(imm: i32, rs2: u32, rs1: u32, funct3: u32) -> u32 {
    let imm = imm as u32;
    (((imm >> 12) & 1) << 31)
        | (((imm >> 5) & 0x3f) << 25)
        | (rs2 << 20)
        | (rs1 << 15)
        | (funct3 << 12)
        | (((imm >> 1) & 0xf) << 8)
        | (((imm >> 11) & 1) << 7)
        | 0x63
}

fn j_type(imm: i32, rd: u32) -> u32 {
    let imm = imm as u32;
    (((imm >> 20) & 1) << 31)
        | (((imm >> 1) & 0x3ff) << 21)
        | (((imm >> 11) & 1) << 20)
        | (((imm >> 12) & 0xff) << 12)
        | (rd << 7)
        | 0x6f
}

const ECALL: u32 = 0x0000_0073;

fn program(words: &[u32]) -> Vec<u8> {
    let mut bytes = Vec::new();
    for w in words {
        bytes.extend_from_slice(&w.to_le_bytes());
    }
    bytes
}

/// Boots the words and runs one step per word, returning the machine and the
/// effects in order.
fn run(words: &[u32]) -> (CPU, Vec<Effect>) {
    let mut cpu = CPU::boot(&program(words));
    let mut effects = Vec::new();
    for _ in 0..words.len() {
        assert!(cpu.can_step());
        let out = cpu.step();
        effects.push(out.effect);
    }
    (cpu, effects)
}

#[test]
fn new_machine_is_zeroed() {
    let cpu = CPU::new();
    assert_eq!(cpu.pc(), 0);
    assert_eq!(cpu.memory_len(), 1024 * 1024);
    assert_eq!(cpu.memory_len(), MEM_SIZE);
    for r in 0..32 {
        assert_eq!(cpu.read_register(r), 0);
    }
    assert_eq!(cpu.read_byte(0), 0);
    assert_eq!(cpu.read_byte(MEM_SIZE - 1), 0);
}

#[test]
fn write_register_keeps_x0_zero() {
    let mut cpu = CPU::new();
    cpu.write_register(0, 99);
    assert_eq!(cpu.read_register(0), 0);
    cpu.write_register(5, 99);
    assert_eq!(cpu.read_register(5), 99);
    cpu.write_register(31, 0xffff_ffff);
    assert_eq!(cpu.read_register(31), 0xffff_ffff);
}

#[test]
fn fetch_is_little_endian() {
    let mut cpu = CPU::boot(&[0x13, 0x05, 0xa0, 0x02]);
    assert_eq!(cpu.fetch(), 0x02a0_0513);
    assert_eq!(cpu.pc(), 0);
}

#[test]
fn boot_sets_stack_pointer_and_loads_program() {
    let cpu = CPU::boot(&[1, 2, 3]);
    assert_eq!(cpu.read_register(2), MEM_SIZE as u32);
    assert_eq!(cpu.read_register(1), 0);
    assert_eq!(cpu.read_byte(0), 1);
    assert_eq!(cpu.read_byte(2), 3);
    assert_eq!(cpu.read_byte(3), 0);
    assert_eq!(cpu.pc(), 0);
}

#[test]
fn boot_drops_bytes_past_memory() {
    let mut image = vec![7u8; MEM_SIZE + 10];
    image[MEM_SIZE - 1] = 9;
    let cpu = CPU::boot(&image);
    assert_eq!(cpu.memory_len(), MEM_SIZE);
    assert_eq!(cpu.read_byte(MEM_SIZE - 1), 9);
    assert_eq!(cpu.read_byte(0), 7);
}

#[test]
fn load_program_keeps_later_bytes() {
    let mut cpu = CPU::boot(&[1, 1, 1, 1]);
    cpu.load_program(&[5, 6]);
    assert_eq!(cpu.read_byte(0), 5);
    assert_eq!(cpu.read_byte(1), 6);
    assert_eq!(cpu.read_byte(2), 1);
}

#[test]
fn arithmetic_and_logic() {
    let (cpu, effects) = run(&[
        addi(1, 0, 7),                 // x1 = 7
        addi(2, 0, -3),                // x2 = -3
        r_type(0, 2, 1, 0, 3),         // add x3 = 4
        r_type(0x20, 2, 1, 0, 4),      // sub x4 = 10
        r_type(0, 2, 1, 6, 5),         // or
        r_type(0, 2, 1, 7, 6),         // and
        r_type(0, 2, 1, 4, 7),         // xor
        i_type(0x0f0, 1, 4, 8, 0x13),  // xori
        i_type(-16, 1, 6, 9, 0x13),    // ori
        i_type(3, 2, 7, 10, 0x13),     // andi
    ]);
    assert!(effects.iter().all(|e| *e == Effect::Nothing));
    assert_eq!(cpu.read_register(1), 7);
    assert_eq!(cpu.read_register(2), (-3i32) as u32);
    assert_eq!(cpu.read_register(3), 4);
    assert_eq!(cpu.read_register(4), 10);
    assert_eq!(cpu.read_register(5), 7 | (-3i32) as u32);
    assert_eq!(cpu.read_register(6), 7 & (-3i32) as u32);
    assert_eq!(cpu.read_register(7), 7 ^ (-3i32) as u32);
    assert_eq!(cpu.read_register(8), 7 ^ 0xf0);
    assert_eq!(cpu.read_register(9), 7 | (-16i32) as u32);
    assert_eq!(cpu.read_register(10), ((-3i32) as u32) & 3);
    assert_eq!(cpu.pc(), 40);
}

#[test]
fn add_and_sub_wrap() {
    let (cpu, _) = run(&[
        addi(1, 0, -1),            // x1 = 0xffffffff
        addi(2, 0, 2),             // x2 = 2
        r_type(0, 2, 1, 0, 3),     // x3 = 1
        r_type(0x20, 1, 2, 0, 4),  // x4 = 2 - 0xffffffff = 3
        r_type(0x20, 2, 0, 0, 5),  // x5 = 0 - 2
    ]);
    assert_eq!(cpu.read_register(3), 1);
    assert_eq!(cpu.read_register(4), 3);
    assert_eq!(cpu.read_register(5), 0xffff_fffe);
}

#[test]
fn add_then_sub_restores() {
    let (cpu, _) = run(&[
        addi(1, 0, 1234),
        addi(2, 0, -2000),
        r_type(0, 2, 1, 0, 3),     // x3 = x1 + x2
        r_type(0x20, 2, 3, 0, 3),  // x3 = x3 - x2
    ]);
    assert_eq!(cpu.read_register(3), 1234);
}

#[test]
fn xori_twice_restores() {
    let (cpu, _) = run(&[addi(1, 0, 0x155), i_type(-77, 1, 4, 1, 0x13), i_type(-77, 1, 4, 1, 0x13)]);
    assert_eq!(cpu.read_register(1), 0x155);
}

#[test]
fn shifts() {
    let (cpu, _) = run(&[
        addi(1, 0, -16),              // x1 = 0xfffffff0
        addi(2, 0, 2 + 32),           // shift amount 34: low five bits are 2
        r_type(0, 2, 1, 1, 3),        // sll
        r_type(0, 2, 1, 5, 4),        // srl
        r_type(0x20, 2, 1, 5, 5),     // sra
        i_type(4, 1, 1, 6, 0x13),     // slli 4
        i_type(4, 1, 5, 7, 0x13),     // srli 4
        i_type(0x400 | 4, 1, 5, 8, 0x13), // srai 4
        addi(9, 0, 0x100),
        i_type(0x400 | 4, 9, 5, 10, 0x13), // srai of a positive number
    ]);
    assert_eq!(cpu.read_register(3), 0xffff_ffc0);
    assert_eq!(cpu.read_register(4), 0x3fff_fffc);
    assert_eq!(cpu.read_register(5), 0xffff_fffc);
    assert_eq!(cpu.read_register(6), 0xffff_ff00);
    assert_eq!(cpu.read_register(7), 0x0fff_ffff);
    assert_eq!(cpu.read_register(8), 0xffff_ffff);
    assert_eq!(cpu.read_register(10), 0x10);
}

#[test]
fn writes_to_x0_are_dropped() {
    let (cpu, _) = run(&[addi(0, 0, 5), lui(0, 0x12345), r_type(0, 0, 0, 0, 0)]);
    assert_eq!(cpu.read_register(0), 0);
}

#[test]
fn lui_loads_upper_bits() {
    let (cpu, _) = run(&[lui(5, 0xabcde)]);
    assert_eq!(cpu.read_register(5), 0xabcd_e000);
}

#[test]
fn store_word_then_load_word() {
    let (cpu, _) = run(&[
        lui(1, 0x12345),
        addi(1, 1, 0x678),           // x1 = 0x12345678
        addi(2, 0, 0x200),           // base address
        s_type(8, 1, 2, 2),          // sw x1, 8(x2)
        i_type(8, 2, 2, 3, 0x03),    // lw x3, 8(x2)
        i_type(9, 2, 4, 4, 0x03),    // lbu x4, 9(x2)
        i_type(10, 2, 5, 5, 0x03),   // lhu x5, 10(x2)
    ]);
    assert_eq!(cpu.read_register(3), 0x1234_5678);
    assert_eq!(cpu.read_byte(0x208), 0x78);
    assert_eq!(cpu.read_byte(0x209), 0x56);
    assert_eq!(cpu.read_byte(0x20a), 0x34);
    assert_eq!(cpu.read_byte(0x20b), 0x12);
    assert_eq!(cpu.read_register(4), 0x56);
    assert_eq!(cpu.read_register(5), 0x1234);
}

#[test]
fn byte_and_half_loads_extend() {
    let (cpu, _) = run(&[
        addi(1, 0, -128),           // x1 = 0xffffff80
        addi(2, 0, 0x300),
        s_type(0, 1, 2, 0),         // sb
        i_type(0, 2, 0, 3, 0x03),   // lb  -> sign-extended
        i_type(0, 2, 4, 4, 0x03),   // lbu -> zero-extended
        lui(5, 0x8),
        addi(5, 5, 1),              // x5 = 0x8001
        s_type(4, 5, 2, 1),         // sh x5, 4(x2)
        i_type(4, 2, 1, 6, 0x03),   // lh
        i_type(4, 2, 5, 7, 0x03),   // lhu
    ]);
    assert_eq!(cpu.read_register(3), 0xffff_ff80);
    assert_eq!(cpu.read_register(4), 0x80);
    assert_eq!(cpu.read_register(6), 0xffff_8001);
    assert_eq!(cpu.read_register(7), 0x8001);
    assert_eq!(cpu.read_byte(0x301), 0);
}

#[test]
fn negative_offset_addressing() {
    let (cpu, _) = run(&[addi(1, 0, 0x404), addi(2, 0, 77), s_type(-4, 2, 1, 2), i_type(-4, 1, 2, 3, 0x03)]);
    assert_eq!(cpu.read_byte(0x400), 77);
    assert_eq!(cpu.read_register(3), 77);
}

#[test]
fn terminal_byte_store() {
    let (cpu, effects) = run(&[lui(6, 0x10000), addi(5, 0, 0x141), s_type(0, 5, 6, 0)]);
    assert_eq!(effects[2], Effect::PutChar(b'A'));
    assert_eq!(cpu.read_byte(0), 0x37);
    assert_eq!(cpu.pc(), 12);
}

#[test]
fn branches() {
    // x1 = 5, x2 = -1; each taken branch skips the addi that follows it.
    let words = [
        addi(1, 0, 5),
        addi(2, 0, -1),
        b_type(8, 1, 1, 0),  // beq x1, x1: taken
        addi(10, 0, 1),
        b_type(8, 2, 1, 1),  // bne: taken
        addi(11, 0, 1),
        b_type(8, 1, 2, 4),  // blt -1 < 5: taken
        addi(12, 0, 1),
        b_type(8, 1, 2, 6),  // bltu 0xffffffff < 5: not taken
        addi(13, 0, 1),
        b_type(8, 2, 1, 5),  // bge 5 >= -1: taken
        addi(14, 0, 1),
        b_type(8, 1, 2, 7),  // bgeu: taken
        addi(15, 0, 1),
    ];
    let mut cpu = CPU::boot(&program(&words));
    let mut taken = Vec::new();
    while cpu.pc() < words.len() * 4 {
        let out = cpu.step();
        if let Instr::Beq { .. } | Instr::Bne { .. } | Instr::Blt { .. } | Instr::Bge { .. } | Instr::Bltu { .. } | Instr::Bgeu { .. } = out.instr {
            taken.push(out.taken);
        }
    }
    assert_eq!(taken, vec![true, true, true, false, true, true]);
    assert_eq!(cpu.read_register(10), 0);
    assert_eq!(cpu.read_register(11), 0);
    assert_eq!(cpu.read_register(12), 0);
    assert_eq!(cpu.read_register(13), 1);
    assert_eq!(cpu.read_register(14), 0);
    assert_eq!(cpu.read_register(15), 0);
}

#[test]
fn backward_branch_loop() {
    // count x1 from 0 to 5
    let words = [addi(2, 0, 5), addi(1, 1, 1), b_type(-4, 2, 1, 1)];
    let mut cpu = CPU::boot(&program(&words));
    let mut steps = 0;
    while cpu.pc() < 12 {
        cpu.step();
        steps += 1;
    }
    assert_eq!(cpu.read_register(1), 5);
    assert_eq!(steps, 11);
}

#[test]
fn branch_before_address_zero_wraps() {
    let mut cpu = CPU::boot(&program(&[b_type(-8, 0, 0, 0)]));
    let out = cpu.step();
    assert!(out.taken);
    assert_eq!(cpu.pc(), 0usize.wrapping_sub(8));
    assert!(!cpu.can_step());
}

#[test]
fn jal_links_and_jumps() {
    let (cpu, _) = run(&[addi(0, 0, 0), j_type(12, 1)]);
    assert_eq!(cpu.read_register(1), 8);
    assert_eq!(cpu.pc(), 16);
}

#[test]
fn jalr_clears_low_bit_and_reads_rs1_after_link() {
    let mut cpu = CPU::boot(&program(&[
        addi(5, 0, 0x101),
        i_type(2, 5, 0, 1, 0x67), // jalr x1, 2(x5): target (0x101 + 2) & !1 = 0x102
    ]));
    cpu.step();
    cpu.step();
    assert_eq!(cpu.read_register(1), 8);
    assert_eq!(cpu.pc(), 0x102);

    // rd == rs1: the target comes from rs1 as it was before the link.
    let mut cpu = CPU::boot(&program(&[addi(3, 0, 0x40), addi(0, 0, 0), i_type(0x21, 3, 0, 3, 0x67)]));
    cpu.step();
    cpu.step();
    cpu.step();
    assert_eq!(cpu.read_register(3), 12);
    assert_eq!(cpu.pc(), (0x40 + 0x21) & !1);

    // jalr x1, 0(x1) with x1 = 0 at address 0 jumps to 0.
    let mut cpu = CPU::boot(&program(&[i_type(0, 1, 0, 1, 0x67)]));
    cpu.step();
    assert_eq!(cpu.read_register(1), 4);
    assert_eq!(cpu.pc(), 0);
}

#[test]
fn syscall_write() {
    let (cpu, effects) = run(&[
        addi(5, 0, 0x48),          // 'H'
        addi(6, 0, 0x400),
        s_type(0, 5, 6, 0),
        addi(5, 0, 0x69),          // 'i'
        s_type(1, 5, 6, 0),
        addi(17, 0, 64),
        addi(10, 0, 1),
        addi(11, 0, 0x400),
        addi(12, 0, 2),
        ECALL,
    ]);
    assert_eq!(effects[9], Effect::Write(b"Hi".to_vec()));
    assert_eq!(cpu.read_register(10), 2);
}

#[test]
fn syscall_write_to_other_descriptor_shows_nothing() {
    let (cpu, effects) = run(&[addi(17, 0, 64), addi(10, 0, 3), addi(11, 0, 0), addi(12, 0, 9), ECALL]);
    assert_eq!(effects[4], Effect::Nothing);
    assert_eq!(cpu.read_register(10), 9);
}

#[test]
fn syscall_exit() {
    let (cpu, effects) = run(&[addi(17, 0, 93), addi(10, 0, 7), ECALL]);
    assert_eq!(effects[2], Effect::Exit(7));
    assert_eq!(cpu.read_register(10), 7);
}

#[test]
fn syscall_unknown() {
    let (_, effects) = run(&[addi(17, 0, 1), ECALL]);
    assert_eq!(effects[1], Effect::UnknownSyscall(1));
}

#[test]
fn unknown_instructions_only_advance() {
    let (cpu, effects) = run(&[
        0x0000_007f,                // unknown opcode
        r_type(1, 2, 1, 0, 3),      // mul: unknown R-type
        i_type(0, 0, 0, 0, 0x0f),   // fence: unknown opcode
        i_type(0, 1, 3, 3, 0x03),   // unknown load
        s_type(0, 1, 2, 3),         // unknown store
        b_type(0, 1, 1, 2),         // unknown branch
        0x0010_0073,                // ebreak
    ]);
    assert!(effects.iter().all(|e| *e == Effect::Nothing));
    assert_eq!(cpu.pc(), 28);
    for r in 0..32 {
        if r != 2 {
            assert_eq!(cpu.read_register(r), 0);
        }
    }
}

#[test]
fn can_step_refuses_faulting_accesses() {
    // pc past memory
    let mut cpu = CPU::boot(&program(&[j_type(0xf_fffc, 0)]));
    cpu.step();
    assert_eq!(cpu.pc(), 0xf_fffc);
    assert!(cpu.can_step());
    let mut cpu = CPU::boot(&program(&[j_type(0xf_fffe, 0)]));
    cpu.step();
    assert_eq!(cpu.pc(), 0xf_fffe);
    assert!(!cpu.can_step());

    // load beyond the end of memory
    let cpu = CPU::boot(&program(&[i_type(-4, 2, 2, 1, 0x03)]));
    assert!(cpu.can_step());
    let cpu = CPU::boot(&program(&[i_type(-3, 2, 2, 1, 0x03)]));
    assert!(!cpu.can_step());

    // only byte stores may go to the terminal address
    let mut cpu = CPU::boot(&program(&[lui(6, 0x10000), s_type(0, 5, 6, 1)]));
    cpu.step();
    assert!(!cpu.can_step());

    // write syscall whose buffer runs past memory
    let mut cpu = CPU::boot(&program(&[addi(17, 0, 64), addi(10, 0, 2), addi(12, 0, 16), lui(11, 0x100), ECALL]));
    for _ in 0..4 {
        cpu.step();
    }
    assert!(!cpu.can_step());
}

#[test]
fn execute_reports_taken_and_effect() {
    let mut cpu = CPU::boot(&[]);
    let (taken, effect) = cpu.execute(Instr::Beq { rs1: 0, rs2: 0, imm: 0x20 });
    assert!(taken);
    assert_eq!(effect, Effect::Nothing);
    assert_eq!(cpu.pc(), 0x20);
    let (taken, _) = cpu.execute(Instr::Bne { rs1: 0, rs2: 0, imm: 0x20 });
    assert!(!taken);
    assert_eq!(cpu.pc(), 0x24);
}

#[test]
fn empty_write_needs_no_buffer() {
    let (cpu, effects) = run(&[addi(17, 0, 64), addi(10, 0, 1), lui(11, 0x7ffff), addi(12, 0, 0), ECALL]);
    assert_eq!(effects[4], Effect::Write(Vec::new()));
    assert_eq!(cpu.read_register(10), 0);
}

#[test]
fn word_store_touches_only_its_bytes() {
    let mut cpu = CPU::boot(&program(&[addi(1, 0, -1), addi(2, 0, 0x200), s_type(4, 1, 2, 2)]));
    cpu.load_program(&program(&[addi(1, 0, -1), addi(2, 0, 0x200), s_type(4, 1, 2, 2)]));
    for _ in 0..3 {
        cpu.step();
    }
    assert_eq!(cpu.read_byte(0x203), 0);
    for a in 0x204..0x208 {
        assert_eq!(cpu.read_byte(a), 0xff);
    }
    assert_eq!(cpu.read_byte(0x208), 0);
    assert_eq!(cpu.memory_len(), MEM_SIZE);
}

#[test]
fn other_registers_keep_their_values() {
    let (cpu, _) = run(&[addi(1, 0, 11), addi(2, 0, 22), addi(3, 0, 99), r_type(0, 2, 1, 0, 3)]);
    assert_eq!(cpu.read_register(1), 11);
    assert_eq!(cpu.read_register(2), 22);
    assert_eq!(cpu.read_register(3), 33);
    assert_eq!(cpu.pc(), 16);
}

#[test]
fn set_less_than() {
    let (cpu, _) = run(&[
        addi(1, 0, -1),               // x1 = -1
        addi(2, 0, 1),                // x2 = 1
        r_type(0, 2, 1, 2, 3),        // slt  x3 = (-1 < 1) = 1
        r_type(0, 2, 1, 3, 4),        // sltu x4 = (0xffffffff < 1) = 0
        r_type(0, 1, 2, 2, 5),        // slt  x5 = (1 < -1) = 0
        r_type(0, 1, 2, 3, 6),        // sltu x6 = (1 < 0xffffffff) = 1
        i_type(1, 0, 2, 7, 0x13),     // slti x7 = (0 < 1) = 1
        i_type(-5, 2, 2, 8, 0x13),    // slti x8 = (1 < -5) = 0
        i_type(-5, 2, 3, 9, 0x13),    // sltiu x9 = (1 < 0xfffffffb) = 1
        i_type(1, 1, 3, 10, 0x13),    // sltiu x10 = (0xffffffff < 1) = 0
        i_type(1, 0, 3, 11, 0x13),    // sltiu x11 = (0 < 1) = 1
    ]);
    assert_eq!(cpu.read_register(3), 1);
    assert_eq!(cpu.read_register(4), 0);
    assert_eq!(cpu.read_register(5), 0);
    assert_eq!(cpu.read_register(6), 1);
    assert_eq!(cpu.read_register(7), 1);
    assert_eq!(cpu.read_register(8), 0);
    assert_eq!(cpu.read_register(9), 1);
    assert_eq!(cpu.read_register(10), 0);
    assert_eq!(cpu.read_register(11), 1);
}

#[test]
fn auipc_adds_to_pc() {
    let (cpu, _) = run(&[
        addi(0, 0, 0),
        (0x12345 << 12) | (5 << 7) | 0x17,   // auipc x5, 0x12345 at pc 4
        (0xfffff << 12) | (6 << 7) | 0x17,   // auipc x6, -1 page at pc 8
    ]);
    assert_eq!(cpu.read_register(5), 0x1234_5004);
    assert_eq!(cpu.read_register(6), 0xffff_f008);
    assert_eq!(cpu.pc(), 12);
}
