use harvey::hart::{CounterState, Hart};
use harvey::instruction::{
    BFormat, IFormat, Instruction, InstructionBytes, InstructionException, InstructionProcessor,
    JFormat, RFormat, SFormat, UFormat, OPCODE_AUIPC, OPCODE_BRANCH, OPCODE_JAL, OPCODE_JALR,
    OPCODE_LOAD, OPCODE_LUI, OPCODE_OP, OPCODE_OP_IMM, OPCODE_STORE,
};
use harvey::memory::Memory;

const MINUS_ONE: u64 = u64::MAX;

fn program(base: u64, words: &[u32]) -> Memory {
    let mut bytes = Vec::new();
    for word in words {
        bytes.extend_from_slice(&word.to_le_bytes());
    }
    Memory::new(base, bytes)
}

fn hart_with(values: &[(usize, u64)], pc: u64) -> Hart {
    let mut regs = [0u64; 32];
    for (index, value) in values {
        regs[*index] = *value;
    }
    Hart::new(regs, pc)
}

#[test]
fn new_hart_shows_its_registers() {
    let mut regs = [0u64; 32];
    for i in 0..32 {
        regs[i] = 100 + i as u64;
    }
    let hart = Hart::new(regs, 0x40);
    assert_eq!(hart.pc(), 0x40);
    assert_eq!(hart.trap(), None);
    assert!(hart.is_runnable());
    assert_eq!(hart.reg(0), 0);
    for i in 1..32 {
        assert_eq!(hart.reg(i), 100 + i as u64);
    }
    let seen = hart.registers();
    assert_eq!(seen[0], 0);
    assert_eq!(&seen[1..], &regs[1..]);
}

#[test]
fn two_instruction_program() {
    // addi x1, x0, 5; add x2, x2, x1
    let mut memory = program(0, &[0x0050_0093, 0x0011_0133]);
    let mut hart = Hart::new([0; 32], 0);
    assert_eq!(hart.step(&mut memory), Ok(()));
    assert_eq!(hart.reg(1), 5);
    assert_eq!(hart.pc(), 4);
    assert_eq!(hart.step(&mut memory), Ok(()));
    assert_eq!(hart.reg(2), 5);
    assert_eq!(hart.pc(), 8);
}

#[test]
fn zero_register_ignores_writes() {
    // addi x0, x0, 7; add x1, x0, x0; lui x0, 0x12345; jal x0, +4; jalr x0, 0(x1)
    let words = [0x0070_0013, 0x0000_00B3, 0x1234_5037, 0x0040_006F, 0x0000_8067];
    let mut memory = program(0, &words);
    let mut regs = [0u64; 32];
    regs[0] = 0xDEAD_BEEF;
    let mut hart = Hart::new(regs, 0);
    assert_eq!(hart.reg(0), 0);
    for _ in 0..4 {
        assert_eq!(hart.step(&mut memory), Ok(()));
        assert_eq!(hart.reg(0), 0);
        assert_eq!(hart.registers()[0], 0);
    }
    assert_eq!(hart.reg(1), 0);
    assert_eq!(hart.pc(), 16);
    assert_eq!(hart.step(&mut memory), Ok(()));
    assert_eq!(hart.reg(0), 0);
    assert_eq!(hart.pc(), 0);
}

#[test]
fn load_into_zero_register_is_dropped() {
    // lw x0, 4(x0)
    let mut memory = program(0, &[0x0040_2003, 0xFFFF_FFFF]);
    let mut hart = Hart::new([0; 32], 0);
    assert_eq!(hart.step(&mut memory), Ok(()));
    assert_eq!(hart.registers(), [0u64; 32]);
    assert_eq!(hart.pc(), 4);
}

#[test]
fn branch_not_taken_advances_by_four() {
    // beq x1, x2, -8
    let mut memory = program(0x100, &[0, 0, 0xFE20_8CE3]);
    let mut hart = hart_with(&[(1, 1), (2, 2)], 0x108);
    let before = hart.registers();
    assert_eq!(hart.step(&mut memory), Ok(()));
    assert_eq!(hart.pc(), 0x10C);
    assert_eq!(hart.registers(), before);
}

#[test]
fn branch_taken_adds_the_offset() {
    // beq x1, x2, -8
    let mut memory = program(0x100, &[0, 0, 0xFE20_8CE3]);
    let mut hart = hart_with(&[(1, 9), (2, 9)], 0x108);
    let before = hart.registers();
    assert_eq!(hart.step(&mut memory), Ok(()));
    assert_eq!(hart.pc(), 0x100);
    assert_eq!(hart.registers(), before);
    // bne x1, x2, +16
    let mut memory = program(0, &[0x0020_9863]);
    let mut hart = hart_with(&[(1, 1), (2, 2)], 0);
    assert_eq!(hart.step(&mut memory), Ok(()));
    assert_eq!(hart.pc(), 16);
}

#[test]
fn branch_signal_tells_taken_from_not_taken() {
    let mut memory = Memory::new(0, vec![]);
    let branch = BFormat { imm: 16, rs1: 1, rs2: 2, funct3: 4, opcode: OPCODE_BRANCH };
    let mut hart = hart_with(&[(1, MINUS_ONE), (2, 1)], 0x20);
    assert_eq!(hart.process_b(branch, &mut memory), Ok(CounterState::Updated));
    assert_eq!(hart.pc(), 0x30);
    let mut hart = hart_with(&[(1, 1), (2, MINUS_ONE)], 0x20);
    assert_eq!(hart.process_b(branch, &mut memory), Ok(CounterState::NotUpdated));
    assert_eq!(hart.pc(), 0x20);
    let unsigned = BFormat { funct3: 6, ..branch };
    let mut hart = hart_with(&[(1, MINUS_ONE), (2, 1)], 0x20);
    assert_eq!(hart.process_b(unsigned, &mut memory), Ok(CounterState::NotUpdated));
    let mut hart = hart_with(&[(1, 1), (2, MINUS_ONE)], 0x20);
    assert_eq!(hart.process_b(unsigned, &mut memory), Ok(CounterState::Updated));
    assert_eq!(hart.pc(), 0x30);
}

#[test]
fn branch_to_misaligned_target_faults() {
    // beq x0, x0, +2
    let mut memory = program(0, &[0x0000_0163]);
    let mut hart = Hart::new([0; 32], 0);
    assert_eq!(hart.step(&mut memory), Err(InstructionException::AlignmentFault));
    assert_eq!(hart.pc(), 0);
    assert_eq!(hart.trap(), Some(InstructionException::AlignmentFault));
}

#[test]
fn branch_with_unassigned_condition_is_illegal() {
    let mut memory = Memory::new(0, vec![]);
    let mut hart = Hart::new([0; 32], 0);
    for funct3 in [2u32, 3] {
        let branch = BFormat { imm: 8, rs1: 0, rs2: 0, funct3, opcode: OPCODE_BRANCH };
        assert_eq!(
            hart.process_b(branch, &mut memory),
            Err(InstructionException::IllegalInstruction)
        );
    }
    assert_eq!(hart.pc(), 0);
}

#[test]
fn jalr_through_zero_register_goes_to_address_zero() {
    // jalr x1, 0(x0), in a store that does not hold address 0
    let mut memory = program(0x1000, &[0x0000_00E7]);
    let mut hart = Hart::new([0; 32], 0x1000);
    assert_eq!(hart.step(&mut memory), Ok(()));
    assert_eq!(hart.pc(), 0);
    assert_eq!(hart.reg(1), 0x1004);
    assert!(hart.is_runnable());
    assert_eq!(hart.step(&mut memory), Err(InstructionException::FetchFault));
    assert_eq!(hart.pc(), 0);
    assert_eq!(hart.reg(1), 0x1004);
    assert_eq!(hart.trap(), Some(InstructionException::FetchFault));
}

#[test]
fn jalr_clears_the_lowest_bit_of_its_target() {
    // jalr x5, 5(x5): the target is read before the link is written
    let jump = IFormat { imm: 5, funct3: 0, rs1: 5, rd: 5, opcode: OPCODE_JALR };
    let mut memory = Memory::new(0, vec![]);
    let mut hart = hart_with(&[(5, 0x200)], 0x40);
    assert_eq!(hart.process_i(jump, &mut memory), Ok(CounterState::Updated));
    assert_eq!(hart.pc(), 0x204);
    assert_eq!(hart.reg(5), 0x44);
}

#[test]
fn jalr_to_misaligned_target_faults_without_writing() {
    // jalr x1, 6(x5)
    let jump = IFormat { imm: 6, funct3: 0, rs1: 5, rd: 1, opcode: OPCODE_JALR };
    let mut memory = Memory::new(0, vec![]);
    let mut hart = hart_with(&[(5, 0x200)], 0x40);
    assert_eq!(hart.process_i(jump, &mut memory), Err(InstructionException::AlignmentFault));
    assert_eq!(hart.pc(), 0x40);
    assert_eq!(hart.reg(1), 0);
    let odd = IFormat { funct3: 1, imm: 0, ..jump };
    assert_eq!(hart.process_i(odd, &mut memory), Err(InstructionException::IllegalInstruction));
}

#[test]
fn jal_links_and_jumps() {
    // jal x1, +8 at 0x10
    let mut memory = program(0, &[0, 0, 0, 0, 0x0080_00EF, 0, 0]);
    let mut hart = Hart::new([0; 32], 0x10);
    assert_eq!(hart.step(&mut memory), Ok(()));
    assert_eq!(hart.pc(), 0x18);
    assert_eq!(hart.reg(1), 0x14);
    // jal x1, -4
    let back = JFormat { imm: -4, rd: 1, opcode: OPCODE_JAL };
    let mut hart = Hart::new([0; 32], 0x10);
    assert_eq!(hart.process_j(back, &mut memory), Ok(CounterState::Updated));
    assert_eq!(hart.pc(), 0x0C);
    assert_eq!(hart.reg(1), 0x14);
}

#[test]
fn jal_to_misaligned_target_faults_without_writing() {
    // jal x1, +2
    let mut memory = program(0, &[0x0020_00EF]);
    let mut hart = Hart::new([0; 32], 0);
    assert_eq!(hart.step(&mut memory), Err(InstructionException::AlignmentFault));
    assert_eq!(hart.pc(), 0);
    assert_eq!(hart.reg(1), 0);
}

#[test]
fn program_counter_wraps_around() {
    let back = JFormat { imm: -8, rd: 1, opcode: OPCODE_JAL };
    let mut memory = Memory::new(0, vec![]);
    let mut hart = Hart::new([0; 32], 4);
    assert_eq!(hart.process_j(back, &mut memory), Ok(CounterState::Updated));
    assert_eq!(hart.pc(), MINUS_ONE - 3);
    assert_eq!(hart.reg(1), 8);
    // addi x1, x0, 5 in the last word of the address space
    let mut memory = program(MINUS_ONE - 3, &[0x0050_0093]);
    assert_eq!(hart.step(&mut memory), Ok(()));
    assert_eq!(hart.pc(), 0);
    assert_eq!(hart.reg(1), 5);
}

#[test]
fn unknown_opcode_stops_the_hart_and_keeps_the_registers() {
    let mut memory = program(0, &[0xFFFF_FFFF, 0x0050_0093]);
    let mut hart = hart_with(&[(1, 11), (2, 22), (31, 33)], 0);
    let before = hart.registers();
    assert_eq!(hart.step(&mut memory), Err(InstructionException::IllegalInstruction));
    assert_eq!(hart.registers(), before);
    assert_eq!(hart.pc(), 0);
    assert_eq!(hart.trap(), Some(InstructionException::IllegalInstruction));
    assert!(!hart.is_runnable());
}

#[test]
fn stopped_hart_reports_its_exception_again() {
    let mut memory = program(0, &[0xFFFF_FFFF, 0x0050_0093]);
    let mut hart = Hart::new([0; 32], 0);
    assert_eq!(hart.step(&mut memory), Err(InstructionException::IllegalInstruction));
    for _ in 0..3 {
        assert_eq!(hart.step(&mut memory), Err(InstructionException::IllegalInstruction));
        assert_eq!(hart.pc(), 0);
    }
    assert_eq!(
        hart.execute(InstructionBytes(0x0050_0093), &mut memory),
        Err(InstructionException::IllegalInstruction)
    );
    assert_eq!(hart.reg(1), 0);
}

#[test]
fn fetch_reads_a_little_endian_word() {
    let memory = Memory::new(0x20, vec![0x93, 0x00, 0x50, 0x00, 0x33, 0x01, 0x11, 0x00]);
    let hart = Hart::new([0; 32], 0x24);
    assert_eq!(hart.fetch(&memory), Ok(InstructionBytes(0x0011_0133)));
}

#[test]
fn fetch_outside_the_store_is_a_fetch_fault() {
    let mut memory = program(0, &[0x0050_0093]);
    let mut hart = Hart::new([0; 32], 4);
    assert_eq!(hart.fetch(&memory), Err(InstructionException::FetchFault));
    assert_eq!(hart.step(&mut memory), Err(InstructionException::FetchFault));
    assert_eq!(hart.pc(), 4);
    // three bytes are not a word
    let short = Memory::new(0, vec![0x93, 0x00, 0x50]);
    assert_eq!(Hart::new([0; 32], 0).fetch(&short), Err(InstructionException::FetchFault));
    let below = program(0x100, &[0x0050_0093]);
    assert_eq!(Hart::new([0; 32], 0xFC).fetch(&below), Err(InstructionException::FetchFault));
}

#[test]
fn fetch_at_misaligned_counter_is_an_alignment_fault() {
    let mut memory = program(0, &[0x0050_0093, 0x0050_0093]);
    let mut hart = Hart::new([0; 32], 2);
    assert_eq!(hart.fetch(&memory), Err(InstructionException::AlignmentFault));
    assert_eq!(hart.step(&mut memory), Err(InstructionException::AlignmentFault));
    assert_eq!(hart.pc(), 2);
}

#[test]
fn inert_instructions_only_advance() {
    // fence; ecall
    let mut memory = program(0, &[0x0FF0_000F, 0x0000_0073]);
    let mut hart = hart_with(&[(1, 11), (10, 93)], 0);
    let before = hart.registers();
    assert_eq!(hart.step(&mut memory), Ok(()));
    assert_eq!(hart.pc(), 4);
    assert_eq!(hart.step(&mut memory), Ok(()));
    assert_eq!(hart.pc(), 8);
    assert_eq!(hart.registers(), before);
    assert_eq!(
        hart.dispatch(Instruction::NOP(InstructionBytes(0x73)), &mut memory),
        Ok(CounterState::NotUpdated)
    );
}

#[test]
fn register_register_instruction_writes_its_result() {
    let mut memory = Memory::new(0, vec![]);
    let mut hart = hart_with(&[(1, 7), (2, 5)], 0);
    let sub = RFormat { funct3: 0, funct7: 0x20, rs1: 1, rs2: 2, rd: 3, opcode: OPCODE_OP };
    assert_eq!(hart.process_r(sub, &mut memory), Ok(CounterState::NotUpdated));
    assert_eq!(hart.reg(3), 2);
    assert_eq!(hart.pc(), 0);
    let bad = RFormat { funct7: 1, ..sub };
    assert_eq!(hart.process_r(bad, &mut memory), Err(InstructionException::IllegalInstruction));
    let wrong_opcode = RFormat { opcode: OPCODE_OP_IMM, ..sub };
    assert_eq!(
        hart.process_r(wrong_opcode, &mut memory),
        Err(InstructionException::IllegalInstruction)
    );
    assert_eq!(hart.reg(3), 2);
}

#[test]
fn register_index_out_of_range_is_illegal() {
    let mut memory = Memory::new(0, vec![0; 8]);
    let mut hart = Hart::new([0; 32], 0);
    let r = RFormat { funct3: 0, funct7: 0, rs1: 32, rs2: 0, rd: 1, opcode: OPCODE_OP };
    assert_eq!(hart.process_r(r, &mut memory), Err(InstructionException::IllegalInstruction));
    let i = IFormat { imm: 0, funct3: 0, rs1: 0, rd: 32, opcode: OPCODE_OP_IMM };
    assert_eq!(hart.process_i(i, &mut memory), Err(InstructionException::IllegalInstruction));
    let s = SFormat { imm: 0, rs1: 0, rs2: usize::MAX, funct3: 0, opcode: OPCODE_STORE };
    assert_eq!(hart.process_s(s, &mut memory), Err(InstructionException::IllegalInstruction));
    let b = BFormat { imm: 0, rs1: 40, rs2: 0, funct3: 0, opcode: OPCODE_BRANCH };
    assert_eq!(hart.process_b(b, &mut memory), Err(InstructionException::IllegalInstruction));
    let u = UFormat { imm: 0, rd: 32, opcode: OPCODE_LUI };
    assert_eq!(hart.process_u(u, &mut memory), Err(InstructionException::IllegalInstruction));
    let j = JFormat { imm: 0, rd: 32, opcode: OPCODE_JAL };
    assert_eq!(hart.process_j(j, &mut memory), Err(InstructionException::IllegalInstruction));
    assert_eq!(hart.registers(), [0u64; 32]);
    assert_eq!(hart.pc(), 0);
}

#[test]
fn immediate_arithmetic() {
    // addi x1, x0, -2; slli x3, x1, 4; srai x3, x1, 4; srli x3, x1, 4
    let mut memory = program(0, &[0xFFE0_0093, 0x0040_9193, 0x4040_D193, 0x0040_D193]);
    let mut hart = Hart::new([0; 32], 0);
    assert_eq!(hart.step(&mut memory), Ok(()));
    assert_eq!(hart.reg(1), MINUS_ONE - 1);
    assert_eq!(hart.step(&mut memory), Ok(()));
    assert_eq!(hart.reg(3), 0xFFFF_FFFF_FFFF_FFE0);
    assert_eq!(hart.step(&mut memory), Ok(()));
    assert_eq!(hart.reg(3), MINUS_ONE);
    assert_eq!(hart.step(&mut memory), Ok(()));
    assert_eq!(hart.reg(3), 0x0FFF_FFFF_FFFF_FFFF);
    assert_eq!(hart.pc(), 16);
}

#[test]
fn shift_by_more_than_thirty_one() {
    // slli x3, x1, 40
    let mut memory = program(0, &[0x0280_9193]);
    let mut hart = hart_with(&[(1, 3)], 0);
    assert_eq!(hart.step(&mut memory), Ok(()));
    assert_eq!(hart.reg(3), 3 << 40);
}

#[test]
fn shift_in_either_layout_does_the_same() {
    let mut memory = Memory::new(0, vec![]);
    let word = InstructionBytes(0x4040_D193);
    let mut through_i = hart_with(&[(1, 0x8000_0000_0000_0000)], 0);
    let mut through_s = hart_with(&[(1, 0x8000_0000_0000_0000)], 0);
    assert_eq!(
        through_i.process_i(IFormat::from(word), &mut memory),
        Ok(CounterState::NotUpdated)
    );
    assert_eq!(
        through_s.process_s(SFormat::from(word), &mut memory),
        Ok(CounterState::NotUpdated)
    );
    assert_eq!(through_i.registers(), through_s.registers());
    assert_eq!(through_i.reg(3), 0xF800_0000_0000_0000);
}

#[test]
fn upper_immediates() {
    // lui x7, 0xfffff; auipc x3, 0x1
    let mut memory = program(0x100, &[0xFFFF_F3B7, 0x0000_1197]);
    let mut hart = Hart::new([0; 32], 0x100);
    assert_eq!(hart.step(&mut memory), Ok(()));
    assert_eq!(hart.reg(7), 0xFFFF_FFFF_FFFF_F000);
    assert_eq!(hart.step(&mut memory), Ok(()));
    assert_eq!(hart.reg(3), 0x1104);
    assert_eq!(hart.pc(), 0x108);
    let other = UFormat { imm: 0x1000, rd: 3, opcode: OPCODE_OP };
    assert_eq!(
        hart.process_u(other, &mut memory),
        Err(InstructionException::IllegalInstruction)
    );
    let lui = UFormat { imm: 0x1234_5000, rd: 4, opcode: OPCODE_LUI };
    assert_eq!(hart.process_u(lui, &mut memory), Ok(CounterState::NotUpdated));
    assert_eq!(hart.reg(4), 0x1234_5000);
    let auipc = UFormat { imm: -4096, rd: 5, opcode: OPCODE_AUIPC };
    assert_eq!(hart.process_u(auipc, &mut memory), Ok(CounterState::NotUpdated));
    assert_eq!(hart.reg(5), 0xFFFF_FFFF_FFFF_F108);
}

#[test]
fn loads_extend_by_kind() {
    let mut memory = Memory::new(
        0x100,
        vec![0x80, 0xFF, 0x7F, 0x80, 0x01, 0x02, 0x03, 0x84, 0x11, 0x22, 0x33, 0x44, 0x55, 0x66, 0x77, 0x88],
    );
    let mut hart = hart_with(&[(1, 0x100)], 0);
    let cases: [(u32, i32, u64); 9] = [
        (0, 0, 0xFFFF_FFFF_FFFF_FF80),
        (4, 0, 0x80),
        (0, 2, 0x7F),
        (1, 0, 0xFFFF_FFFF_FFFF_FF80),
        (5, 0, 0xFF80),
        (2, 0, 0xFFFF_FFFF_807F_FF80),
        (6, 0, 0x807F_FF80),
        (2, 4, 0xFFFF_FFFF_8403_0201),
        (3, 8, 0x8877_6655_4433_2211),
    ];
    for (funct3, imm, expected) in cases {
        let load = IFormat { imm, funct3, rs1: 1, rd: 2, opcode: OPCODE_LOAD };
        assert_eq!(hart.process_i(load, &mut memory), Ok(CounterState::NotUpdated));
        assert_eq!(hart.reg(2), expected);
    }
    let none = IFormat { imm: 0, funct3: 7, rs1: 1, rd: 2, opcode: OPCODE_LOAD };
    assert_eq!(hart.process_i(none, &mut memory), Err(InstructionException::IllegalInstruction));
}

#[test]
fn load_with_negative_offset() {
    let mut memory = Memory::new(0x100, vec![0x2A, 0, 0, 0, 0, 0, 0, 0]);
    let mut hart = hart_with(&[(1, 0x110)], 0);
    let load = IFormat { imm: -16, funct3: 2, rs1: 1, rd: 2, opcode: OPCODE_LOAD };
    assert_eq!(hart.process_i(load, &mut memory), Ok(CounterState::NotUpdated));
    assert_eq!(hart.reg(2), 0x2A);
}

#[test]
fn load_faults() {
    // lw x4, 2(x0); lw x4, 64(x0)
    let mut memory = program(0, &[0x0020_2203, 0x0400_2203]);
    let mut hart = hart_with(&[(4, 77)], 0);
    assert_eq!(hart.step(&mut memory), Err(InstructionException::AlignmentFault));
    assert_eq!(hart.reg(4), 77);
    assert_eq!(hart.pc(), 0);
    let mut hart = hart_with(&[(4, 77)], 4);
    assert_eq!(hart.step(&mut memory), Err(InstructionException::MemoryAccessFault));
    assert_eq!(hart.reg(4), 77);
    assert_eq!(hart.pc(), 4);
    assert_eq!(hart.trap(), Some(InstructionException::MemoryAccessFault));
}

#[test]
fn stores_write_the_low_bytes() {
    let mut memory = Memory::new(0x100, vec![0xEE; 16]);
    let mut hart = hart_with(&[(1, 0x100), (2, 0x1122_3344_5566_7788)], 0);
    let sb = SFormat { imm: 1, rs1: 1, rs2: 2, funct3: 0, opcode: OPCODE_STORE };
    assert_eq!(hart.process_s(sb, &mut memory), Ok(CounterState::NotUpdated));
    let sh = SFormat { imm: 2, funct3: 1, ..sb };
    assert_eq!(hart.process_s(sh, &mut memory), Ok(CounterState::NotUpdated));
    let sw = SFormat { imm: 4, funct3: 2, ..sb };
    assert_eq!(hart.process_s(sw, &mut memory), Ok(CounterState::NotUpdated));
    let sd = SFormat { imm: 8, funct3: 3, ..sb };
    assert_eq!(hart.process_s(sd, &mut memory), Ok(CounterState::NotUpdated));
    assert_eq!(
        memory.read(0x100, 16),
        Ok(vec![
            0xEE, 0x88, 0x88, 0x77, 0x88, 0x77, 0x66, 0x55, 0x88, 0x77, 0x66, 0x55, 0x44, 0x33,
            0x22, 0x11
        ])
    );
    assert_eq!(hart.pc(), 0);
    let none = SFormat { funct3: 4, ..sb };
    assert_eq!(hart.process_s(none, &mut memory), Err(InstructionException::IllegalInstruction));
}

#[test]
fn store_faults_leave_the_store_alone() {
    // sw x1, 8(x0); sw x1, 64(x0); sb x1, 9(x0)
    let words = [0x0010_2423, 0x0410_2023, 0x0010_04A3, 0];
    let mut memory = program(0, &words);
    let before = memory.read(0, 16);
    let mut hart = hart_with(&[(1, 0xAABB_CCDD)], 4);
    assert_eq!(hart.step(&mut memory), Err(InstructionException::MemoryAccessFault));
    assert_eq!(memory.read(0, 16), before);
    let misaligned = SFormat { imm: 2, rs1: 0, rs2: 1, funct3: 2, opcode: OPCODE_STORE };
    let mut hart = hart_with(&[(1, 0xAABB_CCDD)], 0);
    assert_eq!(
        hart.process_s(misaligned, &mut memory),
        Err(InstructionException::AlignmentFault)
    );
    assert_eq!(memory.read(0, 16), before);
    assert_eq!(hart.step(&mut memory), Ok(()));
    assert_eq!(memory.load(8, 4), Ok(0xAABB_CCDD));
    assert_eq!(hart.pc(), 4);
}

#[test]
fn store_then_load_through_the_hart() {
    let mut memory = Memory::new(0, vec![0; 16]);
    let mut hart = hart_with(&[(1, 0xFFFF_FFFF_8000_0001)], 0);
    let sw = SFormat { imm: 8, rs1: 0, rs2: 1, funct3: 2, opcode: OPCODE_STORE };
    assert_eq!(hart.process_s(sw, &mut memory), Ok(CounterState::NotUpdated));
    let lw = IFormat { imm: 8, funct3: 2, rs1: 0, rd: 4, opcode: OPCODE_LOAD };
    assert_eq!(hart.process_i(lw, &mut memory), Ok(CounterState::NotUpdated));
    assert_eq!(hart.reg(4), 0xFFFF_FFFF_8000_0001);
    let lwu = IFormat { funct3: 6, ..lw };
    assert_eq!(hart.process_i(lwu, &mut memory), Ok(CounterState::NotUpdated));
    assert_eq!(hart.reg(4), 0x8000_0001);
}

#[test]
fn format_with_foreign_opcode_is_illegal() {
    let mut memory = Memory::new(0, vec![0; 8]);
    let mut hart = Hart::new([0; 32], 0);
    let i = IFormat { imm: 0, funct3: 0, rs1: 0, rd: 1, opcode: OPCODE_STORE };
    assert_eq!(hart.process_i(i, &mut memory), Err(InstructionException::IllegalInstruction));
    let s = SFormat { imm: 0, rs1: 0, rs2: 0, funct3: 0, opcode: OPCODE_LOAD };
    assert_eq!(hart.process_s(s, &mut memory), Err(InstructionException::IllegalInstruction));
    let b = BFormat { imm: 0, rs1: 0, rs2: 0, funct3: 0, opcode: OPCODE_JAL };
    assert_eq!(hart.process_b(b, &mut memory), Err(InstructionException::IllegalInstruction));
    let j = JFormat { imm: 0, rd: 1, opcode: OPCODE_BRANCH };
    assert_eq!(hart.process_j(j, &mut memory), Err(InstructionException::IllegalInstruction));
}

#[test]
fn execute_advances_unless_redirected() {
    let mut memory = Memory::new(0, vec![]);
    let mut hart = Hart::new([0; 32], 0x40);
    // addi x1, x0, 5
    assert_eq!(hart.execute(InstructionBytes(0x0050_0093), &mut memory), Ok(()));
    assert_eq!(hart.pc(), 0x44);
    // jal x1, +8
    assert_eq!(hart.execute(InstructionBytes(0x0080_00EF), &mut memory), Ok(()));
    assert_eq!(hart.pc(), 0x4C);
    assert_eq!(hart.reg(1), 0x48);
    assert_eq!(
        hart.execute(InstructionBytes(0xFFFF_FFFF), &mut memory),
        Err(InstructionException::IllegalInstruction)
    );
    assert_eq!(hart.pc(), 0x4C);
}

#[test]
fn dispatch_reports_the_counter_signal() {
    let mut memory = Memory::new(0, vec![]);
    let mut hart = Hart::new([0; 32], 0);
    let addi = Instruction::try_from(InstructionBytes(0x0050_0093)).unwrap();
    assert_eq!(hart.dispatch(addi, &mut memory), Ok(CounterState::NotUpdated));
    assert_eq!(hart.pc(), 0);
    assert_eq!(hart.reg(1), 5);
    let jal = Instruction::try_from(InstructionBytes(0x0080_00EF)).unwrap();
    assert_eq!(hart.dispatch(jal, &mut memory), Ok(CounterState::Updated));
    assert_eq!(hart.pc(), 8);
}
