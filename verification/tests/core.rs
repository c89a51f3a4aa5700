use botracers::instruction::{Instruction, IFunct, RFunct, SFunct, BFunct};
use botracers::rv32i::{CoreFault, Cpu, Dram, DRAM_BASE, DRAM_SIZE};

/// A memory large enough to reach guest addresses below `limit`.
fn core_dram(limit: u32) -> Dram {
    Dram {
        dram: vec![0; (DRAM_BASE + limit) as usize],
    }
}

fn put_word(dram: &mut Dram, addr: u32, word: u32) {
    dram.store(addr, 32, word).unwrap();
}

#[test]
fn new_cpu_sets_stack_and_entry() {
    let cpu = Cpu::new(core_dram(0x100), 0x40);
    assert_eq!(cpu.pc, 0x40);
    assert_eq!(cpu.regs[2], DRAM_SIZE - 8);
    assert_eq!(cpu.regs[0], 0);
}

#[test]
fn dram_is_offset_and_little_endian() {
    let mut dram = core_dram(0x100);
    dram.store(0x10, 32, 0x1122_3344).unwrap();
    assert_eq!(dram.dram[(DRAM_BASE + 0x10) as usize], 0x44);
    assert_eq!(dram.load(0x10, 8), Ok(0x44));
    assert_eq!(dram.load(0x10, 16), Ok(0x3344));
    assert_eq!(dram.load(0x10, 32), Ok(0x1122_3344));
    assert_eq!(dram.load(0x10, 24), Err(()));
    assert_eq!(dram.store(0x10, 64, 1), Err(()));
}

#[test]
fn execute_follows_the_advanced_pc() {
    let mut cpu = Cpu::new(core_dram(0x100), 0x20);
    cpu.pc += 4;
    cpu.execute(Instruction::I { funct: IFunct::ADDI, rd: 1, rs1: 0, imm: 7 });
    assert_eq!(cpu.regs[1], 7);
    cpu.pc += 4;
    cpu.execute(Instruction::B { funct: BFunct::BEQ, rs1: 1, rs2: 1, imm: -8 });
    // The branch sits at 0x24: its target is 0x24 - 8.
    assert_eq!(cpu.pc, 0x1c);
    cpu.pc += 4;
    cpu.execute(Instruction::S { funct: SFunct::SW, rs1: 0, rs2: 1, imm: 0x40 });
    assert_eq!(cpu.dram.load(0x40, 32), Ok(7));
    cpu.pc += 4;
    cpu.execute(Instruction::I { funct: IFunct::LB, rd: 2, rs1: 0, imm: 0x40 });
    assert_eq!(cpu.regs[2], 7);
}

#[test]
fn cycle_prints_console_word_and_clears_it() {
    let mut dram = core_dram(0x200);
    // addi x1, x0, 72 ; sw x1, 4(x0)
    put_word(&mut dram, 0x100, 0x0480_0093);
    put_word(&mut dram, 0x104, 0x0010_2223);
    let mut cpu = Cpu::new(dram, 0x100);
    assert_eq!(cpu.cycle(), Ok(0));
    assert_eq!(cpu.regs[1], 72);
    assert_eq!(cpu.cycle(), Ok(72));
    assert_eq!(cpu.dram.load(4, 32), Ok(0));
    assert_eq!(cpu.pc, 0x108);
}

#[test]
fn run_collects_output_and_stops_at_fault() {
    let mut dram = core_dram(0x200);
    put_word(&mut dram, 0x100, 0x0480_0093); // addi x1, x0, 'H'
    put_word(&mut dram, 0x104, 0x0010_2223); // sw x1, 4(x0)
    put_word(&mut dram, 0x108, 0x0690_0093); // addi x1, x0, 'i'
    put_word(&mut dram, 0x10c, 0x0010_2223); // sw x1, 4(x0)
    // 0x110 holds 0: not an instruction.
    let mut cpu = Cpu::new(dram, 0x100);
    let (out, fault) = cpu.run(10);
    assert_eq!(out, vec![72, 105]);
    assert_eq!(fault, Some(CoreFault::IllegalInstruction(0)));
    assert_eq!(cpu.pc, 0x110);
}

#[test]
fn cycle_faults() {
    let mut cpu = Cpu::new(core_dram(0x100), 0x200);
    assert_eq!(cpu.cycle(), Err(CoreFault::FetchOutOfBounds));

    let mut dram = core_dram(0x100);
    put_word(&mut dram, 0x10, 0x0220_81b3); // mul x3, x1, x2
    let mut cpu = Cpu::new(dram, 0x10);
    assert_eq!(cpu.cycle(), Err(CoreFault::UnsupportedInstruction(0x0220_81b3)));
    assert_eq!(cpu.pc, 0x10);

    let mut dram = core_dram(0x100);
    put_word(&mut dram, 0x10, 0x1000_2083); // lw x1, 0x100(x0)
    let mut cpu = Cpu::new(dram, 0x10);
    assert_eq!(cpu.cycle(), Err(CoreFault::AccessOutOfBounds));

    let mut dram = core_dram(0x100);
    put_word(&mut dram, 0x10, 0x0010_0093); // addi x1, x0, 1
    put_word(&mut dram, 0x4, 0xd800);
    let mut cpu = Cpu::new(dram, 0x10);
    assert_eq!(cpu.cycle(), Err(CoreFault::InvalidChar(0xd800)));
}

#[test]
fn debugger_step_reads_the_command() {
    let mut dram = core_dram(0x200);
    dram.store(4, 32, 9).unwrap();
    put_word(&mut dram, 0x100, 0x0030_0093); // addi x1, x0, 3
    put_word(&mut dram, 0x104, 0x0010_2223); // sw x1, 4(x0)
    let mut cpu = Cpu::new(dram, 0x100);
    assert_eq!(cpu.step_command(), Ok(0));
    assert_eq!(cpu.step_command(), Ok(3));
    assert_eq!(cpu.dram.load(4, 32), Ok(3));
    assert_eq!(cpu.step_command(), Err(CoreFault::IllegalInstruction(0)));
    assert_eq!(cpu.dram.load(4, 32), Ok(0));
}

#[test]
fn sra_copies_the_sign_bit() {
    let mut cpu = Cpu::new(core_dram(0x100), 0);
    cpu.regs[1] = 0x8000_0000;
    cpu.regs[2] = 4;
    cpu.execute(Instruction::R { funct: RFunct::SRA, rd: 3, rs1: 1, rs2: 2 });
    assert_eq!(cpu.regs[3], 0xf800_0000);
    cpu.execute(Instruction::R { funct: RFunct::SRL, rd: 4, rs1: 1, rs2: 2 });
    assert_eq!(cpu.regs[4], 0x0800_0000);
    // Only the low five bits of the shift amount count.
    cpu.regs[2] = 36;
    cpu.execute(Instruction::R { funct: RFunct::SRA, rd: 5, rs1: 1, rs2: 2 });
    assert_eq!(cpu.regs[5], 0xf800_0000);
}
