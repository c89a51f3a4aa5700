use botracers::hart::Hart;
use botracers::instruction::{AFunct, FLFunct, FSFunct, IFunct, Instruction, MFunct, SFunct};
use botracers::memory::{Dram, RamLike};

/// A plain memory of `size` zero bytes.
fn test_ram(size: usize) -> Dram {
    Dram {
        dram: vec![0; size],
    }
}

#[test]
fn m_div_edge_cases() {
    let mut h = Hart::new(0);
    let mut ram = test_ram(1024);

    h.regs[1] = i32::MIN as u32;
    h.regs[2] = u32::MAX; // -1
    h.execute(
        Instruction::M {
            funct: MFunct::DIV,
            rd: 3,
            rs1: 1,
            rs2: 2,
        },
        4,
        &mut ram,
    );
    assert_eq!(h.regs[3], i32::MIN as u32);

    h.regs[2] = 0;
    h.execute(
        Instruction::M {
            funct: MFunct::DIVU,
            rd: 4,
            rs1: 1,
            rs2: 2,
        },
        4,
        &mut ram,
    );
    assert_eq!(h.regs[4], u32::MAX);
}

#[test]
fn a_lr_sc_success_and_fail() {
    let mut h = Hart::new(0);
    let mut ram = test_ram(1024);
    ram.store(100, 32, 10).unwrap();
    h.regs[1] = 100;
    h.regs[2] = 55;

    h.execute(
        Instruction::A {
            funct: AFunct::LrW,
            rd: 3,
            rs1: 1,
            rs2: 0,
            aq: false,
            rl: false,
        },
        4,
        &mut ram,
    );
    assert_eq!(h.regs[3], 10);

    h.execute(
        Instruction::A {
            funct: AFunct::ScW,
            rd: 4,
            rs1: 1,
            rs2: 2,
            aq: false,
            rl: false,
        },
        4,
        &mut ram,
    );
    assert_eq!(h.regs[4], 0);
    assert_eq!(ram.load(100, 32).unwrap(), 55);

    // Single-hart simplified invalidation: any store clears reservation.
    h.execute(
        Instruction::A {
            funct: AFunct::LrW,
            rd: 3,
            rs1: 1,
            rs2: 0,
            aq: false,
            rl: false,
        },
        4,
        &mut ram,
    );
    h.execute(
        Instruction::S {
            funct: SFunct::SW,
            rs1: 1,
            rs2: 2,
            imm: 0,
        },
        4,
        &mut ram,
    );
    h.execute(
        Instruction::A {
            funct: AFunct::ScW,
            rd: 5,
            rs1: 1,
            rs2: 2,
            aq: false,
            rl: false,
        },
        4,
        &mut ram,
    );
    assert_eq!(h.regs[5], 1);
}

#[test]
fn a_amoadd() {
    let mut h = Hart::new(0);
    let mut ram = test_ram(1024);
    h.regs[1] = 100;
    h.regs[2] = 7;
    ram.store(100, 32, 3).unwrap();

    h.execute(
        Instruction::A {
            funct: AFunct::AmoAddW,
            rd: 4,
            rs1: 1,
            rs2: 2,
            aq: true,
            rl: true,
        },
        4,
        &mut ram,
    );
    assert_eq!(h.regs[4], 3);
    assert_eq!(ram.load(100, 32).unwrap(), 10);
}

#[test]
fn compressed_jr_respects_2byte_len() {
    let mut h = Hart::new(0);
    let mut ram = test_ram(1024);
    h.pc = 100;
    h.regs[1] = 200;
    let (inst, len) = Instruction::parse_with_len(0x8082); // c.jr ra
    h.execute(inst, len, &mut ram);
    assert_eq!(h.pc, 200);
}

#[test]
fn compressed_zcf_stack_load_store() {
    let mut h = Hart::new(0);
    let mut ram = test_ram(1024);
    h.regs[2] = 128;
    h.fregs[1] = 0x3f80_0000;

    let fswsp = Instruction::parse_with_len(0xe206).0; // c.fswsp f1, 4(sp)
    h.execute(fswsp, 2, &mut ram);
    assert_eq!(ram.load(132, 32).unwrap(), 0x3f80_0000);

    h.fregs[1] = 0;
    let flwsp = Instruction::parse_with_len(0x6092).0; // c.flwsp f1, 4(sp)
    h.execute(
        Instruction::FL {
            funct: FLFunct::FLW,
            rd: 1,
            rs1: 2,
            imm: 4,
        },
        4,
        &mut ram,
    );
    h.execute(flwsp, 2, &mut ram);
    assert_eq!(h.fregs[1], 0x3f80_0000);
}

#[test]
fn fp_load_store_variants_roundtrip_memory() {
    let mut h = Hart::new(0);
    let mut ram = test_ram(1024);
    h.regs[1] = 200;
    h.fregs[2] = 0x1234_5678;

    h.execute(
        Instruction::FS {
            funct: FSFunct::FSH,
            rs1: 1,
            rs2: 2,
            imm: 0,
        },
        4,
        &mut ram,
    );
    assert_eq!(ram.load(200, 16).unwrap(), 0x5678);

    h.fregs[3] = 0;
    h.execute(
        Instruction::FL {
            funct: FLFunct::FLH,
            rd: 3,
            rs1: 1,
            imm: 0,
        },
        4,
        &mut ram,
    );
    assert_eq!(h.fregs[3], 0x5678);

    h.execute(
        Instruction::FS {
            funct: FSFunct::FSD,
            rs1: 1,
            rs2: 2,
            imm: 8,
        },
        4,
        &mut ram,
    );
    assert_eq!(ram.load(208, 32).unwrap(), 0x1234_5678);
    assert_eq!(ram.load(212, 32).unwrap(), u32::MAX);

    h.fregs[4] = 0;
    h.execute(
        Instruction::FL {
            funct: FLFunct::FLD,
            rd: 4,
            rs1: 1,
            imm: 8,
        },
        4,
        &mut ram,
    );
    assert_eq!(h.fregs[4], 0x1234_5678);
}

#[test]
fn parse_compressed_addi_executes() {
    let mut h = Hart::new(0);
    let mut ram = test_ram(1024);
    h.regs[1] = 5;
    let (inst, len) = Instruction::parse_with_len(0x0085); // c.addi x1, 1
    match inst {
        Instruction::I {
            funct: IFunct::ADDI,
            ..
        } => {}
        _ => panic!("unexpected decode"),
    }
    h.execute(inst, len, &mut ram);
    assert_eq!(h.regs[1], 6);
}

#[test]
fn parse_compressed_lw_swsp_variants() {
    let (inst, len) = Instruction::parse_with_len(0xc20c); // representative c.sw
    assert_eq!(len, 2);
    match inst {
        Instruction::S {
            funct: SFunct::SW, ..
        } => {}
        _ => panic!("unexpected decode"),
    }

    let (inst, len) = Instruction::parse_with_len(0x4102); // representative c.lwsp
    assert_eq!(len, 2);
    match inst {
        Instruction::I {
            funct: IFunct::LW, ..
        } => {}
        _ => panic!("unexpected decode"),
    }

    let (inst, len) = Instruction::parse_with_len(0xc006); // representative c.swsp
    assert_eq!(len, 2);
    match inst {
        Instruction::S {
            funct: SFunct::SW, ..
        } => {}
        _ => panic!("unexpected decode"),
    }

    let (inst, len) = Instruction::parse_with_len(0xe206); // c.fswsp
    assert_eq!(len, 2);
    match inst {
        Instruction::FS {
            funct: FSFunct::FSW,
            ..
        } => {}
        _ => panic!("unexpected decode"),
    }
}
