use botracers::instruction::{
    AFunct, FLFunct, FSFunct, FenceFunct, IFunct, Instruction, MFunct, UFunct,
};

#[test]
fn parses_mul_as_rv32m() {
    let inst = 0x02b50533; // mul a0, a0, a1
    let (decoded, len) = Instruction::parse_with_len(inst);
    assert_eq!(len, 4);
    match decoded {
        Instruction::M {
            funct: MFunct::MUL,
            rd,
            rs1,
            rs2,
        } => {
            assert_eq!(rd, 10);
            assert_eq!(rs1, 10);
            assert_eq!(rs2, 11);
        }
        _ => panic!("wrong decode"),
    }
}

#[test]
fn parses_amoadd_w() {
    let inst = 0x06b5202f; // amoadd.w.aqrl zero, a1, (a0)
    let (decoded, len) = Instruction::parse_with_len(inst);
    assert_eq!(len, 4);
    match decoded {
        Instruction::A {
            funct: AFunct::AmoAddW,
            rd,
            rs1,
            rs2,
            aq,
            rl,
        } => {
            assert_eq!(rd, 0);
            assert_eq!(rs1, 10);
            assert_eq!(rs2, 11);
            assert!(aq);
            assert!(rl);
        }
        _ => panic!("wrong decode"),
    }
}

#[test]
fn parses_c_jr_with_len_2() {
    let inst = 0x8082; // c.jr ra
    let (decoded, len) = Instruction::parse_with_len(inst);
    assert_eq!(len, 2);
    match decoded {
        Instruction::I {
            funct: IFunct::JALR,
            rd,
            rs1,
            imm,
        } => {
            assert_eq!(rd, 0);
            assert_eq!(rs1, 1);
            assert_eq!(imm, 0);
        }
        _ => panic!("wrong decode"),
    }
}

#[test]
fn parses_c_flwsp_with_len_2() {
    let inst = 0x6092; // c.flwsp f1, 4(sp)
    let (decoded, len) = Instruction::parse_with_len(inst);
    assert_eq!(len, 2);
    match decoded {
        Instruction::FL {
            funct: FLFunct::FLW,
            rd,
            rs1,
            imm,
        } => {
            assert_eq!(rd, 1);
            assert_eq!(rs1, 2);
            assert_eq!(imm, 4);
        }
        _ => panic!("wrong decode"),
    }
}

#[test]
fn parses_fence() {
    let inst = 0x0330_000f;
    let (decoded, len) = Instruction::parse_with_len(inst);
    assert_eq!(len, 4);
    match decoded {
        Instruction::Fence {
            funct: FenceFunct::Fence,
            ..
        } => {}
        _ => panic!("wrong decode"),
    }
}

#[test]
fn parses_flh_fld_and_fsh_fsd() {
    let (decoded, len) = Instruction::parse_with_len(0x0000_9007); // flh f0,0(x1)
    assert_eq!(len, 4);
    match decoded {
        Instruction::FL {
            funct: FLFunct::FLH,
            ..
        } => {}
        _ => panic!("wrong decode"),
    }

    let (decoded, len) = Instruction::parse_with_len(0x0000_b007); // fld f0,0(x1)
    assert_eq!(len, 4);
    match decoded {
        Instruction::FL {
            funct: FLFunct::FLD,
            ..
        } => {}
        _ => panic!("wrong decode"),
    }

    let (decoded, len) = Instruction::parse_with_len(0x0000_9027); // fsh f0,0(x1)
    assert_eq!(len, 4);
    match decoded {
        Instruction::FS {
            funct: FSFunct::FSH,
            ..
        } => {}
        _ => panic!("wrong decode"),
    }

    let (decoded, len) = Instruction::parse_with_len(0x0000_b027); // fsd f0,0(x1)
    assert_eq!(len, 4);
    match decoded {
        Instruction::FS {
            funct: FSFunct::FSD,
            ..
        } => {}
        _ => panic!("wrong decode"),
    }
}

#[test]
fn compressed_sign_extension_regressions() {
    // c.addi a3, -1
    let (decoded, len) = Instruction::parse_with_len(0x16fd);
    assert_eq!(len, 2);
    match decoded {
        Instruction::I {
            funct: IFunct::ADDI,
            rd,
            rs1,
            imm,
        } => {
            assert_eq!(rd, 13);
            assert_eq!(rs1, 13);
            assert_eq!(imm, -1);
        }
        _ => panic!("wrong decode for c.addi"),
    }

    // c.li x5, -1
    let (decoded, len) = Instruction::parse_with_len(0x52fd);
    assert_eq!(len, 2);
    match decoded {
        Instruction::I {
            funct: IFunct::ADDI,
            rd,
            rs1,
            imm,
        } => {
            assert_eq!(rd, 5);
            assert_eq!(rs1, 0);
            assert_eq!(imm, -1);
        }
        _ => panic!("wrong decode for c.li"),
    }

    // c.lui x9, -1
    let (decoded, len) = Instruction::parse_with_len(0x74fd);
    assert_eq!(len, 2);
    match decoded {
        Instruction::U {
            funct: UFunct::LUI,
            rd,
            imm,
        } => {
            assert_eq!(rd, 9);
            assert_eq!(imm, -4096);
        }
        _ => panic!("wrong decode for c.lui"),
    }

    // c.andi x9, -1
    let (decoded, len) = Instruction::parse_with_len(0x98fd);
    assert_eq!(len, 2);
    match decoded {
        Instruction::I {
            funct: IFunct::ANDI,
            rd,
            rs1,
            imm,
        } => {
            assert_eq!(rd, 9);
            assert_eq!(rs1, 9);
            assert_eq!(imm, -1);
        }
        _ => panic!("wrong decode for c.andi"),
    }
}
