//! Decoding of RV32IMAFC instruction words into [`Instruction`] values.
//!
//! The specification of the decoder follows the layout tables of the RISC-V
//! unprivileged manual: every immediate is described as a weighted sum of the
//! instruction bit fields it is assembled from, followed by sign extension.
//! The executable decoder assembles the same immediates with shifts and masks.
use vstd::prelude::*;

verus! {

#[allow(inconsistent_fields)]
#[derive(Debug)]
pub enum Instruction {
    R { funct: RFunct, rd: usize, rs1: usize, rs2: usize },
    M { funct: MFunct, rd: usize, rs1: usize, rs2: usize },
    I { funct: IFunct, rd: usize, rs1: usize, imm: i32 },
    S { funct: SFunct, rs1: usize, rs2: usize, imm: i32 },
    B { funct: BFunct, rs1: usize, rs2: usize, imm: i32 },
    U { funct: UFunct, rd: usize, imm: i32 },
    J { funct: JFunct, rd: usize, imm: i32 },
    R4 { funct: R4Funct, rd: usize, rs1: usize, rs2: usize, rs3: usize, rm: u32 },
    FR { funct: FRFunct, rd: usize, rs1: usize, rs2: usize, rm: u32 },
    FI { funct: FIFunct, rd: usize, rs1: usize, rm: u32 },
    FL { funct: FLFunct, rd: usize, rs1: usize, imm: i32 },
    FS { funct: FSFunct, rs1: usize, rs2: usize, imm: i32 },
    A { funct: AFunct, rd: usize, rs1: usize, rs2: usize, aq: bool, rl: bool },
    Fence { funct: FenceFunct, pred: u32, succ: u32, fm: u32 },
    Ebreak,
}

#[derive(Debug)]
pub enum RFunct {
    ADD,
    SUB,
    SLL,
    SLT,
    SLTU,
    XOR,
    SRL,
    SRA,
    OR,
    AND,
}

#[derive(Debug)]
pub enum MFunct {
    MUL,
    MULH,
    MULHSU,
    MULHU,
    DIV,
    DIVU,
    REM,
    REMU,
}

#[derive(Debug)]
pub enum IFunct {
    JALR,
    LB,
    LH,
    LW,
    LBU,
    LHU,
    ADDI,
    SLTI,
    SLTIU,
    XORI,
    ORI,
    ANDI,
    SLLI,
    SRLI,
    SRAI,
}

#[derive(Debug)]
pub enum SFunct {
    SB,
    SH,
    SW,
}

#[derive(Debug)]
pub enum BFunct {
    BEQ,
    BNE,
    BLT,
    BGE,
    BLTU,
    BGEU,
}

#[derive(Debug)]
pub enum UFunct {
    LUI,
    AUIPC,
}

#[derive(Debug)]
pub enum JFunct {
    JAL,
}

#[derive(Debug)]
pub enum R4Funct {
    FmaddS,
    FmsubS,
    FnmsubS,
    FnmaddS,
}

#[derive(Debug)]
pub enum FRFunct {
    FaddS,
    FsubS,
    FmulS,
    FdivS,
    FsgnjS,
    FsgnjnS,
    FsgnjxS,
    FminS,
    FmaxS,
    FeqS,
    FltS,
    FleS,
}

#[derive(Debug)]
pub enum FIFunct {
    FsqrtS,
    FcvtWS,
    FcvtWuS,
    FmvXW,
    FclassS,
    FcvtSW,
    FcvtSWU,
    FmvWX,
}

#[derive(Debug)]
pub enum FLFunct {
    FLH,
    FLW,
    FLD,
}

#[derive(Debug)]
pub enum FSFunct {
    FSH,
    FSW,
    FSD,
}

#[derive(Debug)]
pub enum AFunct {
    LrW,
    ScW,
    AmoSwapW,
    AmoAddW,
    AmoXorW,
    AmoAndW,
    AmoOrW,
    AmoMinW,
    AmoMaxW,
    AmoMinuW,
    AmoMaxuW,
}

#[derive(Debug)]
pub enum FenceFunct {
    Fence,
    FenceI,
}

// ---------------------------------------------------------------------------
// Bit fields and immediates, as the manual describes them.
// ---------------------------------------------------------------------------

/// The bit field `inst[hi:lo]`, as an unsigned number.
pub open spec fn bits(inst: u32, hi: u32, lo: u32) -> int {
    ((inst >> lo) & (((1u32 << ((hi - lo + 1) as u32)) - 1) as u32)) as int
}

/// The single bit `inst[i]`.
pub open spec fn bit(inst: u32, i: u32) -> int {
    ((inst >> i) & 1) as int
}

/// Two's-complement reading of `v`, a field whose sign bit has weight `half`.
pub open spec fn sext(v: int, half: int) -> int {
    if v >= half {
        v - 2 * half
    } else {
        v
    }
}

/// I-type immediate: `imm[11:0] = inst[31:20]`.
pub open spec fn imm_i(inst: u32) -> int {
    sext(bits(inst, 31, 20), 2048)
}

/// S-type immediate: `imm[11:5|4:0] = inst[31:25|11:7]`.
pub open spec fn imm_s(inst: u32) -> int {
    sext(bits(inst, 31, 25) * 32 + bits(inst, 11, 7), 2048)
}

/// B-type immediate: `imm[12|10:5|4:1|11] = inst[31|30:25|11:8|7]`.
pub open spec fn imm_b(inst: u32) -> int {
    sext(bit(inst, 31) * 4096 + bits(inst, 30, 25) * 32 + bits(inst, 11, 8) * 2 + bit(inst, 7) * 2048, 4096)
}

/// U-type immediate: `imm[31:12] = inst[31:12]`, low twelve bits zero.
pub open spec fn imm_u(inst: u32) -> int {
    sext(bits(inst, 31, 12), 0x80000) * 4096
}

/// J-type immediate: `imm[20|10:1|11|19:12] = inst[31|30:21|20|19:12]`.
pub open spec fn imm_j(inst: u32) -> int {
    sext(
        bit(inst, 31) * 0x100000 + bits(inst, 30, 21) * 2 + bit(inst, 20) * 2048 + bits(inst, 19, 12)
            * 4096,
        0x100000,
    )
}

/// Compressed 6-bit signed immediate `imm[5|4:0] = inst[12|6:2]` (C.ADDI, C.LI, C.ANDI).
pub open spec fn cimm6(c: u32) -> int {
    sext(bit(c, 12) * 32 + bits(c, 6, 2), 32)
}

/// C.ADDI4SPN immediate: `nzuimm[5:4|9:6|2|3] = inst[12:11|10:7|6|5]`.
pub open spec fn ciw_imm(c: u32) -> int {
    bits(c, 12, 11) * 16 + bits(c, 10, 7) * 64 + bit(c, 6) * 4 + bit(c, 5) * 8
}

/// C.LW / C.SW word offset: `uimm[5:3] = inst[12:10]`, `uimm[2|6] = inst[6|5]`.
pub open spec fn cl_imm(c: u32) -> int {
    bits(c, 12, 10) * 8 + bit(c, 6) * 4 + bit(c, 5) * 64
}

/// C.J / C.JAL offset: `imm[11|4|9:8|10|6|7|3:1|5] = inst[12|11|10:9|8|7|6|5:3|2]`.
pub open spec fn cj_imm(c: u32) -> int {
    sext(
        bit(c, 12) * 2048 + bit(c, 11) * 16 + bits(c, 10, 9) * 256 + bit(c, 8) * 1024 + bit(c, 7) * 64
            + bit(c, 6) * 128 + bits(c, 5, 3) * 2 + bit(c, 2) * 32,
        2048,
    )
}

/// C.BEQZ / C.BNEZ offset: `imm[8|4:3|7:6|2:1|5] = inst[12|11:10|6:5|4:3|2]`.
pub open spec fn cb_imm(c: u32) -> int {
    sext(
        bit(c, 12) * 256 + bits(c, 11, 10) * 8 + bits(c, 6, 5) * 64 + bits(c, 4, 3) * 2 + bit(c, 2)
            * 32,
        256,
    )
}

/// C.ADDI16SP immediate: `nzimm[9|4|6|8:7|5] = inst[12|6|5|4:3|2]`.
pub open spec fn c16sp_imm(c: u32) -> int {
    bit(c, 12) * 512 + bit(c, 6) * 16 + bit(c, 5) * 64 + bits(c, 4, 3) * 128 + bit(c, 2) * 32
}

/// C.LWSP offset: `uimm[5] = inst[12]`, `uimm[4:2|7:6] = inst[6:4|3:2]`.
pub open spec fn clwsp_imm(c: u32) -> int {
    bit(c, 12) * 32 + bits(c, 6, 4) * 4 + bits(c, 3, 2) * 64
}

/// C.SWSP offset: `uimm[5:2|7:6] = inst[12:9|8:7]`.
pub open spec fn cswsp_imm(c: u32) -> int {
    bits(c, 12, 9) * 4 + bits(c, 8, 7) * 64
}

// ---------------------------------------------------------------------------
// The decoding tables.
// ---------------------------------------------------------------------------

/// Destination register field `inst[11:7]`.
pub open spec fn rd_of(inst: u32) -> usize {
    bits(inst, 11, 7) as usize
}

/// First source register field `inst[19:15]`.
pub open spec fn rs1_of(inst: u32) -> usize {
    bits(inst, 19, 15) as usize
}

/// Second source register field `inst[24:20]`.
pub open spec fn rs2_of(inst: u32) -> usize {
    bits(inst, 24, 20) as usize
}

/// Minor opcode field `inst[14:12]`.
pub open spec fn funct3_of(inst: u32) -> int {
    bits(inst, 14, 12)
}

/// Decoding of a 32-bit instruction word; `None` for words the decoder rejects.
pub open spec fn spec_decode_32(inst: u32) -> Option<Instruction> {
    let opcode = bits(inst, 6, 0);
    if opcode == 0x03 {
        spec_decode_load(inst)
    } else if opcode == 0x0f {
        spec_decode_fence(inst)
    } else if opcode == 0x13 {
        Some(spec_decode_op_imm(inst))
    } else if opcode == 0x23 {
        spec_decode_store(inst)
    } else if opcode == 0x2f {
        spec_decode_amo(inst)
    } else if opcode == 0x33 {
        Some(spec_decode_op(inst))
    } else if opcode == 0x37 {
        Some(Instruction::U { funct: UFunct::LUI, rd: rd_of(inst), imm: imm_u(inst) as i32 })
    } else if opcode == 0x17 {
        Some(Instruction::U { funct: UFunct::AUIPC, rd: rd_of(inst), imm: imm_u(inst) as i32 })
    } else if opcode == 0x63 {
        spec_decode_branch(inst)
    } else if opcode == 0x67 {
        Some(Instruction::I { funct: IFunct::JALR, rd: rd_of(inst), rs1: rs1_of(inst), imm: imm_i(inst) as i32 })
    } else if opcode == 0x07 {
        spec_decode_fp_load(inst)
    } else if opcode == 0x27 {
        spec_decode_fp_store(inst)
    } else if opcode == 0x43 || opcode == 0x47 || opcode == 0x4b || opcode == 0x4f {
        spec_decode_fused(inst)
    } else if opcode == 0x53 {
        spec_decode_op_fp(bits(inst, 31, 25), funct3_of(inst), rd_of(inst), rs1_of(inst), rs2_of(inst))
    } else if opcode == 0x6f {
        Some(Instruction::J { funct: JFunct::JAL, rd: rd_of(inst), imm: imm_j(inst) as i32 })
    } else {
        None
    }
}

/// LOAD major opcode.
pub open spec fn spec_decode_load(inst: u32) -> Option<Instruction> {
    let funct3 = funct3_of(inst);
    let funct = if funct3 == 0 {
        Some(IFunct::LB)
    } else if funct3 == 1 {
        Some(IFunct::LH)
    } else if funct3 == 2 {
        Some(IFunct::LW)
    } else if funct3 == 4 {
        Some(IFunct::LBU)
    } else if funct3 == 5 {
        Some(IFunct::LHU)
    } else {
        None
    };
    match funct {
        Some(funct) => Some(Instruction::I { funct, rd: rd_of(inst), rs1: rs1_of(inst), imm: imm_i(inst) as i32 }),
        None => None,
    }
}

/// MISC-MEM major opcode.
pub open spec fn spec_decode_fence(inst: u32) -> Option<Instruction> {
    let funct3 = funct3_of(inst);
    let pred = bits(inst, 27, 24) as u32;
    let succ = bits(inst, 23, 20) as u32;
    let fm = bits(inst, 31, 28) as u32;
    if funct3 == 0 {
        Some(Instruction::Fence { funct: FenceFunct::Fence, pred, succ, fm })
    } else if funct3 == 1 {
        Some(Instruction::Fence { funct: FenceFunct::FenceI, pred, succ, fm })
    } else {
        None
    }
}

/// OP-IMM major opcode; shifts carry their shift amount `inst[24:20]` as immediate.
pub open spec fn spec_decode_op_imm(inst: u32) -> Instruction {
    let funct3 = funct3_of(inst);
    let rd = rd_of(inst);
    let rs1 = rs1_of(inst);
    let imm = imm_i(inst) as i32;
    let shamt = rs2_of(inst) as i32;
    if funct3 == 0 {
        Instruction::I { funct: IFunct::ADDI, rd, rs1, imm }
    } else if funct3 == 1 {
        Instruction::I { funct: IFunct::SLLI, rd, rs1, imm: shamt }
    } else if funct3 == 2 {
        Instruction::I { funct: IFunct::SLTI, rd, rs1, imm }
    } else if funct3 == 3 {
        Instruction::I { funct: IFunct::SLTIU, rd, rs1, imm }
    } else if funct3 == 4 {
        Instruction::I { funct: IFunct::XORI, rd, rs1, imm }
    } else if funct3 == 5 {
        if bit(inst, 30) == 1 {
            Instruction::I { funct: IFunct::SRAI, rd, rs1, imm: shamt }
        } else {
            Instruction::I { funct: IFunct::SRLI, rd, rs1, imm: shamt }
        }
    } else if funct3 == 6 {
        Instruction::I { funct: IFunct::ORI, rd, rs1, imm }
    } else {
        Instruction::I { funct: IFunct::ANDI, rd, rs1, imm }
    }
}

/// STORE major opcode.
pub open spec fn spec_decode_store(inst: u32) -> Option<Instruction> {
    let funct3 = funct3_of(inst);
    let funct = if funct3 == 0 {
        Some(SFunct::SB)
    } else if funct3 == 1 {
        Some(SFunct::SH)
    } else if funct3 == 2 {
        Some(SFunct::SW)
    } else {
        None
    };
    match funct {
        Some(funct) => Some(Instruction::S { funct, rs1: rs1_of(inst), rs2: rs2_of(inst), imm: imm_s(inst) as i32 }),
        None => None,
    }
}

/// AMO major opcode (word width only; LR.W must name `x0` as `rs2`).
pub open spec fn spec_decode_amo(inst: u32) -> Option<Instruction> {
    let funct5 = bits(inst, 31, 27);
    if funct3_of(inst) != 2 {
        None
    } else {
        match spec_amo_funct(funct5) {
            None => None,
            Some(funct) => if funct5 == 2 && rs2_of(inst) != 0 {
                None
            } else {
                Some(
                    Instruction::A {
                        funct,
                        rd: rd_of(inst),
                        rs1: rs1_of(inst),
                        rs2: rs2_of(inst),
                        aq: bit(inst, 26) == 1,
                        rl: bit(inst, 25) == 1,
                    },
                )
            },
        }
    }
}

/// OP major opcode: `funct7 == 1` selects the M extension.
pub open spec fn spec_decode_op(inst: u32) -> Instruction {
    let funct7 = bits(inst, 31, 25);
    if funct7 == 1 {
        Instruction::M { funct: spec_m_funct(funct3_of(inst)), rd: rd_of(inst), rs1: rs1_of(inst), rs2: rs2_of(inst) }
    } else {
        Instruction::R {
            funct: spec_r_funct(funct3_of(inst), funct7),
            rd: rd_of(inst),
            rs1: rs1_of(inst),
            rs2: rs2_of(inst),
        }
    }
}

/// BRANCH major opcode.
pub open spec fn spec_decode_branch(inst: u32) -> Option<Instruction> {
    let funct3 = funct3_of(inst);
    let funct = if funct3 == 0 {
        Some(BFunct::BEQ)
    } else if funct3 == 1 {
        Some(BFunct::BNE)
    } else if funct3 == 4 {
        Some(BFunct::BLT)
    } else if funct3 == 5 {
        Some(BFunct::BGE)
    } else if funct3 == 6 {
        Some(BFunct::BLTU)
    } else if funct3 == 7 {
        Some(BFunct::BGEU)
    } else {
        None
    };
    match funct {
        Some(funct) => Some(Instruction::B { funct, rs1: rs1_of(inst), rs2: rs2_of(inst), imm: imm_b(inst) as i32 }),
        None => None,
    }
}

/// LOAD-FP major opcode (half, single and double width encodings).
pub open spec fn spec_decode_fp_load(inst: u32) -> Option<Instruction> {
    let funct3 = funct3_of(inst);
    let funct = if funct3 == 1 {
        Some(FLFunct::FLH)
    } else if funct3 == 2 {
        Some(FLFunct::FLW)
    } else if funct3 == 3 {
        Some(FLFunct::FLD)
    } else {
        None
    };
    match funct {
        Some(funct) => Some(Instruction::FL { funct, rd: rd_of(inst), rs1: rs1_of(inst), imm: imm_i(inst) as i32 }),
        None => None,
    }
}

/// STORE-FP major opcode (half, single and double width encodings).
pub open spec fn spec_decode_fp_store(inst: u32) -> Option<Instruction> {
    let funct3 = funct3_of(inst);
    let funct = if funct3 == 1 {
        Some(FSFunct::FSH)
    } else if funct3 == 2 {
        Some(FSFunct::FSW)
    } else if funct3 == 3 {
        Some(FSFunct::FSD)
    } else {
        None
    };
    match funct {
        Some(funct) => Some(Instruction::FS { funct, rs1: rs1_of(inst), rs2: rs2_of(inst), imm: imm_s(inst) as i32 }),
        None => None,
    }
}

/// The fused multiply-add major opcodes; only the single-precision format `inst[26:25] == 0`.
pub open spec fn spec_decode_fused(inst: u32) -> Option<Instruction> {
    let opcode = bits(inst, 6, 0);
    let funct = if opcode == 0x43 {
        R4Funct::FmaddS
    } else if opcode == 0x47 {
        R4Funct::FmsubS
    } else if opcode == 0x4b {
        R4Funct::FnmsubS
    } else {
        R4Funct::FnmaddS
    };
    if bits(inst, 26, 25) != 0 {
        None
    } else {
        Some(
            Instruction::R4 {
                funct,
                rd: rd_of(inst),
                rs1: rs1_of(inst),
                rs2: rs2_of(inst),
                rs3: bits(inst, 31, 27) as usize,
                rm: funct3_of(inst) as u32,
            },
        )
    }
}

/// The A-extension operation selected by `funct5`.
pub open spec fn spec_amo_funct(funct5: int) -> Option<AFunct> {
    if funct5 == 0x02 {
        Some(AFunct::LrW)
    } else if funct5 == 0x03 {
        Some(AFunct::ScW)
    } else if funct5 == 0x01 {
        Some(AFunct::AmoSwapW)
    } else if funct5 == 0x00 {
        Some(AFunct::AmoAddW)
    } else if funct5 == 0x04 {
        Some(AFunct::AmoXorW)
    } else if funct5 == 0x0c {
        Some(AFunct::AmoAndW)
    } else if funct5 == 0x08 {
        Some(AFunct::AmoOrW)
    } else if funct5 == 0x10 {
        Some(AFunct::AmoMinW)
    } else if funct5 == 0x14 {
        Some(AFunct::AmoMaxW)
    } else if funct5 == 0x18 {
        Some(AFunct::AmoMinuW)
    } else if funct5 == 0x1c {
        Some(AFunct::AmoMaxuW)
    } else {
        None
    }
}

/// The M-extension operation selected by `funct3`.
pub open spec fn spec_m_funct(funct3: int) -> MFunct {
    if funct3 == 0 {
        MFunct::MUL
    } else if funct3 == 1 {
        MFunct::MULH
    } else if funct3 == 2 {
        MFunct::MULHSU
    } else if funct3 == 3 {
        MFunct::MULHU
    } else if funct3 == 4 {
        MFunct::DIV
    } else if funct3 == 5 {
        MFunct::DIVU
    } else if funct3 == 6 {
        MFunct::REM
    } else {
        MFunct::REMU
    }
}

/// The base register-register operation selected by `funct3` and `funct7`
/// (any non-zero `funct7` selects SUB and SRA).
pub open spec fn spec_r_funct(funct3: int, funct7: int) -> RFunct {
    if funct3 == 0 {
        if funct7 == 0 {
            RFunct::ADD
        } else {
            RFunct::SUB
        }
    } else if funct3 == 1 {
        RFunct::SLL
    } else if funct3 == 2 {
        RFunct::SLT
    } else if funct3 == 3 {
        RFunct::SLTU
    } else if funct3 == 4 {
        RFunct::XOR
    } else if funct3 == 5 {
        if funct7 == 0 {
            RFunct::SRL
        } else {
            RFunct::SRA
        }
    } else if funct3 == 6 {
        RFunct::OR
    } else {
        RFunct::AND
    }
}

/// Decoding of the OP-FP major opcode (single precision only).
pub open spec fn spec_decode_op_fp(funct7: int, rm: int, rd: usize, rs1: usize, rs2: usize) -> Option<
    Instruction,
> {
    let rmu = rm as u32;
    if funct7 == 0x00 {
        Some(Instruction::FR { funct: FRFunct::FaddS, rd, rs1, rs2, rm: rmu })
    } else if funct7 == 0x04 {
        Some(Instruction::FR { funct: FRFunct::FsubS, rd, rs1, rs2, rm: rmu })
    } else if funct7 == 0x08 {
        Some(Instruction::FR { funct: FRFunct::FmulS, rd, rs1, rs2, rm: rmu })
    } else if funct7 == 0x0c {
        Some(Instruction::FR { funct: FRFunct::FdivS, rd, rs1, rs2, rm: rmu })
    } else if funct7 == 0x10 {
        if rm == 0 {
            Some(Instruction::FR { funct: FRFunct::FsgnjS, rd, rs1, rs2, rm: rmu })
        } else if rm == 1 {
            Some(Instruction::FR { funct: FRFunct::FsgnjnS, rd, rs1, rs2, rm: rmu })
        } else if rm == 2 {
            Some(Instruction::FR { funct: FRFunct::FsgnjxS, rd, rs1, rs2, rm: rmu })
        } else {
            None
        }
    } else if funct7 == 0x14 {
        if rm == 0 {
            Some(Instruction::FR { funct: FRFunct::FminS, rd, rs1, rs2, rm: rmu })
        } else if rm == 1 {
            Some(Instruction::FR { funct: FRFunct::FmaxS, rd, rs1, rs2, rm: rmu })
        } else {
            None
        }
    } else if funct7 == 0x2c {
        Some(Instruction::FI { funct: FIFunct::FsqrtS, rd, rs1, rm: rmu })
    } else if funct7 == 0x50 {
        if rm == 2 {
            Some(Instruction::FR { funct: FRFunct::FeqS, rd, rs1, rs2, rm: rmu })
        } else if rm == 1 {
            Some(Instruction::FR { funct: FRFunct::FltS, rd, rs1, rs2, rm: rmu })
        } else if rm == 0 {
            Some(Instruction::FR { funct: FRFunct::FleS, rd, rs1, rs2, rm: rmu })
        } else {
            None
        }
    } else if funct7 == 0x60 {
        if rs2 == 0 {
            Some(Instruction::FI { funct: FIFunct::FcvtWS, rd, rs1, rm: rmu })
        } else if rs2 == 1 {
            Some(Instruction::FI { funct: FIFunct::FcvtWuS, rd, rs1, rm: rmu })
        } else {
            None
        }
    } else if funct7 == 0x68 {
        if rs2 == 0 {
            Some(Instruction::FI { funct: FIFunct::FcvtSW, rd, rs1, rm: rmu })
        } else if rs2 == 1 {
            Some(Instruction::FI { funct: FIFunct::FcvtSWU, rd, rs1, rm: rmu })
        } else {
            None
        }
    } else if funct7 == 0x70 {
        if rm == 0 {
            Some(Instruction::FI { funct: FIFunct::FmvXW, rd, rs1, rm: rmu })
        } else if rm == 1 {
            Some(Instruction::FI { funct: FIFunct::FclassS, rd, rs1, rm: rmu })
        } else {
            None
        }
    } else if funct7 == 0x78 {
        Some(Instruction::FI { funct: FIFunct::FmvWX, rd, rs1, rm: rmu })
    } else {
        None
    }
}

/// Decoding of a 16-bit compressed instruction held in the low half of `inst`;
/// `None` for encodings the decoder rejects.
pub open spec fn spec_decode_16(inst: u32) -> Option<Instruction> {
    let c = inst & 0xffff;
    let quadrant = bits(c, 1, 0);
    let funct3 = bits(c, 15, 13);
    let rd_full = bits(c, 11, 7) as usize;
    let rs2_full = bits(c, 6, 2) as usize;
    let rd_p = (8 + bits(c, 4, 2)) as usize;
    let rs1_p = (8 + bits(c, 9, 7)) as usize;
    if quadrant == 0 {
        if funct3 == 0 {
            if ciw_imm(c) == 0 {
                None
            } else {
                Some(Instruction::I { funct: IFunct::ADDI, rd: rd_p, rs1: 2, imm: ciw_imm(c) as i32 })
            }
        } else if funct3 == 2 {
            Some(Instruction::I { funct: IFunct::LW, rd: rd_p, rs1: rs1_p, imm: cl_imm(c) as i32 })
        } else if funct3 == 3 {
            Some(Instruction::FL { funct: FLFunct::FLW, rd: rd_p, rs1: rs1_p, imm: cl_imm(c) as i32 })
        } else if funct3 == 6 {
            Some(Instruction::S { funct: SFunct::SW, rs1: rs1_p, rs2: rd_p, imm: cl_imm(c) as i32 })
        } else if funct3 == 7 {
            Some(Instruction::FS { funct: FSFunct::FSW, rs1: rs1_p, rs2: rd_p, imm: cl_imm(c) as i32 })
        } else {
            None
        }
    } else if quadrant == 1 {
        if funct3 == 0 {
            Some(Instruction::I { funct: IFunct::ADDI, rd: rd_full, rs1: rd_full, imm: cimm6(c) as i32 })
        } else if funct3 == 1 {
            Some(Instruction::J { funct: JFunct::JAL, rd: 1, imm: cj_imm(c) as i32 })
        } else if funct3 == 2 {
            Some(Instruction::I { funct: IFunct::ADDI, rd: rd_full, rs1: 0, imm: cimm6(c) as i32 })
        } else if funct3 == 3 {
            if rd_full == 2 {
                if c16sp_imm(c) == 0 {
                    None
                } else {
                    Some(
                        Instruction::I {
                            funct: IFunct::ADDI,
                            rd: 2,
                            rs1: 2,
                            imm: sext(c16sp_imm(c), 512) as i32,
                        },
                    )
                }
            } else if rd_full == 0 || bit(c, 12) * 32 + bits(c, 6, 2) == 0 {
                None
            } else {
                Some(Instruction::U { funct: UFunct::LUI, rd: rd_full, imm: (cimm6(c) * 4096) as i32 })
            }
        } else if funct3 == 4 {
            let op = bits(c, 11, 10);
            let rd = rs1_p;
            if op == 0 {
                if bit(c, 12) == 1 {
                    None
                } else {
                    Some(Instruction::I { funct: IFunct::SRLI, rd, rs1: rd, imm: bits(c, 6, 2) as i32 })
                }
            } else if op == 1 {
                if bit(c, 12) == 1 {
                    None
                } else {
                    Some(Instruction::I { funct: IFunct::SRAI, rd, rs1: rd, imm: bits(c, 6, 2) as i32 })
                }
            } else if op == 2 {
                Some(Instruction::I { funct: IFunct::ANDI, rd, rs1: rd, imm: cimm6(c) as i32 })
            } else if bit(c, 12) == 1 {
                None
            } else {
                let funct2 = bits(c, 6, 5);
                let funct = if funct2 == 0 {
                    RFunct::SUB
                } else if funct2 == 1 {
                    RFunct::XOR
                } else if funct2 == 2 {
                    RFunct::OR
                } else {
                    RFunct::AND
                };
                Some(Instruction::R { funct, rd, rs1: rd, rs2: rd_p })
            }
        } else if funct3 == 5 {
            Some(Instruction::J { funct: JFunct::JAL, rd: 0, imm: cj_imm(c) as i32 })
        } else if funct3 == 6 {
            Some(Instruction::B { funct: BFunct::BEQ, rs1: rs1_p, rs2: 0, imm: cb_imm(c) as i32 })
        } else {
            Some(Instruction::B { funct: BFunct::BNE, rs1: rs1_p, rs2: 0, imm: cb_imm(c) as i32 })
        }
    } else if quadrant == 2 {
        if funct3 == 0 {
            if rd_full == 0 || bit(c, 12) == 1 {
                None
            } else {
                Some(Instruction::I { funct: IFunct::SLLI, rd: rd_full, rs1: rd_full, imm: bits(c, 6, 2) as i32 })
            }
        } else if funct3 == 2 {
            if rd_full == 0 {
                None
            } else {
                Some(Instruction::I { funct: IFunct::LW, rd: rd_full, rs1: 2, imm: clwsp_imm(c) as i32 })
            }
        } else if funct3 == 3 {
            if rd_full == 0 {
                None
            } else {
                Some(Instruction::FL { funct: FLFunct::FLW, rd: rd_full, rs1: 2, imm: clwsp_imm(c) as i32 })
            }
        } else if funct3 == 4 {
            if bit(c, 12) == 0 {
                if rd_full == 0 {
                    None
                } else if rs2_full == 0 {
                    Some(Instruction::I { funct: IFunct::JALR, rd: 0, rs1: rd_full, imm: 0 })
                } else {
                    Some(Instruction::R { funct: RFunct::ADD, rd: rd_full, rs1: 0, rs2: rs2_full })
                }
            } else if rd_full == 0 && rs2_full == 0 {
                Some(Instruction::Ebreak)
            } else if rd_full == 0 {
                None
            } else if rs2_full == 0 {
                Some(Instruction::I { funct: IFunct::JALR, rd: 1, rs1: rd_full, imm: 0 })
            } else {
                Some(Instruction::R { funct: RFunct::ADD, rd: rd_full, rs1: rd_full, rs2: rs2_full })
            }
        } else if funct3 == 6 {
            Some(Instruction::S { funct: SFunct::SW, rs1: 2, rs2: rs2_full, imm: cswsp_imm(c) as i32 })
        } else if funct3 == 7 {
            Some(Instruction::FS { funct: FSFunct::FSW, rs1: 2, rs2: rs2_full, imm: cswsp_imm(c) as i32 })
        } else {
            None
        }
    } else {
        None
    }
}

/// Decoding of an instruction word with its length in bytes: words whose two
/// low bits are not both set are 16-bit compressed instructions.
pub open spec fn spec_decode(inst: u32) -> Option<(Instruction, u32)> {
    if inst & 0x3 != 0x3 {
        match spec_decode_16(inst) {
            Some(i) => Some((i, 2u32)),
            None => None,
        }
    } else {
        match spec_decode_32(inst) {
            Some(i) => Some((i, 4u32)),
            None => None,
        }
    }
}

/// Whether the decoder accepts `inst`.
pub open spec fn decodable(inst: u32) -> bool {
    spec_decode(inst) is Some
}

impl Instruction {
    /// Every register index that the instruction names is below 32.
    pub open spec fn regs_in_range(&self) -> bool {
        match *self {
            Instruction::R { rd, rs1, rs2, .. } => rd < 32 && rs1 < 32 && rs2 < 32,
            Instruction::M { rd, rs1, rs2, .. } => rd < 32 && rs1 < 32 && rs2 < 32,
            Instruction::I { rd, rs1, .. } => rd < 32 && rs1 < 32,
            Instruction::S { rs1, rs2, .. } => rs1 < 32 && rs2 < 32,
            Instruction::B { rs1, rs2, .. } => rs1 < 32 && rs2 < 32,
            Instruction::U { rd, .. } => rd < 32,
            Instruction::J { rd, .. } => rd < 32,
            Instruction::R4 { rd, rs1, rs2, rs3, .. } => rd < 32 && rs1 < 32 && rs2 < 32 && rs3 < 32,
            Instruction::FR { rd, rs1, rs2, .. } => rd < 32 && rs1 < 32 && rs2 < 32,
            Instruction::FI { rd, rs1, .. } => rd < 32 && rs1 < 32,
            Instruction::FL { rd, rs1, .. } => rd < 32 && rs1 < 32,
            Instruction::FS { rs1, rs2, .. } => rs1 < 32 && rs2 < 32,
            Instruction::A { rd, rs1, rs2, .. } => rd < 32 && rs1 < 32 && rs2 < 32,
            Instruction::Fence { .. } => true,
            Instruction::Ebreak => true,
        }
    }
}



// ---------------------------------------------------------------------------
// Bit-level facts about the field extractions.
// ---------------------------------------------------------------------------

proof fn lemma_sign_extend(value: u32)
    by (bit_vector)
    ensures
        value < 64 ==> (((value << 26u32) as i32) >> 26u32) as int == (if value >= 32 { value as int - 64 } else { value as int }),
        value < 512 ==> (((value << 23u32) as i32) >> 23u32) as int == (if value >= 256 { value as int - 512 } else { value as int }),
        value < 1024 ==> (((value << 22u32) as i32) >> 22u32) as int == (if value >= 512 { value as int - 1024 } else { value as int }),
        value < 4096 ==> (((value << 20u32) as i32) >> 20u32) as int == (if value >= 2048 { value as int - 4096 } else { value as int }),
        value < 8192 ==> (((value << 19u32) as i32) >> 19u32) as int == (if value >= 4096 { value as int - 8192 } else { value as int }),
        value < 0x200000 ==> (((value << 11u32) as i32) >> 11u32) as int == (if value >= 0x100000 { value as int - 0x200000 } else { value as int }),
{
}

proof fn lemma_shifted_field(x: u32, i: u32)
    by (bit_vector)
    ensures
        ((x >> i) & 1) <= 1,
        ((x >> i) & 0x1f) < 32,
        ((x >> i) & 0x7) < 8,
{
}

proof fn lemma_word(inst: u32)
    by (bit_vector)
    ensures
        ((inst >> 7) & 0x1f) as int == bits(inst, 11, 7),
        ((inst >> 7) & 0x1f) < 32,
        ((inst >> 15) & 0x1f) < 32,
        ((inst >> 20) & 0x1f) < 32,
        ((inst >> 12) & 0x7) < 8,
        ((inst >> 15) & 0x1f) as int == bits(inst, 19, 15),
        ((inst >> 20) & 0x1f) as int == bits(inst, 24, 20),
        ((inst >> 12) & 0x7) as int == bits(inst, 14, 12),
        ((inst >> 25) & 0x7f) as int == bits(inst, 31, 25),
        ((inst >> 27) & 0x1f) as int == bits(inst, 31, 27),
        ((inst >> 25) & 0x3) as int == bits(inst, 26, 25),
        (inst & 0x7f) as int == bits(inst, 6, 0),
        ((inst >> 24) & 0xf) as int == bits(inst, 27, 24),
        ((inst >> 20) & 0xf) as int == bits(inst, 23, 20),
        ((inst >> 28) & 0xf) as int == bits(inst, 31, 28),
        ((inst & 0x4000_0000) > 0) == (bit(inst, 30) == 1),
        ((inst as i32) >> 20u32) as int == imm_i(inst),
        ((inst & 0xfffff000) as i32) as int == imm_u(inst),
        (((inst >> 20) & 0xfe0) | ((inst >> 7) & 0x1f)) == bits(inst, 31, 25) * 32 + bits(inst, 11, 7),
        (((inst >> 20) & 0xfe0) | ((inst >> 7) & 0x1f)) < 4096,
        (((inst >> 19) & 0x1000) | ((inst >> 20) & 0x7e0) | ((inst >> 7) & 0x1e) | ((inst << 4) & 0x800))
            == bit(inst, 31) * 4096 + bits(inst, 30, 25) * 32 + bits(inst, 11, 8) * 2 + bit(inst, 7) * 2048,
        (((inst >> 19) & 0x1000) | ((inst >> 20) & 0x7e0) | ((inst >> 7) & 0x1e) | ((inst << 4) & 0x800)) < 8192,
        (((inst >> 11) & 0x100000) | (inst & 0xff000) | ((inst >> 9) & 0x800) | ((inst >> 20) & 0x7fe))
            == bit(inst, 31) * 0x100000 + bits(inst, 30, 21) * 2 + bit(inst, 20) * 2048 + bits(inst, 19, 12) * 4096,
        (((inst >> 11) & 0x100000) | (inst & 0xff000) | ((inst >> 9) & 0x800) | ((inst >> 20) & 0x7fe)) < 0x200000,
        (inst & 0xffff) < 0x10000,
        (inst & 0xffff) & 0xffff == inst & 0xffff,
{
}

proof fn lemma_half(c: u32)
    by (bit_vector)
    ensures
        c < 0x10000 ==> c & 0xffff == c,
        ((c >> 13) & 0x7) as int == bits(c, 15, 13),
        (c & 0x3) as int == bits(c, 1, 0),
        c < 0x10000 ==> (c & 0xffff) & 0x3 == c & 0x3,
        ((c >> 10) & 0x3) as int == bits(c, 11, 10),
        ((c >> 10) & 0x3) < 4,
        ((c >> 5) & 0x3) as int == bits(c, 6, 5),
        ((c >> 5) & 0x3) < 4,
        ((c >> 2) & 0x1f) as int == bits(c, 6, 2),
        ((c >> 7) & 0x1f) as int == bits(c, 11, 7),
        ((c >> 2) & 0x7) as int == bits(c, 4, 2),
        ((c >> 7) & 0x7) as int == bits(c, 9, 7),
        (((c >> 2) & 0x1f) | (((c >> 12) & 1) << 5)) == bit(c, 12) * 32 + bits(c, 6, 2),
        (((c >> 2) & 0x1f) | (((c >> 12) & 1) << 5)) < 64,
        (((c >> 6) & 0x1) << 2 | ((c >> 5) & 0x1) << 3 | ((c >> 11) & 0x3) << 4 | ((c >> 7) & 0xf) << 6) == ciw_imm(c),
        (((c >> 6) & 0x1) << 2 | ((c >> 10) & 0x7) << 3 | ((c >> 5) & 0x1) << 6) == cl_imm(c),
        (((c >> 6) & 0x1) << 2 | ((c >> 10) & 0x7) << 3 | ((c >> 5) & 0x1) << 6) < 128,
        ((((c >> 12) & 1) << 9) | (((c >> 6) & 1) << 4) | (((c >> 5) & 1) << 6) | (((c >> 3) & 0x3) << 7) | (((c >> 2) & 1) << 5)) == c16sp_imm(c),
        ((((c >> 12) & 1) << 9) | (((c >> 6) & 1) << 4) | (((c >> 5) & 1) << 6) | (((c >> 3) & 0x3) << 7) | (((c >> 2) & 1) << 5)) < 1024,
        (((c >> 4) & 0x7) << 2 | ((c >> 12) & 0x1) << 5 | ((c >> 2) & 0x3) << 6) == clwsp_imm(c),
        (((c >> 4) & 0x7) << 2 | ((c >> 12) & 0x1) << 5 | ((c >> 2) & 0x3) << 6) < 256,
        (((c >> 9) & 0xf) << 2 | ((c >> 7) & 0x3) << 6) == cswsp_imm(c),
        (((c >> 9) & 0xf) << 2 | ((c >> 7) & 0x3) << 6) < 256,
        ((((c >> 12) & 1) << 11) | (((c >> 11) & 1) << 4) | (((c >> 9) & 0x3) << 8) | (((c >> 8) & 1) << 10)
            | (((c >> 7) & 1) << 6) | (((c >> 6) & 1) << 7) | (((c >> 3) & 0x7) << 1) | (((c >> 2) & 1) << 5))
            == bit(c, 12) * 2048 + bit(c, 11) * 16 + bits(c, 10, 9) * 256 + bit(c, 8) * 1024 + bit(c, 7) * 64
            + bit(c, 6) * 128 + bits(c, 5, 3) * 2 + bit(c, 2) * 32,
        ((((c >> 12) & 1) << 11) | (((c >> 11) & 1) << 4) | (((c >> 9) & 0x3) << 8) | (((c >> 8) & 1) << 10)
            | (((c >> 7) & 1) << 6) | (((c >> 6) & 1) << 7) | (((c >> 3) & 0x7) << 1) | (((c >> 2) & 1) << 5)) < 4096,
        ((((c >> 12) & 1) << 8) | (((c >> 5) & 0x3) << 6) | (((c >> 2) & 1) << 5) | (((c >> 10) & 0x3) << 3)
            | (((c >> 3) & 0x3) << 1)) == bit(c, 12) * 256 + bits(c, 11, 10) * 8 + bits(c, 6, 5) * 64 + bits(c, 4, 3) * 2
            + bit(c, 2) * 32,
        ((((c >> 12) & 1) << 8) | (((c >> 5) & 0x3) << 6) | (((c >> 2) & 1) << 5) | (((c >> 10) & 0x3) << 3)
            | (((c >> 3) & 0x3) << 1)) < 512,
{
}

// ---------------------------------------------------------------------------
// Executable decoder.
// ---------------------------------------------------------------------------

/// Sign-extends the low `bits` bits of `value`.
fn sign_extend(value: u32, bits: u32) -> (r: i32)
    requires
        bits == 6 || bits == 9 || bits == 10 || bits == 12 || bits == 13 || bits == 21,
        (bits == 6 ==> value < 64),
        (bits == 9 ==> value < 512),
        (bits == 10 ==> value < 1024),
        (bits == 12 ==> value < 4096),
        (bits == 13 ==> value < 8192),
        (bits == 21 ==> value < 0x200000),
    ensures
        bits == 6 ==> r as int == sext(value as int, 32),
        bits == 9 ==> r as int == sext(value as int, 256),
        bits == 10 ==> r as int == sext(value as int, 512),
        bits == 12 ==> r as int == sext(value as int, 2048),
        bits == 13 ==> r as int == sext(value as int, 4096),
        bits == 21 ==> r as int == sext(value as int, 0x100000),
{
    proof {
        lemma_sign_extend(value);
    }
    let shift = 32 - bits;
    if bits == 6 {
    } else if bits == 9 {
    } else if bits == 10 {
    } else if bits == 12 {
    } else if bits == 13 {
    } else {
    }
    ((value << shift) as i32) >> shift
}

/// Bit `bit` of `inst`.
fn cbit(inst: u32, bit_index: u32) -> (r: u32)
    requires
        bit_index < 32,
    ensures
        r as int == bit(inst, bit_index),
        r <= 1,
{
    proof {
        lemma_shifted_field(inst, bit_index);
    }
    (inst >> bit_index) & 1
}

fn decode_imm_i(inst: u32) -> (r: i32)
    ensures
        r as int == imm_i(inst),
{
    proof {
        lemma_word(inst);
    }
    (inst as i32) >> 20
}

fn decode_imm_s(inst: u32) -> (r: i32)
    ensures
        r as int == imm_s(inst),
{
    proof {
        lemma_word(inst);
    }
    let imm_u = ((inst >> 20) & 0xfe0) | ((inst >> 7) & 0x1f);
    sign_extend(imm_u, 12)
}

fn decode_imm_b(inst: u32) -> (r: i32)
    ensures
        r as int == imm_b(inst),
{
    proof {
        lemma_word(inst);
    }
    let imm_u = ((inst >> 19) & 0x1000) | ((inst >> 20) & 0x7e0) | ((inst >> 7) & 0x1e) | ((inst << 4) & 0x800);
    sign_extend(imm_u, 13)
}

fn decode_imm_u(inst: u32) -> (r: i32)
    ensures
        r as int == imm_u(inst),
{
    proof {
        lemma_word(inst);
    }
    (inst & 0xfffff000) as i32
}

fn decode_imm_j(inst: u32) -> (r: i32)
    ensures
        r as int == imm_j(inst),
{
    proof {
        lemma_word(inst);
    }
    let imm_u = ((inst >> 11) & 0x100000) | (inst & 0xff000) | ((inst >> 9) & 0x800) | ((inst >> 20) & 0x7fe);
    sign_extend(imm_u, 21)
}


fn field_rd(inst: u32) -> (r: usize)
    ensures
        r == rd_of(inst),
        r < 32,
{
    proof {
        lemma_word(inst);
    }
    ((inst >> 7) & 0x1f) as usize
}

fn field_rs1(inst: u32) -> (r: usize)
    ensures
        r == rs1_of(inst),
        r < 32,
{
    proof {
        lemma_word(inst);
    }
    ((inst >> 15) & 0x1f) as usize
}

fn field_rs2(inst: u32) -> (r: usize)
    ensures
        r == rs2_of(inst),
        r < 32,
{
    proof {
        lemma_word(inst);
    }
    ((inst >> 20) & 0x1f) as usize
}

fn field_funct3(inst: u32) -> (r: u32)
    ensures
        r as int == funct3_of(inst),
        r < 8,
{
    proof {
        lemma_word(inst);
    }
    (inst >> 12) & 0x7
}

fn field_funct7(inst: u32) -> (r: u32)
    ensures
        r as int == bits(inst, 31, 25),
{
    proof {
        lemma_word(inst);
    }
    (inst >> 25) & 0x7f
}

fn decode_load(inst: u32) -> (r: Option<Instruction>)
    ensures
        r matches Some(i) ==> i.regs_in_range(),
        r == spec_decode_load(inst),
{
    proof {
        lemma_word(inst);
    }
    let funct = match field_funct3(inst) {
        0x0 => IFunct::LB,
        0x1 => IFunct::LH,
        0x2 => IFunct::LW,
        0x4 => IFunct::LBU,
        0x5 => IFunct::LHU,
        _ => return None,
    };
    Some(Instruction::I { funct, rd: field_rd(inst), rs1: field_rs1(inst), imm: decode_imm_i(inst) })
}

fn decode_fence(inst: u32) -> (r: Option<Instruction>)
    ensures
        r matches Some(i) ==> i.regs_in_range(),
        r == spec_decode_fence(inst),
{
    proof {
        lemma_word(inst);
    }
    let funct = match field_funct3(inst) {
        0x0 => FenceFunct::Fence,
        0x1 => FenceFunct::FenceI,
        _ => return None,
    };
    let pred = (inst >> 24) & 0xf;
    let succ = (inst >> 20) & 0xf;
    let fm = (inst >> 28) & 0xf;
    Some(Instruction::Fence { funct, pred, succ, fm })
}

fn decode_op_imm(inst: u32) -> (r: Instruction)
    ensures
        r.regs_in_range(),
        r == spec_decode_op_imm(inst),
{
    proof {
        lemma_word(inst);
    }
    let rd = field_rd(inst);
    let rs1 = field_rs1(inst);
    let rs2 = field_rs2(inst);
    let imm = decode_imm_i(inst);
    let funct3 = field_funct3(inst);
    if funct3 == 0x0 {
        Instruction::I { funct: IFunct::ADDI, rd, rs1, imm }
    } else if funct3 == 0x1 {
        Instruction::I { funct: IFunct::SLLI, rd, rs1, imm: rs2 as i32 }
    } else if funct3 == 0x2 {
        Instruction::I { funct: IFunct::SLTI, rd, rs1, imm }
    } else if funct3 == 0x3 {
        Instruction::I { funct: IFunct::SLTIU, rd, rs1, imm }
    } else if funct3 == 0x4 {
        Instruction::I { funct: IFunct::XORI, rd, rs1, imm }
    } else if funct3 == 0x5 {
        if (inst & 0x4000_0000) > 0 {
            Instruction::I { funct: IFunct::SRAI, rd, rs1, imm: rs2 as i32 }
        } else {
            Instruction::I { funct: IFunct::SRLI, rd, rs1, imm: rs2 as i32 }
        }
    } else if funct3 == 0x6 {
        Instruction::I { funct: IFunct::ORI, rd, rs1, imm }
    } else {
        Instruction::I { funct: IFunct::ANDI, rd, rs1, imm }
    }
}

fn decode_store(inst: u32) -> (r: Option<Instruction>)
    ensures
        r matches Some(i) ==> i.regs_in_range(),
        r == spec_decode_store(inst),
{
    proof {
        lemma_word(inst);
    }
    let funct = match field_funct3(inst) {
        0x0 => SFunct::SB,
        0x1 => SFunct::SH,
        0x2 => SFunct::SW,
        _ => return None,
    };
    Some(Instruction::S { funct, rs1: field_rs1(inst), rs2: field_rs2(inst), imm: decode_imm_s(inst) })
}

fn decode_amo(inst: u32) -> (r: Option<Instruction>)
    ensures
        r matches Some(i) ==> i.regs_in_range(),
        r == spec_decode_amo(inst),
{
    proof {
        lemma_word(inst);
    }
    if field_funct3(inst) != 0x2 {
        return None;
    }
    let funct5 = (inst >> 27) & 0x1f;
    let aq = cbit(inst, 26) == 1;
    let rl = cbit(inst, 25) == 1;
    let rs2 = field_rs2(inst);
    let funct = match funct5 {
        0x02 => AFunct::LrW,
        0x03 => AFunct::ScW,
        0x01 => AFunct::AmoSwapW,
        0x00 => AFunct::AmoAddW,
        0x04 => AFunct::AmoXorW,
        0x0c => AFunct::AmoAndW,
        0x08 => AFunct::AmoOrW,
        0x10 => AFunct::AmoMinW,
        0x14 => AFunct::AmoMaxW,
        0x18 => AFunct::AmoMinuW,
        0x1c => AFunct::AmoMaxuW,
        _ => return None,
    };
    if funct5 == 0x02 && rs2 != 0 {
        return None;
    }
    Some(Instruction::A { funct, rd: field_rd(inst), rs1: field_rs1(inst), rs2, aq, rl })
}

fn decode_op(inst: u32) -> (r: Instruction)
    ensures
        r.regs_in_range(),
        r == spec_decode_op(inst),
{
    proof {
        lemma_word(inst);
    }
    let rd = field_rd(inst);
    let rs1 = field_rs1(inst);
    let rs2 = field_rs2(inst);
    let funct3 = field_funct3(inst);
    let funct7 = field_funct7(inst);
    if funct7 == 0x01 {
        let funct = match funct3 {
            0x0 => MFunct::MUL,
            0x1 => MFunct::MULH,
            0x2 => MFunct::MULHSU,
            0x3 => MFunct::MULHU,
            0x4 => MFunct::DIV,
            0x5 => MFunct::DIVU,
            0x6 => MFunct::REM,
            _ => MFunct::REMU,
        };
        return Instruction::M { funct, rd, rs1, rs2 };
    }
    let funct = match funct3 {
        0x0 => if funct7 == 0 {
            RFunct::ADD
        } else {
            RFunct::SUB
        },
        0x1 => RFunct::SLL,
        0x2 => RFunct::SLT,
        0x3 => RFunct::SLTU,
        0x4 => RFunct::XOR,
        0x5 => if funct7 == 0 {
            RFunct::SRL
        } else {
            RFunct::SRA
        },
        0x6 => RFunct::OR,
        _ => RFunct::AND,
    };
    Instruction::R { funct, rd, rs1, rs2 }
}

fn decode_branch(inst: u32) -> (r: Option<Instruction>)
    ensures
        r matches Some(i) ==> i.regs_in_range(),
        r == spec_decode_branch(inst),
{
    proof {
        lemma_word(inst);
    }
    let funct = match field_funct3(inst) {
        0x0 => BFunct::BEQ,
        0x1 => BFunct::BNE,
        0x4 => BFunct::BLT,
        0x5 => BFunct::BGE,
        0x6 => BFunct::BLTU,
        0x7 => BFunct::BGEU,
        _ => return None,
    };
    Some(Instruction::B { funct, rs1: field_rs1(inst), rs2: field_rs2(inst), imm: decode_imm_b(inst) })
}

fn decode_fp_load(inst: u32) -> (r: Option<Instruction>)
    ensures
        r matches Some(i) ==> i.regs_in_range(),
        r == spec_decode_fp_load(inst),
{
    proof {
        lemma_word(inst);
    }
    let funct = match field_funct3(inst) {
        0x1 => FLFunct::FLH,
        0x2 => FLFunct::FLW,
        0x3 => FLFunct::FLD,
        _ => return None,
    };
    Some(Instruction::FL { funct, rd: field_rd(inst), rs1: field_rs1(inst), imm: decode_imm_i(inst) })
}

fn decode_fp_store(inst: u32) -> (r: Option<Instruction>)
    ensures
        r matches Some(i) ==> i.regs_in_range(),
        r == spec_decode_fp_store(inst),
{
    proof {
        lemma_word(inst);
    }
    let funct = match field_funct3(inst) {
        0x1 => FSFunct::FSH,
        0x2 => FSFunct::FSW,
        0x3 => FSFunct::FSD,
        _ => return None,
    };
    Some(Instruction::FS { funct, rs1: field_rs1(inst), rs2: field_rs2(inst), imm: decode_imm_s(inst) })
}

fn decode_fused(inst: u32) -> (r: Option<Instruction>)
    ensures
        r matches Some(i) ==> i.regs_in_range(),
        r == spec_decode_fused(inst),
{
    proof {
        lemma_word(inst);
    }
    let opcode = inst & 0x7f;
    assert((inst >> 27u32) & 0x1fu32 < 32) by (bit_vector);
    let rs3 = ((inst >> 27) & 0x1f) as usize;
    let fmt = (inst >> 25) & 0x3;
    if fmt != 0 {
        return None;
    }
    let funct = if opcode == 0x43 {
        R4Funct::FmaddS
    } else if opcode == 0x47 {
        R4Funct::FmsubS
    } else if opcode == 0x4b {
        R4Funct::FnmsubS
    } else {
        R4Funct::FnmaddS
    };
    Some(
        Instruction::R4 {
            funct,
            rd: field_rd(inst),
            rs1: field_rs1(inst),
            rs2: field_rs2(inst),
            rs3,
            rm: field_funct3(inst),
        },
    )
}

fn decode_op_fp(inst: u32) -> (r: Option<Instruction>)
    ensures
        r matches Some(i) ==> i.regs_in_range(),
        r == spec_decode_op_fp(bits(inst, 31, 25), funct3_of(inst), rd_of(inst), rs1_of(inst), rs2_of(inst)),
{
    proof {
        lemma_word(inst);
    }
    let funct7 = field_funct7(inst);
    let rm = field_funct3(inst);
    let rd = field_rd(inst);
    let rs1 = field_rs1(inst);
    let rs2 = field_rs2(inst);
    match funct7 {
        0x00 => Some(Instruction::FR { funct: FRFunct::FaddS, rd, rs1, rs2, rm }),
        0x04 => Some(Instruction::FR { funct: FRFunct::FsubS, rd, rs1, rs2, rm }),
        0x08 => Some(Instruction::FR { funct: FRFunct::FmulS, rd, rs1, rs2, rm }),
        0x0c => Some(Instruction::FR { funct: FRFunct::FdivS, rd, rs1, rs2, rm }),
        0x10 => {
            let funct = match rm {
                0x0 => FRFunct::FsgnjS,
                0x1 => FRFunct::FsgnjnS,
                0x2 => FRFunct::FsgnjxS,
                _ => return None,
            };
            Some(Instruction::FR { funct, rd, rs1, rs2, rm })
        },
        0x14 => {
            let funct = match rm {
                0x0 => FRFunct::FminS,
                0x1 => FRFunct::FmaxS,
                _ => return None,
            };
            Some(Instruction::FR { funct, rd, rs1, rs2, rm })
        },
        0x2c => Some(Instruction::FI { funct: FIFunct::FsqrtS, rd, rs1, rm }),
        0x50 => {
            let funct = match rm {
                0x2 => FRFunct::FeqS,
                0x1 => FRFunct::FltS,
                0x0 => FRFunct::FleS,
                _ => return None,
            };
            Some(Instruction::FR { funct, rd, rs1, rs2, rm })
        },
        0x60 => {
            let funct = match rs2 {
                0x0 => FIFunct::FcvtWS,
                0x1 => FIFunct::FcvtWuS,
                _ => return None,
            };
            Some(Instruction::FI { funct, rd, rs1, rm })
        },
        0x68 => {
            let funct = match rs2 {
                0x0 => FIFunct::FcvtSW,
                0x1 => FIFunct::FcvtSWU,
                _ => return None,
            };
            Some(Instruction::FI { funct, rd, rs1, rm })
        },
        0x70 => {
            let funct = match rm {
                0x0 => FIFunct::FmvXW,
                0x1 => FIFunct::FclassS,
                _ => return None,
            };
            Some(Instruction::FI { funct, rd, rs1, rm })
        },
        0x78 => Some(Instruction::FI { funct: FIFunct::FmvWX, rd, rs1, rm }),
        _ => None,
    }
}

fn decode_32(inst: u32) -> (r: Option<Instruction>)
    ensures
        r matches Some(i) ==> i.regs_in_range(),
        r == spec_decode_32(inst),
{
    proof {
        lemma_word(inst);
    }
    let opcode = inst & 0x7f;
    match opcode {
        0x03 => decode_load(inst),
        0x0f => decode_fence(inst),
        0x13 => Some(decode_op_imm(inst)),
        0x23 => decode_store(inst),
        0x2f => decode_amo(inst),
        0x33 => Some(decode_op(inst)),
        0x37 => Some(Instruction::U { funct: UFunct::LUI, rd: field_rd(inst), imm: decode_imm_u(inst) }),
        0x17 => Some(Instruction::U { funct: UFunct::AUIPC, rd: field_rd(inst), imm: decode_imm_u(inst) }),
        0x63 => decode_branch(inst),
        0x67 => Some(Instruction::I { funct: IFunct::JALR, rd: field_rd(inst), rs1: field_rs1(inst), imm: decode_imm_i(inst) }),
        0x07 => decode_fp_load(inst),
        0x27 => decode_fp_store(inst),
        0x43 | 0x47 | 0x4b | 0x4f => decode_fused(inst),
        0x53 => decode_op_fp(inst),
        0x6f => Some(Instruction::J { funct: JFunct::JAL, rd: field_rd(inst), imm: decode_imm_j(inst) }),
        _ => None,
    }
}


fn decode_cimm6(c: u32) -> (r: i32)
    ensures
        r as int == cimm6(c),
        -32 <= r < 32,
{
    proof {
        lemma_half(c);
    }
    let v = ((c >> 2) & 0x1f) | (cbit(c, 12) << 5);
    sign_extend(v, 6)
}

fn decode_ciw_imm(c: u32) -> (r: u32)
    ensures
        r as int == ciw_imm(c),
{
    proof {
        lemma_half(c);
    }
    let v = ((c >> 6) & 0x1) << 2 | ((c >> 5) & 0x1) << 3 | ((c >> 11) & 0x3) << 4 | ((c >> 7) & 0xf) << 6;
    v
}

fn decode_cl_imm(c: u32) -> (r: u32)
    ensures
        r as int == cl_imm(c),
        r < 128,
{
    proof {
        lemma_half(c);
    }
    let v = ((c >> 6) & 0x1) << 2 | ((c >> 10) & 0x7) << 3 | ((c >> 5) & 0x1) << 6;
    v
}

fn decode_c16sp_imm(c: u32) -> (r: u32)
    ensures
        r as int == c16sp_imm(c),
        r < 1024,
{
    proof {
        lemma_half(c);
    }
    let v = (cbit(c, 12) << 9) | (cbit(c, 6) << 4) | (cbit(c, 5) << 6) | (((c >> 3) & 0x3) << 7) | (cbit(c, 2) << 5);
    v
}

fn decode_clwsp_imm(c: u32) -> (r: u32)
    ensures
        r as int == clwsp_imm(c),
        r < 256,
{
    proof {
        lemma_half(c);
    }
    let v = ((c >> 4) & 0x7) << 2 | ((c >> 12) & 0x1) << 5 | ((c >> 2) & 0x3) << 6;
    v
}

fn decode_cswsp_imm(c: u32) -> (r: u32)
    ensures
        r as int == cswsp_imm(c),
        r < 256,
{
    proof {
        lemma_half(c);
    }
    let v = ((c >> 9) & 0xf) << 2 | ((c >> 7) & 0x3) << 6;
    v
}

fn decode_cj_imm(c: u32) -> (r: i32)
    ensures
        r as int == cj_imm(c),
{
    proof {
        lemma_half(c);
    }
    let imm = (cbit(c, 12) << 11) | (cbit(c, 11) << 4) | (((c >> 9) & 0x3) << 8) | (cbit(c, 8) << 10)
        | (cbit(c, 7) << 6) | (cbit(c, 6) << 7) | (((c >> 3) & 0x7) << 1) | (cbit(c, 2) << 5);
    sign_extend(imm, 12)
}

fn decode_cb_imm(c: u32) -> (r: i32)
    ensures
        r as int == cb_imm(c),
{
    proof {
        lemma_half(c);
    }
    let imm = (cbit(c, 12) << 8) | (((c >> 5) & 0x3) << 6) | (cbit(c, 2) << 5) | (((c >> 10) & 0x3) << 3)
        | (((c >> 3) & 0x3) << 1);
    sign_extend(imm, 9)
}

/// Low five bits of `c` starting at `lo`, as a register index.
fn creg5(c: u32, lo: u32) -> (r: usize)
    requires
        lo == 2 || lo == 7,
    ensures
        lo == 2 ==> r as int == bits(c, 6, 2),
        lo == 7 ==> r as int == bits(c, 11, 7),
        r < 32,
{
    proof {
        lemma_half(c);
        lemma_shifted_field(c, lo);
    }
    ((c >> lo) & 0x1f) as usize
}

/// One of the eight popular registers `x8..x15`, selected by a three-bit field at `lo`.
fn creg3(c: u32, lo: u32) -> (r: usize)
    requires
        lo == 2 || lo == 7,
    ensures
        lo == 2 ==> r as int == 8 + bits(c, 4, 2),
        lo == 7 ==> r as int == 8 + bits(c, 9, 7),
        8 <= r < 16,
{
    proof {
        lemma_half(c);
        lemma_shifted_field(c, lo);
    }
    8 + ((c >> lo) & 0x7) as usize
}

fn decode_16_q0(c: u32) -> (r: Option<Instruction>)
    requires
        c < 0x10000,
        bits(c, 1, 0) == 0,
    ensures
        r matches Some(i) ==> i.regs_in_range(),
        r == spec_decode_16(c),
{
    proof {
        lemma_half(c);
    }
    let funct3 = (c >> 13) & 0x7;
    match funct3 {
        0b000 => {
            // C.ADDI4SPN
            let nzuimm = decode_ciw_imm(c);
            if nzuimm == 0 {
                return None;
            }
            Some(Instruction::I { funct: IFunct::ADDI, rd: creg3(c, 2), rs1: 2, imm: nzuimm as i32 })
        },
        0b010 => {
            // C.LW
            Some(Instruction::I { funct: IFunct::LW, rd: creg3(c, 2), rs1: creg3(c, 7), imm: decode_cl_imm(c) as i32 })
        },
        0b011 => {
            // C.FLW
            Some(Instruction::FL { funct: FLFunct::FLW, rd: creg3(c, 2), rs1: creg3(c, 7), imm: decode_cl_imm(c) as i32 })
        },
        0b110 => {
            // C.SW
            Some(Instruction::S { funct: SFunct::SW, rs1: creg3(c, 7), rs2: creg3(c, 2), imm: decode_cl_imm(c) as i32 })
        },
        0b111 => {
            // C.FSW
            Some(Instruction::FS { funct: FSFunct::FSW, rs1: creg3(c, 7), rs2: creg3(c, 2), imm: decode_cl_imm(c) as i32 })
        },
        _ => None,
    }
}

fn decode_16_q1(c: u32) -> (r: Option<Instruction>)
    requires
        c < 0x10000,
        bits(c, 1, 0) == 1,
    ensures
        r matches Some(i) ==> i.regs_in_range(),
        r == spec_decode_16(c),
{
    proof {
        lemma_half(c);
    }
    let funct3 = (c >> 13) & 0x7;
    match funct3 {
        0b000 => {
            // C.NOP / C.ADDI
            let rd = creg5(c, 7);
            Some(Instruction::I { funct: IFunct::ADDI, rd, rs1: rd, imm: decode_cimm6(c) })
        },
        0b001 => {
            // C.JAL
            Some(Instruction::J { funct: JFunct::JAL, rd: 1, imm: decode_cj_imm(c) })
        },
        0b010 => {
            // C.LI
            Some(Instruction::I { funct: IFunct::ADDI, rd: creg5(c, 7), rs1: 0, imm: decode_cimm6(c) })
        },
        0b011 => {
            let rd = creg5(c, 7);
            if rd == 2 {
                // C.ADDI16SP
                let nzimm = decode_c16sp_imm(c);
                if nzimm == 0 {
                    return None;
                }
                Some(Instruction::I { funct: IFunct::ADDI, rd: 2, rs1: 2, imm: sign_extend(nzimm, 10) })
            } else {
                // C.LUI
                let imm6 = ((c >> 2) & 0x1f) | (cbit(c, 12) << 5);
                if rd == 0 || imm6 == 0 {
                    return None;
                }
                Some(Instruction::U { funct: UFunct::LUI, rd, imm: decode_cimm6(c) * 4096 })
            }
        },
        0b100 => {
            let op = (c >> 10) & 0x3;
            let rd = creg3(c, 7);
            if op == 0b00 {
                // C.SRLI
                if cbit(c, 12) == 1 {
                    return None;
                }
                Some(Instruction::I { funct: IFunct::SRLI, rd, rs1: rd, imm: creg5(c, 2) as i32 })
            } else if op == 0b01 {
                // C.SRAI
                if cbit(c, 12) == 1 {
                    return None;
                }
                Some(Instruction::I { funct: IFunct::SRAI, rd, rs1: rd, imm: creg5(c, 2) as i32 })
            } else if op == 0b10 {
                // C.ANDI
                Some(Instruction::I { funct: IFunct::ANDI, rd, rs1: rd, imm: decode_cimm6(c) })
            } else {
                // C.SUB / C.XOR / C.OR / C.AND
                if cbit(c, 12) == 1 {
                    return None;
                }
                let funct2 = (c >> 5) & 0x3;
                let funct = if funct2 == 0b00 {
                    RFunct::SUB
                } else if funct2 == 0b01 {
                    RFunct::XOR
                } else if funct2 == 0b10 {
                    RFunct::OR
                } else {
                    RFunct::AND
                };
                Some(Instruction::R { funct, rd, rs1: rd, rs2: creg3(c, 2) })
            }
        },
        0b101 => {
            // C.J
            Some(Instruction::J { funct: JFunct::JAL, rd: 0, imm: decode_cj_imm(c) })
        },
        0b110 => {
            // C.BEQZ
            Some(Instruction::B { funct: BFunct::BEQ, rs1: creg3(c, 7), rs2: 0, imm: decode_cb_imm(c) })
        },
        _ => {
            // C.BNEZ
            Some(Instruction::B { funct: BFunct::BNE, rs1: creg3(c, 7), rs2: 0, imm: decode_cb_imm(c) })
        },
    }
}

fn decode_16_q2(c: u32) -> (r: Option<Instruction>)
    requires
        c < 0x10000,
        bits(c, 1, 0) == 2,
    ensures
        r matches Some(i) ==> i.regs_in_range(),
        r == spec_decode_16(c),
{
    proof {
        lemma_half(c);
    }
    let funct3 = (c >> 13) & 0x7;
    let rd = creg5(c, 7);
    let rs2 = creg5(c, 2);
    match funct3 {
        0b000 => {
            // C.SLLI
            if rd == 0 || cbit(c, 12) == 1 {
                return None;
            }
            Some(Instruction::I { funct: IFunct::SLLI, rd, rs1: rd, imm: rs2 as i32 })
        },
        0b010 => {
            // C.LWSP
            if rd == 0 {
                return None;
            }
            Some(Instruction::I { funct: IFunct::LW, rd, rs1: 2, imm: decode_clwsp_imm(c) as i32 })
        },
        0b011 => {
            // C.FLWSP
            if rd == 0 {
                return None;
            }
            Some(Instruction::FL { funct: FLFunct::FLW, rd, rs1: 2, imm: decode_clwsp_imm(c) as i32 })
        },
        0b100 => {
            if cbit(c, 12) == 0 {
                if rd == 0 {
                    // C.JR and C.MV need a non-zero rd
                    None
                } else if rs2 == 0 {
                    // C.JR
                    Some(Instruction::I { funct: IFunct::JALR, rd: 0, rs1: rd, imm: 0 })
                } else {
                    // C.MV
                    Some(Instruction::R { funct: RFunct::ADD, rd, rs1: 0, rs2 })
                }
            } else if rd == 0 && rs2 == 0 {
                Some(Instruction::Ebreak)
            } else if rd == 0 {
                // C.ADD with rd == x0
                None
            } else if rs2 == 0 {
                // C.JALR
                Some(Instruction::I { funct: IFunct::JALR, rd: 1, rs1: rd, imm: 0 })
            } else {
                // C.ADD
                Some(Instruction::R { funct: RFunct::ADD, rd, rs1: rd, rs2 })
            }
        },
        0b110 => {
            // C.SWSP
            Some(Instruction::S { funct: SFunct::SW, rs1: 2, rs2, imm: decode_cswsp_imm(c) as i32 })
        },
        0b111 => {
            // C.FSWSP
            Some(Instruction::FS { funct: FSFunct::FSW, rs1: 2, rs2, imm: decode_cswsp_imm(c) as i32 })
        },
        _ => None,
    }
}

fn decode_16(c: u32) -> (r: Option<Instruction>)
    requires
        c < 0x10000,
    ensures
        r matches Some(i) ==> i.regs_in_range(),
        r == spec_decode_16(c),
{
    proof {
        lemma_half(c);
    }
    let quadrant = c & 0x3;
    if quadrant == 0b00 {
        decode_16_q0(c)
    } else if quadrant == 0b01 {
        decode_16_q1(c)
    } else if quadrant == 0b10 {
        decode_16_q2(c)
    } else {
        None
    }
}

impl Instruction {
    /// Decodes `inst` into an instruction and its length in bytes, or
    /// `None` when the decoder rejects the encoding.
    pub fn try_parse_with_len(inst: u32) -> (r: Option<(Self, u32)>)
        ensures
            r matches Some((i, _)) ==> i.regs_in_range(),
            r == spec_decode(inst),
    {
        proof {
            lemma_word(inst);
        }
        if (inst & 0x3) != 0x3 {
            let c = inst & 0xffff;
            match decode_16(c) {
                Some(i) => Some((i, 2)),
                None => None,
            }
        } else {
            match decode_32(inst) {
                Some(i) => Some((i, 4)),
                None => None,
            }
        }
    }

    /// Decodes `inst` into an instruction and its length in bytes (2 for
    /// compressed encodings, 4 otherwise).
    pub fn parse_with_len(inst: u32) -> (r: (Self, u32))
        requires
            decodable(inst),
        ensures
            r.0.regs_in_range(),
            Some(r) == spec_decode(inst),
    {
        proof {
            lemma_word(inst);
        }
        match Self::try_parse_with_len(inst) {
            Some(r) => r,
            None => {
                proof {
                    assert(false);
                }
                (Instruction::Ebreak, 0)
            },
        }
    }

    /// Decodes `inst`, dropping the length.
    pub fn parse(inst: u32) -> (r: Self)
        requires
            decodable(inst),
        ensures
            r.regs_in_range(),
            r == spec_decode(inst).unwrap().0,
    {
        proof {
            lemma_word(inst);
        }
        Self::parse_with_len(inst).0
    }
}

} // verus!
