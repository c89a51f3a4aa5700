//! The RV32IMAFC hart: architectural state and the execution of one decoded
//! instruction.
//!
//! The meaning of every instruction is given by [`step`], a function of the
//! hart's state, the memory's model, the instruction and its length.
//! Single-precision arithmetic (`needs_fpu`) is outside the library: the host
//! computes those results and hands them to [`Hart::retire_fpu`].
use vstd::prelude::*;

use crate::instruction::{AFunct, BFunct, FIFunct, FLFunct, FRFunct, FSFunct, IFunct, Instruction, MFunct, RFunct, SFunct, UFunct};
use crate::memory::{RamLike, DRAM_SIZE};

verus! {

/// One hardware thread: integer and floating-point register files, program
/// counter and the LR/SC reservation.
#[derive(Debug)]
pub struct Hart {
    pub regs: [u32; 32],
    pub fregs: [u32; 32],
    pub pc: u32,
    pub reservation_addr: Option<u32>,
}

/// The architectural state of a [`Hart`].
pub struct HartState {
    pub regs: Seq<u32>,
    pub fregs: Seq<u32>,
    pub pc: u32,
    pub reservation_addr: Option<u32>,
}

impl View for Hart {
    type V = HartState;

    open spec fn view(&self) -> HartState {
        HartState {
            regs: self.regs@,
            fregs: self.fregs@,
            pc: self.pc,
            reservation_addr: self.reservation_addr,
        }
    }
}

// ---------------------------------------------------------------------------
// Arithmetic on 32-bit words.
// ---------------------------------------------------------------------------

/// Two's-complement value of a word.
pub open spec fn signed(x: u32) -> int {
    if x >= 0x8000_0000 {
        x - 0x1_0000_0000
    } else {
        x as int
    }
}

/// `v` modulo 2^32, as a word.
pub open spec fn wrap(v: int) -> u32 {
    (v % 0x1_0000_0000) as u32
}

pub open spec fn abs(x: int) -> int {
    if x < 0 {
        -x
    } else {
        x
    }
}

/// Division rounding toward zero.
pub open spec fn tdiv(x: int, y: int) -> int {
    if (x < 0) == (y < 0) {
        abs(x) / abs(y)
    } else {
        -(abs(x) / abs(y))
    }
}

/// Remainder of [`tdiv`]: it takes the sign of the dividend.
pub open spec fn trem(x: int, y: int) -> int {
    if x < 0 {
        -(abs(x) % abs(y))
    } else {
        abs(x) % abs(y)
    }
}

/// Register-register operations of the base ISA.
pub open spec fn alu_r(f: RFunct, a: u32, b: u32) -> u32 {
    match f {
        RFunct::ADD => wrap(a + b),
        RFunct::SUB => wrap(a - b),
        RFunct::SLL => a << (b & 0x1f),
        RFunct::SLT => if signed(a) < signed(b) { 1 } else { 0 },
        RFunct::SLTU => if a < b { 1 } else { 0 },
        RFunct::XOR => a ^ b,
        RFunct::SRL => a >> (b & 0x1f),
        RFunct::SRA => ((a as i32) >> (b & 0x1f)) as u32,
        RFunct::OR => a | b,
        RFunct::AND => a & b,
    }
}

/// M-extension operations; division by zero and signed overflow give the
/// results the ISA prescribes.
pub open spec fn mul_div(f: MFunct, a: u32, b: u32) -> u32 {
    match f {
        MFunct::MUL => wrap(a * b),
        MFunct::MULH => wrap((signed(a) * signed(b)) / 0x1_0000_0000),
        MFunct::MULHSU => wrap((signed(a) * b) / 0x1_0000_0000),
        MFunct::MULHU => ((a * b) / 0x1_0000_0000) as u32,
        MFunct::DIV => if b == 0 {
            0xffff_ffff
        } else if a == 0x8000_0000 && b == 0xffff_ffff {
            0x8000_0000
        } else {
            wrap(tdiv(signed(a), signed(b)))
        },
        MFunct::DIVU => if b == 0 {
            0xffff_ffff
        } else {
            a / b
        },
        MFunct::REM => if b == 0 {
            a
        } else if a == 0x8000_0000 && b == 0xffff_ffff {
            0
        } else {
            wrap(trem(signed(a), signed(b)))
        },
        MFunct::REMU => if b == 0 {
            a
        } else {
            a % b
        },
    }
}

/// Register-immediate operations (OP-IMM); shifts use the low five bits of
/// the immediate.
pub open spec fn alu_i(f: IFunct, a: u32, imm: i32) -> u32 {
    match f {
        IFunct::ADDI => wrap(a + imm),
        IFunct::SLTI => if signed(a) < imm { 1 } else { 0 },
        IFunct::SLTIU => if a < wrap(imm as int) { 1 } else { 0 },
        IFunct::XORI => a ^ wrap(imm as int),
        IFunct::ORI => a | wrap(imm as int),
        IFunct::ANDI => a & wrap(imm as int),
        IFunct::SLLI => a << (wrap(imm as int) & 0x1f),
        IFunct::SRLI => a >> (wrap(imm as int) & 0x1f),
        _ => ((a as i32) >> (wrap(imm as int) & 0x1f)) as u32,
    }
}

/// Whether a conditional branch is taken.
pub open spec fn branch_taken(f: BFunct, a: u32, b: u32) -> bool {
    match f {
        BFunct::BEQ => a == b,
        BFunct::BNE => a != b,
        BFunct::BLT => signed(a) < signed(b),
        BFunct::BGE => signed(a) >= signed(b),
        BFunct::BLTU => a < b,
        BFunct::BGEU => a >= b,
    }
}

/// The value an AMO instruction writes back, from the old memory word and `rs2`.
pub open spec fn amo_result(f: AFunct, old: u32, rhs: u32) -> u32 {
    match f {
        AFunct::AmoSwapW => rhs,
        AFunct::AmoAddW => wrap(old + rhs),
        AFunct::AmoXorW => old ^ rhs,
        AFunct::AmoAndW => old & rhs,
        AFunct::AmoOrW => old | rhs,
        AFunct::AmoMinW => if signed(old) < signed(rhs) { old } else { rhs },
        AFunct::AmoMaxW => if signed(old) > signed(rhs) { old } else { rhs },
        AFunct::AmoMinuW => if old < rhs { old } else { rhs },
        _ => if old > rhs { old } else { rhs },
    }
}

// ---------------------------------------------------------------------------
// Single-precision values, read from their IEEE 754 bit patterns.
// ---------------------------------------------------------------------------

/// The canonical quiet NaN.
pub open spec fn canonical_nan() -> u32 {
    0x7fc0_0000
}

pub open spec fn f32_is_nan(x: u32) -> bool {
    (x >> 23) & 0xff == 0xff && x & 0x7f_ffff != 0
}

/// Both values are zeros (of any sign).
pub open spec fn f32_both_zero(a: u32, b: u32) -> bool {
    a & 0x7fff_ffff == 0 && b & 0x7fff_ffff == 0
}

/// Numeric equality of two non-NaN values.
pub open spec fn f32_eq(a: u32, b: u32) -> bool {
    a == b || f32_both_zero(a, b)
}

/// Numeric order of two non-NaN values (sign-magnitude encoding, with the
/// two zeros equal).
pub open spec fn f32_lt(a: u32, b: u32) -> bool {
    if f32_both_zero(a, b) {
        false
    } else if a >= 0x8000_0000 && b < 0x8000_0000 {
        true
    } else if a < 0x8000_0000 && b >= 0x8000_0000 {
        false
    } else if a < 0x8000_0000 {
        a < b
    } else {
        a > b
    }
}

/// FMIN.S: a NaN operand is ignored; -0 is below +0.
pub open spec fn f32_min(a: u32, b: u32) -> u32 {
    if f32_is_nan(a) && f32_is_nan(b) {
        canonical_nan()
    } else if f32_is_nan(a) {
        b
    } else if f32_is_nan(b) {
        a
    } else if f32_lt(a, b) {
        a
    } else if f32_lt(b, a) {
        b
    } else if a == 0x8000_0000 || b == 0x8000_0000 {
        0x8000_0000
    } else {
        a
    }
}

/// FMAX.S: a NaN operand is ignored; +0 is above -0.
pub open spec fn f32_max(a: u32, b: u32) -> u32 {
    if f32_is_nan(a) && f32_is_nan(b) {
        canonical_nan()
    } else if f32_is_nan(a) {
        b
    } else if f32_is_nan(b) {
        a
    } else if f32_lt(b, a) {
        a
    } else if f32_lt(a, b) {
        b
    } else if a == 0 || b == 0 {
        0
    } else {
        a
    }
}

/// FCLASS.S: the one-hot class mask of a value.
pub open spec fn f32_class(x: u32) -> u32 {
    let sign = x >= 0x8000_0000;
    let exp = (x >> 23) & 0xff;
    let frac = x & 0x7f_ffff;
    if exp == 0xff {
        if frac == 0 {
            if sign { 1 } else { 0x80 }
        } else if frac >= 0x40_0000 {
            0x200
        } else {
            0x100
        }
    } else if exp == 0 {
        if frac == 0 {
            if sign { 0x8 } else { 0x10 }
        } else if sign {
            0x4
        } else {
            0x20
        }
    } else if sign {
        0x2
    } else {
        0x40
    }
}

/// FR-format operations that read and write floating-point registers and
/// need no arithmetic: sign injection and min/max.
pub open spec fn fp_bits_op(f: FRFunct, a: u32, b: u32) -> u32 {
    match f {
        FRFunct::FsgnjS => (a & 0x7fff_ffff) | (b & 0x8000_0000),
        FRFunct::FsgnjnS => (a & 0x7fff_ffff) | (!b & 0x8000_0000),
        FRFunct::FsgnjxS => (a & 0x7fff_ffff) | ((a ^ b) & 0x8000_0000),
        FRFunct::FminS => f32_min(a, b),
        _ => f32_max(a, b),
    }
}

/// FR-format comparisons, writing 1 or 0 to an integer register; any NaN
/// operand makes the comparison false.
pub open spec fn fp_compare(f: FRFunct, a: u32, b: u32) -> u32 {
    if f32_is_nan(a) || f32_is_nan(b) {
        0
    } else {
        let holds = match f {
            FRFunct::FeqS => f32_eq(a, b),
            FRFunct::FltS => f32_lt(a, b),
            _ => f32_lt(a, b) || f32_eq(a, b),
        };
        if holds { 1 } else { 0 }
    }
}

/// Instructions whose result is single-precision arithmetic, computed by the host.
pub open spec fn needs_fpu(inst: Instruction) -> bool {
    match inst {
        Instruction::R4 { .. } => true,
        Instruction::FR { funct, .. } => match funct {
            FRFunct::FaddS | FRFunct::FsubS | FRFunct::FmulS | FRFunct::FdivS => true,
            _ => false,
        },
        Instruction::FI { funct, .. } => match funct {
            FIFunct::FsqrtS | FIFunct::FcvtWS | FIFunct::FcvtWuS | FIFunct::FcvtSW | FIFunct::FcvtSWU => true,
            _ => false,
        },
        _ => false,
    }
}

// ---------------------------------------------------------------------------
// The step relation.
// ---------------------------------------------------------------------------

/// The value of a load, 0 when the memory refuses it.
pub open spec fn load_or_zero<M: RamLike>(m: M::Model, addr: u32, size: u32) -> u32 {
    match M::spec_load(m, addr, size) {
        Ok(v) => v,
        Err(_) => 0,
    }
}

/// The memory after a store (a refused store changes what the memory says it changes).
pub open spec fn store_to<M: RamLike>(m: M::Model, addr: u32, size: u32, value: u32) -> M::Model {
    M::spec_store(m, addr, size, value).0
}

/// The reservation after a store to `addr`: a store to the reserved word clears it.
pub open spec fn reservation_after_store(res: Option<u32>, addr: u32) -> Option<u32> {
    match res {
        Some(r) => if addr / 4 == r / 4 {
            None
        } else {
            res
        },
        None => None,
    }
}

pub open spec fn with_reg(s: HartState, rd: usize, v: u32) -> HartState {
    HartState { regs: s.regs.update(rd as int, v), fregs: s.fregs, pc: s.pc, reservation_addr: s.reservation_addr }
}

pub open spec fn with_freg(s: HartState, rd: usize, v: u32) -> HartState {
    HartState { regs: s.regs, fregs: s.fregs.update(rd as int, v), pc: s.pc, reservation_addr: s.reservation_addr }
}

pub open spec fn with_pc(s: HartState, pc: u32) -> HartState {
    HartState { regs: s.regs, fregs: s.fregs, pc, reservation_addr: s.reservation_addr }
}

pub open spec fn with_reservation(s: HartState, res: Option<u32>) -> HartState {
    HartState { regs: s.regs, fregs: s.fregs, pc: s.pc, reservation_addr: res }
}

/// The state in which an instruction of `len` bytes starts: `x0` reads as
/// zero and the program counter already points past the instruction.
pub open spec fn fetched(s: HartState, len: u32) -> HartState {
    with_pc(with_reg(s, 0, 0), wrap(s.pc + len))
}

/// Sign extension of the low byte.
pub open spec fn sext8(v: u32) -> u32 {
    if v % 256 >= 128 {
        (v % 256 + 0xffff_ff00) as u32
    } else {
        v % 256
    }
}

/// Sign extension of the low half-word.
pub open spec fn sext16(v: u32) -> u32 {
    if v % 0x10000 >= 0x8000 {
        (v % 0x10000 + 0xffff_0000) as u32
    } else {
        v % 0x10000
    }
}

/// Effect of an I-format instruction at address `pc0`, from the fetched state `p`.
pub open spec fn step_i<M: RamLike>(pc0: u32, p: HartState, m: M::Model, f: IFunct, rd: usize, rs1: usize, imm: i32) -> (
    HartState,
    M::Model,
) {
    let a = p.regs[rs1 as int];
    let addr = wrap(a + imm);
    match f {
        IFunct::JALR => (with_reg(with_pc(p, addr & 0xffff_fffe), rd, p.pc), m),
        IFunct::LB => (with_reg(p, rd, sext8(load_or_zero::<M>(m, addr, 8))), m),
        IFunct::LH => (with_reg(p, rd, sext16(load_or_zero::<M>(m, addr, 16))), m),
        IFunct::LW => (with_reg(p, rd, load_or_zero::<M>(m, addr, 32)), m),
        IFunct::LBU => (with_reg(p, rd, load_or_zero::<M>(m, addr, 8)), m),
        IFunct::LHU => (with_reg(p, rd, load_or_zero::<M>(m, addr, 16)), m),
        _ => (with_reg(p, rd, alu_i(f, a, imm)), m),
    }
}

/// Effect of a store of `size` bits of `value` at `base + imm`.
pub open spec fn step_store<M: RamLike>(p: HartState, m: M::Model, base: u32, imm: i32, size: u32, value: u32) -> (
    HartState,
    M::Model,
) {
    let addr = wrap(base + imm);
    (with_reservation(p, reservation_after_store(p.reservation_addr, addr)), store_to::<M>(m, addr, size, value))
}

/// Effect of an A-extension instruction.
pub open spec fn step_a<M: RamLike>(p: HartState, m: M::Model, f: AFunct, rd: usize, rs1: usize, rs2: usize) -> (
    HartState,
    M::Model,
) {
    let addr = p.regs[rs1 as int];
    match f {
        AFunct::LrW => (with_reservation(with_reg(p, rd, load_or_zero::<M>(m, addr, 32)), Some(addr)), m),
        AFunct::ScW => {
            let success = p.reservation_addr == Some(addr);
            let m2 = if success { store_to::<M>(m, addr, 32, p.regs[rs2 as int]) } else { m };
            (with_reservation(with_reg(p, rd, if success { 0 } else { 1 }), None), m2)
        },
        _ => {
            let old = load_or_zero::<M>(m, addr, 32);
            let new = amo_result(f, old, p.regs[rs2 as int]);
            (
                with_reservation(with_reg(p, rd, old), reservation_after_store(p.reservation_addr, addr)),
                store_to::<M>(m, addr, 32, new),
            )
        },
    }
}

/// Effect of an FL-format load into a floating-point register. FLH keeps the
/// half-word in the low 16 bits; FLD keeps the low word.
pub open spec fn step_fl<M: RamLike>(p: HartState, m: M::Model, f: FLFunct, rd: usize, rs1: usize, imm: i32) -> (
    HartState,
    M::Model,
) {
    let addr = wrap(p.regs[rs1 as int] + imm);
    match f {
        FLFunct::FLH => (with_freg(p, rd, match M::spec_load(m, addr, 16) {
            Ok(v) => v & 0xffff,
            Err(_) => 0,
        }), m),
        _ => (with_freg(p, rd, load_or_zero::<M>(m, addr, 32)), m),
    }
}

/// Effect of an FS-format store. FSD writes the low word and all ones above it.
pub open spec fn step_fs<M: RamLike>(p: HartState, m: M::Model, f: FSFunct, rs1: usize, rs2: usize, imm: i32) -> (
    HartState,
    M::Model,
) {
    let base = p.regs[rs1 as int];
    let value = p.fregs[rs2 as int];
    match f {
        FSFunct::FSH => step_store::<M>(p, m, base, imm, 16, value),
        FSFunct::FSW => step_store::<M>(p, m, base, imm, 32, value),
        FSFunct::FSD => {
            let addr = wrap(base + imm);
            let m1 = store_to::<M>(m, addr, 32, value);
            let m2 = store_to::<M>(m1, wrap(addr + 4), 32, 0xffff_ffff);
            (with_reservation(p, reservation_after_store(p.reservation_addr, addr)), m2)
        },
    }
}

/// Effect of `inst`, located at `pc0`, from the fetched state `p`.
pub open spec fn step_body<M: RamLike>(pc0: u32, p: HartState, m: M::Model, inst: Instruction) -> (
    HartState,
    M::Model,
) {
    match inst {
        Instruction::R { funct, rd, rs1, rs2 } => (with_reg(p, rd, alu_r(funct, p.regs[rs1 as int], p.regs[rs2 as int])), m),
        Instruction::M { funct, rd, rs1, rs2 } => (with_reg(p, rd, mul_div(funct, p.regs[rs1 as int], p.regs[rs2 as int])), m),
        Instruction::I { funct, rd, rs1, imm } => step_i::<M>(pc0, p, m, funct, rd, rs1, imm),
        Instruction::S { funct, rs1, rs2, imm } => {
            let size: u32 = match funct {
                SFunct::SB => 8,
                SFunct::SH => 16,
                SFunct::SW => 32,
            };
            step_store::<M>(p, m, p.regs[rs1 as int], imm, size, p.regs[rs2 as int])
        },
        Instruction::B { funct, rs1, rs2, imm } => if branch_taken(funct, p.regs[rs1 as int], p.regs[rs2 as int]) {
            (with_pc(p, wrap(pc0 + imm)), m)
        } else {
            (p, m)
        },
        Instruction::U { funct, rd, imm } => match funct {
            UFunct::LUI => (with_reg(p, rd, imm as u32), m),
            UFunct::AUIPC => (with_reg(p, rd, wrap(pc0 + imm)), m),
        },
        Instruction::J { rd, imm, .. } => (with_pc(with_reg(p, rd, p.pc), wrap(pc0 + imm)), m),
        Instruction::FR { funct, rd, rs1, rs2, .. } => match funct {
            FRFunct::FeqS | FRFunct::FltS | FRFunct::FleS => (
                with_reg(p, rd, fp_compare(funct, p.fregs[rs1 as int], p.fregs[rs2 as int])),
                m,
            ),
            _ => (with_freg(p, rd, fp_bits_op(funct, p.fregs[rs1 as int], p.fregs[rs2 as int])), m),
        },
        Instruction::FI { funct, rd, rs1, .. } => match funct {
            FIFunct::FmvXW => (with_reg(p, rd, p.fregs[rs1 as int]), m),
            FIFunct::FclassS => (with_reg(p, rd, f32_class(p.fregs[rs1 as int])), m),
            _ => (with_freg(p, rd, p.regs[rs1 as int]), m),
        },
        Instruction::FL { funct, rd, rs1, imm } => step_fl::<M>(p, m, funct, rd, rs1, imm),
        Instruction::FS { funct, rs1, rs2, imm } => step_fs::<M>(p, m, funct, rs1, rs2, imm),
        Instruction::A { funct, rd, rs1, rs2, .. } => step_a::<M>(p, m, funct, rd, rs1, rs2),
        _ => (p, m),
    }
}

/// One execution step: the state and memory after executing `inst`, of
/// `len` bytes, at the current program counter. `x0` reads as zero before
/// and holds zero after.
pub open spec fn step<M: RamLike>(s: HartState, m: M::Model, inst: Instruction, len: u32) -> (HartState, M::Model) {
    let (t, m2) = step_body::<M>(s.pc, fetched(s, len), m, inst);
    (with_reg(t, 0, 0), m2)
}


/// Operand words of a single-precision arithmetic instruction (see [`Hart::fpu_operands`]).
pub open spec fn fpu_operands_of(s: HartState, inst: Instruction) -> (u32, u32, u32) {
    match inst {
        Instruction::R4 { rs1, rs2, rs3, .. } => (s.fregs[rs1 as int], s.fregs[rs2 as int], s.fregs[rs3 as int]),
        Instruction::FR { rs1, rs2, .. } => (s.fregs[rs1 as int], s.fregs[rs2 as int], 0),
        Instruction::FI { funct, rs1, .. } => match funct {
            FIFunct::FcvtSW | FIFunct::FcvtSWU => (if rs1 == 0 { 0 } else { s.regs[rs1 as int] }, 0, 0),
            _ => (s.fregs[rs1 as int], 0, 0),
        },
        _ => (0, 0, 0),
    }
}

/// The state after a single-precision arithmetic instruction of `len` bytes
/// whose result word is `result`.
pub open spec fn fpu_retire(s: HartState, inst: Instruction, len: u32, result: u32) -> HartState {
    let p = fetched(s, len);
    let t = match inst {
        Instruction::FI { funct, rd, .. } => match funct {
            FIFunct::FcvtWS | FIFunct::FcvtWuS => with_reg(p, rd, result),
            _ => with_freg(p, rd, result),
        },
        Instruction::R4 { rd, .. } => with_freg(p, rd, result),
        Instruction::FR { rd, .. } => with_freg(p, rd, result),
        _ => p,
    };
    with_reg(t, 0, 0)
}

impl Instruction {
    /// Whether the instruction's result is single-precision arithmetic,
    /// which the host computes (see [`Hart::retire_fpu`]).
    pub fn needs_fpu(&self) -> (r: bool)
        ensures
            r == needs_fpu(*self),
    {
        match self {
            Instruction::R4 { .. } => true,
            Instruction::FR { funct, .. } => match funct {
                FRFunct::FaddS | FRFunct::FsubS | FRFunct::FmulS | FRFunct::FdivS => true,
                _ => false,
            },
            Instruction::FI { funct, .. } => match funct {
                FIFunct::FsqrtS | FIFunct::FcvtWS | FIFunct::FcvtWuS | FIFunct::FcvtSW | FIFunct::FcvtSWU => true,
                _ => false,
            },
            _ => false,
        }
    }
}

// ---------------------------------------------------------------------------
// Facts about machine arithmetic.
// ---------------------------------------------------------------------------

pub(crate) proof fn lemma_signed(a: u32)
    ensures
        (a as i32) as int == signed(a),
{
    assert((a as i32) as int == (if a >= 0x8000_0000 { a as int - 0x1_0000_0000 } else { a as int })) by (bit_vector);
}

pub(crate) proof fn lemma_imm_as_u32(imm: i32)
    ensures
        imm as u32 == wrap(imm as int),
{
    assert((imm as u32) as int == (if imm < 0 { imm as int + 0x1_0000_0000 } else { imm as int })) by (bit_vector);
}

pub(crate) proof fn lemma_add_signed(a: u32, imm: i32)
    ensures
        a.wrapping_add_signed(imm) == wrap(a + imm),
{
}

proof fn lemma_pc_relative(pc0: u32, len: u32, imm: i32)
    ensures
        wrap(pc0 + len).wrapping_add_signed(imm).wrapping_sub(len) == wrap(pc0 + imm),
{
    let p = wrap(pc0 + len);
    let q = p.wrapping_add_signed(imm);
    assert(q == wrap(p + imm));
    assert(wrap(pc0 + len) as int == (pc0 + len) % 0x1_0000_0000);
    vstd::arithmetic::div_mod::lemma_add_mod_noop(pc0 + len, imm as int, 0x1_0000_0000);
    vstd::arithmetic::div_mod::lemma_mod_twice(pc0 + len, 0x1_0000_0000);
    vstd::arithmetic::div_mod::lemma_sub_mod_noop(pc0 + len + imm, len as int, 0x1_0000_0000);
    vstd::arithmetic::div_mod::lemma_mod_twice(pc0 + len + imm, 0x1_0000_0000);
}

/// Division rounding toward zero, on words read as signed.
fn trunc_div(a: i32, b: i32) -> (r: i32)
    requires
        b != 0,
        !(a == i32::MIN && b == -1),
    ensures
        r as int == tdiv(a as int, b as int),
{
    let ua: u32 = if a < 0 { 0u32.wrapping_sub(a as u32) } else { a as u32 };
    let ub: u32 = if b < 0 { 0u32.wrapping_sub(b as u32) } else { b as u32 };
    proof {
        lemma_imm_as_u32(a);
        lemma_imm_as_u32(b);
    }
    assert(ua as int == abs(a as int));
    assert(ub as int == abs(b as int));
    let q = ua / ub;
    assert(q as int == abs(a as int) / abs(b as int));
    if (a < 0) != (b < 0) {
        assert(q <= 0x8000_0000) by (nonlinear_arith)
            requires q as int == ua as int / ub as int, ua <= 0x8000_0000, ub >= 1;
        let r = 0u32.wrapping_sub(q);
        proof {
            lemma_signed(r);
        }
        r as i32
    } else {
        assert(q < 0x8000_0000) by (nonlinear_arith)
            requires
                q as int == ua as int / ub as int,
                ua <= 0x8000_0000,
                ub >= 1,
                ua == 0x8000_0000 ==> ub >= 2;
        q as i32
    }
}

/// Remainder of [`trunc_div`].
fn trunc_rem(a: i32, b: i32) -> (r: i32)
    requires
        b != 0,
    ensures
        r as int == trem(a as int, b as int),
{
    let ua: u32 = if a < 0 { 0u32.wrapping_sub(a as u32) } else { a as u32 };
    let ub: u32 = if b < 0 { 0u32.wrapping_sub(b as u32) } else { b as u32 };
    proof {
        lemma_imm_as_u32(a);
        lemma_imm_as_u32(b);
    }
    assert(ua as int == abs(a as int));
    assert(ub as int == abs(b as int));
    let m = ua % ub;
    assert(m < 0x8000_0000) by (nonlinear_arith)
        requires m as int == ua as int % ub as int, ub <= 0x8000_0000, ub >= 1;
    if a < 0 {
        0i32 - (m as i32)
    } else {
        m as i32
    }
}


// ---------------------------------------------------------------------------
// Executable operations.
// ---------------------------------------------------------------------------

fn alu_r_exec(f: RFunct, a: u32, b: u32) -> (r: u32)
    ensures
        r == alu_r(f, a, b),
{
    proof {
        lemma_signed(a);
        lemma_signed(b);
    }
    assert(b & 0x1f < 32) by (bit_vector);
    match f {
        RFunct::ADD => a.wrapping_add(b),
        RFunct::SUB => a.wrapping_sub(b),
        RFunct::SLL => a << (b & 0x1f),
        RFunct::SLT => if (a as i32) < (b as i32) { 1 } else { 0 },
        RFunct::SLTU => if a < b { 1 } else { 0 },
        RFunct::XOR => a ^ b,
        RFunct::SRL => a >> (b & 0x1f),
        RFunct::SRA => ((a as i32) >> (b & 0x1f)) as u32,
        RFunct::OR => a | b,
        RFunct::AND => a & b,
    }
}

/// High word of a 64-bit signed product, as a word.
fn high_word_signed(p: i64) -> (r: u32)
    ensures
        r == wrap(p as int / 0x1_0000_0000),
{
    assert((((p >> 32u64) & 0xffff_ffff) as u32) as int == (p as int / 0x1_0000_0000) % 0x1_0000_0000) by (bit_vector);
    ((p >> 32) & 0xffff_ffff) as u32
}

fn mul_div_exec(f: MFunct, a: u32, b: u32) -> (r: u32)
    ensures
        r == mul_div(f, a, b),
{
    proof {
        lemma_signed(a);
        lemma_signed(b);
    }
    assert((a as i32) as u32 == a) by (bit_vector);
    assert(i32::MIN as u32 == 0x8000_0000u32) by (bit_vector);
    match f {
        MFunct::MUL => {
            let r = a.wrapping_mul(b);
            assert(r as int == (a as nat * b as nat) % 0x1_0000_0000);
            assert(r == wrap(a * b));
            r
        },
        MFunct::MULH => {
            let lhs = a as i32 as i64;
            let rhs = b as i32 as i64;
            assert(-0x4000_0000_0000_0000 <= lhs * rhs <= 0x4000_0000_0000_0000) by (nonlinear_arith)
                requires -0x8000_0000 <= lhs <= 0x7fff_ffff, -0x8000_0000 <= rhs <= 0x7fff_ffff;
            let r = high_word_signed(lhs * rhs);
            assert(r == mul_div(MFunct::MULH, a, b));
            r
        },
        MFunct::MULHSU => {
            let lhs = a as i32 as i64;
            let rhs = b as u64 as i64;
            assert(-0x8000_0000_0000_0000 < lhs * rhs < 0x8000_0000_0000_0000) by (nonlinear_arith)
                requires -0x8000_0000 <= lhs <= 0x7fff_ffff, 0 <= rhs <= 0xffff_ffff;
            let r = high_word_signed(lhs * rhs);
            assert(r == mul_div(MFunct::MULHSU, a, b));
            r
        },
        MFunct::MULHU => {
            let lhs = a as u64;
            let rhs = b as u64;
            assert(lhs * rhs <= 0xffff_fffe_0000_0001) by (nonlinear_arith)
                requires lhs <= 0xffff_ffff, rhs <= 0xffff_ffff;
            let p = lhs * rhs;
            assert(((p >> 32u64) & 0xffff_ffff) == p / 0x1_0000_0000) by (bit_vector);
            let r = ((p >> 32) & 0xffff_ffff) as u32;
            assert(r == mul_div(MFunct::MULHU, a, b));
            r
        },
        MFunct::DIV => {
            let lhs = a as i32;
            let rhs = b as i32;
            if rhs == 0 {
                u32::MAX
            } else if lhs == i32::MIN && rhs == -1 {
                i32::MIN as u32
            } else {
                let q = trunc_div(lhs, rhs);
                proof {
                    lemma_imm_as_u32(q);
                }
                q as u32
            }
        },
        MFunct::DIVU => if b == 0 {
            u32::MAX
        } else {
            a / b
        },
        MFunct::REM => {
            let lhs = a as i32;
            let rhs = b as i32;
            if rhs == 0 {
                lhs as u32
            } else if lhs == i32::MIN && rhs == -1 {
                0
            } else {
                let m = trunc_rem(lhs, rhs);
                proof {
                    lemma_imm_as_u32(m);
                }
                m as u32
            }
        },
        MFunct::REMU => if b == 0 {
            a
        } else {
            a % b
        },
    }
}

/// OP-IMM operations (every I-format function but loads and JALR).
fn alu_i_exec(f: IFunct, a: u32, imm: i32) -> (r: u32)
    requires
        !(f is JALR || f is LB || f is LH || f is LW || f is LBU || f is LHU),
    ensures
        r == alu_i(f, a, imm),
{
    proof {
        lemma_signed(a);
        lemma_imm_as_u32(imm);
        lemma_add_signed(a, imm);
    }
    let shamt = (imm as u32) & 0x1f;
    assert(shamt < 32) by (bit_vector) requires shamt == (imm as u32) & 0x1f;
    match f {
        IFunct::ADDI => a.wrapping_add_signed(imm),
        IFunct::SLTI => if (a as i32) < imm { 1 } else { 0 },
        IFunct::SLTIU => if a < (imm as u32) { 1 } else { 0 },
        IFunct::XORI => a ^ (imm as u32),
        IFunct::ORI => a | (imm as u32),
        IFunct::ANDI => a & (imm as u32),
        IFunct::SLLI => a << shamt,
        IFunct::SRLI => a >> shamt,
        _ => ((a as i32) >> shamt) as u32,
    }
}

fn branch_exec(f: BFunct, a: u32, b: u32) -> (r: bool)
    ensures
        r == branch_taken(f, a, b),
{
    proof {
        lemma_signed(a);
        lemma_signed(b);
    }
    match f {
        BFunct::BEQ => a == b,
        BFunct::BNE => a != b,
        BFunct::BLT => (a as i32) < (b as i32),
        BFunct::BGE => (a as i32) >= (b as i32),
        BFunct::BLTU => a < b,
        BFunct::BGEU => a >= b,
    }
}

fn amo_exec(f: AFunct, old: u32, rhs: u32) -> (r: u32)
    requires
        !(f is LrW || f is ScW),
    ensures
        r == amo_result(f, old, rhs),
{
    proof {
        lemma_signed(old);
        lemma_signed(rhs);
    }
    match f {
        AFunct::AmoSwapW => rhs,
        AFunct::AmoAddW => old.wrapping_add(rhs),
        AFunct::AmoXorW => old ^ rhs,
        AFunct::AmoAndW => old & rhs,
        AFunct::AmoOrW => old | rhs,
        AFunct::AmoMinW => if (old as i32) < (rhs as i32) {
            old
        } else {
            rhs
        },
        AFunct::AmoMaxW => if (old as i32) > (rhs as i32) {
            old
        } else {
            rhs
        },
        AFunct::AmoMinuW => if old < rhs {
            old
        } else {
            rhs
        },
        _ => if old > rhs {
            old
        } else {
            rhs
        },
    }
}

pub(crate) fn is_nan_bits(bits: u32) -> (r: bool)
    ensures
        r == f32_is_nan(bits),
{
    let exp = (bits >> 23) & 0xff;
    let frac = bits & 0x7f_ffff;
    exp == 0xff && frac != 0
}

fn both_zero_bits(a: u32, b: u32) -> (r: bool)
    ensures
        r == f32_both_zero(a, b),
{
    a & 0x7fff_ffff == 0 && b & 0x7fff_ffff == 0
}

fn f32_lt_bits(a: u32, b: u32) -> (r: bool)
    ensures
        r == f32_lt(a, b),
{
    if both_zero_bits(a, b) {
        false
    } else if a >= 0x8000_0000 && b < 0x8000_0000 {
        true
    } else if a < 0x8000_0000 && b >= 0x8000_0000 {
        false
    } else if a < 0x8000_0000 {
        a < b
    } else {
        a > b
    }
}

fn f32_eq_bits(a: u32, b: u32) -> (r: bool)
    ensures
        r == f32_eq(a, b),
{
    a == b || both_zero_bits(a, b)
}

fn fclass_s(bits: u32) -> (r: u32)
    ensures
        r == f32_class(bits),
{
    let sign = bits >= 0x8000_0000;
    let exp = (bits >> 23) & 0xff;
    let frac = bits & 0x7f_ffff;
    if exp == 0xff {
        if frac == 0 {
            if sign { 0x1 } else { 0x80 }
        } else {
            // Quiet NaN when the top mantissa bit is set, signaling otherwise.
            if frac >= 0x40_0000 { 0x200 } else { 0x100 }
        }
    } else if exp == 0 {
        if frac == 0 {
            if sign { 0x8 } else { 0x10 }
        } else if sign {
            0x4
        } else {
            0x20
        }
    } else if sign {
        0x2
    } else {
        0x40
    }
}

fn fp_bits_exec(f: FRFunct, a: u32, b: u32) -> (r: u32)
    requires
        f is FsgnjS || f is FsgnjnS || f is FsgnjxS || f is FminS || f is FmaxS,
    ensures
        r == fp_bits_op(f, a, b),
{
    match f {
        FRFunct::FsgnjS => (a & 0x7fff_ffff) | (b & 0x8000_0000),
        FRFunct::FsgnjnS => (a & 0x7fff_ffff) | ((!b) & 0x8000_0000),
        FRFunct::FsgnjxS => {
            let sign = (a ^ b) & 0x8000_0000;
            (a & 0x7fff_ffff) | sign
        },
        FRFunct::FminS => {
            if is_nan_bits(a) && is_nan_bits(b) {
                0x7fc0_0000
            } else if is_nan_bits(a) {
                b
            } else if is_nan_bits(b) {
                a
            } else if f32_lt_bits(a, b) {
                a
            } else if f32_lt_bits(b, a) {
                b
            } else if a == 0x8000_0000 || b == 0x8000_0000 {
                0x8000_0000
            } else {
                a
            }
        },
        _ => {
            if is_nan_bits(a) && is_nan_bits(b) {
                0x7fc0_0000
            } else if is_nan_bits(a) {
                b
            } else if is_nan_bits(b) {
                a
            } else if f32_lt_bits(b, a) {
                a
            } else if f32_lt_bits(a, b) {
                b
            } else if a == 0 || b == 0 {
                0
            } else {
                a
            }
        },
    }
}

fn fp_compare_exec(f: FRFunct, a: u32, b: u32) -> (r: u32)
    requires
        f is FeqS || f is FltS || f is FleS,
    ensures
        r == fp_compare(f, a, b),
{
    if is_nan_bits(a) || is_nan_bits(b) {
        0
    } else {
        let holds = match f {
            FRFunct::FeqS => f32_eq_bits(a, b),
            FRFunct::FltS => f32_lt_bits(a, b),
            _ => f32_lt_bits(a, b) || f32_eq_bits(a, b),
        };
        if holds { 1 } else { 0 }
    }
}

fn sext8_exec(v: u32) -> (r: u32)
    ensures
        r == sext8(v),
{
    assert((((v << 24u32) as i32 >> 24u32) as u32) == (if v % 256 >= 128 { (v % 256 + 0xffff_ff00) as u32 } else { v % 256 })) by (bit_vector);
    (((v << 24) as i32) >> 24) as u32
}

fn sext16_exec(v: u32) -> (r: u32)
    ensures
        r == sext16(v),
{
    assert((((v << 16u32) as i32 >> 16u32) as u32) == (if v % 0x10000 >= 0x8000 { (v % 0x10000 + 0xffff_0000) as u32 } else { v % 0x10000 })) by (bit_vector);
    (((v << 16) as i32) >> 16) as u32
}


// ---------------------------------------------------------------------------
// The hart.
// ---------------------------------------------------------------------------

/// Initial stack pointer of a fresh hart: 16 bytes below the end of the
/// default memory, 16-byte aligned.
pub open spec fn initial_sp() -> u32 {
    0xfff0
}

/// A hart about to execute at `entry`: all registers zero except the
/// stack pointer `x2`, no reservation.
pub open spec fn fresh_state(entry: u32) -> HartState {
    HartState {
        regs: Seq::new(32, |i: int| if i == 2 { initial_sp() } else { 0u32 }),
        fregs: Seq::new(32, |i: int| 0u32),
        pc: entry,
        reservation_addr: None,
    }
}

impl Hart {
    /// A hart about to execute at `entry`, with all registers zero except
    /// the stack pointer `x2`.
    pub fn new(entry: u32) -> (r: Self)
        ensures
            r@ == fresh_state(entry),
    {
        let mut cpu = Self { regs: [0; 32], fregs: [0; 32], pc: entry, reservation_addr: None };
        assert(((DRAM_SIZE - 16) as u32) & !0xfu32 == 0xfff0) by (bit_vector);
        cpu.regs[2] = (DRAM_SIZE - 16) & !0xf;
        assert(cpu.regs@ =~= Seq::new(32, |i: int| if i == 2 { initial_sp() } else { 0u32 }));
        assert(cpu.fregs@ =~= Seq::new(32, |i: int| 0u32));
        cpu
    }

    /// The instruction word at the program counter (0 when it cannot be read).
    pub fn fetch<M: RamLike>(&self, dram: &M) -> (r: u32)
        ensures
            r == load_or_zero::<M>(dram.model(), self.pc, 32),
    {
        match dram.load(self.pc, 32) {
            Ok(v) => v,
            Err(_) => 0,
        }
    }

    pub fn set_reservation(&mut self, addr: u32)
        ensures
            final(self)@ == with_reservation(old(self)@, Some(addr)),
    {
        self.reservation_addr = Some(addr);
    }

    pub fn clear_reservation(&mut self)
        ensures
            final(self)@ == with_reservation(old(self)@, None),
    {
        self.reservation_addr = None;
    }

    /// LR/SC reservations are word-granular: a store into the reserved word
    /// clears the reservation.
    fn invalidate_reservation_if_overlaps(&mut self, addr: u32)
        ensures
            final(self)@ == with_reservation(old(self)@, reservation_after_store(old(self).reservation_addr, addr)),
    {
        if let Some(res) = self.reservation_addr {
            assert(((addr & !0x3u32) == (res & !0x3u32)) == (addr / 4 == res / 4)) by (bit_vector);
            if (addr & !0x3) == (res & !0x3) {
                self.clear_reservation();
            }
        }
    }

    fn exec_i<M: RamLike>(&mut self, Ghost(pc0): Ghost<u32>, funct: IFunct, rd: usize, rs1: usize, imm: i32, dram: &M)
        requires
            rd < 32,
            rs1 < 32,
        ensures
            (final(self)@, dram.model()) == step_i::<M>(pc0, old(self)@, dram.model(), funct, rd, rs1, imm),
    {
        let a = self.regs[rs1];
        let addr = a.wrapping_add_signed(imm);
        proof {
            lemma_add_signed(a, imm);
        }
        match funct {
            IFunct::JALR => {
                let back_addr = self.pc;
                self.pc = addr & 0xffff_fffe;
                self.regs[rd] = back_addr;
            },
            IFunct::LB => {
                let v = match dram.load(addr, 8) {
                    Ok(v) => v,
                    Err(_) => 0,
                };
                self.regs[rd] = sext8_exec(v);
            },
            IFunct::LH => {
                let v = match dram.load(addr, 16) {
                    Ok(v) => v,
                    Err(_) => 0,
                };
                self.regs[rd] = sext16_exec(v);
            },
            IFunct::LW => {
                self.regs[rd] = match dram.load(addr, 32) {
                    Ok(v) => v,
                    Err(_) => 0,
                };
            },
            IFunct::LBU => {
                self.regs[rd] = match dram.load(addr, 8) {
                    Ok(v) => v,
                    Err(_) => 0,
                };
            },
            IFunct::LHU => {
                self.regs[rd] = match dram.load(addr, 16) {
                    Ok(v) => v,
                    Err(_) => 0,
                };
            },
            _ => {
                self.regs[rd] = alu_i_exec(funct, a, imm);
            },
        }
    }

    fn exec_store<M: RamLike>(&mut self, base: u32, imm: i32, size: u32, value: u32, dram: &mut M)
        ensures
            (final(self)@, final(dram).model()) == step_store::<M>(old(self)@, old(dram).model(), base, imm, size, value),
    {
        let addr = base.wrapping_add_signed(imm);
        proof {
            lemma_add_signed(base, imm);
        }
        let _ = dram.store(addr, size, value);
        self.invalidate_reservation_if_overlaps(addr);
    }

    fn exec_fl<M: RamLike>(&mut self, funct: FLFunct, rd: usize, rs1: usize, imm: i32, dram: &M)
        requires
            rd < 32,
            rs1 < 32,
        ensures
            (final(self)@, dram.model()) == step_fl::<M>(old(self)@, dram.model(), funct, rd, rs1, imm),
    {
        let addr = self.regs[rs1].wrapping_add_signed(imm);
        proof {
            lemma_add_signed(self.regs@[rs1 as int], imm);
        }
        match funct {
            FLFunct::FLH => {
                // Half precision keeps the loaded half-word in the low 16 bits.
                self.fregs[rd] = match dram.load(addr, 16) {
                    Ok(v) => v & 0xffff,
                    Err(()) => 0,
                };
            },
            FLFunct::FLW => {
                self.fregs[rd] = match dram.load(addr, 32) {
                    Ok(v) => v,
                    Err(_) => 0,
                };
            },
            FLFunct::FLD => {
                // Single-precision register file: the 64-bit access keeps the low word.
                self.fregs[rd] = match dram.load(addr, 32) {
                    Ok(v) => v,
                    Err(_) => 0,
                };
                let _ = dram.load(addr.wrapping_add(4), 32);
            },
        }
    }

    fn exec_fs<M: RamLike>(&mut self, funct: FSFunct, rs1: usize, rs2: usize, imm: i32, dram: &mut M)
        requires
            rs1 < 32,
            rs2 < 32,
        ensures
            (final(self)@, final(dram).model()) == step_fs::<M>(old(self)@, old(dram).model(), funct, rs1, rs2, imm),
    {
        let base = self.regs[rs1];
        let value = self.fregs[rs2];
        match funct {
            FSFunct::FSH => self.exec_store(base, imm, 16, value, dram),
            FSFunct::FSW => self.exec_store(base, imm, 32, value, dram),
            FSFunct::FSD => {
                // Single-precision register file: write the low word, all ones above it.
                let addr = base.wrapping_add_signed(imm);
                proof {
                    lemma_add_signed(base, imm);
                }
                let _ = dram.store(addr, 32, value);
                let hi = addr.wrapping_add(4);
                assert(hi == wrap(addr + 4));
                let _ = dram.store(hi, 32, u32::MAX);
                self.invalidate_reservation_if_overlaps(addr);
            },
        }
    }

    fn exec_a<M: RamLike>(&mut self, funct: AFunct, rd: usize, rs1: usize, rs2: usize, dram: &mut M)
        requires
            rd < 32,
            rs1 < 32,
            rs2 < 32,
        ensures
            (final(self)@, final(dram).model()) == step_a::<M>(old(self)@, old(dram).model(), funct, rd, rs1, rs2),
    {
        let addr = self.regs[rs1];
        match funct {
            AFunct::LrW => {
                self.regs[rd] = match dram.load(addr, 32) {
                    Ok(v) => v,
                    Err(_) => 0,
                };
                self.set_reservation(addr);
            },
            AFunct::ScW => {
                let success = match self.reservation_addr {
                    Some(r) => r == addr,
                    None => false,
                };
                if success {
                    let _ = dram.store(addr, 32, self.regs[rs2]);
                }
                self.regs[rd] = if success { 0 } else { 1 };
                self.clear_reservation();
            },
            _ => {
                let old = match dram.load(addr, 32) {
                    Ok(v) => v,
                    Err(_) => 0,
                };
                let rhs = self.regs[rs2];
                let new = amo_exec(funct, old, rhs);
                let _ = dram.store(addr, 32, new);
                self.regs[rd] = old;
                self.invalidate_reservation_if_overlaps(addr);
            },
        }
    }

    /// Executes one decoded instruction of `inst_len` bytes located at the
    /// program counter. Single-precision arithmetic and EBREAK are the
    /// host's to handle (see [`Hart::retire_fpu`]).
    pub fn execute<M: RamLike>(&mut self, inst: Instruction, inst_len: u32, dram: &mut M)
        requires
            inst.regs_in_range(),
            !needs_fpu(inst),
            !(inst is Ebreak),
        ensures
            (final(self)@, final(dram).model()) == step::<M>(old(self)@, old(dram).model(), inst, inst_len),
    {
        let ghost pc0 = self.pc;
        let ghost s0 = self@;
        self.regs[0] = 0;  // x0 is hard-wired to zero
        self.pc = self.pc.wrapping_add(inst_len);
        assert(self@ == fetched(s0, inst_len));
        let ghost p = self@;
        let ghost m0 = dram.model();
        match inst {
            Instruction::R { funct, rd, rs1, rs2 } => {
                self.regs[rd] = alu_r_exec(funct, self.regs[rs1], self.regs[rs2]);
            },
            Instruction::M { funct, rd, rs1, rs2 } => {
                self.regs[rd] = mul_div_exec(funct, self.regs[rs1], self.regs[rs2]);
            },
            Instruction::I { funct, rd, rs1, imm } => {
                self.exec_i(Ghost(pc0), funct, rd, rs1, imm, dram);
            },
            Instruction::S { funct, rs1, rs2, imm } => {
                let size: u32 = match funct {
                    SFunct::SB => 8,
                    SFunct::SH => 16,
                    SFunct::SW => 32,
                };
                let base = self.regs[rs1];
                let value = self.regs[rs2];
                self.exec_store(base, imm, size, value, dram);
            },
            Instruction::B { funct, rs1, rs2, imm } => {
                if branch_exec(funct, self.regs[rs1], self.regs[rs2]) {
                    proof {
                        lemma_pc_relative(pc0, inst_len, imm);
                    }
                    self.pc = self.pc.wrapping_add_signed(imm).wrapping_sub(inst_len);
                }
            },
            Instruction::U { funct, rd, imm } => match funct {
                UFunct::LUI => {
                    self.regs[rd] = imm as u32;
                },
                UFunct::AUIPC => {
                    proof {
                        lemma_pc_relative(pc0, inst_len, imm);
                    }
                    self.regs[rd] = self.pc.wrapping_add_signed(imm).wrapping_sub(inst_len);
                },
            },
            Instruction::J { funct: _, rd, imm } => {
                proof {
                    lemma_pc_relative(pc0, inst_len, imm);
                }
                self.regs[rd] = self.pc;
                self.pc = self.pc.wrapping_add_signed(imm).wrapping_sub(inst_len);
            },
            Instruction::FR { funct, rd, rs1, rs2, rm: _ } => {
                let a = self.fregs[rs1];
                let b = self.fregs[rs2];
                match funct {
                    FRFunct::FeqS => {
                        self.regs[rd] = fp_compare_exec(FRFunct::FeqS, a, b);
                    },
                    FRFunct::FltS => {
                        self.regs[rd] = fp_compare_exec(FRFunct::FltS, a, b);
                    },
                    FRFunct::FleS => {
                        self.regs[rd] = fp_compare_exec(FRFunct::FleS, a, b);
                    },
                    _ => {
                        self.fregs[rd] = fp_bits_exec(funct, a, b);
                    },
                }
            },
            Instruction::FI { funct, rd, rs1, rm: _ } => match funct {
                FIFunct::FmvXW => {
                    self.regs[rd] = self.fregs[rs1];
                },
                FIFunct::FclassS => {
                    self.regs[rd] = fclass_s(self.fregs[rs1]);
                },
                _ => {
                    self.fregs[rd] = self.regs[rs1];
                },
            },
            Instruction::FL { funct, rd, rs1, imm } => {
                self.exec_fl(funct, rd, rs1, imm, dram);
            },
            Instruction::FS { funct, rs1, rs2, imm } => {
                self.exec_fs(funct, rs1, rs2, imm, dram);
            },
            Instruction::A { funct, rd, rs1, rs2, aq: _, rl: _ } => {
                self.exec_a(funct, rd, rs1, rs2, dram);
            },
            Instruction::Fence { .. } => {
                // Single hart: FENCE and FENCE.I have no effect.
            },
            _ => {},
        }
        self.regs[0] = 0;
    }

    /// The operand words of a single-precision arithmetic instruction: the
    /// source floating-point registers (unused ones are 0), or the integer
    /// source register for conversions from integer (`x0` reads as zero).
    pub fn fpu_operands(&self, inst: &Instruction) -> (r: (u32, u32, u32))
        requires
            inst.regs_in_range(),
            needs_fpu(*inst),
        ensures
            r == fpu_operands_of(self@, *inst),
    {
        match inst {
            Instruction::R4 { rs1, rs2, rs3, .. } => (self.fregs[*rs1], self.fregs[*rs2], self.fregs[*rs3]),
            Instruction::FR { rs1, rs2, .. } => (self.fregs[*rs1], self.fregs[*rs2], 0),
            Instruction::FI { funct, rs1, .. } => match funct {
                FIFunct::FcvtSW | FIFunct::FcvtSWU => (if *rs1 == 0 { 0 } else { self.regs[*rs1] }, 0, 0),
                _ => (self.fregs[*rs1], 0, 0),
            },
            _ => (0, 0, 0),
        }
    }

    /// Completes a single-precision arithmetic instruction with the `result`
    /// word that the host computed: conversions to integer write an integer
    /// register, the others a floating-point register.
    pub fn retire_fpu(&mut self, inst: &Instruction, inst_len: u32, result: u32)
        requires
            inst.regs_in_range(),
            needs_fpu(*inst),
        ensures
            final(self)@ == fpu_retire(old(self)@, *inst, inst_len, result),
    {
        self.regs[0] = 0;
        self.pc = self.pc.wrapping_add(inst_len);
        match inst {
            Instruction::R4 { rd, .. } => {
                self.fregs[*rd] = result;
            },
            Instruction::FR { rd, .. } => {
                self.fregs[*rd] = result;
            },
            Instruction::FI { funct, rd, .. } => match funct {
                FIFunct::FcvtWS | FIFunct::FcvtWuS => {
                    self.regs[*rd] = result;
                },
                _ => {
                    self.fregs[*rd] = result;
                },
            },
            _ => {},
        }
        self.regs[0] = 0;
    }
}

} // verus!
