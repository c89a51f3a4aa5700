//! What decoding and execution do, stated from the RISC-V specification:
//! instruction fields as bit ranges of the word, integers in two's
//! complement, results modulo 2^32, and the loader's placement of segments.
//! These statements do not go through the decoder's or the hart's own spec
//! functions, so a change to those that departs from the ISA breaks them.
use vstd::prelude::*;

use vstd::arithmetic::div_mod::{lemma_fundamental_div_mod, lemma_fundamental_div_mod_converse};
use vstd::arithmetic::power2::{lemma_pow2_pos, pow2};
use vstd::bits::lemma_u32_shr_is_div;

use crate::hart::{fpu_operands_of, load_or_zero, step, store_to, HartState};
use crate::memory::{bytes_load, bytes_store, le_store, le_word};
use crate::instruction::{spec_decode, BFunct, FIFunct, IFunct, Instruction, JFunct, MFunct, RFunct, SFunct};
use crate::loader::{lemma_loaded_len, loadable, loaded, memory_image, memory_size, ElfImageView, ProgramSegment, PT_LOAD};
use crate::rv32i::{core_image, core_loadable, core_step, CpuState, DRAM_BASE, DRAM_SIZE};
use crate::memory::RamLike;

verus! {

/// A 32-bit word read as a two's-complement integer.
pub open spec fn twos(x: u32) -> int {
    if x < 0x8000_0000 {
        x as int
    } else {
        x as int - 0x1_0000_0000
    }
}

/// The `funct3` code of each conditional branch in the base ISA.
pub open spec fn branch_code(f: BFunct) -> u32 {
    match f {
        BFunct::BEQ => 0,
        BFunct::BNE => 1,
        BFunct::BLT => 4,
        BFunct::BGE => 5,
        BFunct::BLTU => 6,
        BFunct::BGEU => 7,
    }
}

/// The byte offset of a B-type word: the sign-extended
/// `{w[31], w[7], w[30:25], w[11:8], 0}`.
pub open spec fn b_offset(w: u32) -> int {
    (if (w >> 31) == 1 { -4096int } else { 0int }) + ((w >> 7) & 1) * 2048 + ((w >> 25) & 0x3f) * 32 + ((w >> 8)
        & 0xf) * 2
}

/// A word with the BRANCH major opcode decodes, as a 4-byte instruction,
/// to the conditional branch whose code is its `funct3` field, with `rs1`
/// in bits 19..15, `rs2` in bits 24..20 and the B-type offset; the two
/// unassigned codes, 2 and 3, are rejected.
pub proof fn lemma_branch_decoding(w: u32)
    requires
        w & 0x7f == 0x63,
    ensures
        spec_decode(w) is Some <==> ((w >> 12) & 7) != 2 && ((w >> 12) & 7) != 3,
        match spec_decode(w) {
            Some((Instruction::B { funct, rs1, rs2, imm }, len)) => {
                &&& len == 4
                &&& branch_code(funct) == (w >> 12) & 7
                &&& rs1 == ((w >> 15) & 0x1f) as usize
                &&& rs2 == ((w >> 20) & 0x1f) as usize
                &&& imm as int == b_offset(w)
            },
            Some(_) => false,
            None => true,
        },
{
    assert({
        &&& w & 3 == 3
        &&& ((w >> 0u32) & (((1u32 << 7u32) - 1) as u32)) == w & 0x7f
        &&& ((w >> 12u32) & (((1u32 << 3u32) - 1) as u32)) == (w >> 12) & 7
        &&& ((w >> 15u32) & (((1u32 << 5u32) - 1) as u32)) == (w >> 15) & 0x1f
        &&& ((w >> 20u32) & (((1u32 << 5u32) - 1) as u32)) == (w >> 20) & 0x1f
        &&& ((w >> 25u32) & (((1u32 << 6u32) - 1) as u32)) == (w >> 25) & 0x3f
        &&& ((w >> 8u32) & (((1u32 << 4u32) - 1) as u32)) == (w >> 8) & 0xf
        &&& ((w >> 31u32) & 1) == (w >> 31)
        &&& (w >> 31) <= 1
        &&& (w >> 12) & 7 <= 7
        &&& (w >> 25) & 0x3f <= 0x3f
        &&& (w >> 8) & 0xf <= 0xf
        &&& (w >> 7) & 1 <= 1
    }) by (bit_vector)
        requires
            w & 0x7f == 0x63,
    ;
}


/// The value a source register field `r` reads in state `s`: `x0` is zero.
pub open spec fn source(regs: Seq<u32>, r: usize) -> u32 {
    if r == 0 {
        0
    } else {
        regs[r as int]
    }
}

/// What a register-register instruction of the base ISA leaves in `rd`,
/// from the values `a` of `rs1` and `b` of `rs2`, stated from the ISA: sums
/// and differences modulo 2^32, signed comparison in two's complement,
/// right shifts by the low five bits of `b` as division by a power of two
/// (rounding down, for SRA on the two's-complement value).
pub open spec fn isa_register_result(f: RFunct, a: u32, b: u32, r: u32) -> bool {
    let sh = (b % 32) as nat;
    match f {
        RFunct::ADD => r as int == (a + b) % 0x1_0000_0000,
        RFunct::SUB => (r + b) % 0x1_0000_0000 == a as int,
        RFunct::SLT => r == (if twos(a) < twos(b) { 1u32 } else { 0u32 }),
        RFunct::SLTU => r == (if a < b { 1u32 } else { 0u32 }),
        RFunct::XOR => r ^ b == a && r ^ a == b,
        RFunct::SRL => r as int == a as int / pow2(sh) as int,
        RFunct::SRA => twos(r) == twos(a) / pow2(sh) as int,
        _ => true,
    }
}

/// The result of a subtraction modulo 2^32 gives back the minuend when the
/// subtrahend is added again.
proof fn lemma_sub_inverts_add(a: u32, b: u32)
    ensures
        (((a - b) % 0x1_0000_0000) as u32 + b) % 0x1_0000_0000 == a as int,
{
    if a >= b {
        assert((a - b) % 0x1_0000_0000 == a - b);
    } else {
        assert((a - b) % 0x1_0000_0000 == a - b + 0x1_0000_0000);
    }
}

/// A logical right shift by the low five bits of `b` divides by a power of
/// two.
proof fn lemma_shift_right(a: u32, b: u32)
    ensures
        b & 0x1f == b % 32,
        (a >> (b & 0x1f)) as int == a as int / pow2((b % 32) as nat) as int,
{
    assert(b & 0x1f == b % 32) by (bit_vector);
    lemma_u32_shr_is_div(a, b & 0x1f);
}

/// An arithmetic right shift by the low five bits of `b` divides the
/// two's-complement value by a power of two, rounding down.
proof fn lemma_shift_right_arith(a: u32, b: u32)
    ensures
        twos(((a as i32) >> (b & 0x1f)) as u32) == twos(a) / pow2((b % 32) as nat) as int,
{
    let sh = b & 0x1f;
    assert({
        &&& sh == b % 32
        &&& sh < 32
        &&& (a < 0x8000_0000 ==> ((a as i32) >> sh) as u32 == a >> sh)
        &&& (a >= 0x8000_0000 ==> ((a as i32) >> sh) as u32 == !((!a) >> sh))
        &&& !a == 0xffff_ffff - a
        &&& (a >= 0x8000_0000 ==> !a < 0x8000_0000)
    }) by (bit_vector)
        requires
            sh == b & 0x1f,
    ;
    let d = pow2(sh as nat) as int;
    lemma_pow2_pos(sh as nat);
    if a < 0x8000_0000 {
        lemma_u32_shr_is_div(a, sh);
        assert(a as int / d <= a as int) by {
            lemma_fundamental_div_mod(a as int, d);
            assert(d * (a as int / d) >= a as int / d) by (nonlinear_arith)
                requires
                    d >= 1,
                    a as int / d >= 0,
            ;
        }
    } else {
        let c = !a;
        lemma_u32_shr_is_div(c, sh);
        let y = c >> sh;
        assert(y as int == c as int / d);
        assert(y as int <= c as int) by {
            lemma_fundamental_div_mod(c as int, d);
            assert(d * (c as int / d) >= c as int / d) by (nonlinear_arith)
                requires
                    d >= 1,
                    c as int / d >= 0,
            ;
        }
        assert(!y == 0xffff_ffff - y) by (bit_vector);
        let q = c as int / d;
        let rem = c as int % d;
        lemma_fundamental_div_mod(c as int, d);
        assert(0 <= rem < d);
        assert(-1 - c as int == (-1 - q) * d + (d - 1 - rem)) by (nonlinear_arith)
            requires
                c as int == d * q + rem,
        ;
        lemma_fundamental_div_mod_converse(-1 - c as int, d, -1 - q, d - 1 - rem);
    }
}

/// Every register-register instruction of the hart leaves in `rd` the value
/// that the ISA gives for the values its source registers held.
pub proof fn lemma_register_results<M: RamLike>(
    s: HartState,
    m: M::Model,
    funct: RFunct,
    rd: usize,
    rs1: usize,
    rs2: usize,
    len: u32,
)
    requires
        s.regs.len() == 32,
        0 < rd < 32,
        rs1 < 32,
        rs2 < 32,
    ensures
        isa_register_result(
            funct,
            source(s.regs, rs1),
            source(s.regs, rs2),
            step::<M>(s, m, Instruction::R { funct, rd, rs1, rs2 }, len).0.regs[rd as int],
        ),
{
    let a = source(s.regs, rs1);
    let b = source(s.regs, rs2);
    let p = crate::hart::fetched(s, len);
    assert(p.regs[rs1 as int] == a);
    assert(p.regs[rs2 as int] == b);
    let r = step::<M>(s, m, Instruction::R { funct, rd, rs1, rs2 }, len).0.regs[rd as int];
    assert(r == crate::hart::alu_r(funct, a, b));
    lemma_sub_inverts_add(a, b);
    lemma_shift_right(a, b);
    lemma_shift_right_arith(a, b);
    assert((a ^ b) ^ b == a && (a ^ b) ^ a == b) by (bit_vector);
}


/// Whether a conditional branch of the base ISA is taken on the values `a`
/// of `rs1` and `b` of `rs2`: equality, or order of the two's-complement or
/// of the unsigned values.
pub open spec fn isa_taken(f: BFunct, a: u32, b: u32) -> bool {
    match f {
        BFunct::BEQ => a == b,
        BFunct::BNE => a != b,
        BFunct::BLT => twos(a) < twos(b),
        BFunct::BGE => twos(a) >= twos(b),
        BFunct::BLTU => a < b,
        BFunct::BGEU => a >= b,
    }
}

/// A conditional branch of the hart moves the program counter by its offset
/// when the ISA takes it, and past itself otherwise, modulo 2^32.
pub proof fn lemma_branch_target<M: RamLike>(
    s: HartState,
    m: M::Model,
    funct: BFunct,
    rs1: usize,
    rs2: usize,
    imm: i32,
    len: u32,
)
    requires
        s.regs.len() == 32,
        rs1 < 32,
        rs2 < 32,
    ensures
        step::<M>(s, m, Instruction::B { funct, rs1, rs2, imm }, len).0.pc as int == if isa_taken(
            funct,
            source(s.regs, rs1),
            source(s.regs, rs2),
        ) {
            (s.pc + imm) % 0x1_0000_0000
        } else {
            (s.pc + len) % 0x1_0000_0000
        },
{
    let p = crate::hart::fetched(s, len);
    assert(p.regs[rs1 as int] == source(s.regs, rs1));
    assert(p.regs[rs2 as int] == source(s.regs, rs2));
}

/// Every register-register instruction of the base core leaves in `rd` the
/// value that the ISA gives for the values its source registers held.
pub proof fn lemma_core_register_results(s: CpuState, funct: RFunct, rd: usize, rs1: usize, rs2: usize)
    requires
        s.regs.len() == 32,
        0 < rd < 32,
        rs1 < 32,
        rs2 < 32,
    ensures
        isa_register_result(
            funct,
            source(s.regs, rs1),
            source(s.regs, rs2),
            core_step(s, Instruction::R { funct, rd, rs1, rs2 }).regs[rd as int],
        ),
{
    let a = source(s.regs, rs1);
    let b = source(s.regs, rs2);
    let r = core_step(s, Instruction::R { funct, rd, rs1, rs2 }).regs[rd as int];
    assert(s.regs.update(0, 0)[rs1 as int] == a);
    assert(s.regs.update(0, 0)[rs2 as int] == b);
    assert(r == crate::rv32i::core_alu_r(funct, a, b));
    crate::hart::lemma_signed(a);
    crate::hart::lemma_signed(b);
    lemma_sub_inverts_add(a, b);
    lemma_shift_right(a, b);
    lemma_shift_right_arith(a, b);
    assert((a ^ b) ^ b == a && (a ^ b) ^ a == b) by (bit_vector);
}

/// A conditional branch of the base core, whose program counter already
/// points past the branch, moves it to the branch's address plus the
/// offset when the ISA takes it, and leaves it otherwise.
pub proof fn lemma_core_branch_target(s: CpuState, funct: BFunct, rs1: usize, rs2: usize, imm: i32)
    requires
        s.regs.len() == 32,
        rs1 < 32,
        rs2 < 32,
    ensures
        core_step(s, Instruction::B { funct, rs1, rs2, imm }).pc as int == if isa_taken(
            funct,
            source(s.regs, rs1),
            source(s.regs, rs2),
        ) {
            (s.pc + imm - 4) % 0x1_0000_0000
        } else {
            s.pc as int
        },
{
    assert(s.regs.update(0, 0)[rs1 as int] == source(s.regs, rs1));
    assert(s.regs.update(0, 0)[rs2 as int] == source(s.regs, rs2));
}

/// The operand words handed to the host for single-precision work are the
/// instruction's source registers in the order the ISA names them: `rs1`,
/// `rs2`, `rs3` of the float registers (unused ones 0), or the integer
/// `rs1` (`x0` reading zero) for conversions from integer.
pub proof fn lemma_fpu_operands(s: HartState, inst: Instruction)
    ensures
        match inst {
            Instruction::R4 { rs1, rs2, rs3, .. } => fpu_operands_of(s, inst) == (
                s.fregs[rs1 as int],
                s.fregs[rs2 as int],
                s.fregs[rs3 as int],
            ),
            Instruction::FR { rs1, rs2, .. } => fpu_operands_of(s, inst) == (s.fregs[rs1 as int], s.fregs[rs2 as int], 0u32),
            Instruction::FI { funct, rs1, .. } => if funct == FIFunct::FcvtSW || funct == FIFunct::FcvtSWU {
                fpu_operands_of(s, inst) == (source(s.regs, rs1), 0u32, 0u32)
            } else {
                fpu_operands_of(s, inst) == (s.fregs[rs1 as int], 0u32, 0u32)
            },
            _ => true,
        },
{
}


/// Whether segment `s` is loaded and its file bytes cover address `a`.
pub open spec fn covers(s: ProgramSegment, a: int) -> bool {
    &&& s.p_type == PT_LOAD
    &&& (s.p_vaddr as usize) <= a < (s.p_vaddr as usize) + (s.p_filesz as usize)
}

/// The byte at `a` after the segments `segs[..n]` were placed in order:
/// that of the last one covering `a`, zero where none does.
spec fn last_written(code: Seq<u8>, segs: Seq<ProgramSegment>, n: int, a: int) -> u8
    decreases n,
{
    if n <= 0 {
        0
    } else if covers(segs[n - 1], a) {
        code[(segs[n - 1].p_offset as usize) + a - (segs[n - 1].p_vaddr as usize)]
    } else {
        last_written(code, segs, n - 1, a)
    }
}

/// Whether every loaded segment's file bytes lie within `code` and within
/// a memory of `size` bytes.
spec fn segments_fit(code: Seq<u8>, segs: Seq<ProgramSegment>, size: int) -> bool {
    forall|i: int|
        #![trigger segs[i]]
        0 <= i < segs.len() && segs[i].p_type == PT_LOAD ==> {
            &&& (segs[i].p_vaddr as usize) + (segs[i].p_filesz as usize) <= size
            &&& (segs[i].p_offset as usize) + (segs[i].p_filesz as usize) <= code.len()
        }
}

proof fn lemma_loaded_byte(code: Seq<u8>, segs: Seq<ProgramSegment>, n: int, size: int, a: int)
    requires
        0 <= n <= segs.len(),
        0 <= a < size,
        segments_fit(code, segs, size),
    ensures
        loaded(code, segs, n, size)[a] == last_written(code, segs, n, a),
    decreases n,
{
    if n > 0 {
        lemma_loaded_byte(code, segs, n - 1, size, a);
        lemma_loaded_len(code, segs, n - 1, size);
        let seg = segs[n - 1];
        if seg.p_type == PT_LOAD {
            let prev = loaded(code, segs, n - 1, size);
            let v = seg.p_vaddr as usize as int;
            let o = seg.p_offset as usize as int;
            let f = seg.p_filesz as usize as int;
            assert(v + f <= size && o + f <= code.len());
            let placed = prev.subrange(0, v) + code.subrange(o, o + f) + prev.subrange(v + f, prev.len() as int);
            assert(loaded(code, segs, n, size) == placed);
            if a < v {
                assert(placed[a] == prev[a]);
            } else if a < v + f {
                assert(placed[a] == code[o + a - v]);
            } else {
                assert(placed[a] == prev[a]);
            }
        }
    }
}

proof fn lemma_last_written_skip(code: Seq<u8>, segs: Seq<ProgramSegment>, n: int, i: int, a: int)
    requires
        0 <= i < n <= segs.len(),
        covers(segs[i], a),
        forall|j: int| i < j < n ==> !covers(#[trigger] segs[j], a),
    ensures
        last_written(code, segs, n, a) == code[(segs[i].p_offset as usize) + a - (segs[i].p_vaddr as usize)],
    decreases n,
{
    if n - 1 > i {
        assert(!covers(segs[n - 1], a));
        lemma_last_written_skip(code, segs, n - 1, i, a);
    }
}

proof fn lemma_last_written_none(code: Seq<u8>, segs: Seq<ProgramSegment>, n: int, a: int)
    requires
        0 <= n <= segs.len(),
        forall|j: int| 0 <= j < n ==> !covers(#[trigger] segs[j], a),
    ensures
        last_written(code, segs, n, a) == 0,
    decreases n,
{
    if n > 0 {
        assert(!covers(segs[n - 1], a));
        lemma_last_written_none(code, segs, n - 1, a);
    }
}

/// Loading places every loadable segment: byte `k` of segment `i`'s file
/// bytes sits at its virtual address plus `k`, unless a later loadable
/// segment's file bytes cover that address (the later one wins).
pub proof fn lemma_segments_placed(code: Seq<u8>, segs: Seq<ProgramSegment>, i: int, k: int)
    requires
        loadable(code, segs),
        0 <= i < segs.len(),
        segs[i].p_type == PT_LOAD,
        0 <= k < segs[i].p_filesz as usize,
        forall|j: int|
            i < j < segs.len() ==> !covers(#[trigger] segs[j], (segs[i].p_vaddr as usize) + k),
    ensures
        memory_image(code, segs)[(segs[i].p_vaddr as usize) + k] == code[(segs[i].p_offset as usize) + k],
{
    let a = (segs[i].p_vaddr as usize) + k;
    assert(segs[i].p_type == PT_LOAD);
    lemma_loaded_byte(code, segs, segs.len() as int, memory_size(segs), a);
    lemma_last_written_skip(code, segs, segs.len() as int, i, a);
}

/// Loading leaves zero every byte of memory that no loadable segment's file
/// bytes cover.
pub proof fn lemma_unplaced_bytes_zero(code: Seq<u8>, segs: Seq<ProgramSegment>, a: int)
    requires
        loadable(code, segs),
        0 <= a < memory_size(segs),
        forall|j: int| 0 <= j < segs.len() ==> !covers(#[trigger] segs[j], a),
    ensures
        memory_image(code, segs)[a] == 0,
{
    lemma_loaded_byte(code, segs, segs.len() as int, memory_size(segs), a);
    lemma_last_written_none(code, segs, segs.len() as int, a);
}

/// The base core places every loadable segment in the same way: byte `k` of
/// segment `i`'s file bytes sits at its address plus `k` unless a later
/// loadable segment covers that address.
pub proof fn lemma_core_segments_placed(code: Seq<u8>, img: ElfImageView, i: int, k: int)
    requires
        core_loadable(code, img),
        0 <= i < img.segments.len(),
        img.segments[i].p_type == PT_LOAD,
        0 <= k < img.segments[i].p_filesz as usize,
        forall|j: int|
            i < j < img.segments.len() ==> !covers(#[trigger] img.segments[j], (img.segments[i].p_vaddr as usize) + k),
    ensures
        core_image(code, img.segments)[(img.segments[i].p_vaddr as usize) + k] == code[(img.segments[i].p_offset
            as usize) + k],
{
    let segs = img.segments;
    let a = (segs[i].p_vaddr as usize) + k;
    assert(segments_fit(code, segs, DRAM_SIZE as int)) by {
        assert forall|j: int| #![trigger segs[j]] 0 <= j < segs.len() && segs[j].p_type == PT_LOAD implies {
            &&& (segs[j].p_vaddr as usize) + (segs[j].p_filesz as usize) <= DRAM_SIZE
            &&& (segs[j].p_offset as usize) + (segs[j].p_filesz as usize) <= code.len()
        } by {
            assert(crate::rv32i::core_segment_ok(segs[j], code.len() as int));
        }
    }
    assert(crate::rv32i::core_segment_ok(segs[i], code.len() as int));
    lemma_loaded_byte(code, segs, segs.len() as int, DRAM_SIZE as int, a);
    lemma_last_written_skip(code, segs, segs.len() as int, i, a);
}


/// The `funct3` and `funct7` codes of each register-register operation of
/// the base ISA.
pub open spec fn r_code(f: RFunct) -> (u32, u32) {
    match f {
        RFunct::ADD => (0, 0),
        RFunct::SUB => (0, 0x20),
        RFunct::SLL => (1, 0),
        RFunct::SLT => (2, 0),
        RFunct::SLTU => (3, 0),
        RFunct::XOR => (4, 0),
        RFunct::SRL => (5, 0),
        RFunct::SRA => (5, 0x20),
        RFunct::OR => (6, 0),
        RFunct::AND => (7, 0),
    }
}

/// The `funct3` code of each M-extension operation.
pub open spec fn m_code(f: MFunct) -> u32 {
    match f {
        MFunct::MUL => 0,
        MFunct::MULH => 1,
        MFunct::MULHSU => 2,
        MFunct::MULHU => 3,
        MFunct::DIV => 4,
        MFunct::DIVU => 5,
        MFunct::REM => 6,
        MFunct::REMU => 7,
    }
}

/// The `funct3` code of each register-immediate operation.
pub open spec fn i_code(f: IFunct) -> u32 {
    match f {
        IFunct::ADDI => 0,
        IFunct::SLLI => 1,
        IFunct::SLTI => 2,
        IFunct::SLTIU => 3,
        IFunct::XORI => 4,
        IFunct::SRLI => 5,
        IFunct::SRAI => 5,
        IFunct::ORI => 6,
        IFunct::ANDI => 7,
        _ => 8,
    }
}

/// The sign-extended I-type immediate `w[31:20]`.
pub open spec fn i_offset(w: u32) -> int {
    if (w >> 31) == 1 {
        (w >> 20) - 4096
    } else {
        (w >> 20) as int
    }
}

/// The decoder's field extractors are the ISA's bit ranges.
proof fn lemma_fields(w: u32)
    ensures
        crate::instruction::bits(w, 6, 0) == (w & 0x7f) as int,
        crate::instruction::bits(w, 11, 7) == ((w >> 7) & 0x1f) as int,
        crate::instruction::bits(w, 14, 12) == ((w >> 12) & 7) as int,
        crate::instruction::bits(w, 19, 15) == ((w >> 15) & 0x1f) as int,
        crate::instruction::bits(w, 24, 20) == ((w >> 20) & 0x1f) as int,
        crate::instruction::bits(w, 31, 25) == (w >> 25) as int,
        crate::instruction::bits(w, 31, 20) == (w >> 20) as int,
        crate::instruction::bit(w, 30) == ((w >> 30) & 1) as int,
        w & 0x7f == 0x33 || w & 0x7f == 0x13 ==> w & 3 == 3,
        (w >> 7) & 0x1f < 32,
        (w >> 12) & 7 < 8,
        (w >> 15) & 0x1f < 32,
        (w >> 20) & 0x1f < 32,
        (w >> 20) < 4096,
        (w >> 25) < 128,
        (w >> 31) <= 1,
        ((w >> 20) >= 2048) == ((w >> 31) == 1),
{
    assert({
        &&& ((w >> 0u32) & (((1u32 << 7u32) - 1) as u32)) == w & 0x7f
        &&& ((w >> 7u32) & (((1u32 << 5u32) - 1) as u32)) == (w >> 7) & 0x1f
        &&& ((w >> 12u32) & (((1u32 << 3u32) - 1) as u32)) == (w >> 12) & 7
        &&& ((w >> 15u32) & (((1u32 << 5u32) - 1) as u32)) == (w >> 15) & 0x1f
        &&& ((w >> 20u32) & (((1u32 << 5u32) - 1) as u32)) == (w >> 20) & 0x1f
        &&& ((w >> 25u32) & (((1u32 << 7u32) - 1) as u32)) == w >> 25
        &&& ((w >> 20u32) & (((1u32 << 12u32) - 1) as u32)) == w >> 20
        &&& (w & 0x7f == 0x33 || w & 0x7f == 0x13 ==> w & 3 == 3)
        &&& (w >> 7) & 0x1f < 32
        &&& (w >> 12) & 7 < 8
        &&& (w >> 15) & 0x1f < 32
        &&& (w >> 20) & 0x1f < 32
        &&& (w >> 20) < 4096
        &&& (w >> 25) < 128
        &&& (w >> 31) <= 1
        &&& (((w >> 20) >= 2048) == ((w >> 31) == 1))
    }) by (bit_vector);
}

/// A word with the OP major opcode decodes, as a 4-byte instruction, to the
/// register-register operation its `funct3` and `funct7` codes name, or to
/// the M-extension operation its `funct3` names when `funct7` is 1, with
/// `rd`, `rs1` and `rs2` from bits 11..7, 19..15 and 24..20.
pub proof fn lemma_op_decoding(w: u32)
    requires
        w & 0x7f == 0x33,
    ensures
        match spec_decode(w) {
            Some((Instruction::R { funct, rd, rs1, rs2 }, len)) => {
                &&& len == 4
                &&& (w >> 25) != 1
                &&& ((w >> 25) == 0 || ((w >> 25) == 0x20 && (((w >> 12) & 7) == 0 || ((w >> 12) & 7) == 5)))
                    ==> r_code(funct) == ((w >> 12) & 7, w >> 25)
                &&& rd == ((w >> 7) & 0x1f) as usize
                &&& rs1 == ((w >> 15) & 0x1f) as usize
                &&& rs2 == ((w >> 20) & 0x1f) as usize
            },
            Some((Instruction::M { funct, rd, rs1, rs2 }, len)) => {
                &&& len == 4
                &&& (w >> 25) == 1
                &&& m_code(funct) == (w >> 12) & 7
                &&& rd == ((w >> 7) & 0x1f) as usize
                &&& rs1 == ((w >> 15) & 0x1f) as usize
                &&& rs2 == ((w >> 20) & 0x1f) as usize
            },
            _ => false,
        },
{
    lemma_fields(w);
}

/// A word with the OP-IMM major opcode decodes, as a 4-byte instruction,
/// to the register-immediate operation its `funct3` code names (bit 30
/// telling SRAI from SRLI), with `rd` and `rs1` from bits 11..7 and
/// 19..15; shifts take the amount in bits 24..20, the others the
/// sign-extended immediate in bits 31..20.
pub proof fn lemma_op_imm_decoding(w: u32)
    requires
        w & 0x7f == 0x13,
    ensures
        match spec_decode(w) {
            Some((Instruction::I { funct, rd, rs1, imm }, len)) => {
                &&& len == 4
                &&& i_code(funct) == (w >> 12) & 7
                &&& (i_code(funct) == 5 ==> ((funct == IFunct::SRAI) <==> ((w >> 30) & 1) == 1))
                &&& rd == ((w >> 7) & 0x1f) as usize
                &&& rs1 == ((w >> 15) & 0x1f) as usize
                &&& imm as int == if i_code(funct) == 1 || i_code(funct) == 5 {
                    ((w >> 20) & 0x1f) as int
                } else {
                    i_offset(w)
                }
            },
            _ => false,
        },
{
    lemma_fields(w);
}


/// What a register-immediate operation of the base ISA leaves in `rd`,
/// from the value `a` of `rs1` and the immediate: sums modulo 2^32,
/// comparisons with the immediate signed or (for SLTIU) sign-extended and
/// then read unsigned, XOR with the sign-extended immediate, and right
/// shifts by amounts below 32 as division by a power of two.
pub open spec fn isa_immediate_result(f: IFunct, a: u32, imm: i32, r: u32) -> bool {
    let k = (imm as int % 0x1_0000_0000) as u32;
    match f {
        IFunct::ADDI => r as int == (a + imm) % 0x1_0000_0000,
        IFunct::SLTI => r == (if twos(a) < imm { 1u32 } else { 0u32 }),
        IFunct::SLTIU => r == (if a < k { 1u32 } else { 0u32 }),
        IFunct::XORI => r ^ k == a,
        IFunct::SRLI => 0 <= imm < 32 ==> r as int == a as int / pow2(imm as nat) as int,
        IFunct::SRAI => 0 <= imm < 32 ==> twos(r) == twos(a) / pow2(imm as nat) as int,
        _ => true,
    }
}

/// Every register-immediate instruction of the hart leaves in `rd` the
/// value that the ISA gives for the value `rs1` held and the immediate.
pub proof fn lemma_immediate_results<M: RamLike>(
    s: HartState,
    m: M::Model,
    funct: IFunct,
    rd: usize,
    rs1: usize,
    imm: i32,
    len: u32,
)
    requires
        s.regs.len() == 32,
        0 < rd < 32,
        rs1 < 32,
        i_code(funct) < 8,
    ensures
        isa_immediate_result(
            funct,
            source(s.regs, rs1),
            imm,
            step::<M>(s, m, Instruction::I { funct, rd, rs1, imm }, len).0.regs[rd as int],
        ),
{
    let a = source(s.regs, rs1);
    let p = crate::hart::fetched(s, len);
    assert(p.regs[rs1 as int] == a);
    let r = step::<M>(s, m, Instruction::I { funct, rd, rs1, imm }, len).0.regs[rd as int];
    assert(r == crate::hart::alu_i(funct, a, imm));
    let k = (imm as int % 0x1_0000_0000) as u32;
    assert(crate::hart::wrap(imm as int) == k);
    lemma_shift_right(a, k);
    lemma_shift_right_arith(a, k);
    if 0 <= imm < 32 {
        assert(k == imm);
        assert(k % 32 == imm);
    }
    assert((a ^ k) ^ k == a) by (bit_vector);
}

/// What the M extension leaves in `rd` for the unsigned and low-product
/// operations, from the values `a` of `rs1` and `b` of `rs2`: the product
/// modulo 2^32 and its high word, the quotient and remainder of unsigned
/// division, and, dividing by zero, all ones for the quotient and the
/// dividend for the remainder.
pub open spec fn isa_unsigned_muldiv_result(f: MFunct, a: u32, b: u32, r: u32) -> bool {
    match f {
        MFunct::MUL => r as int == (a * b) % 0x1_0000_0000,
        MFunct::MULHU => r as int == (a * b) / 0x1_0000_0000,
        MFunct::DIVU => if b == 0 {
            r == 0xffff_ffff
        } else {
            r * b <= a < (r + 1) * b
        },
        MFunct::REMU => if b == 0 {
            r == a
        } else {
            r < b && (a - r) % (b as int) == 0 && r <= a
        },
        _ => true,
    }
}

/// Every unsigned or low-product M-extension instruction of the hart leaves
/// in `rd` the value the ISA gives for the values its sources held.
pub proof fn lemma_unsigned_muldiv_results<M: RamLike>(
    s: HartState,
    m: M::Model,
    funct: MFunct,
    rd: usize,
    rs1: usize,
    rs2: usize,
    len: u32,
)
    requires
        s.regs.len() == 32,
        0 < rd < 32,
        rs1 < 32,
        rs2 < 32,
    ensures
        isa_unsigned_muldiv_result(
            funct,
            source(s.regs, rs1),
            source(s.regs, rs2),
            step::<M>(s, m, Instruction::M { funct, rd, rs1, rs2 }, len).0.regs[rd as int],
        ),
{
    let a = source(s.regs, rs1);
    let b = source(s.regs, rs2);
    let p = crate::hart::fetched(s, len);
    assert(p.regs[rs1 as int] == a);
    assert(p.regs[rs2 as int] == b);
    let r = step::<M>(s, m, Instruction::M { funct, rd, rs1, rs2 }, len).0.regs[rd as int];
    assert(r == crate::hart::mul_div(funct, a, b));
    assert(0 <= a * b < 0x1_0000_0000 * 0x1_0000_0000) by (nonlinear_arith);
    assert((a * b) / 0x1_0000_0000 < 0x1_0000_0000) by (nonlinear_arith)
        requires
            0 <= a * b < 0x1_0000_0000 * 0x1_0000_0000,
    ;
    if b != 0 {
        let q = a / b;
        let rem = a % b;
        lemma_fundamental_div_mod(a as int, b as int);
        assert(q * b <= a < (q + 1) * b) by (nonlinear_arith)
            requires
                a as int == b * q + rem,
                0 <= rem < b,
        ;
        assert((a - rem) % (b as int) == 0) by {
            assert(a - rem == q * b);
            vstd::arithmetic::div_mod::lemma_mod_multiples_basic(q as int, b as int);
        }
    }
}


/// Truncating division and its remainder: quotient times divisor plus
/// remainder is the dividend, the remainder is smaller than the divisor in
/// magnitude and has the dividend's sign, and the quotient is no larger in
/// magnitude than the dividend.
proof fn lemma_truncated_division(x: int, y: int)
    requires
        y != 0,
    ensures
        crate::hart::tdiv(x, y) * y + crate::hart::trem(x, y) == x,
        crate::hart::abs(crate::hart::trem(x, y)) < crate::hart::abs(y),
        crate::hart::trem(x, y) == 0 || (crate::hart::trem(x, y) < 0) == (x < 0),
        crate::hart::abs(crate::hart::tdiv(x, y)) <= crate::hart::abs(x),
        crate::hart::abs(crate::hart::tdiv(x, y)) == crate::hart::abs(x) ==> crate::hart::abs(y) == 1
            || x == 0,
        crate::hart::tdiv(x, y) > 0 ==> (x < 0) == (y < 0),
{
    let ax = crate::hart::abs(x);
    let ay = crate::hart::abs(y);
    let q0 = ax / ay;
    let r0 = ax % ay;
    lemma_fundamental_div_mod(ax, ay);
    assert(0 <= r0 < ay);
    assert(q0 >= 0) by {
        vstd::arithmetic::div_mod::lemma_div_pos_is_pos(ax, ay);
    }
    assert(q0 <= ax) by (nonlinear_arith)
        requires
            ax == ay * q0 + r0,
            ay >= 1,
            q0 >= 0,
            r0 >= 0,
    ;
    assert(q0 == ax && ax != 0 ==> ay == 1) by (nonlinear_arith)
        requires
            ax == ay * q0 + r0,
            ay >= 1,
            q0 >= 0,
            r0 >= 0,
    ;
    if x >= 0 && y > 0 {
        assert(q0 * y + r0 == x) by (nonlinear_arith)
            requires
                ax == ay * q0 + r0,
                ax == x,
                ay == y,
        ;
    } else if x >= 0 {
        assert(-q0 * y + r0 == x) by (nonlinear_arith)
            requires
                ax == ay * q0 + r0,
                ax == x,
                ay == -y,
        ;
    } else if y > 0 {
        assert(-q0 * y - r0 == x) by (nonlinear_arith)
            requires
                ax == ay * q0 + r0,
                ax == -x,
                ay == y,
        ;
    } else {
        assert(q0 * y - r0 == x) by (nonlinear_arith)
            requires
                ax == ay * q0 + r0,
                ax == -x,
                ay == -y,
        ;
    }
}

/// A word of 32 bits holding `t` in two's complement reads back as `t`.
proof fn lemma_twos_wrap(t: int)
    requires
        -0x8000_0000 <= t < 0x8000_0000,
    ensures
        twos(crate::hart::wrap(t)) == t,
{
    if t < 0 {
        assert(t % 0x1_0000_0000 == t + 0x1_0000_0000);
    } else {
        assert(t % 0x1_0000_0000 == t);
    }
}

/// Signed division and remainder of the hart, together, as the ISA gives
/// them: quotient times divisor plus remainder is the dividend (all in two's
/// complement), the remainder is smaller than the divisor in magnitude and
/// has the dividend's sign; dividing by zero gives all ones and the
/// dividend, and the one overflowing division gives the dividend and 0.
pub proof fn lemma_signed_division<M: RamLike>(
    s: HartState,
    m: M::Model,
    rd: usize,
    rs1: usize,
    rs2: usize,
    len: u32,
)
    requires
        s.regs.len() == 32,
        0 < rd < 32,
        rs1 < 32,
        rs2 < 32,
    ensures
        ({
            let a = source(s.regs, rs1);
            let b = source(s.regs, rs2);
            let q = step::<M>(s, m, Instruction::M { funct: MFunct::DIV, rd, rs1, rs2 }, len).0.regs[rd as int];
            let r = step::<M>(s, m, Instruction::M { funct: MFunct::REM, rd, rs1, rs2 }, len).0.regs[rd as int];
            if b == 0 {
                q == 0xffff_ffff && r == a
            } else if a == 0x8000_0000 && b == 0xffff_ffff {
                q == 0x8000_0000 && r == 0
            } else {
                &&& twos(q) * twos(b) + twos(r) == twos(a)
                &&& crate::hart::abs(twos(r)) < crate::hart::abs(twos(b))
                &&& (twos(r) == 0 || (twos(r) < 0) == (twos(a) < 0))
            }
        }),
{
    let a = source(s.regs, rs1);
    let b = source(s.regs, rs2);
    let p = crate::hart::fetched(s, len);
    assert(p.regs[rs1 as int] == a);
    assert(p.regs[rs2 as int] == b);
    let q = step::<M>(s, m, Instruction::M { funct: MFunct::DIV, rd, rs1, rs2 }, len).0.regs[rd as int];
    let r = step::<M>(s, m, Instruction::M { funct: MFunct::REM, rd, rs1, rs2 }, len).0.regs[rd as int];
    assert(q == crate::hart::mul_div(MFunct::DIV, a, b));
    assert(r == crate::hart::mul_div(MFunct::REM, a, b));
    if b != 0 && !(a == 0x8000_0000 && b == 0xffff_ffff) {
        let x = twos(a);
        let y = twos(b);
        assert(crate::hart::signed(a) == x && crate::hart::signed(b) == y);
        assert(y != 0);
        lemma_truncated_division(x, y);
        let t = crate::hart::tdiv(x, y);
        let u = crate::hart::trem(x, y);
        assert(-0x8000_0000 <= t < 0x8000_0000) by {
            if t >= 0x8000_0000 {
                assert(crate::hart::abs(x) == 0x8000_0000);
                assert(x == -0x8000_0000);
                assert(a == 0x8000_0000);
                assert(crate::hart::abs(y) == 1);
                assert(y == -1);
                assert(b == 0xffff_ffff);
            }
        }
        lemma_twos_wrap(t);
        lemma_twos_wrap(u);
    }
}


/// The low `bytes` bytes of `v` read as a two's-complement integer.
pub open spec fn sign_extended(v: u32, bytes: nat) -> int {
    let m = if bytes == 1 { 0x100int } else { 0x10000int };
    let low = v as int % m;
    if low < m / 2 {
        low
    } else {
        low - m
    }
}

/// Loads of the hart read at `x[rs1] + imm` modulo 2^32: LB and LH
/// sign-extend the byte or half-word read, LBU, LHU and LW write what was
/// read unchanged.
pub proof fn lemma_load_results<M: RamLike>(
    s: HartState,
    m: M::Model,
    funct: IFunct,
    rd: usize,
    rs1: usize,
    imm: i32,
    len: u32,
)
    requires
        s.regs.len() == 32,
        0 < rd < 32,
        rs1 < 32,
    ensures
        ({
            let addr = ((source(s.regs, rs1) + imm) % 0x1_0000_0000) as u32;
            let r = step::<M>(s, m, Instruction::I { funct, rd, rs1, imm }, len).0.regs[rd as int];
            match funct {
                IFunct::LB => twos(r) == sign_extended(load_or_zero::<M>(m, addr, 8), 1),
                IFunct::LH => twos(r) == sign_extended(load_or_zero::<M>(m, addr, 16), 2),
                IFunct::LBU => r == load_or_zero::<M>(m, addr, 8),
                IFunct::LHU => r == load_or_zero::<M>(m, addr, 16),
                IFunct::LW => r == load_or_zero::<M>(m, addr, 32),
                _ => true,
            }
        }),
{
    let p = crate::hart::fetched(s, len);
    assert(p.regs[rs1 as int] == source(s.regs, rs1));
}

/// Jumps of the hart: JAL links the address past itself into `rd` and moves
/// the program counter by its offset; JALR links in the same way and jumps
/// to `x[rs1] + imm` with the low bit cleared; all modulo 2^32.
pub proof fn lemma_jump_results<M: RamLike>(
    s: HartState,
    m: M::Model,
    rd: usize,
    rs1: usize,
    imm: i32,
    len: u32,
)
    requires
        s.regs.len() == 32,
        0 < rd < 32,
        rs1 < 32,
    ensures
        ({
            let jal = step::<M>(s, m, Instruction::J { funct: crate::instruction::JFunct::JAL, rd, imm }, len).0;
            &&& jal.regs[rd as int] as int == (s.pc + len) % 0x1_0000_0000
            &&& jal.pc as int == (s.pc + imm) % 0x1_0000_0000
        }),
        ({
            let jalr = step::<M>(s, m, Instruction::I { funct: IFunct::JALR, rd, rs1, imm }, len).0;
            let t = (source(s.regs, rs1) + imm) % 0x1_0000_0000;
            &&& jalr.regs[rd as int] as int == (s.pc + len) % 0x1_0000_0000
            &&& jalr.pc as int == t - t % 2
        }),
{
    let p = crate::hart::fetched(s, len);
    assert(p.regs[rs1 as int] == source(s.regs, rs1));
    let t = crate::hart::wrap(source(s.regs, rs1) + imm);
    assert((t & 0xffff_fffe) as int == t - t % 2) by (bit_vector);
}

/// Upper-immediate instructions of the hart: LUI writes the immediate
/// (whose low twelve bits the decoder clears) and AUIPC the instruction's
/// address plus the immediate, modulo 2^32.
pub proof fn lemma_upper_results<M: RamLike>(s: HartState, m: M::Model, rd: usize, imm: i32, len: u32)
    requires
        s.regs.len() == 32,
        0 < rd < 32,
    ensures
        step::<M>(s, m, Instruction::U { funct: crate::instruction::UFunct::LUI, rd, imm }, len).0.regs[rd as int] as int
            == imm as int % 0x1_0000_0000,
        step::<M>(s, m, Instruction::U { funct: crate::instruction::UFunct::AUIPC, rd, imm }, len).0.regs[rd as int] as int
            == (s.pc + imm) % 0x1_0000_0000,
{
    crate::hart::lemma_imm_as_u32(imm);
}


/// Stores of the hart write `x[rs2]` at `x[rs1] + imm` modulo 2^32: SB a
/// byte, SH a half-word, SW a word; the registers stay as they were.
pub proof fn lemma_store_effects<M: RamLike>(
    s: HartState,
    m: M::Model,
    funct: SFunct,
    rs1: usize,
    rs2: usize,
    imm: i32,
    len: u32,
)
    requires
        s.regs.len() == 32,
        rs1 < 32,
        rs2 < 32,
    ensures
        ({
            let addr = ((source(s.regs, rs1) + imm) % 0x1_0000_0000) as u32;
            let bits: u32 = match funct {
                SFunct::SB => 8,
                SFunct::SH => 16,
                SFunct::SW => 32,
            };
            let after = step::<M>(s, m, Instruction::S { funct, rs1, rs2, imm }, len);
            &&& after.1 == store_to::<M>(m, addr, bits, source(s.regs, rs2))
            &&& after.0.regs == s.regs.update(0, 0)
            &&& after.0.pc as int == (s.pc + len) % 0x1_0000_0000
        }),
{
    let p = crate::hart::fetched(s, len);
    assert(p.regs[rs1 as int] == source(s.regs, rs1));
    assert(p.regs[rs2 as int] == source(s.regs, rs2));
}

/// Every register-immediate instruction of the base core leaves in `rd`
/// the value the ISA gives for the value `rs1` held and the immediate.
pub proof fn lemma_core_immediate_results(s: CpuState, funct: IFunct, rd: usize, rs1: usize, imm: i32)
    requires
        s.regs.len() == 32,
        0 < rd < 32,
        rs1 < 32,
        i_code(funct) < 8,
    ensures
        isa_immediate_result(
            funct,
            source(s.regs, rs1),
            imm,
            core_step(s, Instruction::I { funct, rd, rs1, imm }).regs[rd as int],
        ),
{
    let a = source(s.regs, rs1);
    assert(s.regs.update(0, 0)[rs1 as int] == a);
    let r = core_step(s, Instruction::I { funct, rd, rs1, imm }).regs[rd as int];
    assert(r == crate::hart::alu_i(funct, a, imm));
    let k = (imm as int % 0x1_0000_0000) as u32;
    assert(crate::hart::wrap(imm as int) == k);
    lemma_shift_right(a, k);
    lemma_shift_right_arith(a, k);
    if 0 <= imm < 32 {
        assert(k == imm);
        assert(k % 32 == imm);
    }
    assert((a ^ k) ^ k == a) by (bit_vector);
}

/// Loads and stores of the base core address guest memory at
/// `x[rs1] + imm` modulo 2^32, which sits `DRAM_BASE` bytes into the core's
/// memory: LB and LH sign-extend, LBU, LHU and LW do not; SB, SH and SW
/// write the low 1, 2 or 4 bytes of `x[rs2]` in little-endian order.
pub proof fn lemma_core_memory_access(s: CpuState, funct: IFunct, sf: SFunct, rd: usize, rs1: usize, rs2: usize, imm: i32)
    requires
        s.regs.len() == 32,
        0 < rd < 32,
        rs1 < 32,
        rs2 < 32,
    ensures
        ({
            let at = (source(s.regs, rs1) + imm) % 0x1_0000_0000 + DRAM_BASE;
            let r = core_step(s, Instruction::I { funct, rd, rs1, imm }).regs[rd as int];
            match funct {
                IFunct::LB => twos(r) == sign_extended(le_word(s.mem, at, 1), 1),
                IFunct::LH => twos(r) == sign_extended(le_word(s.mem, at, 2), 2),
                IFunct::LBU => r == le_word(s.mem, at, 1),
                IFunct::LHU => r == le_word(s.mem, at, 2),
                IFunct::LW => r == le_word(s.mem, at, 4),
                _ => true,
            }
        }),
        ({
            let at = (source(s.regs, rs1) + imm) % 0x1_0000_0000 + DRAM_BASE;
            let w: int = match sf {
                SFunct::SB => 1,
                SFunct::SH => 2,
                SFunct::SW => 4,
            };
            core_step(s, Instruction::S { funct: sf, rs1, rs2, imm }).mem == le_store(s.mem, at, w, source(s.regs, rs2))
        }),
{
    assert(s.regs.update(0, 0)[rs1 as int] == source(s.regs, rs1));
    assert(s.regs.update(0, 0)[rs2 as int] == source(s.regs, rs2));
}


/// Memory is little-endian: a 32-bit store puts the least significant byte
/// of the value at the lowest address and the most significant at the
/// highest, and a 32-bit load reads the byte at the lowest address as the
/// least significant.
pub proof fn lemma_little_endian(s: Seq<u8>, addr: u32, v: u32)
    requires
        addr + 4 <= s.len(),
    ensures
        bytes_store(s, addr, 32, v).0[addr as int] as int == v % 0x100,
        bytes_store(s, addr, 32, v).0[addr + 1] as int == (v / 0x100) % 0x100,
        bytes_store(s, addr, 32, v).0[addr + 2] as int == (v / 0x10000) % 0x100,
        bytes_store(s, addr, 32, v).0[addr + 3] as int == v / 0x100_0000,
        bytes_load(s, addr, 32) matches Ok(w) && w as int == s[addr as int] + s[addr + 1] * 0x100 + s[addr + 2]
            * 0x10000 + s[addr + 3] * 0x100_0000,
{
    assert(s[addr as int] + s[addr + 1] * 0x100 + s[addr + 2] * 0x10000 + s[addr + 3] * 0x100_0000 < 0x1_0000_0000)
        by (nonlinear_arith)
        requires
            s[addr as int] < 256,
            s[addr + 1] < 256,
            s[addr + 2] < 256,
            s[addr + 3] < 256,
    ;
    assert(v / 0x100_0000 < 0x100);
}


/// The compressed-instruction fields are the RVC bit ranges.
proof fn lemma_compressed_fields(w: u32)
    ensures
        ({
            let c = w & 0xffff;
            &&& crate::instruction::bits(c, 1, 0) == (w & 3) as int
            &&& crate::instruction::bits(c, 15, 13) == ((c >> 13) & 7) as int
            &&& crate::instruction::bits(c, 11, 7) == ((c >> 7) & 0x1f) as int
            &&& crate::instruction::bits(c, 6, 2) == ((c >> 2) & 0x1f) as int
            &&& crate::instruction::bits(c, 4, 2) == ((c >> 2) & 7) as int
            &&& crate::instruction::bits(c, 9, 7) == ((c >> 7) & 7) as int
            &&& crate::instruction::bits(c, 11, 10) == ((c >> 10) & 3) as int
            &&& crate::instruction::bits(c, 6, 5) == ((c >> 5) & 3) as int
            &&& crate::instruction::bit(c, 12) == ((c >> 12) & 1) as int
            &&& (c >> 13) & 7 < 8
            &&& (c >> 7) & 0x1f < 32
            &&& (c >> 2) & 0x1f < 32
            &&& (c >> 2) & 7 < 8
            &&& (c >> 7) & 7 < 8
            &&& (c >> 10) & 3 < 4
            &&& (c >> 5) & 3 < 4
            &&& (c >> 12) & 1 < 2
        }),
{
    let c = w & 0xffff;
    assert({
        &&& ((c >> 0u32) & (((1u32 << 2u32) - 1) as u32)) == w & 3
        &&& ((c >> 13u32) & (((1u32 << 3u32) - 1) as u32)) == (c >> 13) & 7
        &&& ((c >> 7u32) & (((1u32 << 5u32) - 1) as u32)) == (c >> 7) & 0x1f
        &&& ((c >> 2u32) & (((1u32 << 5u32) - 1) as u32)) == (c >> 2) & 0x1f
        &&& ((c >> 2u32) & (((1u32 << 3u32) - 1) as u32)) == (c >> 2) & 7
        &&& ((c >> 7u32) & (((1u32 << 3u32) - 1) as u32)) == (c >> 7) & 7
        &&& ((c >> 10u32) & (((1u32 << 2u32) - 1) as u32)) == (c >> 10) & 3
        &&& ((c >> 5u32) & (((1u32 << 2u32) - 1) as u32)) == (c >> 5) & 3
        &&& (c >> 13) & 7 < 8
        &&& (c >> 7) & 0x1f < 32
        &&& (c >> 2) & 0x1f < 32
        &&& (c >> 2) & 7 < 8
        &&& (c >> 7) & 7 < 8
        &&& (c >> 10) & 3 < 4
        &&& (c >> 5) & 3 < 4
        &&& (c >> 12) & 1 < 2
    }) by (bit_vector)
        requires
            c == w & 0xffff,
    ;
}

/// Compressed instructions expand to the base instructions the RVC
/// specification gives them, with `rd'`/`rs1'`/`rs2'` naming `x8..x15`:
/// C.ADDI to ADDI rd, rd; C.LI to ADDI rd, x0; C.JAL and C.J to JAL x1 and
/// JAL x0; C.BEQZ and C.BNEZ to BEQ and BNE against x0; C.SUB, C.XOR, C.OR
/// and C.AND by bits 6..5; C.MV to ADD rd, x0, rs2 and C.ADD to ADD rd, rd,
/// rs2; C.JR and C.JALR to JALR linking x0 and x1; C.LW and C.SW on
/// `rs1'`, C.LWSP and C.SWSP on the stack pointer. Each is 2 bytes long.
pub proof fn lemma_compressed_expansions(w: u32)
    requires
        w & 3 != 3,
    ensures
        ({
            let c = w & 0xffff;
            let q = w & 3;
            let f3 = (c >> 13) & 7;
            let rdf = ((c >> 7) & 0x1f) as usize;
            let rs2f = ((c >> 2) & 0x1f) as usize;
            let rdp = (8 + ((c >> 2) & 7)) as usize;
            let rs1p = (8 + ((c >> 7) & 7)) as usize;
            let b12 = (c >> 12) & 1;
            let d = spec_decode(w);
            &&& (q == 1 && f3 == 0) ==> (d matches Some((Instruction::I { funct, rd, rs1, .. }, len)) && funct
                == IFunct::ADDI && rd == rdf && rs1 == rdf && len == 2)
            &&& (q == 1 && f3 == 2) ==> (d matches Some((Instruction::I { funct, rd, rs1, .. }, len)) && funct
                == IFunct::ADDI && rd == rdf && rs1 == 0 && len == 2)
            &&& (q == 1 && f3 == 1) ==> (d matches Some((Instruction::J { rd, .. }, len)) && rd == 1 && len == 2)
            &&& (q == 1 && f3 == 5) ==> (d matches Some((Instruction::J { rd, .. }, len)) && rd == 0 && len == 2)
            &&& (q == 1 && f3 == 6) ==> (d matches Some((Instruction::B { funct, rs1, rs2, .. }, len)) && funct
                == BFunct::BEQ && rs1 == rs1p && rs2 == 0 && len == 2)
            &&& (q == 1 && f3 == 7) ==> (d matches Some((Instruction::B { funct, rs1, rs2, .. }, len)) && funct
                == BFunct::BNE && rs1 == rs1p && rs2 == 0 && len == 2)
            &&& (q == 1 && f3 == 4 && (c >> 10) & 3 == 3 && b12 == 0) ==> (d matches Some(
                (Instruction::R { funct, rd, rs1, rs2 }, len),
            ) && rd == rs1p && rs1 == rs1p && rs2 == rdp && len == 2 && funct == (if (c >> 5) & 3 == 0 {
                RFunct::SUB
            } else if (c >> 5) & 3 == 1 {
                RFunct::XOR
            } else if (c >> 5) & 3 == 2 {
                RFunct::OR
            } else {
                RFunct::AND
            }))
            &&& (q == 2 && f3 == 4 && rdf != 0 && rs2f != 0) ==> (d matches Some(
                (Instruction::R { funct, rd, rs1, rs2 }, len),
            ) && funct == RFunct::ADD && rd == rdf && rs1 == (if b12 == 1 { rdf } else { 0 }) && rs2 == rs2f
                && len == 2)
            &&& (q == 2 && f3 == 4 && rdf != 0 && rs2f == 0) ==> (d matches Some(
                (Instruction::I { funct, rd, rs1, imm }, len),
            ) && funct == IFunct::JALR && rd == (if b12 == 1 { 1usize } else { 0usize }) && rs1 == rdf && imm == 0
                && len == 2)
            &&& (q == 0 && f3 == 2) ==> (d matches Some((Instruction::I { funct, rd, rs1, .. }, len)) && funct
                == IFunct::LW && rd == rdp && rs1 == rs1p && len == 2)
            &&& (q == 0 && f3 == 6) ==> (d matches Some((Instruction::S { funct, rs1, rs2, .. }, len)) && funct
                == SFunct::SW && rs1 == rs1p && rs2 == rdp && len == 2)
            &&& (q == 2 && f3 == 2 && rdf != 0) ==> (d matches Some((Instruction::I { funct, rd, rs1, .. }, len))
                && funct == IFunct::LW && rd == rdf && rs1 == 2 && len == 2)
            &&& (q == 2 && f3 == 6) ==> (d matches Some((Instruction::S { funct, rs1, rs2, .. }, len)) && funct
                == SFunct::SW && rs1 == 2 && rs2 == rs2f && len == 2)
        }),
{
    lemma_compressed_fields(w);
}

} // verus!
