//! The first-generation RV32I core: a CPU that owns its memory, mapped at
//! [`DRAM_BASE`], and executes the base integer instruction set. Unlike
//! [`crate::hart::Hart`], its caller advances the program counter by four
//! before each instruction, and every memory access must succeed.
use vstd::prelude::*;

use crate::hart::{alu_i, branch_taken, lemma_add_signed, lemma_imm_as_u32, lemma_signed, sext16, sext8, wrap};
use crate::instruction::{spec_decode, BFunct, IFunct, Instruction, RFunct, SFunct, UFunct};
use crate::loader::{copy_into, elf_read, lemma_loaded_len, loaded, parsed_elf, ElfImageView, ProgramSegment, PT_LOAD};
use crate::memory::{le_store, le_word, read_le, width_of, write_le};

verus! {

/// Memory size: 128 MiB.
pub const DRAM_SIZE: u32 = 0x800_0000;

/// Guest address offset of the memory, as on the QEMU virt machine.
pub const DRAM_BASE: u32 = 0x80_0000;

/// The CPU's memory. Guest address `a` is byte `a + DRAM_BASE` of `dram`.
#[derive(Debug)]
pub struct Dram {
    pub dram: Vec<u8>,
}

/// Whether an access of `size` bits at guest address `addr` can be made:
/// the offset address fits in 32 bits and the bytes lie inside `mem`.
pub open spec fn in_bounds(mem: Seq<u8>, addr: u32, size: u32) -> bool {
    &&& addr + DRAM_BASE <= u32::MAX
    &&& width_of(size) != 0 ==> addr + DRAM_BASE + width_of(size) <= mem.len()
}

impl Dram {
    /// Little-endian load at guest address `addr`; `Err` for an unsupported
    /// width.
    pub fn load(&self, addr: u32, size: u32) -> (r: Result<u32, ()>)
        requires
            in_bounds(self.dram@, addr, size),
        ensures
            r == (if width_of(size) == 0 {
                Err(())
            } else {
                Ok(le_word(self.dram@, addr + DRAM_BASE, width_of(size)))
            }),
    {
        let addr = addr + DRAM_BASE;
        match size {
            8 => Ok(read_le(self.dram.as_slice(), addr as usize, 1)),
            16 => Ok(read_le(self.dram.as_slice(), addr as usize, 2)),
            32 => Ok(read_le(self.dram.as_slice(), addr as usize, 4)),
            _ => Err(()),
        }
    }

    /// Little-endian store at guest address `addr`; `Err` (and no change)
    /// for an unsupported width.
    pub fn store(&mut self, addr: u32, size: u32, value: u32) -> (r: Result<(), ()>)
        requires
            in_bounds(old(self).dram@, addr, size),
        ensures
            r == (if width_of(size) == 0 { Err(()) } else { Ok(()) }),
            final(self).dram@ == (if width_of(size) == 0 {
                old(self).dram@
            } else {
                le_store(old(self).dram@, addr + DRAM_BASE, width_of(size), value)
            }),
    {
        let addr = addr + DRAM_BASE;
        match size {
            8 => {
                write_le(self.dram.as_mut_slice(), addr as usize, 1, value);
                Ok(())
            },
            16 => {
                write_le(self.dram.as_mut_slice(), addr as usize, 2, value);
                Ok(())
            },
            32 => {
                write_le(self.dram.as_mut_slice(), addr as usize, 4, value);
                Ok(())
            },
            _ => Err(()),
        }
    }
}

/// The base-ISA CPU: registers, program counter and its memory.
#[derive(Debug)]
pub struct Cpu {
    pub regs: [u32; 32],
    pub pc: u32,
    pub dram: Dram,
}

/// The state of a [`Cpu`].
pub struct CpuState {
    pub regs: Seq<u32>,
    pub pc: u32,
    pub mem: Seq<u8>,
}

impl View for Cpu {
    type V = CpuState;

    open spec fn view(&self) -> CpuState {
        CpuState { regs: self.regs@, pc: self.pc, mem: self.dram.dram@ }
    }
}

pub open spec fn set_reg(s: CpuState, rd: usize, v: u32) -> CpuState {
    CpuState { regs: s.regs.update(rd as int, v), pc: s.pc, mem: s.mem }
}

/// Register-register operations of this core; shifts use the low five
/// bits of `b`, and SRA copies the sign bit.
pub open spec fn core_alu_r(f: RFunct, a: u32, b: u32) -> u32 {
    match f {
        RFunct::ADD => wrap(a + b),
        RFunct::SUB => wrap(a - b),
        RFunct::SLL => a << (b & 0x1f),
        RFunct::SLT => if (a as i32) < (b as i32) { 1 } else { 0 },
        RFunct::SLTU => if a < b { 1 } else { 0 },
        RFunct::XOR => a ^ b,
        RFunct::SRL => a >> (b & 0x1f),
        RFunct::SRA => ((a as i32) >> (b & 0x1f)) as u32,
        RFunct::OR => a | b,
        RFunct::AND => a & b,
    }
}

/// The instructions this core executes: the base formats R, I, S, B, U, J,
/// with register indices below 32 and shift amounts below 32.
pub open spec fn is_base_instruction(inst: Instruction) -> bool {
    &&& inst.regs_in_range()
    &&& match inst {
        Instruction::R { .. } | Instruction::S { .. } | Instruction::B { .. } | Instruction::U { .. }
        | Instruction::J { .. } => true,
        Instruction::I { funct, imm, .. } => match funct {
            IFunct::SLLI | IFunct::SRLI | IFunct::SRAI => 0 <= imm < 32,
            _ => true,
        },
        _ => false,
    }
}

/// Every memory access that `inst` makes in state `s` (with `x0` reading
/// as zero) lies inside the memory.
pub open spec fn accesses_in_bounds(s: CpuState, inst: Instruction) -> bool {
    let regs = s.regs.update(0, 0);
    match inst {
        Instruction::I { funct, rs1, imm, .. } => {
            let addr = wrap(regs[rs1 as int] + imm);
            match funct {
                IFunct::LB | IFunct::LBU => in_bounds(s.mem, addr, 8),
                IFunct::LH | IFunct::LHU => in_bounds(s.mem, addr, 16),
                IFunct::LW => in_bounds(s.mem, addr, 32),
                _ => true,
            }
        },
        Instruction::S { funct, rs1, imm, .. } => {
            let addr = wrap(regs[rs1 as int] + imm);
            match funct {
                SFunct::SB => in_bounds(s.mem, addr, 8),
                SFunct::SH => in_bounds(s.mem, addr, 16),
                SFunct::SW => in_bounds(s.mem, addr, 32),
            }
        },
        _ => true,
    }
}

/// The effect of `inst` on this core. `pc` has already been advanced past
/// the instruction, so branch and jump targets subtract four again; JAL
/// links `pc + 4`.
pub open spec fn core_step(s0: CpuState, inst: Instruction) -> CpuState {
    let s = CpuState { regs: s0.regs.update(0, 0), pc: s0.pc, mem: s0.mem };
    match inst {
        Instruction::R { funct, rd, rs1, rs2 } => set_reg(s, rd, core_alu_r(funct, s.regs[rs1 as int], s.regs[rs2 as int])),
        Instruction::I { funct, rd, rs1, imm } => {
            let a = s.regs[rs1 as int];
            let addr = wrap(a + imm);
            match funct {
                IFunct::JALR => CpuState {
                    regs: s.regs.update(rd as int, s.pc),
                    pc: addr & 0xffff_fffe,
                    mem: s.mem,
                },
                IFunct::LB => set_reg(s, rd, sext8(le_word(s.mem, addr + DRAM_BASE, 1))),
                IFunct::LH => set_reg(s, rd, sext16(le_word(s.mem, addr + DRAM_BASE, 2))),
                IFunct::LW => set_reg(s, rd, le_word(s.mem, addr + DRAM_BASE, 4)),
                IFunct::LBU => set_reg(s, rd, le_word(s.mem, addr + DRAM_BASE, 1)),
                IFunct::LHU => set_reg(s, rd, le_word(s.mem, addr + DRAM_BASE, 2)),
                _ => set_reg(s, rd, alu_i(funct, a, imm)),
            }
        },
        Instruction::S { funct, rs1, rs2, imm } => {
            let addr = wrap(s.regs[rs1 as int] + imm);
            let w: int = match funct {
                SFunct::SB => 1,
                SFunct::SH => 2,
                SFunct::SW => 4,
            };
            CpuState { regs: s.regs, pc: s.pc, mem: le_store(s.mem, addr + DRAM_BASE, w, s.regs[rs2 as int]) }
        },
        Instruction::B { funct, rs1, rs2, imm } => if branch_taken(funct, s.regs[rs1 as int], s.regs[rs2 as int]) {
            CpuState { regs: s.regs, pc: wrap(s.pc + imm - 4), mem: s.mem }
        } else {
            s
        },
        Instruction::U { funct, rd, imm } => match funct {
            UFunct::LUI => set_reg(s, rd, imm as u32),
            UFunct::AUIPC => set_reg(s, rd, wrap(s.pc + imm - 4)),
        },
        Instruction::J { rd, imm, .. } => CpuState {
            regs: s.regs.update(rd as int, wrap(s.pc + 4)),
            pc: wrap(s.pc + imm - 4),
            mem: s.mem,
        },
        _ => s,
    }
}

proof fn lemma_small_shift(x: u32)
    by (bit_vector)
    ensures
        x < 32 ==> x & 0x1f == x,
{
}

proof fn lemma_pc_minus_four(pc: u32, imm: i32)
    ensures
        pc.wrapping_add_signed(imm).wrapping_sub(4) == wrap(pc + imm - 4),
{
    let q = pc.wrapping_add_signed(imm);
    assert(q as int == (pc + imm) % 0x1_0000_0000);
    vstd::arithmetic::div_mod::lemma_sub_mod_noop(pc + imm, 4, 0x1_0000_0000);
    vstd::arithmetic::div_mod::lemma_mod_twice(pc + imm, 0x1_0000_0000);
}

impl Cpu {
    /// A CPU about to execute at `entry`, with the stack pointer 8 bytes
    /// below the top of memory.
    pub fn new(dram: Dram, entry: u32) -> (r: Self)
        ensures
            r.pc == entry,
            r.dram == dram,
            r.regs@ == Seq::new(32, |i: int| if i == 2 { (DRAM_SIZE - 8) as u32 } else { 0u32 }),
    {
        let mut cpu = Self { regs: [0; 32], pc: entry, dram };
        cpu.regs[2] = DRAM_SIZE - 8;
        assert(cpu.regs@ =~= Seq::new(32, |i: int| if i == 2 { (DRAM_SIZE - 8) as u32 } else { 0u32 }));
        cpu
    }

    /// The instruction word at the program counter.
    pub fn fetch(&self) -> (r: u32)
        requires
            in_bounds(self.dram.dram@, self.pc, 32),
        ensures
            r == le_word(self.dram.dram@, self.pc + DRAM_BASE, 4),
    {
        match self.dram.load(self.pc, 32) {
            Ok(v) => v,
            Err(_) => 0,
        }
    }

    /// Executes one base-ISA instruction; the caller has already advanced
    /// the program counter by four.
    pub fn execute(&mut self, inst: Instruction)
        requires
            is_base_instruction(inst),
            accesses_in_bounds(old(self)@, inst),
        ensures
            final(self)@ == core_step(old(self)@, inst),
    {
        self.regs[0] = 0;  // x0 is hard-wired to zero
        match inst {
            Instruction::R { funct, rd, rs1, rs2 } => {
                let a = self.regs[rs1];
                let b = self.regs[rs2];
                assert(b & 0x1f < 32) by (bit_vector);
                self.regs[rd] = match funct {
                    RFunct::ADD => a.wrapping_add(b),
                    RFunct::SUB => a.wrapping_sub(b),
                    RFunct::SLL => a << (b & 0x1f),
                    RFunct::SLT => if (a as i32) < (b as i32) { 1 } else { 0 },
                    RFunct::SLTU => if a < b { 1 } else { 0 },
                    RFunct::XOR => a ^ b,
                    RFunct::SRL => a >> (b & 0x1f),
                    RFunct::SRA => ((a as i32) >> (b & 0x1f)) as u32,
                    RFunct::OR => a | b,
                    RFunct::AND => a & b,
                };
            },
            Instruction::I { funct, rd, rs1, imm } => {
                let a = self.regs[rs1];
                let addr = a.wrapping_add_signed(imm);
                proof {
                    lemma_signed(a);
                    lemma_imm_as_u32(imm);
                    lemma_add_signed(a, imm);
                    lemma_small_shift(imm as u32);
                }
                match funct {
                    IFunct::JALR => {
                        let back_addr = self.pc;
                        self.pc = addr & 0xffff_fffe;
                        self.regs[rd] = back_addr;
                    },
                    IFunct::LB => {
                        let v = match self.dram.load(addr, 8) {
                            Ok(v) => v,
                            Err(_) => 0,
                        };
                        assert((((v << 24u32) as i32 >> 24u32) as u32) == (if v % 256 >= 128 { (v % 256 + 0xffff_ff00) as u32 } else { v % 256 })) by (bit_vector);
                        self.regs[rd] = (((v << 24) as i32) >> 24) as u32;
                    },
                    IFunct::LH => {
                        let v = match self.dram.load(addr, 16) {
                            Ok(v) => v,
                            Err(_) => 0,
                        };
                        assert((((v << 16u32) as i32 >> 16u32) as u32) == (if v % 0x10000 >= 0x8000 { (v % 0x10000 + 0xffff_0000) as u32 } else { v % 0x10000 })) by (bit_vector);
                        self.regs[rd] = (((v << 16) as i32) >> 16) as u32;
                    },
                    IFunct::LW => {
                        self.regs[rd] = match self.dram.load(addr, 32) {
                            Ok(v) => v,
                            Err(_) => 0,
                        };
                    },
                    IFunct::LBU => {
                        self.regs[rd] = match self.dram.load(addr, 8) {
                            Ok(v) => v,
                            Err(_) => 0,
                        };
                    },
                    IFunct::LHU => {
                        self.regs[rd] = match self.dram.load(addr, 16) {
                            Ok(v) => v,
                            Err(_) => 0,
                        };
                    },
                    IFunct::ADDI => {
                        self.regs[rd] = addr;
                    },
                    IFunct::SLTI => {
                        self.regs[rd] = if (a as i32) < imm { 1 } else { 0 };
                    },
                    IFunct::SLTIU => {
                        self.regs[rd] = if a < (imm as u32) { 1 } else { 0 };
                    },
                    IFunct::XORI => {
                        self.regs[rd] = a ^ (imm as u32);
                    },
                    IFunct::ORI => {
                        self.regs[rd] = a | (imm as u32);
                    },
                    IFunct::ANDI => {
                        self.regs[rd] = a & (imm as u32);
                    },
                    IFunct::SLLI => {
                        self.regs[rd] = a << (imm as u32);
                    },
                    IFunct::SRLI => {
                        self.regs[rd] = a >> (imm as u32);
                    },
                    IFunct::SRAI => {
                        self.regs[rd] = ((a as i32) >> (imm as u32)) as u32;
                    },
                }
            },
            Instruction::S { funct, rs1, rs2, imm } => {
                let addr = self.regs[rs1].wrapping_add_signed(imm);
                proof {
                    lemma_add_signed(self.regs@[rs1 as int], imm);
                }
                let value = self.regs[rs2];
                let size: u32 = match funct {
                    SFunct::SB => 8,
                    SFunct::SH => 16,
                    SFunct::SW => 32,
                };
                let _ = self.dram.store(addr, size, value);
            },
            Instruction::B { funct, rs1, rs2, imm } => {
                let a = self.regs[rs1];
                let b = self.regs[rs2];
                proof {
                    lemma_signed(a);
                    lemma_signed(b);
                }
                let taken = match funct {
                    BFunct::BEQ => a == b,
                    BFunct::BNE => a != b,
                    BFunct::BLT => (a as i32) < (b as i32),
                    BFunct::BGE => (a as i32) >= (b as i32),
                    BFunct::BLTU => a < b,
                    BFunct::BGEU => a >= b,
                };
                if taken {
                    proof {
                        lemma_pc_minus_four(self.pc, imm);
                    }
                    self.pc = self.pc.wrapping_add_signed(imm).wrapping_sub(4);
                }
            },
            Instruction::U { funct, rd, imm } => match funct {
                UFunct::LUI => {
                    self.regs[rd] = imm as u32;
                },
                UFunct::AUIPC => {
                    proof {
                        lemma_pc_minus_four(self.pc, imm);
                    }
                    self.regs[rd] = self.pc.wrapping_add_signed(imm).wrapping_sub(4);
                },
            },
            Instruction::J { funct: _, rd, imm } => {
                proof {
                    lemma_pc_minus_four(self.pc, imm);
                }
                self.regs[rd] = self.pc.wrapping_add(4);
                self.pc = self.pc.wrapping_add_signed(imm).wrapping_sub(4);
            },
            _ => {},
        }
    }
}

/// Whether loadable segment `s` of a file of `code_len` bytes can be placed
/// by this core: it lies at or above [`DRAM_BASE`], its end is computable,
/// and its file bytes lie inside the file and inside the memory.
pub open spec fn core_segment_ok(s: ProgramSegment, code_len: int) -> bool {
    &&& s.p_vaddr >= DRAM_BASE
    &&& s.p_vaddr - DRAM_BASE + s.p_memsz <= u64::MAX
    &&& (s.p_vaddr as usize) >= DRAM_BASE
    &&& (s.p_vaddr as usize) + (s.p_filesz as usize) <= DRAM_SIZE
    &&& (s.p_offset as usize) + (s.p_filesz as usize) <= code_len
}

/// Whether this core loads the parsed file `img` of `code`: it has a
/// loadable segment, every loadable segment can be placed, the file fits
/// in memory, and the entry point lies at or above [`DRAM_BASE`].
pub open spec fn core_loadable(code: Seq<u8>, img: ElfImageView) -> bool {
    let segs = img.segments;
    &&& exists|i: int| #![trigger segs[i]] 0 <= i < segs.len() && segs[i].p_type == PT_LOAD
    &&& forall|i: int|
        #![trigger segs[i]]
        0 <= i < segs.len() && segs[i].p_type == PT_LOAD ==> core_segment_ok(segs[i], code.len() as int)
    &&& code.len() <= DRAM_SIZE
    &&& (img.entry as u32) >= DRAM_BASE
}

/// The memory image this core builds: the loadable segments copied, in
/// order, into zeroed memory of [`DRAM_SIZE`] bytes at their virtual
/// addresses.
pub open spec fn core_image(code: Seq<u8>, segs: Seq<ProgramSegment>) -> Seq<u8> {
    loaded(code, segs, segs.len() as int, DRAM_SIZE as int)
}

/// Decides [`core_loadable`] for a parsed file.
fn check_core_loadable(code: &[u8], segments: &Vec<ProgramSegment>, entry: u64) -> (r: bool)
    ensures
        r == core_loadable(code@, ElfImageView { entry, segments: segments@ }),
{
    let ghost img = ElfImageView { entry, segments: segments@ };
    let n = segments.len();
    let clen = code.len();
    let mut found = false;
    let mut i: usize = 0;
    while i < n
        invariant
            i <= n,
            n == segments@.len(),
            clen == code@.len(),
            found <==> exists|k: int| #![trigger segments@[k]] 0 <= k < i && segments@[k].p_type == PT_LOAD,
            forall|k: int|
                #![trigger segments@[k]]
                0 <= k < i && segments@[k].p_type == PT_LOAD ==> core_segment_ok(segments@[k], clen as int),
        decreases n - i,
    {
        let s = segments[i];
        if s.p_type == PT_LOAD {
            assert(segments@[i as int].p_type == PT_LOAD);
            found = true;
            let vaddr = s.p_vaddr as usize;
            let ok = s.p_vaddr >= DRAM_BASE as u64
                && s.p_memsz <= u64::MAX - (s.p_vaddr - DRAM_BASE as u64)
                && vaddr >= DRAM_BASE as usize
                && (match vaddr.checked_add(s.p_filesz as usize) {
                    Some(end) => end <= DRAM_SIZE as usize,
                    None => false,
                })
                && (match (s.p_offset as usize).checked_add(s.p_filesz as usize) {
                    Some(end) => end <= clen,
                    None => false,
                });
            if !ok {
                return false;
            }
        }
        i = i + 1;
    }
    let r = found && clen <= DRAM_SIZE as usize && entry as u32 >= DRAM_BASE;
    assert(img.segments == segments@);
    assert(r ==> core_loadable(code@, img));
    assert(core_loadable(code@, img) ==> found);
    r
}

impl Dram {
    /// Loads the ELF executable `code` into a fresh memory of [`DRAM_SIZE`]
    /// bytes; returns it with the entry point as a guest address (the
    /// file's entry minus [`DRAM_BASE`]).
    pub fn new(code: &[u8]) -> (r: (Dram, u32))
        requires
            parsed_elf(code@) matches Some(img) && core_loadable(code@, img),
        ensures
            parsed_elf(code@) matches Some(img) && r.0.dram@ == core_image(code@, img.segments) && r.1
                == (img.entry as u32) - DRAM_BASE,
    {
        let image = match elf_read(code) {
            Some(image) => image,
            None => {
                proof {
                    assert(false);
                }
                return (Dram { dram: Vec::new() }, 0);
            },
        };
        let segs = &image.segments;
        let n = segs.len();
        let size = DRAM_SIZE as usize;
        let mut mem = vec![0u8; size];
        assert(mem@ =~= loaded(code@, segs@, 0, size as int));
        let mut j: usize = 0;
        while j < n
            invariant
                j <= n,
                n == segs@.len(),
                size == DRAM_SIZE,
                core_loadable(code@, image@),
                image@.segments == segs@,
                mem@ == loaded(code@, segs@, j as int, size as int),
            decreases n - j,
        {
            proof {
                assert forall|i: int|
                    #![trigger segs@[i]]
                    0 <= i < segs@.len() && segs@[i].p_type == PT_LOAD implies {
                        &&& (segs@[i].p_vaddr as usize) + (segs@[i].p_filesz as usize) <= size
                        &&& (segs@[i].p_offset as usize) + (segs@[i].p_filesz as usize) <= code@.len()
                    } by {
                    assert(core_segment_ok(segs@[i], code@.len() as int));
                }
                lemma_loaded_len(code@, segs@, j as int, size as int);
            }
            let s = segs[j];
            if s.p_type == PT_LOAD {
                assert(segs@[j as int].p_type == PT_LOAD);
                assert(core_segment_ok(segs@[j as int], code@.len() as int));
                let vaddr = s.p_vaddr as usize;
                let offset = s.p_offset as usize;
                let filesz = s.p_filesz as usize;
                copy_into(&mut mem, vaddr, code, offset, filesz);
            }
            j = j + 1;
        }
        (Dram { dram: mem }, image.entry as u32 - DRAM_BASE)
    }

    /// Whether [`Dram::new`] can load `code`: the file is parsed and fits
    /// this core's memory.
    pub fn can_load(code: &[u8]) -> (r: bool)
        ensures
            r == (parsed_elf(code@) matches Some(img) && core_loadable(code@, img)),
    {
        match elf_read(code) {
            Some(image) => check_core_loadable(code, &image.segments, image.entry),
            None => false,
        }
    }

    /// Loads `code` as [`Dram::new`] does, or `None` where it would fail.
    pub fn try_new(code: &[u8]) -> (r: Option<(Dram, u32)>)
        ensures
            match r {
                Some(res) => parsed_elf(code@) matches Some(img) && core_loadable(code@, img)
                    && res.0.dram@ == core_image(code@, img.segments) && res.1 == (img.entry as u32) - DRAM_BASE,
                None => !(parsed_elf(code@) matches Some(img) && core_loadable(code@, img)),
            },
    {
        match elf_read(code) {
            Some(image) => if check_core_loadable(code, &image.segments, image.entry) {
                Some(Dram::new(code))
            } else {
                None
            },
            None => None,
        }
    }
}

/// Builds a [`Cpu`] from an ELF executable.
pub struct CpuBuilder {}

impl Default for CpuBuilder {
    fn default() -> (r: Self)
        ensures
            r == (CpuBuilder {}),
    {
        CpuBuilder {}
    }
}

impl CpuBuilder {
    /// Loads `elf` and returns a CPU at its entry point.
    pub fn build(self, elf: &[u8]) -> (r: Cpu)
        requires
            parsed_elf(elf@) matches Some(img) && core_loadable(elf@, img),
        ensures
            parsed_elf(elf@) matches Some(img) && r.dram.dram@ == core_image(elf@, img.segments) && r.pc
                == (img.entry as u32) - DRAM_BASE,
            r.regs@ == Seq::new(32, |i: int| if i == 2 { (DRAM_SIZE - 8) as u32 } else { 0u32 }),
    {
        let (dram, entry) = Dram::new(elf);
        Cpu::new(dram, entry)
    }

    /// Builds as [`CpuBuilder::build`] does, or `None` where the file is
    /// not parsed or cannot be laid out in this core's memory.
    pub fn try_build(self, elf: &[u8]) -> (r: Option<Cpu>)
        ensures
            r is Some <==> (parsed_elf(elf@) matches Some(img) && core_loadable(elf@, img)),
            r matches Some(c) ==> parsed_elf(elf@) matches Some(img) && c.dram.dram@ == core_image(
                elf@,
                img.segments,
            ) && c.pc == (img.entry as u32) - DRAM_BASE && c.regs@ == Seq::new(
                32,
                |i: int| if i == 2 { (DRAM_SIZE - 8) as u32 } else { 0u32 },
            ),
    {
        if Dram::can_load(elf) {
            Some(self.build(elf))
        } else {
            None
        }
    }
}

/// Guest address of the console word: a nonzero value written there is a
/// character for the host to print.
pub const CONSOLE_ADDR: u32 = 4;

/// Why a cycle of the core stopped before completing.
#[derive(Debug, Clone, Copy, PartialEq, Eq)]
pub enum CoreFault {
    /// The instruction word at the program counter lies outside memory.
    FetchOutOfBounds,
    /// Advancing the program counter by four would overflow.
    PcOverflow,
    /// The word at the program counter is not an instruction.
    IllegalInstruction(u32),
    /// The word decodes to an instruction outside the base set.
    UnsupportedInstruction(u32),
    /// A load or store of the instruction lies outside memory.
    AccessOutOfBounds,
    /// The console word lies outside memory.
    ConsoleOutOfBounds,
    /// The console word holds a value that is no Unicode scalar value.
    InvalidChar(u32),
}

/// Whether `v` is a Unicode scalar value, i.e. a valid `char`.
pub open spec fn is_unicode_scalar(v: u32) -> bool {
    v < 0xD800 || (0xE000 <= v && v <= 0x10FFFF)
}

/// One cycle of the core: fetch the word at `pc`, advance `pc` by four,
/// decode and execute it, then read and clear the console word. Returns
/// the state after the cycle and the console value (0 for none), or the
/// fault; a fault detected before execution leaves the state unchanged.
pub open spec fn cycle(s: CpuState) -> (CpuState, Result<u32, CoreFault>) {
    if !in_bounds(s.mem, s.pc, 32) {
        (s, Err(CoreFault::FetchOutOfBounds))
    } else if s.pc + 4 > u32::MAX {
        (s, Err(CoreFault::PcOverflow))
    } else {
        let word = le_word(s.mem, s.pc + DRAM_BASE, 4);
        let s1 = CpuState { regs: s.regs, pc: (s.pc + 4) as u32, mem: s.mem };
        match spec_decode(word) {
            None => (s, Err(CoreFault::IllegalInstruction(word))),
            Some((inst, _)) => if !is_base_instruction(inst) {
                (s, Err(CoreFault::UnsupportedInstruction(word)))
            } else if !accesses_in_bounds(s1, inst) {
                (s, Err(CoreFault::AccessOutOfBounds))
            } else if !in_bounds(s.mem, CONSOLE_ADDR, 32) {
                (s, Err(CoreFault::ConsoleOutOfBounds))
            } else {
                let s2 = core_step(s1, inst);
                let out = le_word(s2.mem, CONSOLE_ADDR + DRAM_BASE, 4);
                let s3 = CpuState { regs: s2.regs, pc: s2.pc, mem: le_store(s2.mem, CONSOLE_ADDR + DRAM_BASE, 4, 0) };
                if out != 0 && !is_unicode_scalar(out) {
                    (s3, Err(CoreFault::InvalidChar(out)))
                } else {
                    (s3, Ok(out))
                }
            },
        }
    }
}

/// Up to `n` cycles from `s`: the state reached, the nonzero console values
/// in order, and the fault that stopped the run early, if any.
pub open spec fn run_cycles(s: CpuState, n: nat) -> (CpuState, Seq<u32>, Option<CoreFault>)
    decreases n,
{
    if n == 0 {
        (s, Seq::empty(), None)
    } else {
        let prev = run_cycles(s, (n - 1) as nat);
        if prev.2 is Some {
            prev
        } else {
            let next = cycle(prev.0);
            match next.1 {
                Err(f) => (next.0, prev.1, Some(f)),
                Ok(out) => (next.0, if out == 0 { prev.1 } else { prev.1.push(out) }, None),
            }
        }
    }
}

/// Decides [`in_bounds`] for the memory of `dram`.
pub(crate) fn access_fits(dram: &Dram, addr: u32, size: u32) -> (r: bool)
    ensures
        r == in_bounds(dram.dram@, addr, size),
{
    let a = addr as u64 + DRAM_BASE as u64;
    if a > u32::MAX as u64 {
        return false;
    }
    let w: u64 = match size {
        8 => 1,
        16 => 2,
        32 => 4,
        _ => return true,
    };
    a + w <= dram.dram.len() as u64
}

/// Decides [`is_base_instruction`] for a decoded instruction.
fn is_base(inst: &Instruction) -> (r: bool)
    requires
        inst.regs_in_range(),
    ensures
        r == is_base_instruction(*inst),
{
    match inst {
        Instruction::R { .. } | Instruction::S { .. } | Instruction::B { .. } | Instruction::U { .. }
        | Instruction::J { .. } => true,
        Instruction::I { funct, imm, .. } => match funct {
            IFunct::SLLI | IFunct::SRLI | IFunct::SRAI => 0 <= *imm && *imm < 32,
            _ => true,
        },
        _ => false,
    }
}

pub(crate) proof fn lemma_core_step_len(s: CpuState, inst: Instruction)
    requires
        is_base_instruction(inst),
        accesses_in_bounds(s, inst),
    ensures
        core_step(s, inst).mem.len() == s.mem.len(),
{
}

impl Cpu {
    /// Decides [`accesses_in_bounds`] for `inst` in the current state.
    fn accesses_fit(&self, inst: &Instruction) -> (r: bool)
        requires
            is_base_instruction(*inst),
        ensures
            r == accesses_in_bounds(self@, *inst),
    {
        let ghost regs = self.regs@.update(0, 0);
        match inst {
            Instruction::I { funct, rs1, imm, .. } => {
                let base = if *rs1 == 0 { 0 } else { self.regs[*rs1] };
                assert(base == regs[*rs1 as int]);
                let addr = base.wrapping_add_signed(*imm);
                proof {
                    lemma_add_signed(base, *imm);
                }
                match funct {
                    IFunct::LB | IFunct::LBU => access_fits(&self.dram, addr, 8),
                    IFunct::LH | IFunct::LHU => access_fits(&self.dram, addr, 16),
                    IFunct::LW => access_fits(&self.dram, addr, 32),
                    _ => true,
                }
            },
            Instruction::S { funct, rs1, imm, .. } => {
                let base = if *rs1 == 0 { 0 } else { self.regs[*rs1] };
                assert(base == regs[*rs1 as int]);
                let addr = base.wrapping_add_signed(*imm);
                proof {
                    lemma_add_signed(base, *imm);
                }
                match funct {
                    SFunct::SB => access_fits(&self.dram, addr, 8),
                    SFunct::SH => access_fits(&self.dram, addr, 16),
                    SFunct::SW => access_fits(&self.dram, addr, 32),
                }
            },
            _ => true,
        }
    }

    /// Runs one [`cycle`]: fetch, advance, decode, execute, then take the
    /// console word. Returns the console value (0 for none) or the fault.
    pub fn cycle(&mut self) -> (r: Result<u32, CoreFault>)
        ensures
            (final(self)@, r) == cycle(old(self)@),
    {
        if !access_fits(&self.dram, self.pc, 32) {
            return Err(CoreFault::FetchOutOfBounds);
        }
        let word = self.fetch();
        if self.pc > u32::MAX - 4 {
            return Err(CoreFault::PcOverflow);
        }
        let inst = match Instruction::try_parse_with_len(word) {
            Some((inst, _)) => inst,
            None => {
                return Err(CoreFault::IllegalInstruction(word));
            },
        };
        if !is_base(&inst) {
            return Err(CoreFault::UnsupportedInstruction(word));
        }
        if !self.accesses_fit(&inst) {
            return Err(CoreFault::AccessOutOfBounds);
        }
        if !access_fits(&self.dram, CONSOLE_ADDR, 32) {
            return Err(CoreFault::ConsoleOutOfBounds);
        }
        self.pc = self.pc + 4;
        proof {
            lemma_core_step_len(self@, inst);
        }
        self.execute(inst);
        let out = match self.dram.load(CONSOLE_ADDR, 32) {
            Ok(v) => v,
            Err(_) => 0,
        };
        let _ = self.dram.store(CONSOLE_ADDR, 32, 0);
        if out != 0 && !(out < 0xD800 || (0xE000 <= out && out <= 0x10FFFF)) {
            return Err(CoreFault::InvalidChar(out));
        }
        Ok(out)
    }

    /// Runs up to `n` cycles, stopping at the first fault; returns the
    /// nonzero console values in order and the fault, if any.
    pub fn run(&mut self, n: u32) -> (r: (Vec<u32>, Option<CoreFault>))
        ensures
            (final(self)@, r.0@, r.1) == run_cycles(old(self)@, n as nat),
    {
        let ghost s0 = self@;
        let mut outs: Vec<u32> = Vec::new();
        let mut i: u32 = 0;
        while i < n
            invariant
                i <= n,
                s0 == old(self)@,
                (self@, outs@, None::<CoreFault>) == run_cycles(s0, i as nat),
            decreases n - i,
        {
            let r = self.cycle();
            match r {
                Err(f) => {
                    assert(run_cycles(s0, (i + 1) as nat) == (self@, outs@, Some(f)));
                    proof {
                        lemma_run_stops(s0, (i + 1) as nat, n as nat);
                    }
                    return (outs, Some(f));
                },
                Ok(out) => {
                    if out != 0 {
                        outs.push(out);
                    }
                },
            }
            i = i + 1;
        }
        (outs, None)
    }
}

/// One debugger step of the core: clear the console word, then fetch,
/// advance, decode and execute as [`cycle`] does, and read the console word
/// the instruction left (the program's command). A fault detected before
/// execution leaves the state as it was after the clearing.
pub open spec fn command_step(s: CpuState) -> (CpuState, Result<u32, CoreFault>) {
    if !in_bounds(s.mem, CONSOLE_ADDR, 32) {
        (s, Err(CoreFault::ConsoleOutOfBounds))
    } else {
        let c = CpuState { regs: s.regs, pc: s.pc, mem: le_store(s.mem, CONSOLE_ADDR + DRAM_BASE, 4, 0) };
        if !in_bounds(c.mem, c.pc, 32) {
            (c, Err(CoreFault::FetchOutOfBounds))
        } else if c.pc + 4 > u32::MAX {
            (c, Err(CoreFault::PcOverflow))
        } else {
            let word = le_word(c.mem, c.pc + DRAM_BASE, 4);
            let c1 = CpuState { regs: c.regs, pc: (c.pc + 4) as u32, mem: c.mem };
            match spec_decode(word) {
                None => (c, Err(CoreFault::IllegalInstruction(word))),
                Some((inst, _)) => if !is_base_instruction(inst) {
                    (c, Err(CoreFault::UnsupportedInstruction(word)))
                } else if !accesses_in_bounds(c1, inst) {
                    (c, Err(CoreFault::AccessOutOfBounds))
                } else {
                    let c2 = core_step(c1, inst);
                    (c2, Ok(le_word(c2.mem, CONSOLE_ADDR + DRAM_BASE, 4)))
                },
            }
        }
    }
}

impl Cpu {
    /// Runs one [`command_step`] and returns the command word the
    /// instruction left, or the fault.
    pub fn step_command(&mut self) -> (r: Result<u32, CoreFault>)
        ensures
            (final(self)@, r) == command_step(old(self)@),
    {
        if !access_fits(&self.dram, CONSOLE_ADDR, 32) {
            return Err(CoreFault::ConsoleOutOfBounds);
        }
        let _ = self.dram.store(CONSOLE_ADDR, 32, 0);
        proof {
            assert(le_store(old(self).dram.dram@, CONSOLE_ADDR + DRAM_BASE, 4, 0).len() == old(self).dram.dram@.len());
        }
        if !access_fits(&self.dram, self.pc, 32) {
            return Err(CoreFault::FetchOutOfBounds);
        }
        let word = self.fetch();
        if self.pc > u32::MAX - 4 {
            return Err(CoreFault::PcOverflow);
        }
        let inst = match Instruction::try_parse_with_len(word) {
            Some((inst, _)) => inst,
            None => {
                return Err(CoreFault::IllegalInstruction(word));
            },
        };
        if !is_base(&inst) {
            return Err(CoreFault::UnsupportedInstruction(word));
        }
        if !self.accesses_fit(&inst) {
            return Err(CoreFault::AccessOutOfBounds);
        }
        self.pc = self.pc + 4;
        proof {
            lemma_core_step_len(self@, inst);
        }
        self.execute(inst);
        let command = match self.dram.load(CONSOLE_ADDR, 32) {
            Ok(v) => v,
            Err(_) => 0,
        };
        Ok(command)
    }
}

/// Once a run has faulted, further cycles change nothing.
pub proof fn lemma_run_stops(s: CpuState, k: nat, n: nat)
    requires
        k <= n,
        run_cycles(s, k).2 is Some,
    ensures
        run_cycles(s, n) == run_cycles(s, k),
    decreases n - k,
{
    if k < n {
        lemma_run_stops(s, k, (n - 1) as nat);
    }
}

} // verus!
