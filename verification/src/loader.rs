//! Loading an ELF executable into a fresh [`Dram`], and building a hart
//! ready to run it.
use vstd::prelude::*;

use elf::endian::LittleEndian;
use elf::ElfBytes;

use crate::hart::{Hart, fresh_state, with_reg};
use crate::memory::{Dram, DRAM_SIZE, STACK_HEADROOM};

verus! {

/// Segment type of loadable program segments.
pub const PT_LOAD: u32 = 1;

/// One entry of an ELF program-header table.
#[derive(Debug, Clone, Copy)]
pub struct ProgramSegment {
    pub p_type: u32,
    pub p_offset: u64,
    pub p_vaddr: u64,
    pub p_filesz: u64,
    pub p_memsz: u64,
}

/// The parts of an ELF file that loading reads: the entry point and the
/// program-header table.
#[derive(Debug)]
pub struct ElfImage {
    pub entry: u64,
    pub segments: Vec<ProgramSegment>,
}

pub struct ElfImageView {
    pub entry: u64,
    pub segments: Seq<ProgramSegment>,
}

impl View for ElfImage {
    type V = ElfImageView;

    open spec fn view(&self) -> ElfImageView {
        ElfImageView { entry: self.entry, segments: self.segments@ }
    }
}

/// What the `elf` crate reads from a little-endian file: `None` when it
/// rejects the header or the file has no program-header table.
pub uninterp spec fn parsed_elf(code: Seq<u8>) -> Option<ElfImageView>;

/// Parses the ELF header and program headers of `code` with
/// `elf::ElfBytes::<LittleEndian>::minimal_parse` and `ElfBytes::segments`.
/// Trusted: the result is whatever the `elf` crate reads from `code`; no
/// clause says which files it accepts or what it reads from them.
#[verifier::external_body]
pub(crate) fn elf_read(code: &[u8]) -> (r: Option<ElfImage>)
    ensures
        match r {
            Some(img) => parsed_elf(code@) == Some(img@),
            None => parsed_elf(code@) is None,
        },
{
    let elf = match ElfBytes::<LittleEndian>::minimal_parse(code) {
        Ok(elf) => elf,
        Err(_) => return None,
    };
    let table = elf.segments()?;
    let segments = table.iter().map(|p| ProgramSegment {
        p_type: p.p_type,
        p_offset: p.p_offset,
        p_vaddr: p.p_vaddr,
        p_filesz: p.p_filesz,
        p_memsz: p.p_memsz,
    }).collect();
    Some(ElfImage { entry: elf.ehdr.e_entry, segments })
}

/// End address of a loadable segment in memory, computed on 32-bit addresses.
pub open spec fn segment_end(s: ProgramSegment) -> int {
    (s.p_vaddr as u32) + (s.p_memsz as u32)
}

/// Highest end address among the loadable segments of `segs[..n]` (0 if none).
pub open spec fn max_load_end(segs: Seq<ProgramSegment>, n: int) -> int
    decreases n,
{
    if n <= 0 {
        0
    } else {
        let m = max_load_end(segs, n - 1);
        let s = segs[n - 1];
        if s.p_type == PT_LOAD && segment_end(s) > m {
            segment_end(s)
        } else {
            m
        }
    }
}

/// Memory needed: the segments plus the stack headroom (saturating), and
/// at least the default size.
pub open spec fn required_size(segs: Seq<ProgramSegment>) -> int {
    let with_stack = max_load_end(segs, segs.len() as int) + STACK_HEADROOM;
    let saturated = if with_stack > u32::MAX { u32::MAX as int } else { with_stack };
    if saturated > DRAM_SIZE { saturated } else { DRAM_SIZE as int }
}

/// The memory size: [`required_size`] rounded up to a multiple of 16.
pub open spec fn memory_size(segs: Seq<ProgramSegment>) -> int {
    ((required_size(segs) + 15) / 16) * 16
}

/// Whether loading `segs` from `code` succeeds: every loadable segment's end
/// fits in 32 bits, the rounded size fits in 32 bits, and every segment's
/// file bytes lie within `code` and within the memory.
pub open spec fn loadable(code: Seq<u8>, segs: Seq<ProgramSegment>) -> bool {
    &&& forall|i: int| #![trigger segs[i]] 0 <= i < segs.len() && segs[i].p_type == PT_LOAD ==> segment_end(segs[i]) <= u32::MAX
    &&& required_size(segs) + 15 <= u32::MAX
    &&& forall|i: int|
        #![trigger segs[i]]
        0 <= i < segs.len() && segs[i].p_type == PT_LOAD ==> {
            &&& (segs[i].p_vaddr as usize) + (segs[i].p_filesz as usize) <= memory_size(segs)
            &&& (segs[i].p_offset as usize) + (segs[i].p_filesz as usize) <= code.len()
        }
}

/// `mem` with the file bytes of segment `s` copied in at its address.
pub open spec fn place_segment(code: Seq<u8>, mem: Seq<u8>, s: ProgramSegment) -> Seq<u8> {
    let v = s.p_vaddr as usize as int;
    let o = s.p_offset as usize as int;
    let f = s.p_filesz as usize as int;
    mem.subrange(0, v) + code.subrange(o, o + f) + mem.subrange(v + f, mem.len() as int)
}

/// Memory contents after placing the loadable segments among `segs[..n]`,
/// in order, into zeroed memory of `size` bytes.
pub open spec fn loaded(code: Seq<u8>, segs: Seq<ProgramSegment>, n: int, size: int) -> Seq<u8>
    decreases n,
{
    if n <= 0 {
        Seq::new(size as nat, |i: int| 0u8)
    } else {
        let prev = loaded(code, segs, n - 1, size);
        if segs[n - 1].p_type == PT_LOAD {
            place_segment(code, prev, segs[n - 1])
        } else {
            prev
        }
    }
}

/// The memory image of `code` described by `segs`.
pub open spec fn memory_image(code: Seq<u8>, segs: Seq<ProgramSegment>) -> Seq<u8> {
    loaded(code, segs, segs.len() as int, memory_size(segs))
}

pub(crate) proof fn lemma_loaded_len(code: Seq<u8>, segs: Seq<ProgramSegment>, n: int, size: int)
    requires
        0 <= n <= segs.len(),
        size >= 0,
        forall|i: int|
            #![trigger segs[i]]
            0 <= i < segs.len() && segs[i].p_type == PT_LOAD ==> {
                &&& (segs[i].p_vaddr as usize) + (segs[i].p_filesz as usize) <= size
                &&& (segs[i].p_offset as usize) + (segs[i].p_filesz as usize) <= code.len()
            },
    ensures
        loaded(code, segs, n, size).len() == size,
    decreases n,
{
    if n > 0 {
        lemma_loaded_len(code, segs, n - 1, size);
        if segs[n - 1].p_type == PT_LOAD {
            assert(segs[n - 1].p_type == PT_LOAD);
        }
    }
}

/// Copies `code[offset..offset + len]` into `mem[at..at + len]`.
pub(crate) fn copy_into(mem: &mut Vec<u8>, at: usize, code: &[u8], offset: usize, len: usize)
    requires
        at + len <= old(mem)@.len(),
        offset + len <= code@.len(),
    ensures
        final(mem)@ == old(mem)@.subrange(0, at as int) + code@.subrange(offset as int, offset + len)
            + old(mem)@.subrange(at + len, old(mem)@.len() as int),
{
    let ghost m0 = mem@;
    let mlen = mem.len();
    let clen = code.len();
    let mut k: usize = 0;
    while k < len
        invariant
            k <= len,
            mlen == m0.len(),
            clen == code@.len(),
            at + len <= m0.len(),
            offset + len <= code@.len(),
            mem@.len() == m0.len(),
            forall|j: int| 0 <= j < at ==> mem@[j] == m0[j],
            forall|j: int| at <= j < at + k ==> mem@[j] == code@[offset + (j - at)],
            forall|j: int| at + k <= j < m0.len() ==> mem@[j] == m0[j],
        decreases len - k,
    {
        mem.set(at + k, code[offset + k]);
        k = k + 1;
    }
    assert(mem@ =~= m0.subrange(0, at as int) + code@.subrange(offset as int, offset + len) + m0.subrange(
        at + len,
        m0.len() as int,
    ));
}

impl Dram {
    /// Lays out the loadable segments of `image` from `code` in a zeroed
    /// memory of [`memory_size`] bytes; returns it with the entry point.
    pub fn from_image(code: &[u8], image: &ElfImage) -> (r: (Dram, u32))
        requires
            loadable(code@, image.segments@),
        ensures
            r.0.dram@ == memory_image(code@, image.segments@),
            r.1 == image.entry as u32,
    {
        let segs = &image.segments;
        let n = segs.len();
        let mut max_end: u32 = 0;
        let mut i: usize = 0;
        while i < n
            invariant
                i <= n,
                n == segs@.len(),
                loadable(code@, segs@),
                max_end as int == max_load_end(segs@, i as int),
            decreases n - i,
        {
            let s = segs[i];
            if s.p_type == PT_LOAD {
                assert(segs@[i as int].p_type == PT_LOAD);
                let end = s.p_vaddr as u32 + s.p_memsz as u32;
                if end > max_end {
                    max_end = end;
                }
            }
            i = i + 1;
        }
        let required_raw = max_end.saturating_add(STACK_HEADROOM);
        let required = if required_raw > DRAM_SIZE { required_raw } else { DRAM_SIZE };
        assert((((required + 0xf) as u32) & !0xfu32) as int == ((required + 15) / 16) * 16) by (bit_vector)
            requires required <= 0xffff_fff0u32;
        let dram_size = ((required + 0xf) & !0xf) as usize;
        let mut mem = vec![0u8; dram_size];
        assert(mem@ =~= loaded(code@, segs@, 0, dram_size as int));
        let mut j: usize = 0;
        while j < n
            invariant
                j <= n,
                n == segs@.len(),
                loadable(code@, segs@),
                dram_size as int == memory_size(segs@),
                mem@ == loaded(code@, segs@, j as int, dram_size as int),
            decreases n - j,
        {
            proof {
                lemma_loaded_len(code@, segs@, j as int, dram_size as int);
            }
            let s = segs[j];
            if s.p_type == PT_LOAD {
                assert(segs@[j as int].p_type == PT_LOAD);
                let vaddr = s.p_vaddr as usize;
                let offset = s.p_offset as usize;
                let filesz = s.p_filesz as usize;
                copy_into(&mut mem, vaddr, code, offset, filesz);
            }
            j = j + 1;
        }
        (Dram { dram: mem }, image.entry as u32)
    }

    /// Loads the ELF executable `code`: parses it, then lays it out as
    /// [`Dram::from_image`] does.
    pub fn new(code: &[u8]) -> (r: (Dram, u32))
        requires
            parsed_elf(code@) matches Some(img) && loadable(code@, img.segments),
        ensures
            parsed_elf(code@) matches Some(img) && r.0.dram@ == memory_image(code@, img.segments) && r.1
                == img.entry as u32,
    {
        match elf_read(code) {
            Some(image) => Dram::from_image(code, &image),
            None => {
                proof {
                    assert(false);
                }
                (Dram { dram: Vec::new() }, 0)
            },
        }
    }

    /// Whether [`Dram::new`] can load `code`: the file is parsed and its
    /// segments can be laid out.
    pub fn can_load(code: &[u8]) -> (r: bool)
        ensures
            r == (parsed_elf(code@) matches Some(img) && loadable(code@, img.segments)),
    {
        match elf_read(code) {
            Some(image) => check_loadable(code, &image.segments),
            None => false,
        }
    }

    /// Loads the ELF executable `code`, or `None` where [`Dram::new`] would
    /// fail: the file is not parsed, or its segments cannot be laid out.
    pub fn try_new(code: &[u8]) -> (r: Option<(Dram, u32)>)
        ensures
            match r {
                Some(res) => parsed_elf(code@) matches Some(img) && loadable(code@, img.segments)
                    && res.0.dram@ == memory_image(code@, img.segments) && res.1 == img.entry as u32,
                None => !(parsed_elf(code@) matches Some(img) && loadable(code@, img.segments)),
            },
    {
        match elf_read(code) {
            Some(image) => if check_loadable(code, &image.segments) {
                Some(Dram::new(code))
            } else {
                None
            },
            None => None,
        }
    }
}

/// Decides [`loadable`].
fn check_loadable(code: &[u8], segs: &Vec<ProgramSegment>) -> (r: bool)
    ensures
        r == loadable(code@, segs@),
{
    let n = segs.len();
    let mut max_end: u32 = 0;
    let mut i: usize = 0;
    while i < n
        invariant
            i <= n,
            n == segs@.len(),
            max_end as int == max_load_end(segs@, i as int),
            forall|k: int| #![trigger segs@[k]] 0 <= k < i && segs@[k].p_type == PT_LOAD ==> segment_end(segs@[k]) <= u32::MAX,
        decreases n - i,
    {
        let s = segs[i];
        if s.p_type == PT_LOAD {
            let end = (s.p_vaddr as u32).checked_add(s.p_memsz as u32);
            match end {
                None => {
                    assert(segs@[i as int].p_type == PT_LOAD);
                    return false;
                },
                Some(e) => if e > max_end {
                    max_end = e;
                },
            }
        }
        i = i + 1;
    }
    let required_raw = max_end.saturating_add(STACK_HEADROOM);
    let required = if required_raw > DRAM_SIZE { required_raw } else { DRAM_SIZE };
    if required > 0xffff_fff0 {
        return false;
    }
    assert((((required + 0xf) as u32) & !0xfu32) as int == ((required + 15) / 16) * 16) by (bit_vector)
        requires required <= 0xffff_fff0u32;
    let dram_size = ((required + 0xf) & !0xf) as usize;
    let clen = code.len();
    let mut j: usize = 0;
    while j < n
        invariant
            j <= n,
            n == segs@.len(),
            clen == code@.len(),
            dram_size as int == memory_size(segs@),
            forall|k: int|
                #![trigger segs@[k]]
                0 <= k < j && segs@[k].p_type == PT_LOAD ==> {
                    &&& (segs@[k].p_vaddr as usize) + (segs@[k].p_filesz as usize) <= memory_size(segs@)
                    &&& (segs@[k].p_offset as usize) + (segs@[k].p_filesz as usize) <= code@.len()
                },
        decreases n - j,
    {
        let s = segs[j];
        if s.p_type == PT_LOAD {
            assert(segs@[j as int].p_type == PT_LOAD);
            let in_mem = match (s.p_vaddr as usize).checked_add(s.p_filesz as usize) {
                Some(end) => end <= dram_size,
                None => false,
            };
            let in_file = match (s.p_offset as usize).checked_add(s.p_filesz as usize) {
                Some(end) => end <= clen,
                None => false,
            };
            if !(in_mem && in_file) {
                return false;
            }
        }
        j = j + 1;
    }
    true
}

/// Builds a hart and its memory from an ELF executable.
pub struct CpuBuilder {}

impl Default for CpuBuilder {
    fn default() -> (r: Self)
        ensures
            r == (CpuBuilder {}),
    {
        CpuBuilder {}
    }
}

/// Initial stack pointer for a memory of `len` bytes: 16 bytes below its
/// end rounded down to 16 (saturating at 0).
pub open spec fn stack_top_for(len: int) -> u32 {
    let top = ((len as u32) / 16) * 16;
    if top >= 16 { (top - 16) as u32 } else { 0 }
}

impl CpuBuilder {
    /// Loads `elf` and returns a hart at its entry point with the stack
    /// pointer just below the end of memory.
    pub fn build(self, elf: &[u8]) -> (r: (Hart, Dram))
        requires
            parsed_elf(elf@) matches Some(img) && loadable(elf@, img.segments),
        ensures
            parsed_elf(elf@) matches Some(img) && r.1.dram@ == memory_image(elf@, img.segments)
                && r.0.pc == img.entry as u32,
            r.0@ == with_reg(
                fresh_state(r.0.pc),
                2,
                stack_top_for(r.1.dram@.len() as int),
            ),
    {
        let (dram, entry) = Dram::new(elf);
        let hart = start_hart(&dram, entry);
        (hart, dram)
    }

    /// Builds as [`CpuBuilder::build`] does, or `None` where the file is
    /// not parsed or its segments cannot be laid out.
    pub fn try_build(self, elf: &[u8]) -> (r: Option<(Hart, Dram)>)
        ensures
            r is Some <==> (parsed_elf(elf@) matches Some(img) && loadable(elf@, img.segments)),
            r matches Some(res) ==> parsed_elf(elf@) matches Some(img) && res.1.dram@ == memory_image(
                elf@,
                img.segments,
            ) && res.0.pc == img.entry as u32 && res.0@ == with_reg(
                fresh_state(res.0.pc),
                2,
                stack_top_for(res.1.dram@.len() as int),
            ),
    {
        if Dram::can_load(elf) {
            Some(self.build(elf))
        } else {
            None
        }
    }
}

/// A hart at `entry` with the stack pointer 16 bytes below the end of
/// `dram`, rounded down to 16 bytes.
fn start_hart(dram: &Dram, entry: u32) -> (r: Hart)
    ensures
        r.pc == entry,
        r@ == with_reg(fresh_state(entry), 2, stack_top_for(dram.dram@.len() as int)),
{
    let mut hart = Hart::new(entry);
    let len = dram.dram.len();
    let top = (len as u32) & !0xf;
    assert(top as int == ((len as u32) / 16) * 16) by (bit_vector)
        requires top == (len as u32) & !0xfu32;
    hart.regs[2] = top.saturating_sub(16);
    hart
}

} // verus!
