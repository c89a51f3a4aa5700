use botracers::hart::Hart;
use botracers::loader::CpuBuilder;
use botracers::memory::{Dram, RamLike};
use botracers::runner::CpuComponent;
use botracers::rv32i::{DRAM_BASE, DRAM_SIZE};

/// A little-endian 32-bit RISC-V ELF executable with one loadable segment
/// holding `code` at `vaddr`, `memsz` bytes long in memory.
fn elf_with_segment(entry: u32, vaddr: u32, code: &[u8], memsz: u32) -> Vec<u8> {
    let mut f = Vec::new();
    f.extend_from_slice(&[0x7f, b'E', b'L', b'F', 1, 1, 1, 0]);
    f.extend_from_slice(&[0; 8]);
    f.extend_from_slice(&2u16.to_le_bytes()); // e_type
    f.extend_from_slice(&0xf3u16.to_le_bytes()); // e_machine
    f.extend_from_slice(&1u32.to_le_bytes()); // e_version
    f.extend_from_slice(&entry.to_le_bytes());
    f.extend_from_slice(&52u32.to_le_bytes()); // e_phoff
    f.extend_from_slice(&0u32.to_le_bytes()); // e_shoff
    f.extend_from_slice(&0u32.to_le_bytes()); // e_flags
    f.extend_from_slice(&52u16.to_le_bytes()); // e_ehsize
    f.extend_from_slice(&32u16.to_le_bytes()); // e_phentsize
    f.extend_from_slice(&1u16.to_le_bytes()); // e_phnum
    f.extend_from_slice(&40u16.to_le_bytes()); // e_shentsize
    f.extend_from_slice(&0u16.to_le_bytes()); // e_shnum
    f.extend_from_slice(&0u16.to_le_bytes()); // e_shstrndx
    let offset = 52u32 + 32;
    f.extend_from_slice(&1u32.to_le_bytes()); // PT_LOAD
    f.extend_from_slice(&offset.to_le_bytes());
    f.extend_from_slice(&vaddr.to_le_bytes());
    f.extend_from_slice(&vaddr.to_le_bytes());
    f.extend_from_slice(&(code.len() as u32).to_le_bytes());
    f.extend_from_slice(&memsz.to_le_bytes());
    f.extend_from_slice(&5u32.to_le_bytes());
    f.extend_from_slice(&0x1000u32.to_le_bytes());
    f.extend_from_slice(code);
    f
}

#[test]
fn loads_segment_at_its_address() {
    let code = [0x13, 0x05, 0x10, 0x00, 0xaa, 0xbb];
    let elf = elf_with_segment(0x1000, 0x1000, &code, 0x20);
    let (dram, entry) = Dram::new(&elf);
    assert_eq!(entry, 0x1000);
    // Smallest memory: the default size wins over segment end plus stack.
    assert_eq!(dram.dram.len(), 0x1000 + 0x20 + 0x40000);
    assert_eq!(&dram.dram[0x1000..0x1006], &code);
    assert_eq!(dram.dram[0x1006], 0);
    assert_eq!(dram.dram[0xfff], 0);
}

#[test]
fn memory_is_at_least_the_default_size() {
    let elf = elf_with_segment(0x100, 0x100, &[1, 2, 3, 4], 4);
    let (dram, _) = Dram::new(&elf);
    // 0x104 + 0x40000, rounded up to a multiple of 16.
    assert_eq!(dram.dram.len(), 0x40110);
    assert!(dram.dram.len() >= 0x10000);
    assert_eq!(dram.dram.len() % 16, 0);
}

#[test]
fn builder_sets_entry_and_stack() {
    let elf = elf_with_segment(0x1004, 0x1000, &[0; 8], 8);
    let (hart, dram): (Hart, Dram) = CpuBuilder::default().build(&elf);
    assert_eq!(hart.pc, 0x1004);
    let len = dram.dram.len() as u32;
    assert_eq!(hart.regs[2], (len & !0xf) - 16);
    assert_eq!(hart.regs[1], 0);
    assert_eq!(dram.load(0x1000, 32), Ok(0));
}

#[test]
fn try_new_rejects_what_new_cannot_load() {
    assert!(Dram::try_new(&[0u8; 10]).is_none());
    let mut not_elf = elf_with_segment(0x1000, 0x1000, &[1, 2, 3, 4], 4);
    not_elf[0] = 0;
    assert!(Dram::try_new(&not_elf).is_none());
    // File bytes past the end of the file.
    let mut short = elf_with_segment(0x1000, 0x1000, &[1, 2, 3, 4], 4);
    short.truncate(short.len() - 2);
    assert!(Dram::try_new(&short).is_none());
    let ok = elf_with_segment(0x1000, 0x1000, &[1, 2, 3, 4], 4);
    let (dram, entry) = Dram::try_new(&ok).unwrap();
    assert_eq!(entry, 0x1000);
    assert_eq!(dram.load(0x1000, 32), Ok(0x0403_0201));
}

#[test]
fn try_build_refuses_what_build_cannot_load() {
    assert!(CpuBuilder::default().try_build(&[0u8; 10]).is_none());
    let elf = elf_with_segment(0x1004, 0x1000, &[0; 8], 8);
    let (hart, dram) = CpuBuilder::default().try_build(&elf).expect("loadable");
    let (hart2, dram2) = CpuBuilder::default().build(&elf);
    assert_eq!(hart.pc, hart2.pc);
    assert_eq!(hart.regs, hart2.regs);
    assert_eq!(dram.dram, dram2.dram);
}

#[test]
fn cpu_component_try_new_loads_or_refuses() {
    assert!(CpuComponent::try_new(&[1, 2, 3], 10).is_none());
    let elf = elf_with_segment(0x1000, 0x1000, &[0x13, 0, 0, 0], 4);
    let cpu = CpuComponent::try_new(&elf, 10).expect("loadable");
    assert_eq!(cpu.hart.pc, 0x1000);
    assert_eq!(cpu.instructions_per_update, 10);
}

#[test]
fn core_try_build_loads_at_the_memory_base() {
    assert!(botracers::rv32i::CpuBuilder::default().try_build(&[0u8; 10]).is_none());
    // Below the memory base the core cannot place the segment.
    let low = elf_with_segment(0x1000, 0x1000, &[1, 2, 3, 4], 4);
    assert!(botracers::rv32i::CpuBuilder::default().try_build(&low).is_none());
    let elf = elf_with_segment(DRAM_BASE + 8, DRAM_BASE, &[0x13, 0, 0, 0], 4);
    let cpu = botracers::rv32i::CpuBuilder::default().try_build(&elf).expect("loadable");
    assert_eq!(cpu.pc, 8);
    assert_eq!(cpu.regs[2], DRAM_SIZE - 8);
    assert_eq!(cpu.dram.load(0, 32), Ok(0x13));
}
