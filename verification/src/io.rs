//! Memory-mapped devices of the robot arena, run on the base-ISA core of
//! [`crate::rv32i`]: each device owns a window of the CPU's memory, laid out
//! by an [`IOMemoryLayout`], that the host copies in or out every update.
use vstd::prelude::*;

use std::collections::HashMap;

use crate::loader::parsed_elf;
use crate::rv32i::{access_fits, core_image, core_loadable, in_bounds, run_cycles, CoreFault, Cpu, Dram, DRAM_BASE, DRAM_SIZE};
use crate::memory::le_store;

verus! {

/// A value stored in a fixed number of bytes of guest memory.
pub trait IOMemoryLayout: Sized {
    /// Number of bytes the value occupies.
    spec fn byte_len() -> nat;

    /// The value held by the bytes `mem`.
    spec fn decode(mem: Seq<u8>) -> Self;

    /// The bytes that hold `self`.
    spec fn encode(self) -> Seq<u8>;

    /// Number of bytes the value occupies.
    fn len_bytes() -> (n: usize)
        requires
            Self::byte_len() <= usize::MAX,
        ensures
            n == Self::byte_len(),
    ;

    /// Reads a value from exactly its bytes.
    fn from_bytes(mem: &[u8]) -> (r: Self)
        requires
            mem@.len() == Self::byte_len(),
        ensures
            r == Self::decode(mem@),
    ;

    /// Writes the value over exactly its bytes.
    fn into_bytes(&self, mem: &mut [u8])
        requires
            old(mem)@.len() == Self::byte_len(),
        ensures
            final(mem)@ == self.encode(),
    ;

    /// A value occupies exactly its byte length, and reading its bytes back
    /// gives the value.
    proof fn lemma_round_trip(x: Self)
        ensures
            x.encode().len() == Self::byte_len(),
            Self::decode(x.encode()) == x,
    ;
}

/// A 16-bit value, stored big-endian.
impl IOMemoryLayout for u16 {
    open spec fn byte_len() -> nat {
        2
    }

    open spec fn decode(mem: Seq<u8>) -> u16 {
        (mem[0] * 256 + mem[1]) as u16
    }

    open spec fn encode(self) -> Seq<u8> {
        seq![(self / 256) as u8, (self % 256) as u8]
    }

    fn len_bytes() -> (n: usize) {
        2
    }

    fn from_bytes(mem: &[u8]) -> (r: u16) {
        (mem[0] as u16) * 256 + (mem[1] as u16)
    }

    fn into_bytes(&self, mem: &mut [u8]) {
        mem[0] = (*self / 256) as u8;
        mem[1] = (*self % 256) as u8;
        assert(mem@ =~= self.encode());
    }

    proof fn lemma_round_trip(x: u16) {
    }
}

/// Two values, the first in the lower bytes.
impl<T1: IOMemoryLayout, T2: IOMemoryLayout> IOMemoryLayout for (T1, T2) {
    open spec fn byte_len() -> nat {
        T1::byte_len() + T2::byte_len()
    }

    open spec fn decode(mem: Seq<u8>) -> (T1, T2) {
        let n1 = T1::byte_len() as int;
        let n2 = T2::byte_len() as int;
        (T1::decode(mem.subrange(0, n1)), T2::decode(mem.subrange(n1, n1 + n2)))
    }

    open spec fn encode(self) -> Seq<u8> {
        self.0.encode() + self.1.encode()
    }

    fn len_bytes() -> (n: usize) {
        T1::len_bytes() + T2::len_bytes()
    }

    fn from_bytes(mem: &[u8]) -> (r: (T1, T2)) {
        let _total = mem.len();
        let n1 = T1::len_bytes();
        let n2 = T2::len_bytes();
        let first = T1::from_bytes(vstd::slice::slice_subrange(mem, 0, n1));
        let second = T2::from_bytes(vstd::slice::slice_subrange(mem, n1, n1 + n2));
        (first, second)
    }

    fn into_bytes(&self, mem: &mut [u8]) {
        let _total = mem.len();
        let n1 = T1::len_bytes();
        let (head, tail) = mem.split_at_mut(n1);
        self.0.into_bytes(head);
        self.1.into_bytes(tail);
    }

    proof fn lemma_round_trip(x: (T1, T2)) {
        T1::lemma_round_trip(x.0);
        T2::lemma_round_trip(x.1);
        let e = x.encode();
        let n1 = T1::byte_len() as int;
        assert(e.subrange(0, n1) =~= x.0.encode());
        assert(e.subrange(n1, n1 + T2::byte_len()) =~= x.1.encode());
    }
}

/// Raw bytes, stored as they are.
impl<const N: usize> IOMemoryLayout for [u8; N] {
    open spec fn byte_len() -> nat {
        N as nat
    }

    open spec fn decode(mem: Seq<u8>) -> [u8; N] {
        choose|a: [u8; N]| a@ == mem
    }

    open spec fn encode(self) -> Seq<u8> {
        self@
    }

    fn len_bytes() -> (n: usize) {
        N
    }

    fn from_bytes(mem: &[u8]) -> (r: [u8; N]) {
        let mut buf = [0u8; N];
        let mut i: usize = 0;
        while i < N
            invariant
                i <= N,
                mem@.len() == N,
                buf@.len() == N,
                forall|j: int| 0 <= j < i ==> buf@[j] == mem@[j],
            decreases N - i,
        {
            buf[i] = mem[i];
            i = i + 1;
        }
        assert(buf@ =~= mem@);
        proof {
            let a = choose|a: [u8; N]| a@ == mem@;
            assert(a@ == mem@);
            assert(a =~= buf);
        }
        buf
    }

    fn into_bytes(&self, mem: &mut [u8]) {
        let mut i: usize = 0;
        while i < N
            invariant
                i <= N,
                mem@.len() == N,
                self@.len() == N,
                forall|j: int| 0 <= j < i ==> mem@[j] == self@[j],
            decreases N - i,
        {
            mem[i] = self[i];
            i = i + 1;
        }
        assert(mem@ =~= self@);
    }

    proof fn lemma_round_trip(x: [u8; N]) {
        let a = choose|a: [u8; N]| a@ == x@;
        assert(a@ == x@);
        assert(a =~= x);
    }
}

/// A device whose state the host exchanges with a window of guest memory.
pub trait IODevice: Sized {
    /// How the device's window is laid out.
    type Layout: IOMemoryLayout;

    /// Identifies the kind of device in a CPU's table of device offsets.
    spec fn spec_key() -> u64;

    /// The device after taking in `mem` read from its window.
    spec fn after_write(self, mem: Self::Layout) -> Self;

    /// What the device puts into its window.
    spec fn spec_read(self) -> Self::Layout;

    /// Identifies the kind of device in a CPU's table of device offsets.
    fn key() -> (k: u64)
        ensures
            k == Self::spec_key(),
    ;

    /// Takes in the contents of the device's window.
    fn write(&mut self, mem: &Self::Layout)
        ensures
            *final(self) == old(self).after_write(*mem),
    ;

    /// What the device puts into its window.
    fn read(&self) -> (r: Self::Layout)
        ensures
            r == self.spec_read(),
    ;
}

/// A robot CPU: the base-ISA core, how many instructions it runs per
/// update, and where each device's window starts in its memory (an index
/// into the memory vector, keyed by [`IODevice::key`]).
pub struct CpuComponent {
    pub cpu: Cpu,
    pub instructions_per_update: u32,
    pub device_offsets: HashMap<u64, usize>,
}

/// The console device; it has no state of its own (the console word is
/// handled by [`cpu_system`]).
pub struct LogDevice {}

/// Sixteen radar sectors, one byte each, that the host fills in.
pub struct RadarDevice {
    pub sectors: [u8; 16],
}

impl IODevice for RadarDevice {
    type Layout = [u8; 16];

    open spec fn spec_key() -> u64 {
        1
    }

    /// The radar ignores what the program writes into its window.
    open spec fn after_write(self, mem: [u8; 16]) -> Self {
        self
    }

    open spec fn spec_read(self) -> [u8; 16] {
        self.sectors
    }

    fn key() -> (k: u64) {
        1
    }

    fn write(&mut self, _mem: &[u8; 16]) {
    }

    fn read(&self) -> (r: [u8; 16]) {
        self.sectors
    }
}

/// The speed and heading that the program asks for.
pub struct DrivingDevice {
    pub speed: u16,
    pub heading: u16,
}

impl IODevice for DrivingDevice {
    type Layout = (u16, u16);

    open spec fn spec_key() -> u64 {
        2
    }

    open spec fn after_write(self, mem: (u16, u16)) -> Self {
        DrivingDevice { speed: mem.0, heading: mem.1 }
    }

    open spec fn spec_read(self) -> (u16, u16) {
        (self.speed, self.heading)
    }

    fn key() -> (k: u64) {
        2
    }

    fn write(&mut self, mem: &(u16, u16)) {
        self.speed = mem.0;
        self.heading = mem.1;
    }

    fn read(&self) -> (r: (u16, u16)) {
        (self.speed, self.heading)
    }
}

/// Offset and length of `D`'s window in `cpu`: the window must be listed
/// and lie inside the memory.
pub open spec fn window_ok<D: IODevice>(cpu: &CpuComponent) -> bool {
    &&& cpu.device_offsets@.contains_key(D::spec_key())
    &&& cpu.device_offsets@[D::spec_key()] + D::Layout::byte_len() <= cpu.cpu.dram.dram@.len()
}

/// The bytes of `D`'s window in `mem`, starting at `offset`.
pub open spec fn window<D: IODevice>(mem: Seq<u8>, offset: int) -> Seq<u8> {
    mem.subrange(offset, offset + D::Layout::byte_len())
}

/// `mem` with `D`'s window at `offset` replaced by `bytes`.
pub open spec fn with_window<D: IODevice>(mem: Seq<u8>, offset: int, bytes: Seq<u8>) -> Seq<u8> {
    mem.subrange(0, offset) + bytes + mem.subrange(offset + D::Layout::byte_len(), mem.len() as int)
}

/// Hands `device` the contents of its window in `cpu`'s memory.
pub fn io_write_system<D: IODevice>(cpu: &CpuComponent, device: &mut D)
    requires
        window_ok::<D>(cpu),
    ensures
        *final(device) == old(device).after_write(
            D::Layout::decode(window::<D>(cpu.cpu.dram.dram@, cpu.device_offsets@[D::spec_key()] as int)),
        ),
{
    let offset = match cpu.device_offsets.get(&D::key()) {
        Some(o) => *o,
        None => {
            proof {
                assert(false);
            }
            0
        },
    };
    let _len = cpu.cpu.dram.dram.len();
    let n = D::Layout::len_bytes();
    let mem = cpu.cpu.dram.dram.as_slice();
    let value = D::Layout::from_bytes(vstd::slice::slice_subrange(mem, offset, offset + n));
    device.write(&value);
}

/// Copies `device`'s state into its window in `cpu`'s memory; nothing else
/// changes.
pub fn io_read_system<D: IODevice>(cpu: &mut CpuComponent, device: &D)
    requires
        window_ok::<D>(old(cpu)),
    ensures
        final(cpu).cpu.dram.dram@ == with_window::<D>(
            old(cpu).cpu.dram.dram@,
            old(cpu).device_offsets@[D::spec_key()] as int,
            device.spec_read().encode(),
        ),
        final(cpu).cpu.regs == old(cpu).cpu.regs,
        final(cpu).cpu.pc == old(cpu).cpu.pc,
        final(cpu).instructions_per_update == old(cpu).instructions_per_update,
        final(cpu).device_offsets@ == old(cpu).device_offsets@,
{
    let offset = match cpu.device_offsets.get(&D::key()) {
        Some(o) => *o,
        None => {
            proof {
                assert(false);
            }
            0
        },
    };
    let _len = cpu.cpu.dram.dram.len();
    let n = D::Layout::len_bytes();
    let value = device.read();
    let mem = cpu.cpu.dram.dram.as_mut_slice();
    let (_head, rest) = mem.split_at_mut(offset);
    let (win, _tail) = rest.split_at_mut(n);
    value.into_bytes(win);
}

/// Groups the arena's CPU systems: [`cpu_system`], then
/// [`io_read_system`] for the radar and [`io_write_system`] for driving.
pub struct EmulatorPlugin;

/// Assembles a [`CpuComponent`]: memory size, instructions per update, and
/// the device windows, allocated one after the other from `next_offset`.
pub struct CpuComponentBuilder {
    pub mem_size: usize,
    pub instructions_per_update: u32,
    pub device_offsets: HashMap<u64, usize>,
    pub next_offset: usize,
}

impl Default for CpuComponentBuilder {
    /// The full memory, 100 instructions per update, no devices, and the
    /// first window at offset 8.
    fn default() -> (r: Self)
        ensures
            r.mem_size == DRAM_SIZE,
            r.instructions_per_update == 100,
            r.device_offsets@ == Map::<u64, usize>::empty(),
            r.next_offset == 8,
    {
        Self {
            mem_size: DRAM_SIZE as usize,
            instructions_per_update: 100,
            device_offsets: HashMap::new(),
            next_offset: 8,
        }
    }
}

/// The memory a built component starts with: the loaded image with the
/// word 4 stored at guest address `mem_size - 4`.
pub open spec fn seeded_image(image: Seq<u8>, mem_size: usize) -> Seq<u8> {
    le_store(image, ((mem_size as u32) - 4) + DRAM_BASE, 4, 4)
}

/// Whether [`CpuComponentBuilder::build`] succeeds on `code`: the file
/// loads, and the word at guest address `mem_size - 4` lies in memory.
pub open spec fn buildable(code: Seq<u8>, mem_size: usize) -> bool {
    parsed_elf(code) matches Some(img) && core_loadable(code, img) && (mem_size as u32) >= 4 && in_bounds(
        core_image(code, img.segments),
        ((mem_size as u32) - 4) as u32,
        32,
    )
}

impl CpuComponentBuilder {
    /// Gives device `D` the next window, of its layout's length.
    pub fn with_device<D: IODevice>(self) -> (r: Self)
        requires
            self.next_offset + D::Layout::byte_len() <= usize::MAX,
        ensures
            r.next_offset == self.next_offset + D::Layout::byte_len(),
            r.device_offsets@ == self.device_offsets@.insert(D::spec_key(), self.next_offset),
            r.mem_size == self.mem_size,
            r.instructions_per_update == self.instructions_per_update,
    {
        let next_offset = self.next_offset + D::Layout::len_bytes();
        let mut device_offsets = self.device_offsets;
        device_offsets.insert(D::key(), self.next_offset);
        Self {
            mem_size: self.mem_size,
            instructions_per_update: self.instructions_per_update,
            device_offsets,
            next_offset,
        }
    }

    /// Loads `code` into a CPU, stores the word 4 at guest address
    /// `mem_size - 4`, and keeps the device windows.
    pub fn build(self, code: &[u8]) -> (r: CpuComponent)
        requires
            buildable(code@, self.mem_size),
        ensures
            parsed_elf(code@) matches Some(img) && r.cpu.dram.dram@ == seeded_image(
                core_image(code@, img.segments),
                self.mem_size,
            ) && r.cpu.pc == (img.entry as u32) - DRAM_BASE,
            r.cpu.regs@ == Seq::new(32, |i: int| if i == 2 { (DRAM_SIZE - 8) as u32 } else { 0u32 }),
            r.instructions_per_update == self.instructions_per_update,
            r.device_offsets@ == self.device_offsets@,
    {
        let (mut dram, entry) = Dram::new(code);
        let _ = dram.store(self.mem_size as u32 - 4, 32, 4);
        let cpu = Cpu::new(dram, entry);
        CpuComponent {
            cpu,
            instructions_per_update: self.instructions_per_update,
            device_offsets: self.device_offsets,
        }
    }

    /// Builds as [`CpuComponentBuilder::build`] does, or `None` where it
    /// would fail.
    pub fn try_build(self, code: &[u8]) -> (r: Option<CpuComponent>)
        ensures
            r is Some <==> buildable(code@, self.mem_size),
            r matches Some(c) ==> parsed_elf(code@) matches Some(img) && c.cpu.dram.dram@ == seeded_image(
                core_image(code@, img.segments),
                self.mem_size,
            ) && c.cpu.pc == (img.entry as u32) - DRAM_BASE && c.cpu.regs@ == Seq::new(
                32,
                |i: int| if i == 2 { (DRAM_SIZE - 8) as u32 } else { 0u32 },
            ) && c.instructions_per_update == self.instructions_per_update && c.device_offsets@
                == self.device_offsets@,
    {
        let probe = match Dram::try_new(code) {
            Some((dram, _)) => dram,
            None => {
                return None;
            },
        };
        let size = self.mem_size as u32;
        if size < 4 || !access_fits(&probe, size - 4, 32) {
            return None;
        }
        Some(self.build(code))
    }
}

/// Runs `cpu` for one update: up to `instructions_per_update` cycles of
/// the core, stopping at a fault. Returns the characters written to the
/// console, in order, and the fault, if any.
pub fn cpu_system(cpu: &mut CpuComponent) -> (r: (Vec<u32>, Option<CoreFault>))
    ensures
        (final(cpu).cpu@, r.0@, r.1) == run_cycles(old(cpu).cpu@, old(cpu).instructions_per_update as nat),
        final(cpu).instructions_per_update == old(cpu).instructions_per_update,
        final(cpu).device_offsets@ == old(cpu).device_offsets@,
{
    let n = cpu.instructions_per_update;
    cpu.cpu.run(n)
}

} // verus!
