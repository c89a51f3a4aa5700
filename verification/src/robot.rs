//! The mining robot: a base-ISA CPU with a fixed memory map. The radar
//! sectors are copied into memory before each update and the driving
//! command is read back after it.
use vstd::prelude::*;

use crate::io::IOMemoryLayout;
use crate::rv32i::{cycle, in_bounds, lemma_core_step_len, run_cycles, CoreFault, Cpu, CpuState, CONSOLE_ADDR};

verus! {

/// Memory index of the console word's window.
pub const LOG_ADDR: usize = 4;

/// Length of the console word's window.
pub const LOG_SIZE: usize = 4;

/// Memory index of the radar window.
pub const RADAR_ADDR: usize = 8;

/// Length of the radar window: one byte per sector.
pub const RADAR_SIZE: usize = 16;

/// Memory index of the driving window: speed, then heading, each a
/// big-endian 16-bit value.
pub const DRIVING_ADDR: usize = 24;

/// Memory the update reads: the first 64 bytes must exist.
pub const MAPPED_BYTES: usize = 64;

/// A robot's CPU and how many instructions it runs per update.
pub struct CpuComponent {
    pub cpu: Cpu,
    pub instructions_per_update: u32,
}

/// What the robot's radar sees, one byte per sector.
pub struct Radar {
    pub sectors: [u8; 16],
}

/// What the robot's program asks for.
#[derive(Debug, Clone, Copy, PartialEq, Eq)]
pub struct Driving {
    pub speed: u16,
    pub heading: u16,
}

/// What a voxel of the arena is made of.
#[derive(Debug, Clone, Copy, PartialEq, Eq, Structural)]
pub enum VoxelMaterial {
    SAND,
    ORE,
}

/// `s` with the radar window holding `sectors`.
pub open spec fn with_radar(s: CpuState, sectors: Seq<u8>) -> CpuState {
    CpuState {
        regs: s.regs,
        pc: s.pc,
        mem: s.mem.subrange(0, RADAR_ADDR as int) + sectors + s.mem.subrange(
            (RADAR_ADDR + RADAR_SIZE) as int,
            s.mem.len() as int,
        ),
    }
}

/// The driving command held by the driving window of `mem`.
pub open spec fn driving_of(mem: Seq<u8>) -> Driving {
    let d = <(u16, u16)>::decode(mem.subrange(DRIVING_ADDR as int, (DRIVING_ADDR + 4) as int));
    Driving { speed: d.0, heading: d.1 }
}

/// One cycle leaves the memory's length unchanged.
proof fn lemma_cycle_len(s: CpuState)
    ensures
        cycle(s).0.mem.len() == s.mem.len(),
{
    if in_bounds(s.mem, s.pc, 32) && s.pc + 4 <= u32::MAX {
        let word = crate::memory::le_word(s.mem, s.pc + crate::rv32i::DRAM_BASE, 4);
        let s1 = CpuState { regs: s.regs, pc: (s.pc + 4) as u32, mem: s.mem };
        match crate::instruction::spec_decode(word) {
            Some((inst, _)) => {
                if crate::rv32i::is_base_instruction(inst) && crate::rv32i::accesses_in_bounds(s1, inst)
                    && in_bounds(s.mem, CONSOLE_ADDR, 32) {
                    lemma_core_step_len(s1, inst);
                }
            },
            None => {},
        }
    }
}

/// A run leaves the memory's length unchanged.
proof fn lemma_run_len(s: CpuState, n: nat)
    ensures
        run_cycles(s, n).0.mem.len() == s.mem.len(),
    decreases n,
{
    if n > 0 {
        lemma_run_len(s, (n - 1) as nat);
        lemma_cycle_len(run_cycles(s, (n - 1) as nat).0);
    }
}

/// One update of the robot: copies the radar sectors into the radar
/// window, runs up to `instructions_per_update` cycles, and, if no cycle
/// faulted, reads the driving command from the driving window. Returns the
/// characters written to the console and the fault, if any; after a fault
/// `driving` is left as it was.
pub fn cpu_system(cpu: &mut CpuComponent, radar: &Radar, driving: &mut Driving) -> (r: (
    Vec<u32>,
    Option<CoreFault>,
))
    requires
        old(cpu).cpu.dram.dram@.len() >= MAPPED_BYTES,
    ensures
        ({
            let run = run_cycles(
                with_radar(old(cpu).cpu@, radar.sectors@),
                old(cpu).instructions_per_update as nat,
            );
            &&& final(cpu).cpu@ == run.0
            &&& r.0@ == run.1
            &&& r.1 == run.2
            &&& *final(driving) == (if run.2 is None {
                driving_of(run.0.mem)
            } else {
                *old(driving)
            })
        }),
        final(cpu).instructions_per_update == old(cpu).instructions_per_update,
{
    let ghost s0 = cpu.cpu@;
    {
        let mem = cpu.cpu.dram.dram.as_mut_slice();
        let (_head, rest) = mem.split_at_mut(RADAR_ADDR);
        let (win, _tail) = rest.split_at_mut(RADAR_SIZE);
        radar.sectors.into_bytes(win);
    }
    assert(cpu.cpu@.mem =~= with_radar(s0, radar.sectors@).mem);
    let n = cpu.instructions_per_update;
    let (outs, fault) = cpu.cpu.run(n);
    match fault {
        Some(f) => (outs, Some(f)),
        None => {
            proof {
                lemma_run_len(with_radar(s0, radar.sectors@), n as nat);
            }
            let mem = cpu.cpu.dram.dram.as_slice();
            let d = <(u16, u16)>::from_bytes(vstd::slice::slice_subrange(mem, DRIVING_ADDR, DRIVING_ADDR + 4));
            driving.speed = d.0;
            driving.heading = d.1;
            (outs, None)
        },
    }
}

} // verus!
