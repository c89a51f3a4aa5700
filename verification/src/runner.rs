//! Running a hart inside a game update: each update executes a fixed
//! number of instructions against the memory and the devices, which are
//! mapped by slot number.
use vstd::prelude::*;

use crate::frequency::{budget, preset_hz, CpuFrequencySetting};
use crate::hart::{fpu_retire, needs_fpu, step, with_reg, fresh_state, Hart, HartState, load_or_zero};
use crate::instruction::{spec_decode, Instruction};
use crate::loader::{loadable, memory_image, parsed_elf, stack_top_for, CpuBuilder};
use crate::memory::{device_models, Bus, Dram, RamLike};

verus! {

/// What happened to the instruction at the program counter.
#[derive(Debug)]
pub enum StepOutcome {
    /// It was executed.
    Executed,
    /// It is single-precision arithmetic of the given length: the host
    /// computes the result from [`Hart::fpu_operands`] and completes it with
    /// [`Hart::retire_fpu`]. Nothing has changed yet.
    NeedsFpu(Instruction, u32),
    /// It is EBREAK. Nothing has changed.
    Breakpoint,
    /// The word does not decode. Nothing has changed.
    IllegalInstruction(u32),
}

/// The effect of one instruction: fetch the word at `pc` (0 where memory
/// refuses it), decode it and execute it, unless it is EBREAK, needs the
/// host's floating point, or does not decode.
pub open spec fn step_outcome<M: RamLike>(s: HartState, m: M::Model) -> (HartState, M::Model, StepOutcome) {
    let word = load_or_zero::<M>(m, s.pc, 32);
    match spec_decode(word) {
        None => (s, m, StepOutcome::IllegalInstruction(word)),
        Some((inst, len)) => if inst is Ebreak {
            (s, m, StepOutcome::Breakpoint)
        } else if needs_fpu(inst) {
            (s, m, StepOutcome::NeedsFpu(inst, len))
        } else {
            let (s2, m2) = step::<M>(s, m, inst, len);
            (s2, m2, StepOutcome::Executed)
        },
    }
}

/// Up to `n` instructions from `(s, m)`, stopping at the first one that is
/// not executed: the state reached, how many were executed, and the
/// outcome that stopped the run, if any.
pub open spec fn run_steps<M: RamLike>(s: HartState, m: M::Model, n: nat) -> (HartState, M::Model, nat, Option<StepOutcome>)
    decreases n,
{
    if n == 0 {
        (s, m, 0, None)
    } else {
        let prev = run_steps::<M>(s, m, (n - 1) as nat);
        if prev.3 is Some {
            prev
        } else {
            let next = step_outcome::<M>(prev.0, prev.1);
            if next.2 is Executed {
                (next.0, next.1, prev.2 + 1, None)
            } else {
                (prev.0, prev.1, prev.2, Some(next.2))
            }
        }
    }
}

/// Executes the instruction at the program counter of `hart`, unless it
/// needs the host (see [`StepOutcome`]).
pub fn step_hart<M: RamLike>(hart: &mut Hart, mem: &mut M) -> (r: StepOutcome)
    ensures
        (final(hart)@, final(mem).model(), r) == step_outcome::<M>(old(hart)@, old(mem).model()),
{
    let word = hart.fetch(&*mem);
    match Instruction::try_parse_with_len(word) {
        None => StepOutcome::IllegalInstruction(word),
        Some((inst, len)) => {
            if let Instruction::Ebreak = inst {
                StepOutcome::Breakpoint
            } else if inst.needs_fpu() {
                StepOutcome::NeedsFpu(inst, len)
            } else {
                hart.execute(inst, len, mem);
                StepOutcome::Executed
            }
        },
    }
}

/// Runs up to `n` instructions, stopping at the first one that needs the
/// host; returns how many were executed and the outcome that stopped the
/// run, if any.
pub fn run_steps_on<M: RamLike>(hart: &mut Hart, mem: &mut M, n: u32) -> (r: (u32, Option<StepOutcome>))
    ensures
        ({
            let run = run_steps::<M>(old(hart)@, old(mem).model(), n as nat);
            &&& final(hart)@ == run.0
            &&& final(mem).model() == run.1
            &&& r.0 == run.2
            &&& r.1 == run.3
        }),
{
    let ghost s0 = hart@;
    let ghost m0 = mem.model();
    let mut i: u32 = 0;
    while i < n
        invariant
            i <= n,
            s0 == old(hart)@,
            m0 == old(mem).model(),
            run_steps::<M>(s0, m0, i as nat) == (hart@, mem.model(), i as nat, None::<StepOutcome>),
        decreases n - i,
    {
        let ghost s1 = hart@;
        let ghost m1 = mem.model();
        let outcome = step_hart(hart, mem);
        match outcome {
            StepOutcome::Executed => {},
            other => {
                proof {
                    lemma_run_stops::<M>(s0, m0, (i + 1) as nat, n as nat);
                }
                return (i, Some(other));
            },
        }
        i = i + 1;
    }
    (i, None)
}

/// Once a run has stopped, further steps change nothing.
pub proof fn lemma_run_stops<M: RamLike>(s: HartState, m: M::Model, k: nat, n: nat)
    requires
        k <= n,
        run_steps::<M>(s, m, k).3 is Some,
    ensures
        run_steps::<M>(s, m, n) == run_steps::<M>(s, m, k),
    decreases n - k,
{
    if k < n {
        lemma_run_stops::<M>(s, m, k, (n - 1) as nat);
    }
}

/// A hart with its memory and how many instructions it runs per update.
pub struct CpuComponent {
    pub hart: Hart,
    pub dram: Dram,
    pub instructions_per_update: u32,
}

impl CpuComponent {
    /// Loads the ELF executable `elf` as [`CpuBuilder::build`] does.
    pub fn new(elf: &[u8], instructions_per_update: u32) -> (r: Self)
        requires
            parsed_elf(elf@) matches Some(img) && loadable(elf@, img.segments),
        ensures
            parsed_elf(elf@) matches Some(img) && r.dram.dram@ == memory_image(elf@, img.segments)
                && r.hart.pc == img.entry as u32,
            r.hart@ == with_reg(fresh_state(r.hart.pc), 2, stack_top_for(r.dram.dram@.len() as int)),
            r.instructions_per_update == instructions_per_update,
    {
        let (hart, dram) = CpuBuilder::default().build(elf);
        Self { hart, dram, instructions_per_update }
    }

    /// Loads `elf` as [`CpuComponent::new`] does, or `None` where the file
    /// is not parsed or its segments cannot be laid out.
    pub fn try_new(elf: &[u8], instructions_per_update: u32) -> (r: Option<Self>)
        ensures
            r is Some <==> (parsed_elf(elf@) matches Some(img) && loadable(elf@, img.segments)),
            r matches Some(c) ==> {
                &&& parsed_elf(elf@) matches Some(img) && c.dram.dram@ == memory_image(elf@, img.segments)
                    && c.hart.pc == img.entry as u32
                &&& c.hart@ == with_reg(fresh_state(c.hart.pc), 2, stack_top_for(c.dram.dram@.len() as int))
                &&& c.instructions_per_update == instructions_per_update
            },
    {
        if Dram::can_load(elf) {
            Some(Self::new(elf, instructions_per_update))
        } else {
            None
        }
    }

    /// Changes how many instructions run per update.
    pub fn set_instructions_per_update(&mut self, instructions_per_update: u32)
        ensures
            final(self).instructions_per_update == instructions_per_update,
            final(self).hart@ == old(self).hart@,
            final(self).dram.dram@ == old(self).dram.dram@,
    {
        self.instructions_per_update = instructions_per_update;
    }
}

/// Gives `cpu` the instruction budget of the clock `setting`.
pub fn apply_cpu_frequency_setting(setting: &CpuFrequencySetting, cpu: &mut CpuComponent)
    ensures
        final(cpu).instructions_per_update == budget(preset_hz(setting.preset())),
        final(cpu).hart@ == old(cpu).hart@,
        final(cpu).dram.dram@ == old(cpu).dram.dram@,
{
    let n = setting.instructions_per_update();
    cpu.set_instructions_per_update(n);
}

/// Executes the instruction at the program counter against `cpu`'s memory
/// and `devices` (device `i` answers at page `i + 1`), unless it needs the
/// host (see [`StepOutcome`]).
pub fn run_one_instruction<D: RamLike>(cpu: &mut CpuComponent, devices: &mut Vec<D>) -> (r: StepOutcome)
    ensures
        ({
            let after = step_outcome::<Bus<D>>(old(cpu).hart@, (old(cpu).dram.dram@, device_models(old(devices)@)));
            &&& final(cpu).hart@ == after.0
            &&& (final(cpu).dram.dram@, device_models(final(devices)@)) == after.1
            &&& r == after.2
        }),
        final(cpu).instructions_per_update == old(cpu).instructions_per_update,
{
    let mut bus = Bus { dram: Dram { dram: Vec::new() }, devices: Vec::new() };
    std::mem::swap(&mut bus.dram, &mut cpu.dram);
    std::mem::swap(&mut bus.devices, devices);
    let r = step_hart(&mut cpu.hart, &mut bus);
    std::mem::swap(&mut bus.dram, &mut cpu.dram);
    std::mem::swap(&mut bus.devices, devices);
    r
}

/// Runs up to `instructions_per_update` instructions against `cpu`'s
/// memory and `devices`, stopping at the first one that needs the host;
/// returns how many were executed and the outcome that stopped the run.
/// The host goes on with the rest of the update through
/// [`continue_update`].
pub fn run_cpu<D: RamLike>(cpu: &mut CpuComponent, devices: &mut Vec<D>) -> (r: (u32, Option<StepOutcome>))
    ensures
        ({
            let run = run_steps::<Bus<D>>(
                old(cpu).hart@,
                (old(cpu).dram.dram@, device_models(old(devices)@)),
                old(cpu).instructions_per_update as nat,
            );
            &&& final(cpu).hart@ == run.0
            &&& (final(cpu).dram.dram@, device_models(final(devices)@)) == run.1
            &&& r.0 == run.2
            &&& r.1 == run.3
        }),
        final(cpu).instructions_per_update == old(cpu).instructions_per_update,
{
    let n = cpu.instructions_per_update;
    let mut bus = Bus { dram: Dram { dram: Vec::new() }, devices: Vec::new() };
    std::mem::swap(&mut bus.dram, &mut cpu.dram);
    std::mem::swap(&mut bus.devices, devices);
    let r = run_steps_on(&mut cpu.hart, &mut bus, n);
    std::mem::swap(&mut bus.dram, &mut cpu.dram);
    std::mem::swap(&mut bus.devices, devices);
    r
}

/// A run that did not stop executed its whole budget.
pub proof fn lemma_unstopped_run_is_full<M: RamLike>(s: HartState, m: M::Model, n: nat)
    ensures
        run_steps::<M>(s, m, n).3 is None ==> run_steps::<M>(s, m, n).2 == n,
        run_steps::<M>(s, m, n).2 <= n,
    decreases n,
{
    if n > 0 {
        lemma_unstopped_run_is_full::<M>(s, m, (n - 1) as nat);
    }
}

/// The hart state from which an update goes on: the host's result of the
/// single-precision instruction that stopped it retired, if there is one.
pub open spec fn resumed(s: HartState, fpu_result: Option<(Instruction, u32, u32)>) -> HartState {
    match fpu_result {
        Some((inst, len, result)) => fpu_retire(s, inst, len, result),
        None => s,
    }
}

/// Goes on with an update that has `remaining` instructions left: first
/// retires the single-precision instruction `inst` of length `len` that
/// stopped it with the host's `result`, when `fpu_result` is
/// `Some((inst, len, result))` (which counts as one instruction), then runs
/// up to the rest of the budget as [`run_cpu`] does. Returns how many
/// instructions are left afterwards and the outcome that stopped the run,
/// if any; when nothing stopped it, none are left, so that an update whose
/// single-precision instructions the host answers runs exactly its budget
/// unless a breakpoint or an illegal instruction ends it.
pub fn continue_update<D: RamLike>(
    cpu: &mut CpuComponent,
    devices: &mut Vec<D>,
    remaining: u32,
    fpu_result: Option<(Instruction, u32, u32)>,
) -> (r: (u32, Option<StepOutcome>))
    requires
        fpu_result matches Some((inst, _, _)) ==> needs_fpu(inst) && inst.regs_in_range() && remaining >= 1,
    ensures
        ({
            let budget = if fpu_result is Some { remaining - 1 } else { remaining as int };
            let run = run_steps::<Bus<D>>(
                resumed(old(cpu).hart@, fpu_result),
                (old(cpu).dram.dram@, device_models(old(devices)@)),
                budget as nat,
            );
            &&& final(cpu).hart@ == run.0
            &&& (final(cpu).dram.dram@, device_models(final(devices)@)) == run.1
            &&& r.0 == budget - run.2
            &&& r.1 == run.3
            &&& r.1 is None ==> r.0 == 0
        }),
        final(cpu).instructions_per_update == old(cpu).instructions_per_update,
{
    let mut budget = remaining;
    match fpu_result {
        Some((inst, len, result)) => {
            cpu.hart.retire_fpu(&inst, len, result);
            budget = remaining - 1;
        },
        None => {},
    }
    let mut bus = Bus { dram: Dram { dram: Vec::new() }, devices: Vec::new() };
    std::mem::swap(&mut bus.dram, &mut cpu.dram);
    std::mem::swap(&mut bus.devices, devices);
    let (executed, stop) = run_steps_on(&mut cpu.hart, &mut bus, budget);
    std::mem::swap(&mut bus.dram, &mut cpu.dram);
    std::mem::swap(&mut bus.devices, devices);
    proof {
        lemma_unstopped_run_is_full::<Bus<D>>(
            resumed(old(cpu).hart@, fpu_result),
            (old(cpu).dram.dram@, device_models(old(devices)@)),
            budget as nat,
        );
    }
    (budget - executed, stop)
}

/// Whether `slots` numbers the devices `1, 2, ..., n` in some order: every
/// slot lies in `1..=n`, no two devices share a slot, and every slot in
/// `1..=n` is used.
pub open spec fn slots_valid(slots: Seq<u8>) -> bool {
    &&& forall|j: int| 0 <= j < slots.len() ==> 1 <= #[trigger] slots[j] <= slots.len()
    &&& forall|i: int, j: int| 0 <= i < slots.len() && 0 <= j < slots.len() && i != j ==> slots[i] != slots[j]
    &&& forall|k: int| 1 <= k <= slots.len() ==> #[trigger] slot_used(slots, k)
}

/// Whether some device has slot `k`.
pub open spec fn slot_used(slots: Seq<u8>, k: int) -> bool {
    exists|j: int| 0 <= j < slots.len() && slots[j] == k
}

/// The device order that `slots` gives: position `k` holds the index of the
/// device in slot `k + 1`; `None` where the slots are not valid.
pub fn slot_order(slots: &[u8]) -> (r: Option<Vec<usize>>)
    ensures
        r is Some <==> slots_valid(slots@),
        r matches Some(order) ==> order@.len() == slots@.len() && forall|k: int|
            0 <= k < slots@.len() ==> #[trigger] order@[k] < slots@.len() && slots@[order@[k] as int] == k + 1,
{
    let n = slots.len();
    let mut order: Vec<usize> = Vec::new();
    let mut k: usize = 0;
    while k < n
        invariant
            k <= n,
            n == slots@.len(),
            order@.len() == k,
            forall|i: int| 0 <= i < k ==> order@[i] == n,
        decreases n - k,
    {
        order.push(n);
        k = k + 1;
    }
    let mut j: usize = 0;
    while j < n
        invariant
            j <= n,
            n == slots@.len(),
            order@.len() == n,
            forall|i: int| 0 <= i < n ==> #[trigger] order@[i] == n || (order@[i] < j && slots@[order@[i] as int] == i + 1),
            forall|i: int| 0 <= i < j ==> 1 <= #[trigger] slots@[i] <= n && order@[slots@[i] - 1] == i,
        decreases n - j,
    {
        let v = slots[j];
        if v == 0 || (v as usize) > n {
            assert(!slots_valid(slots@)) by {
                assert(!(1 <= slots@[j as int] <= slots@.len()));
            }
            return None;
        }
        let slot = (v - 1) as usize;
        if order[slot] != n {
            assert(!slots_valid(slots@)) by {
                let other = order@[slot as int] as int;
                assert(slots@[other] == slots@[j as int]);
            }
            return None;
        }
        order.set(slot, j);
        j = j + 1;
    }
    let mut k: usize = 0;
    while k < n
        invariant
            k <= n,
            n == slots@.len(),
            order@.len() == n,
            forall|i: int| 0 <= i < n ==> #[trigger] order@[i] == n || (order@[i] < n && slots@[order@[i] as int] == i + 1),
            forall|i: int| 0 <= i < n ==> 1 <= #[trigger] slots@[i] <= n && order@[slots@[i] - 1] == i,
            forall|i: int| 0 <= i < k ==> #[trigger] order@[i] != n,
        decreases n - k,
    {
        if order[k] == n {
            assert(!slots_valid(slots@)) by {
                if slots_valid(slots@) {
                    assert(slot_used(slots@, k + 1));
                    let w = choose|w: int| 0 <= w < slots@.len() && slots@[w] == k + 1;
                    assert(order@[slots@[w] - 1] == w);
                }
            }
            return None;
        }
        k = k + 1;
    }
    assert(slots_valid(slots@)) by {
        assert forall|i: int, j2: int| 0 <= i < n && 0 <= j2 < n && i != j2 implies slots@[i] != slots@[j2] by {
            assert(order@[slots@[i] - 1] == i);
            assert(order@[slots@[j2] - 1] == j2);
        }
        assert forall|s: int| 1 <= s <= n implies slot_used(slots@, s) by {
            assert(order@[s - 1] != n);
            assert(slots@[order@[s - 1] as int] == s);
        }
    }
    Some(order)
}

/// The slots of `slotted`, in order.
pub open spec fn slots_of<D>(slotted: Seq<(u8, D)>) -> Seq<u8> {
    slotted.map_values(|e: (u8, D)| e.0)
}

/// The devices of `slotted` in slot order: position `k` holds the device
/// whose slot is `k + 1`.
pub open spec fn in_slot_order<D>(slotted: Seq<(u8, D)>) -> Seq<D> {
    Seq::new(
        slotted.len(),
        |k: int| slotted[choose|j: int| 0 <= j < slotted.len() && slotted[j].0 == k + 1].1,
    )
}

/// One update of a CPU whose devices are given with their slots, which
/// must number the devices `1..=n` (see [`slot_order`] to check them): puts
/// the devices in slot order and runs up to `instructions_per_update`
/// instructions as [`run_cpu`] does. Returns the devices in slot order, how
/// many instructions were executed, and the outcome that stopped the run,
/// if any. When a single-precision instruction stopped it, the host
/// computes its result and goes on through [`continue_update`] with the
/// remaining `instructions_per_update - executed` instructions.
pub fn cpu_system<D: RamLike>(cpu: &mut CpuComponent, slotted: Vec<(u8, D)>) -> (r: (
    Vec<D>,
    u32,
    Option<StepOutcome>,
))
    requires
        slots_valid(slots_of(slotted@)),
    ensures
        ({
            let run = run_steps::<Bus<D>>(
                old(cpu).hart@,
                (old(cpu).dram.dram@, device_models(in_slot_order(slotted@))),
                old(cpu).instructions_per_update as nat,
            );
            &&& final(cpu).hart@ == run.0
            &&& (final(cpu).dram.dram@, device_models(r.0@)) == run.1
            &&& r.1 == run.2
            &&& r.2 == run.3
        }),
        final(cpu).instructions_per_update == old(cpu).instructions_per_update,
{
    let n = slotted.len();
    let mut slots: Vec<u8> = Vec::new();
    let mut j: usize = 0;
    while j < n
        invariant
            j <= n,
            n == slotted@.len(),
            slots@ == slots_of(slotted@).subrange(0, j as int),
        decreases n - j,
    {
        slots.push(slotted[j].0);
        j = j + 1;
    }
    assert(slots@ =~= slots_of(slotted@));
    let order = match slot_order(slots.as_slice()) {
        Some(order) => order,
        None => {
            proof {
                assert(false);
            }
            Vec::new()
        },
    };
    let ghost given = slotted@;
    let mut opts: Vec<Option<D>> = Vec::new();
    let mut k: usize = 0;
    while k < n
        invariant
            k <= n,
            opts@.len() == k,
            forall|i: int| 0 <= i < k ==> opts@[i] is None,
        decreases n - k,
    {
        opts.push(None);
        k = k + 1;
    }
    let mut rest = slotted;
    while rest.len() > 0
        invariant
            opts@.len() == n,
            n == given.len(),
            rest@.len() <= n,
            rest@ == given.subrange(0, rest@.len() as int),
            forall|i: int| 0 <= i < rest@.len() ==> opts@[i] is None,
            forall|i: int| rest@.len() <= i < n ==> opts@[i] == Some(given[i].1),
        decreases rest@.len(),
    {
        let last = rest.len() - 1;
        match rest.pop() {
            Some(entry) => {
                opts.set(last, Some(entry.1));
            },
            None => {},
        }
    }
    let mut devices: Vec<D> = Vec::new();
    let mut k: usize = 0;
    while k < n
        invariant
            k <= n,
            n == given.len(),
            opts@.len() == n,
            order@.len() == n,
            slots_valid(slots_of(given)),
            forall|i: int| 0 <= i < n ==> #[trigger] order@[i] < n && slots_of(given)[order@[i] as int] == i + 1,
            forall|i: int|
                0 <= i < n ==> (opts@[i] is None <==> exists|m: int| 0 <= m < k && order@[m] == i),
            forall|i: int| 0 <= i < n && opts@[i] is Some ==> opts@[i] == Some(given[i].1),
            devices@.len() == k,
            forall|m: int| 0 <= m < k ==> devices@[m] == given[order@[m] as int].1,
        decreases n - k,
    {
        let at = order[k];
        let mut taken: Option<D> = None;
        proof {
            assert(slots_of(given)[at as int] == k + 1);
            if exists|m: int| 0 <= m < k && order@[m] == at {
                let m = choose|m: int| 0 <= m < k && order@[m] == at;
                assert(slots_of(given)[order@[m] as int] == m + 1);
            }
        }
        opts.set_and_swap(at, &mut taken);
        match taken {
            Some(d) => {
                devices.push(d);
            },
            None => {
                proof {
                    assert(false);
                }
            },
        }
        proof {
            assert forall|i: int| 0 <= i < n implies (opts@[i] is None <==> exists|m: int|
                0 <= m < k + 1 && order@[m] == i) by {
                if i == at {
                    assert(order@[k as int] == i);
                }
            }
        }
        k = k + 1;
    }
    proof {
        assert forall|m: int| 0 <= m < n implies devices@[m] == in_slot_order(given)[m] by {
            let j2 = choose|j2: int| 0 <= j2 < given.len() && given[j2].0 == m + 1;
            assert(slots_of(given)[order@[m] as int] == m + 1);
            assert(exists|j3: int| 0 <= j3 < given.len() && given[j3].0 == m + 1) by {
                assert(given[order@[m] as int].0 == m + 1);
            }
            assert(slots_of(given)[j2] == m + 1);
        }
        assert(devices@ =~= in_slot_order(given));
    }
    let (executed, stop) = run_cpu(cpu, &mut devices);
    (devices, executed, stop)
}

} // verus!
