use botracers::frequency::CpuFrequencySetting;
use botracers::runner::apply_cpu_frequency_setting;
use botracers::hart::Hart;
use botracers::memory::{Dram, LogDevice, Mmu, RamLike};
use botracers::runner::continue_update;
use botracers::runner::{
    cpu_system, run_cpu, run_one_instruction, slot_order, CpuComponent, StepOutcome,
};

fn component(ipu: u32) -> CpuComponent {
    CpuComponent {
        hart: Hart::new(0x1000),
        dram: Dram {
            dram: vec![0; 0x2000],
        },
        instructions_per_update: ipu,
    }
}

fn put(cpu: &mut CpuComponent, addr: u32, word: u32) {
    cpu.dram.store(addr, 32, word).unwrap();
}

#[test]
fn slot_order_sorts_by_slot() {
    assert_eq!(slot_order(&[2, 1, 3]), Some(vec![1, 0, 2]));
    assert_eq!(slot_order(&[]), Some(vec![]));
    assert_eq!(slot_order(&[1, 1]), None);
    assert_eq!(slot_order(&[0]), None);
    assert_eq!(slot_order(&[1, 3]), None);
}

#[test]
fn one_instruction_through_the_memory_map() {
    let mut cpu = component(1);
    put(&mut cpu, 0x1000, 0x0480_0093); // addi x1, x0, 'H'
    put(&mut cpu, 0x1004, 0x1000_0113); // addi x2, x0, 0x100
    put(&mut cpu, 0x1008, 0x0011_2023); // sw x1, 0(x2)
    let mut devices = vec![LogDevice::new()];
    assert!(matches!(run_one_instruction(&mut cpu, &mut devices), StepOutcome::Executed));
    assert!(matches!(run_one_instruction(&mut cpu, &mut devices), StepOutcome::Executed));
    assert!(matches!(run_one_instruction(&mut cpu, &mut devices), StepOutcome::Executed));
    assert_eq!(devices[0].output, vec![72]);
    assert_eq!(cpu.hart.pc, 0x100c);
}

#[test]
fn run_stops_at_what_needs_the_host() {
    let mut cpu = component(10);
    put(&mut cpu, 0x1000, 0x0010_0093); // addi x1, x0, 1
    put(&mut cpu, 0x1004, 0x0000_9002); // c.ebreak
    let mut devices: Vec<LogDevice> = vec![];
    let (executed, stop) = run_cpu(&mut cpu, &mut devices);
    assert_eq!(executed, 1);
    assert!(matches!(stop, Some(StepOutcome::Breakpoint)));
    assert_eq!(cpu.hart.pc, 0x1004);

    let mut cpu = component(10);
    put(&mut cpu, 0x1000, 0x0020_f0d3); // fadd.s f1, f1, f2
    let (executed, stop) = run_cpu(&mut cpu, &mut devices);
    assert_eq!(executed, 0);
    assert!(matches!(stop, Some(StepOutcome::NeedsFpu(_, 4))));

    let mut cpu = component(3);
    put(&mut cpu, 0x1000, 0x0010_0093); // addi x1, x0, 1
    put(&mut cpu, 0x1004, 0x0010_8093); // addi x1, x1, 1
    put(&mut cpu, 0x1008, 0x0010_8093); // addi x1, x1, 1
    let (executed, stop) = run_cpu(&mut cpu, &mut devices);
    assert_eq!(executed, 3);
    assert!(stop.is_none());
    assert_eq!(cpu.hart.regs[1], 3);
}

#[test]
fn cpu_system_checks_slots_and_orders_devices() {
    let mut cpu = component(3);
    put(&mut cpu, 0x1000, 0x0480_0093); // addi x1, x0, 'H'
    put(&mut cpu, 0x1004, 0x2000_0113); // addi x2, x0, 0x200
    put(&mut cpu, 0x1008, 0x0011_2023); // sw x1, 0(x2)
    let slotted = vec![(2u8, LogDevice::new()), (1u8, LogDevice::new())];
    assert!(slot_order(&[2, 1]).is_some());
    let (devices, executed, stop) = cpu_system(&mut cpu, slotted);
    assert_eq!(executed, 3);
    assert!(stop.is_none());
    // Slot 2 is the second page, 0x200: the device listed first.
    assert_eq!(devices[1].output, vec![72]);
    assert!(devices[0].output.is_empty());

    // Slots that do not number the devices 1..=n are refused up front.
    assert!(slot_order(&[1, 1]).is_none());
    assert!(slot_order(&[1, 3]).is_none());
}

#[test]
fn mmu_routes_by_page() {
    let mut dram = Dram {
        dram: vec![0; 0x2000],
    };
    let mut devices = vec![LogDevice::new()];
    let mut mmu = Mmu::new(&mut dram, &mut devices);
    assert_eq!(mmu.store(0x1000, 32, 5), Ok(()));
    assert_eq!(mmu.load(0x1000, 32), Ok(5));
    assert_eq!(mmu.store(0x100, 32, 65), Ok(()));
    assert_eq!(mmu.load(0x100, 32), Ok(0));
    assert_eq!(mmu.store(0x100, 8, 65), Err(()));
    assert_eq!(mmu.store(0x200, 32, 1), Err(()));
    assert_eq!(mmu.load(0x80, 32), Err(()));
    drop(mmu);
    assert_eq!(devices[0].output, vec![65]);
    assert_eq!(dram.dram[0x1000], 5);
}

#[test]
fn clock_setting_sets_the_budget() {
    let mut cpu = component(1);
    let mut setting = CpuFrequencySetting::default();
    apply_cpu_frequency_setting(&setting, &mut cpu);
    assert_eq!(cpu.instructions_per_update, 10_000);
    for _ in 0..9 {
        setting.step_down();
    }
    apply_cpu_frequency_setting(&setting, &mut cpu);
    assert_eq!(cpu.instructions_per_update, 5);
    assert_eq!(cpu.hart.pc, 0x1000);
}

#[test]
fn an_update_runs_its_whole_budget_through_host_float_work() {
    let mut cpu = component(5);
    put(&mut cpu, 0x1000, 0x0010_0093); // addi x1, x0, 1
    put(&mut cpu, 0x1004, 0x0031_00d3); // fadd.s f1, f2, f3
    put(&mut cpu, 0x1008, 0x0010_8093); // addi x1, x1, 1
    put(&mut cpu, 0x100c, 0x0010_8093); // addi x1, x1, 1
    put(&mut cpu, 0x1010, 0x0010_8093); // addi x1, x1, 1
    cpu.hart.fregs[2] = 1.5f32.to_bits();
    cpu.hart.fregs[3] = 2.25f32.to_bits();
    let mut devices = vec![LogDevice::new()];
    let (left, stop) = continue_update(&mut cpu, &mut devices, 5, None);
    assert_eq!(left, 4);
    let (inst, len) = match stop {
        Some(StepOutcome::NeedsFpu(inst, len)) => (inst, len),
        other => panic!("expected float work, got {other:?}"),
    };
    assert_eq!(len, 4);
    let (a, b, _) = cpu.hart.fpu_operands(&inst);
    let result = (f32::from_bits(a) + f32::from_bits(b)).to_bits();
    let (left, stop) = continue_update(&mut cpu, &mut devices, left, Some((inst, len, result)));
    assert_eq!(left, 0);
    assert!(stop.is_none());
    assert_eq!(f32::from_bits(cpu.hart.fregs[1]), 3.75);
    assert_eq!(cpu.hart.regs[1], 4);
    assert_eq!(cpu.hart.pc, 0x1014);
}
