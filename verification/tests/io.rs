use botracers::io::{
    cpu_system, io_read_system, io_write_system, CpuComponent, CpuComponentBuilder, DrivingDevice,
    IODevice, IOMemoryLayout, RadarDevice,
};
use botracers::rv32i::{Cpu, Dram, DRAM_BASE, DRAM_SIZE};
use std::collections::HashMap;

#[test]
fn u16_is_big_endian() {
    assert_eq!(u16::len_bytes(), 2);
    assert_eq!(u16::from_bytes(&[0x12, 0x34]), 0x1234);
    let mut mem = [0u8; 2];
    0xabcdu16.into_bytes(&mut mem);
    assert_eq!(mem, [0xab, 0xcd]);
}

#[test]
fn pairs_and_arrays() {
    assert_eq!(<(u16, u16)>::len_bytes(), 4);
    assert_eq!(<(u16, u16)>::from_bytes(&[0, 5, 1, 0]), (5, 256));
    let mut mem = [0u8; 4];
    (1u16, 2u16).into_bytes(&mut mem);
    assert_eq!(mem, [0, 1, 0, 2]);
    assert_eq!(<[u8; 3]>::len_bytes(), 3);
    assert_eq!(<[u8; 3]>::from_bytes(&[7, 8, 9]), [7, 8, 9]);
    let mut mem = [0u8; 3];
    [4u8, 5, 6].into_bytes(&mut mem);
    assert_eq!(mem, [4, 5, 6]);
}

#[test]
fn builder_allocates_windows_in_order() {
    let builder = CpuComponentBuilder::default();
    assert_eq!(builder.mem_size, DRAM_SIZE as usize);
    assert_eq!(builder.instructions_per_update, 100);
    assert_eq!(builder.next_offset, 8);
    let builder = builder.with_device::<RadarDevice>().with_device::<DrivingDevice>();
    assert_eq!(builder.device_offsets[&RadarDevice::key()], 8);
    assert_eq!(builder.device_offsets[&DrivingDevice::key()], 24);
    assert_eq!(builder.next_offset, 28);
}

#[test]
fn default_builder_cannot_store_its_stack_word() {
    // The word at mem_size - 4 lies past the end of the loaded memory.
    let builder = CpuComponentBuilder::default();
    assert!(builder.try_build(&[0u8; 4]).is_none());
}

fn component(ipu: u32) -> CpuComponent {
    let mut offsets = HashMap::new();
    offsets.insert(RadarDevice::key(), 8);
    offsets.insert(DrivingDevice::key(), 24);
    CpuComponent {
        cpu: Cpu::new(
            Dram {
                dram: vec![0; (DRAM_BASE + 0x200) as usize],
            },
            0x100,
        ),
        instructions_per_update: ipu,
        device_offsets: offsets,
    }
}

#[test]
fn radar_is_copied_into_its_window() {
    let mut cpu = component(0);
    let mut sectors = [0u8; 16];
    for (i, s) in sectors.iter_mut().enumerate() {
        *s = i as u8 + 1;
    }
    let radar = RadarDevice { sectors };
    io_read_system(&mut cpu, &radar);
    assert_eq!(&cpu.cpu.dram.dram[8..24], &sectors);
    assert_eq!(cpu.cpu.dram.dram[7], 0);
    assert_eq!(cpu.cpu.dram.dram[24], 0);
}

#[test]
fn driving_is_read_from_its_window() {
    let mut cpu = component(0);
    cpu.cpu.dram.dram[24..28].copy_from_slice(&[0x01, 0x02, 0x03, 0x04]);
    let mut driving = DrivingDevice { speed: 0, heading: 0 };
    io_write_system(&cpu, &mut driving);
    assert_eq!(driving.speed, 0x0102);
    assert_eq!(driving.heading, 0x0304);
    // Writing the state back and reading it again gives the same device.
    io_read_system(&mut cpu, &driving);
    let mut again = DrivingDevice { speed: 9, heading: 9 };
    io_write_system(&cpu, &mut again);
    assert_eq!((again.speed, again.heading), (0x0102, 0x0304));
}

#[test]
fn radar_ignores_writes() {
    let cpu = component(0);
    let mut radar = RadarDevice { sectors: [3; 16] };
    io_write_system(&cpu, &mut radar);
    assert_eq!(radar.sectors, [3; 16]);
}

#[test]
fn cpu_system_runs_the_budget() {
    let mut cpu = component(3);
    cpu.cpu.dram.store(0x100, 32, 0x0480_0093).unwrap(); // addi x1, x0, 'H'
    cpu.cpu.dram.store(0x104, 32, 0x0010_2223).unwrap(); // sw x1, 4(x0)
    cpu.cpu.dram.store(0x108, 32, 0x0010_0113).unwrap(); // addi x2, x0, 1
    let (out, fault) = cpu_system(&mut cpu);
    assert_eq!(out, vec![72]);
    assert_eq!(fault, None);
    assert_eq!(cpu.cpu.pc, 0x10c);
    assert_eq!(cpu.cpu.regs[2], 1);
}
