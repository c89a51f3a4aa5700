use botracers::robot::{cpu_system, CpuComponent, Driving, Radar, VoxelMaterial};
use botracers::rv32i::{Cpu, Dram, DRAM_BASE};

fn robot(ipu: u32) -> CpuComponent {
    CpuComponent {
        cpu: Cpu::new(
            Dram {
                dram: vec![0; (DRAM_BASE + 0x200) as usize],
            },
            0x100,
        ),
        instructions_per_update: ipu,
    }
}

#[test]
fn update_copies_radar_and_reads_driving() {
    let mut cpu = robot(0);
    cpu.cpu.dram.dram[24..28].copy_from_slice(&[0x00, 0x10, 0x01, 0x2c]);
    let radar = Radar { sectors: [9; 16] };
    let mut driving = Driving { speed: 0, heading: 0 };
    let (out, fault) = cpu_system(&mut cpu, &radar, &mut driving);
    assert!(out.is_empty());
    assert_eq!(fault, None);
    assert_eq!(&cpu.cpu.dram.dram[8..24], &[9; 16]);
    assert_eq!(driving, Driving { speed: 16, heading: 300 });
}

#[test]
fn fault_leaves_driving_alone() {
    let mut cpu = robot(5);
    cpu.cpu.dram.dram[24..28].copy_from_slice(&[0x00, 0x10, 0x01, 0x2c]);
    let radar = Radar { sectors: [0; 16] };
    let mut driving = Driving { speed: 7, heading: 8 };
    let (_, fault) = cpu_system(&mut cpu, &radar, &mut driving);
    assert!(fault.is_some());
    assert_eq!(driving, Driving { speed: 7, heading: 8 });
}

#[test]
fn program_output_reaches_console() {
    let mut cpu = robot(2);
    cpu.cpu.dram.store(0x100, 32, 0x0480_0093).unwrap(); // addi x1, x0, 'H'
    cpu.cpu.dram.store(0x104, 32, 0x0010_2223).unwrap(); // sw x1, 4(x0)
    let radar = Radar { sectors: [0; 16] };
    let mut driving = Driving { speed: 0, heading: 0 };
    let (out, fault) = cpu_system(&mut cpu, &radar, &mut driving);
    assert_eq!(out, vec![72]);
    assert_eq!(fault, None);
}

#[test]
fn voxel_materials_compare() {
    assert_eq!(VoxelMaterial::SAND, VoxelMaterial::SAND);
    assert_ne!(VoxelMaterial::SAND, VoxelMaterial::ORE);
}
