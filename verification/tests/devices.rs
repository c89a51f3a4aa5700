use botracers::devices::{
    CarControlsDevice, CarRadarDevice, CarStateDevice, TrackRadarDevice, NAN_BITS,
};
use botracers::memory::RamLike;

#[test]
fn car_state_is_read_only() {
    let mut dev = CarStateDevice::default();
    dev.update(1.5f32.to_bits(), (2.0f32.to_bits(), 3.0f32.to_bits()), (0.0f32.to_bits(), 1.0f32.to_bits()));
    assert_eq!(dev.load(0, 32), Ok(1.5f32.to_bits()));
    assert_eq!(dev.load(4, 32), Ok(2.0f32.to_bits()));
    assert_eq!(dev.load(16, 32), Ok(1.0f32.to_bits()));
    assert_eq!(dev.store(0, 32, 7), Ok(()));
    assert_eq!(dev.load(0, 32), Ok(1.5f32.to_bits()));
    assert_eq!(dev.load(17, 32), Ok(0));
    assert_eq!(dev.load(0, 24), Err(()));
    assert_eq!(dev.load(19, 8), Ok(0x3f));
    assert_eq!(dev.load(18, 16), Ok(0x3f80));
}

#[test]
fn controls_are_written_by_the_program() {
    let mut dev = CarControlsDevice::default();
    assert_eq!(dev.store(0, 32, 0.5f32.to_bits()), Ok(()));
    assert_eq!(dev.store(4, 32, 0.25f32.to_bits()), Ok(()));
    assert_eq!(dev.store(8, 32, (-1.0f32).to_bits()), Ok(()));
    assert_eq!(f32::from_bits(dev.accelerator()), 0.5);
    assert_eq!(f32::from_bits(dev.brake()), 0.25);
    assert_eq!(f32::from_bits(dev.steering()), -1.0);
    assert_eq!(dev.load(8, 32), Ok((-1.0f32).to_bits()));
    assert_eq!(dev.store(9, 32, 1), Err(()));
    assert_eq!(dev.store(11, 8, 0xff), Ok(()));
    assert_eq!(dev.store(12, 8, 0xff), Err(()));
    assert_eq!(dev.store(0, 64, 1), Err(()));
    assert_eq!(dev.load(12, 8), Ok(0));
}

#[test]
fn track_radar_holds_seven_rays() {
    let mut dev = TrackRadarDevice::default();
    let mut rays = [0u32; 7];
    for (i, r) in rays.iter_mut().enumerate() {
        *r = (i as f32 * 10.0).to_bits();
    }
    rays[3] = NAN_BITS;
    dev.update(rays);
    assert_eq!(dev.load(4, 32), Ok(10.0f32.to_bits()));
    assert!(f32::from_bits(dev.load(12, 32).unwrap()).is_nan());
    assert_eq!(dev.load(24, 32), Ok(60.0f32.to_bits()));
    assert_eq!(dev.load(28, 32), Ok(0));
    assert_eq!(dev.store(0, 32, 1), Ok(()));
    assert_eq!(dev.load(0, 32), Ok(0));
}

#[test]
fn car_radar_marks_missing_cars_with_nan() {
    let mut dev = CarRadarDevice::default();
    dev.update([
        Some((1.0f32.to_bits(), 2.0f32.to_bits())),
        None,
        Some((3.0f32.to_bits(), 4.0f32.to_bits())),
        None,
    ]);
    assert_eq!(dev.load(0, 32), Ok(1.0f32.to_bits()));
    assert_eq!(dev.load(4, 32), Ok(2.0f32.to_bits()));
    assert_eq!(dev.load(8, 32), Ok(NAN_BITS));
    assert_eq!(dev.load(12, 32), Ok(NAN_BITS));
    assert_eq!(dev.load(16, 32), Ok(3.0f32.to_bits()));
    assert_eq!(dev.load(20, 32), Ok(4.0f32.to_bits()));
    assert_eq!(dev.load(28, 32), Ok(NAN_BITS));
    assert_eq!(NAN_BITS, f32::NAN.to_bits());
}
