use botracers::bot::{CarControls, CarState, SplineQuery, TrackRadar, SLOT3, SLOT4, SLOT5};
use botracers::bot::{get_devices, log, CarRadar, Driving, Log, Radar, SLOT1, SLOT2, SLOT6};
use botracers::devices::CarRadarDevice;
use botracers::memory::RamLike;
use botracers::robot::{DRIVING_ADDR, LOG_ADDR, RADAR_ADDR};

#[test]
fn devices_follow_each_other_from_the_io_base() {
    let (log_dev, radar, driving) = get_devices();
    assert_eq!(log_dev, Log { addr: 4 });
    assert_eq!(radar, Radar { addr: 8 });
    assert_eq!(driving, Driving { addr: 24 });
    assert_eq!(log_dev.addr, LOG_ADDR);
    assert_eq!(radar.addr, RADAR_ADDR);
    assert_eq!(driving.addr, DRIVING_ADDR);
}

#[test]
fn log_binds_to_first_slot() {
    assert_eq!(log(), Log { addr: 0x100 });
    assert_eq!(Log::bind(SLOT2).addr, 0x200);
    assert_eq!(SLOT1, 0x100);
    assert_eq!(SLOT6, 0x600);
}

#[test]
fn log_line_codes_end_with_newline() {
    let line: Vec<char> = "hi é".chars().collect();
    assert_eq!(Log::line_codes(&line), vec![104, 105, 32, 233, 10]);
    assert_eq!(Log::line_codes(&vec![]), vec![10]);
}

#[test]
fn radar_and_driving_addresses() {
    let (_, radar, driving) = get_devices();
    assert_eq!(radar.sector_addr(0), 8);
    assert_eq!(radar.sector_addr(15), 23);
    assert_eq!(driving.speed_write(0x1234), (24, [0x12, 0x34]));
    assert_eq!(driving.heading_write(300), (26, [0x01, 0x2c]));
}

#[test]
fn car_radar_reads_back_what_the_host_wrote() {
    let positions = [
        Some((1.5f32.to_bits(), (-2.0f32).to_bits())),
        None,
        Some((0.0f32.to_bits(), 7.25f32.to_bits())),
        None,
    ];
    let mut dev = CarRadarDevice::default();
    dev.update(positions);
    let radar = CarRadar::bind(SLOT6);
    let mut words = [0u32; 8];
    for i in 0..4 {
        let (x, y) = radar.coordinate_addrs(i);
        words[2 * i] = dev.load((x - SLOT6) as u32, 32).unwrap();
        words[2 * i + 1] = dev.load((y - SLOT6) as u32, 32).unwrap();
    }
    assert_eq!(CarRadar::positions(words), positions);
    assert_eq!(CarRadar::position(words, 2), positions[2]);
    assert_eq!(CarRadar::position(words, 4), None);
    let mut odd = words;
    odd[1] = f32::NAN.to_bits() | 1;
    assert_eq!(CarRadar::positions(odd)[0], None);
}

#[test]
fn racing_handles_lay_out_their_windows() {
    let state = CarState::bind(SLOT2);
    assert_eq!(state.speed, 0x200);
    assert_eq!(state.position, (0x204, 0x208));
    assert_eq!(state.forward, (0x20C, 0x210));
    assert_eq!(state.target, (0x214, 0x218));
    let controls = CarControls::bind(SLOT3);
    assert_eq!((controls.accelerator, controls.brake, controls.steering), (0x300, 0x304, 0x308));
    let spline = SplineQuery::bind(SLOT4);
    assert_eq!((spline.t, spline.x, spline.y, spline.t_max), (0x400, 0x404, 0x408, 0x40C));
    let radar = TrackRadar::bind(SLOT5);
    assert_eq!(radar.distance_addr(0), 0x500);
    assert_eq!(radar.distance_addr(6), 0x518);
}

#[test]
fn track_radar_distance_past_the_last_ray_is_nan() {
    let words = [1.5f32.to_bits(), 2.0f32.to_bits(), 0, 0, 0, 0, 7.0f32.to_bits()];
    assert_eq!(f32::from_bits(TrackRadar::distance(words, 0)), 1.5);
    assert_eq!(f32::from_bits(TrackRadar::distance(words, 6)), 7.0);
    assert!(f32::from_bits(TrackRadar::distance(words, 7)).is_nan());
    assert!(f32::from_bits(TrackRadar::distance(words, 100)).is_nan());
}

#[test]
fn write_str_writes_each_character_once_without_a_newline() {
    let text: Vec<char> = "hé!".chars().collect();
    assert_eq!(Log::write_codes(&text), vec!['h' as u32, 'é' as u32, '!' as u32]);
    assert!(Log::write_codes(&Vec::new()).is_empty());
    assert_eq!(Log::line_codes(&text), vec!['h' as u32, 'é' as u32, '!' as u32, '\n' as u32]);
}
