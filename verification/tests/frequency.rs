use botracers::frequency::CpuFrequencySetting;

#[test]
fn cpu_frequency_setting_clamps_at_boundaries() {
    let mut setting = CpuFrequencySetting::default();
    setting.step_up();
    assert_eq!(setting.hz(), 2_000_000);

    for _ in 0..20 {
        setting.step_down();
    }
    assert_eq!(setting.hz(), 1_000);

    setting.step_down();
    assert_eq!(setting.hz(), 1_000);
}

#[test]
fn cpu_frequency_setting_maps_to_instruction_budget() {
    let setting = CpuFrequencySetting::default();
    assert_eq!(setting.instructions_per_update(), 10_000);

    let mut setting = CpuFrequencySetting::default();
    for _ in 0..6 {
        setting.step_down();
    }
    assert_eq!(setting.hz(), 20_000);
    assert_eq!(setting.instructions_per_update(), 100);
}

#[test]
fn cpu_frequency_setting_formats_labels() {
    let setting = CpuFrequencySetting::default();
    assert_eq!(setting.format_hz_label(), "2.0 MHz");

    let mut setting = CpuFrequencySetting::default();
    for _ in 0..6 {
        setting.step_down();
    }
    assert_eq!(setting.format_hz_label(), "20 kHz");
}

#[test]
fn cpu_frequency_presets_in_order() {
    let mut setting = CpuFrequencySetting::default();
    for _ in 0..20 {
        setting.step_down();
    }
    let mut seen = Vec::new();
    for _ in 0..10 {
        seen.push(setting.hz());
        setting.step_up();
    }
    assert_eq!(
        seen,
        vec![1_000, 5_000, 10_000, 20_000, 50_000, 100_000, 200_000, 500_000, 1_000_000, 2_000_000]
    );
    assert_eq!(setting.hz(), 2_000_000);
}

#[test]
fn cpu_frequency_small_presets_budget_and_labels() {
    let mut setting = CpuFrequencySetting::default();
    for _ in 0..20 {
        setting.step_down();
    }
    assert_eq!(setting.instructions_per_update(), 5);
    assert_eq!(setting.format_hz_label(), "1 kHz");
    setting.step_up();
    setting.step_up();
    setting.step_up();
    setting.step_up();
    setting.step_up();
    setting.step_up();
    setting.step_up();
    setting.step_up();
    assert_eq!(setting.format_hz_label(), "1.0 MHz");
    assert_eq!(setting.preset_index(), 8);
}
