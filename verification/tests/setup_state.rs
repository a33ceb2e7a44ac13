use maolan_editor::devices::{AudioDeviceOption, AudioEngineOption, StartupSetup};
use maolan_editor::session::{EditApp, PluginFormat};
use maolan_editor::setup_state::audio_setup_state;

fn app_with(devices: Vec<AudioDeviceOption>) -> EditApp<f32, f32> {
    let setup = StartupSetup {
        audio_engine: AudioEngineOption::Alsa,
        output_devices: devices.clone(),
        input_devices: devices.clone(),
        output_device: devices.first().cloned(),
        input_device: devices.last().cloned(),
        sample_rate_hz: 50_000,
        bits: 8,
        exclusive: true,
        period_frames: 100,
        nperiods: 2,
        sync_mode: false,
    };
    EditApp::new(setup, true)
}

#[test]
fn alsa_setup_shows_matching_devices_and_picks() {
    let card = AudioDeviceOption::with_supported_caps("hw:0,0", "Card", vec![16, 24], vec![44_100, 48_000]);
    let other = AudioDeviceOption::with_supported_caps("default", "Default", vec![16], vec![48_000]);
    let mut app = app_with(vec![card, other]);
    let state = audio_setup_state(&app);
    assert_eq!(state.output_devices.len(), 1);
    assert_eq!(state.selected_output_device.as_ref().map(|d| d.id.as_str()), Some("hw:0,0"));
    assert!(state.selected_input_device.is_none());
    assert_eq!(state.selected_sample_rate, Some(48_000));
    assert_eq!(state.selected_bit_depth, Some(24));
    assert_eq!(state.selected_period_frames, Some(128));
    assert_eq!(state.n_periods.len(), 16);
    assert!(!state.can_start);
    app.setup.input_device = app.setup.output_device.clone();
    app.plugin_scan_finished(PluginFormat::Vst3, true);
    app.plugin_scan_finished(PluginFormat::Clap, true);
    app.plugin_scan_finished(PluginFormat::Lv2, false);
    let state = audio_setup_state(&app);
    assert!(state.plugins_loaded && state.can_start);
}

#[test]
fn jack_setup_hides_hardware_choices() {
    let mut app = app_with(Vec::new());
    app.setup.audio_engine = AudioEngineOption::Jack;
    let state = audio_setup_state(&app);
    assert!(!state.show_output_device && !state.show_input_device && !state.show_bit_depth);
    assert_eq!(state.selected_bit_depth, None);
    assert!(state.output_devices.is_empty());
    assert_eq!(state.backends, vec![AudioEngineOption::Alsa, AudioEngineOption::Jack]);
    assert!(!state.can_start);
}

/// The selection shows the device of the discovered list with the saved
/// device's id, with the listed formats rather than the saved ones (on this
/// platform the hardware backend is ALSA, whose device ids start with `hw:`).
#[test]
fn audio_setup_state_selects_saved_device_from_discovered_list() {
    let mut app = app_with(Vec::new());
    app.setup.audio_engine = AudioEngineOption::Alsa;
    app.setup.output_devices =
        vec![AudioDeviceOption::with_oss_caps("hw:0,0", "Out", vec![16, 24, 32], vec![44_100, 48_000], 2, 65_536)];
    app.setup.output_device =
        Some(AudioDeviceOption::with_oss_caps("hw:0,0", "Out", vec![32], vec![48_000], 2, 65_536));
    app.setup.input_devices =
        vec![AudioDeviceOption::with_oss_caps("hw:1,0", "In", vec![16, 24, 32], vec![44_100, 48_000], 2, 65_536)];
    app.setup.input_device = Some(AudioDeviceOption::with_oss_caps("hw:1,0", "In", vec![32], vec![48_000], 2, 65_536));

    let state = audio_setup_state(&app);

    assert_eq!(state.selected_output_device.as_ref().map(|d| d.id.as_str()), Some("hw:0,0"));
    assert_eq!(state.selected_input_device.as_ref().map(|d| d.id.as_str()), Some("hw:1,0"));
    assert_eq!(state.selected_output_device, Some(app.setup.output_devices[0].clone()));
    assert_eq!(state.selected_input_device, Some(app.setup.input_devices[0].clone()));
    assert_eq!(state.selected_output_device.as_ref().unwrap().supported_bits, vec![32, 24, 16]);
    assert_eq!(state.selected_input_device.as_ref().unwrap().supported_sample_rates, vec![44_100, 48_000]);
}
