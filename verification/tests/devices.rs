use maolan_editor::devices::{
    backend_matches_device, bit_options, default_audio_device, default_period_frame_options,
    discover_input_audio_devices, discover_output_audio_devices, fallback_bits, fallback_sample_rates,
    oss_period_frame_options, period_frame_options, pick_bits, pick_period_frames, pick_sample_rate,
    platform_audio_devices, sample_rate_options, selected_bits, selected_input_device, selected_output_device,
    selected_period_frames, simple_audio_device, AudioDeviceOption, AudioEngineOption, StartupSetup,
};
use maolan_editor::preferences::EditorPreferences;

fn device(id: &str, label: &str) -> AudioDeviceOption {
    AudioDeviceOption::with_supported_caps(id, label, vec![32], vec![48_000])
}

fn setup_with(output: Option<AudioDeviceOption>) -> StartupSetup {
    StartupSetup {
        audio_engine: AudioEngineOption::Alsa,
        output_devices: Vec::new(),
        input_devices: Vec::new(),
        output_device: output,
        input_device: None,
        sample_rate_hz: 48_000,
        bits: 32,
        exclusive: true,
        period_frames: 1024,
        nperiods: 2,
        sync_mode: false,
    }
}

#[test]
fn audio_device_option_equality_compares_id_only() {
    let a = AudioDeviceOption::with_supported_caps("dev", "A", vec![16], vec![44_100]);
    let b = AudioDeviceOption::with_supported_caps("dev", "B", vec![32], vec![48_000]);
    assert_eq!(a, b);
}

#[test]
fn startup_setup_with_preferences_selects_saved_devices() {
    let preferences = EditorPreferences {
        default_output_device_id: Some(String::from("out2")),
        default_input_device_id: Some(String::from("in2")),
    };
    let output_devices = vec![device("out1", "Out One"), device("out2", "Out Two")];
    let input_devices = vec![device("in1", "In One"), device("in2", "In Two")];
    let setup = StartupSetup::with_preferences(&preferences, output_devices, input_devices, 2);
    assert_eq!(setup.output_device.as_ref().map(|d| d.id.as_str()), Some("out2"));
    assert_eq!(setup.input_device.as_ref().map(|d| d.id.as_str()), Some("in2"));
}

#[test]
fn startup_setup_with_preferences_falls_back_to_first_device() {
    let preferences = EditorPreferences {
        default_output_device_id: Some(String::from("missing")),
        default_input_device_id: Some(String::from("missing")),
    };
    let output_devices = vec![device("out1", "Out One")];
    let input_devices = vec![device("in1", "In One")];
    let setup = StartupSetup::with_preferences(&preferences, output_devices, input_devices, 2);
    assert_eq!(setup.output_device.as_ref().map(|d| d.id.as_str()), Some("out1"));
    assert_eq!(setup.input_device.as_ref().map(|d| d.id.as_str()), Some("in1"));
}

#[test]
fn audio_device_option_differs_by_id() {
    assert_ne!(device("a", "Same"), device("b", "Same"));
}

#[test]
fn with_supported_caps_orders_and_dedups_formats() {
    let d = AudioDeviceOption::with_supported_caps("x", "X", vec![16, 32, 16, 24], vec![48_000, -1, 44_100, 48_000]);
    assert_eq!(d.supported_bits, vec![32, 24, 16]);
    assert_eq!(d.supported_sample_rates, vec![44_100, 48_000]);
    assert!(d.supports_input && d.supports_output);
    assert_eq!(d.display_label(), "X [32/24/16-bit]");
}

#[test]
fn display_label_without_bits_is_the_label() {
    let d = AudioDeviceOption::with_supported_caps("x", "Plain", Vec::new(), Vec::new());
    assert_eq!(d.display_label(), "Plain");
}

#[test]
fn fallback_lists() {
    assert_eq!(fallback_bits(), vec![32, 24, 16, 8]);
    assert_eq!(fallback_sample_rates().len(), 12);
    assert_eq!(fallback_sample_rates()[6], 48_000);
    assert_eq!(default_period_frame_options().first(), Some(&16));
    assert_eq!(default_period_frame_options().last(), Some(&65_536));
}

#[test]
fn simple_device_uses_fallback_formats() {
    let d = simple_audio_device("default");
    assert_eq!(d.id, "default");
    assert_eq!(d.label, "default");
    assert_eq!(d.supported_bits, vec![32, 24, 16, 8]);
}

#[test]
fn default_devices_per_backend() {
    assert_eq!(default_audio_device(AudioEngineOption::Jack), "jack");
    assert_eq!(default_audio_device(AudioEngineOption::Alsa), "default");
    assert!(AudioEngineOption::Jack.is_jack());
    assert!(!AudioEngineOption::default().is_jack());
}

#[test]
fn backend_matches_alsa_hardware_ids() {
    assert!(backend_matches_device(AudioEngineOption::Alsa, "hw:0,0"));
    assert!(!backend_matches_device(AudioEngineOption::Alsa, "default"));
    assert!(!backend_matches_device(AudioEngineOption::Jack, "hw:0,0"));
}

#[test]
fn discovery_filters_by_direction_and_sorts_by_label() {
    let mut play = AudioDeviceOption::with_supported_direction_caps("hw:1,0", "b card", vec![16], vec![48_000], false, true);
    play.supports_output = true;
    let capture = AudioDeviceOption::with_supported_direction_caps("hw:2,0", "A card", vec![16], vec![48_000], true, false);
    let other = AudioDeviceOption::with_supported_direction_caps("hw:0,0", "C card", vec![16], vec![48_000], false, true);
    let platform = platform_audio_devices(vec![play.clone(), other.clone()], vec![capture.clone()]);
    assert_eq!(platform.iter().map(|d| d.label.as_str()).collect::<Vec<_>>(), vec!["A card", "b card", "C card"]);
    let outputs = discover_output_audio_devices(AudioEngineOption::Alsa, platform.clone());
    assert_eq!(outputs.iter().map(|d| d.id.as_str()).collect::<Vec<_>>(), vec!["hw:1,0", "hw:0,0"]);
    let inputs = discover_input_audio_devices(AudioEngineOption::Alsa, platform);
    assert_eq!(inputs.iter().map(|d| d.id.as_str()).collect::<Vec<_>>(), vec!["hw:2,0"]);
}

#[test]
fn discovery_for_jack_and_without_devices() {
    let outputs = discover_output_audio_devices(AudioEngineOption::Jack, Vec::new());
    assert_eq!(outputs.len(), 1);
    assert_eq!(outputs[0].id, "jack");
    assert!(discover_input_audio_devices(AudioEngineOption::Jack, vec![device("x", "X")]).is_empty());
    let fallback = discover_output_audio_devices(AudioEngineOption::Alsa, Vec::new());
    assert_eq!(fallback[0].id, "default");
}

#[test]
fn picks_follow_the_output_device() {
    let d = AudioDeviceOption::with_supported_caps("hw:0,0", "Card", vec![16, 24], vec![44_100, 96_000]);
    let mut setup = setup_with(Some(d));
    assert_eq!(sample_rate_options(&setup), vec![44_100, 96_000]);
    assert_eq!(bit_options(&setup), vec![24, 16]);
    assert_eq!(pick_sample_rate(&setup), 44_100);
    assert_eq!(pick_bits(&setup), 24);
    setup.sample_rate_hz = 90_000;
    assert_eq!(pick_sample_rate(&setup), 96_000);
    setup.period_frames = 1000;
    assert_eq!(period_frame_options(&setup), default_period_frame_options());
    assert_eq!(pick_period_frames(&setup), 1024);
    assert_eq!(selected_period_frames(&setup), 1024);
    setup.period_frames = 100_000;
    assert_eq!(pick_period_frames(&setup), 65_536);
}

#[test]
fn selected_engine_settings() {
    let mut setup = setup_with(None);
    setup.bits = 24;
    assert_eq!(selected_output_device(&setup), "default");
    assert_eq!(selected_input_device(&setup), None);
    assert_eq!(selected_bits(&setup), 24);
    setup.audio_engine = AudioEngineOption::Jack;
    setup.input_device = Some(device("in", "In"));
    assert_eq!(selected_output_device(&setup), "jack");
    assert_eq!(selected_input_device(&setup), None);
    assert_eq!(selected_bits(&setup), 32);
}

#[test]
fn oss_period_options_double_from_the_frame_size() {
    let d = AudioDeviceOption::with_oss_caps("/dev/dsp0", "Out", vec![16], vec![48_000], 2, 64);
    assert_eq!(oss_period_frame_options(&d, 16), Some(vec![1, 2, 4, 8, 16]));
    assert_eq!(oss_period_frame_options(&d, 12), None);
    let plain = device("x", "X");
    assert_eq!(oss_period_frame_options(&plain, 16), None);
}
