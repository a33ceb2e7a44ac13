use maolan_editor::devices::{AudioDeviceOption, AudioEngineOption, StartupSetup};
use maolan_editor::engine_requests::{document_steps, open_device_request, playback_steps, preview_file_name, EngineStep};

#[test]
fn document_steps_for_stereo_clip() {
    let steps = document_steps(String::from("/tmp/a.wav"), 2, 480, 96, true);
    assert_eq!(
        steps,
        vec![
            EngineStep::Stop,
            EngineStep::RemoveTrack { name: String::from("editor-preview") },
            EngineStep::AddTrack { name: String::from("editor-preview"), channels: 2 },
            EngineStep::AddClip {
                clip_name: String::from("/tmp/a.wav"),
                track_name: String::from("editor-preview"),
                length: 480,
                offset: 96,
                reversed: true,
                fade_samples: 240,
            },
            EngineStep::Connect {
                from_track: String::from("editor-preview"),
                from_port: 0,
                to_track: String::from("hw:out"),
                to_port: 0,
            },
            EngineStep::Connect {
                from_track: String::from("editor-preview"),
                from_port: 1,
                to_track: String::from("hw:out"),
                to_port: 1,
            },
            EngineStep::EnableClipPlayback,
        ]
    );
    assert!(!steps[0].awaits_reply() && !steps[1].awaits_reply());
    assert!(steps[2].awaits_reply() && steps[6].awaits_reply());
}

#[test]
fn document_steps_connect_one_or_two_ports() {
    assert_eq!(document_steps(String::from("x"), 0, 1, 0, false).len(), 6);
    assert_eq!(document_steps(String::from("x"), 6, 1, 0, false).len(), 7);
}

#[test]
fn playback_steps_position_then_play() {
    let steps = playback_steps(1_000);
    assert_eq!(
        steps,
        vec![EngineStep::EnableClipPlayback, EngineStep::TransportPosition { frame: 1_000 }, EngineStep::Play]
    );
    assert!(!steps[1].awaits_reply());
}

#[test]
fn open_device_request_uses_the_setup() {
    let device = AudioDeviceOption::with_supported_caps("hw:0,0", "Card", vec![24], vec![48_000]);
    let setup = StartupSetup {
        audio_engine: AudioEngineOption::Alsa,
        output_devices: Vec::new(),
        input_devices: Vec::new(),
        output_device: Some(device.clone()),
        input_device: Some(device),
        sample_rate_hz: 48_000,
        bits: 24,
        exclusive: false,
        period_frames: 300,
        nperiods: 3,
        sync_mode: true,
    };
    let request = open_device_request(&setup);
    assert_eq!(request.device, "hw:0,0");
    assert_eq!(request.input_device.as_deref(), Some("hw:0,0"));
    assert_eq!(request.bits, 24);
    assert_eq!(request.period_frames, 512);
    assert_eq!(request.nperiods, 3);
    assert!(request.sync_mode && !request.exclusive);
}

#[test]
fn preview_file_names() {
    assert_eq!(preview_file_name(Some("song")), "maolan-editor-preview-song.wav");
    assert_eq!(preview_file_name(None), "maolan-editor-preview-maolan-editor-preview.wav");
}
