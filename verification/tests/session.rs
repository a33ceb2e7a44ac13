use maolan_editor::host::{current_audio_edit_actions, current_audio_edits, host_preview, is_playing, rendered_audio};
use maolan_editor::session::title;
use std::path::PathBuf;

use maolan_editor::devices::{AudioDeviceOption, AudioEngineOption, StartupSetup};
use maolan_editor::dialogs::{DetectMarkersDialog, PreferencesDialog};
use maolan_editor::document::{deinterleave, AudioDocument, FrameSign};
use maolan_editor::edits::{AudioEditAction, AudioEdits, EditNote};
use maolan_editor::preferences::EditorPreferences;
use maolan_editor::session::{
    document_status, playhead_label, CloseChoice, EditApp, EditRequest, Effect, PluginFormat, SaveStart, SaveTarget,
    Status,
};

fn test_document(preview: Vec<f32>, channels: usize) -> AudioDocument<f32, f32> {
    let channel_samples = deinterleave(&preview, channels);
    AudioDocument {
        source_path: PathBuf::new(),
        save_path: None,
        samples: preview.clone(),
        preview_samples: preview,
        channels,
        sample_rate: 48_000,
        channel_samples,
        peak: 1.0,
        clip_region: None,
        edits: AudioEdits::default(),
        edit_actions: Vec::new(),
        markers: Vec::new(),
    }
}

fn empty_setup() -> StartupSetup {
    StartupSetup::with_preferences(&EditorPreferences::default(), Vec::new(), Vec::new(), 2)
}

fn app_with_markers(markers: Vec<(usize, String)>, frames: usize) -> EditApp<f32, f32> {
    let mut audio = test_document(vec![0.0f32; frames], 1);
    audio.markers = markers;
    let mut app = EditApp::new(empty_setup(), true);
    app.standalone_ready = true;
    app.audio = Some(audio);
    app
}

/// The frame a click at `ratio` of the waveform's width lands on.
fn sample_at_ratio(app: &EditApp<f32, f32>, ratio: f32) -> usize {
    let frames = app.audio.as_ref().unwrap().frames();
    ((ratio.clamp(0.0, 1.0) * frames as f32).round() as usize).min(frames)
}

fn total_gain(deltas: Vec<f32>) -> f32 {
    deltas.iter().fold(0.0f32, |g, d| (g + d).clamp(-48.0, 24.0))
}

fn silent_frames(samples: &[f32], threshold_db: f32) -> Vec<bool> {
    let threshold = 10.0f32.powf(threshold_db / 20.0);
    samples.iter().map(|s| s.abs() < threshold).collect()
}

/// Runs the detection dialog as the editor does: the threshold is read
/// first, then the silent frames are measured against it.
fn confirm_detect(app: &mut EditApp<f32, f32>) {
    let threshold = app.detect_markers_dialog.as_ref().and_then(|d| d.threshold_db.trim().parse::<f32>().ok());
    let silent = match (&app.audio, threshold) {
        (Some(audio), Some(db)) => silent_frames(&audio.preview_samples, db),
        _ => Vec::new(),
    };
    app.confirm_detect_markers(threshold.is_some(), &silent);
}

fn device(id: &str, label: &str) -> AudioDeviceOption {
    AudioDeviceOption::with_supported_caps(id, label, vec![32], vec![48_000])
}

#[test]
fn playhead_moved_sets_playhead_from_ratio() {
    let mut app = app_with_markers(Vec::new(), 100);
    let sample = sample_at_ratio(&app, 0.25);
    app.move_playhead(sample);
    assert_eq!(app.playhead_samples, 25);
}

#[test]
fn embedded_play_without_engine_starts_preview_playback() {
    let mut app = EditApp::new(empty_setup(), false);
    app.audio = Some(test_document(vec![0.0f32; 100], 1));
    let _ = app.play();
    assert!(app.playing);
    assert_eq!(app.status.text().as_deref(), Some("Playing preview."));
}

#[test]
fn select_marker_region_selects_between_markers() {
    let mut app = app_with_markers(vec![(20, "A".to_string()), (60, "B".to_string())], 100);
    app.select_marker_region(40);
    assert_eq!(app.selection_samples, Some((20, 60)));
}

#[test]
fn select_marker_region_selects_start_to_first_marker() {
    let mut app = app_with_markers(vec![(50, "A".to_string())], 100);
    app.select_marker_region(25);
    assert_eq!(app.selection_samples, Some((0, 50)));
}

#[test]
fn select_marker_region_selects_last_marker_to_end() {
    let mut app = app_with_markers(vec![(50, "A".to_string())], 100);
    app.select_marker_region(75);
    assert_eq!(app.selection_samples, Some((50, 100)));
}

#[test]
fn detect_markers_confirm_adds_detected_markers() {
    let mut samples = vec![0.0f32; 10];
    samples.extend(vec![0.8f32; 10]);
    samples.extend(vec![0.0f32; 10]);
    let mut app = EditApp::new(empty_setup(), true);
    app.standalone_ready = true;
    app.audio = Some(test_document(samples, 1));
    app.detect_markers_dialog =
        Some(DetectMarkersDialog { threshold_db: String::from("-60.0"), silence_samples: String::from("5") });
    confirm_detect(&mut app);
    assert!(app.detect_markers_dialog.is_none());
    assert_eq!(app.audio.as_ref().unwrap().markers, vec![(10, "Region 1".to_string()), (20, "Region 2".to_string())]);
}

#[test]
fn detect_markers_confirm_rejects_invalid_input() {
    let mut app = EditApp::new(empty_setup(), true);
    app.standalone_ready = true;
    app.audio = Some(test_document(vec![0.8f32; 10], 1));
    app.detect_markers_dialog =
        Some(DetectMarkersDialog { threshold_db: String::from("not a number"), silence_samples: String::from("5") });
    confirm_detect(&mut app);
    assert!(app.audio.as_ref().unwrap().markers.is_empty());
    assert!(app.status.text().unwrap().contains("Invalid"));
}

#[test]
fn detect_markers_cancel_closes_dialog() {
    let mut app = EditApp::<f32, f32>::new(empty_setup(), true);
    app.detect_markers_dialog = Some(DetectMarkersDialog::default());
    app.cancel_detect_markers();
    assert!(app.detect_markers_dialog.is_none());
}

#[test]
fn selection_resize_moves_start_when_clicked_before_range() {
    let mut app = app_with_markers(Vec::new(), 100);
    app.selection_samples = Some((40, 80));
    app.selection_resize(sample_at_ratio(&app, 0.1));
    assert_eq!(app.selection_samples, Some((10, 80)));
}

#[test]
fn selection_resize_moves_end_when_clicked_after_range() {
    let mut app = app_with_markers(Vec::new(), 100);
    app.selection_samples = Some((40, 80));
    app.selection_resize(sample_at_ratio(&app, 0.95));
    assert_eq!(app.selection_samples, Some((40, 95)));
}

#[test]
fn selection_resize_moves_nearest_edge_when_clicked_inside_range() {
    let mut app = app_with_markers(Vec::new(), 100);
    app.selection_samples = Some((20, 80));
    app.selection_resize(sample_at_ratio(&app, 0.3));
    assert_eq!(app.selection_samples, Some((30, 80)));
    app.selection_resize(sample_at_ratio(&app, 0.7));
    assert_eq!(app.selection_samples, Some((30, 70)));
}

#[test]
fn selection_resize_ignored_when_no_selection() {
    let mut app = app_with_markers(Vec::new(), 100);
    app.selection_resize(sample_at_ratio(&app, 0.5));
    assert_eq!(app.selection_samples, None);
}

#[test]
fn delete_selection_removes_range_and_shifts_markers() {
    let mut app = app_with_markers(vec![(1, "A".to_string()), (8, "B".to_string())], 10);
    let audio = app.audio.as_mut().unwrap();
    audio.samples = (0..10).map(|i| i as f32).collect();
    app.selection_samples = Some((3, 6));
    let _ = app.delete_selection(total_gain);
    let audio = app.audio.as_ref().unwrap();
    assert_eq!(audio.frames(), 7);
    assert_eq!(audio.samples, vec![0.0, 1.0, 2.0, 6.0, 7.0, 8.0, 9.0]);
    assert_eq!(audio.markers, vec![(1, "A".to_string()), (5, "B".to_string())]);
    assert!(app.selection_samples.is_none());
    assert!(app.history.is_dirty());
}

#[test]
fn delete_selection_ignored_when_nothing_selected() {
    let mut app = app_with_markers(vec![(1, "A".to_string())], 5);
    let audio = app.audio.as_mut().unwrap();
    audio.samples = vec![0.0, 1.0, 2.0, 3.0, 4.0];
    let original = audio.samples.clone();
    let _ = app.delete_selection(total_gain);
    let audio = app.audio.as_ref().unwrap();
    assert_eq!(audio.samples, original);
    assert_eq!(audio.markers, vec![(1, "A".to_string())]);
    assert!(!app.history.is_dirty());
}

#[test]
fn delete_selection_undo_restores_document() {
    let mut app = app_with_markers(vec![(1, "A".to_string()), (8, "B".to_string())], 10);
    let audio = app.audio.as_mut().unwrap();
    audio.samples = (0..10).map(|i| i as f32).collect();
    let original_samples = audio.samples.clone();
    let original_markers = audio.markers.clone();
    app.selection_samples = Some((3, 6));
    let _ = app.delete_selection(total_gain);
    assert!(app.history.is_dirty());
    let _ = app.undo();
    let audio = app.audio.as_ref().unwrap();
    assert_eq!(audio.samples, original_samples);
    assert_eq!(audio.markers, original_markers);
    assert!(!app.history.is_dirty());
}

#[test]
fn preferences_dialog_opens_from_setup() {
    let mut app = app_with_markers(Vec::new(), 100);
    app.setup.output_devices = vec![device("out1", "Out One")];
    app.setup.input_devices = vec![device("in1", "In One")];
    app.setup.output_device = Some(app.setup.output_devices[0].clone());
    app.setup.input_device = Some(app.setup.input_devices[0].clone());
    app.open_preferences_dialog();
    let dialog = app.preferences_dialog.as_ref().unwrap();
    assert_eq!(dialog.output_devices.len(), 1);
    assert_eq!(dialog.input_devices.len(), 1);
    assert_eq!(dialog.output_device.as_ref().unwrap().id, "out1");
    assert_eq!(dialog.input_device.as_ref().unwrap().id, "in1");
}

#[test]
fn preferences_save_updates_setup() {
    let mut app = app_with_markers(Vec::new(), 100);
    let out_devices = vec![device("out1", "Out One"), device("out2", "Out Two")];
    let in_devices = vec![device("in1", "In One"), device("in2", "In Two")];
    app.setup.output_devices = out_devices.clone();
    app.setup.input_devices = in_devices.clone();
    app.preferences_dialog = Some(PreferencesDialog::from_setup(&app.setup));
    app.preferences_output_device_selected(out_devices[1].clone());
    app.preferences_input_device_selected(in_devices[1].clone());
    let effect = app.save_preferences();
    assert!(app.preferences_dialog.is_none());
    assert_eq!(app.setup.output_device.as_ref().unwrap().id, "out2");
    assert_eq!(app.setup.input_device.as_ref().unwrap().id, "in2");
    assert_eq!(
        effect,
        Effect::SavePreferences(EditorPreferences {
            default_output_device_id: Some(String::from("out2")),
            default_input_device_id: Some(String::from("in2")),
        })
    );
}

#[test]
fn preferences_cancel_closes_dialog() {
    let mut app = EditApp::<f32, f32>::new(empty_setup(), true);
    app.preferences_dialog = Some(PreferencesDialog::from_setup(&StartupSetup::with_preferences(
        &EditorPreferences::default(),
        Vec::new(),
        Vec::new(),
        2,
    )));
    app.cancel_preferences();
    assert!(app.preferences_dialog.is_none());
}

#[test]
fn undo_then_redo_reapplies_the_edit() {
    let mut app = app_with_markers(Vec::new(), 4);
    let _ = app.dispatch_audio_edit(EditRequest::Reverse, total_gain);
    assert!(app.audio.as_ref().unwrap().edits.reversed);
    assert_eq!(app.status, Status::Edited(EditNote::Reversed));
    let _ = app.undo();
    assert!(!app.audio.as_ref().unwrap().edits.reversed);
    assert!(app.audio.as_ref().unwrap().edit_actions.is_empty());
    let _ = app.redo();
    assert_eq!(app.audio.as_ref().unwrap().edit_actions, vec![AudioEditAction::Reverse]);
    assert_eq!(app.status.text().as_deref(), Some("Redone."));
    let _ = app.redo();
    assert_eq!(app.status.text().as_deref(), Some("Nothing to redo."));
}

#[test]
fn volume_requests_accumulate_clip_gain() {
    let mut app = app_with_markers(Vec::new(), 100);
    let effect = app.dispatch_audio_edit(EditRequest::Gain(1.0), total_gain);
    assert_eq!(effect, Effect::RebuildPreview { prepare_track: false });
    let _ = app.dispatch_audio_edit(EditRequest::Gain(1.0), total_gain);
    assert_eq!(app.audio.as_ref().unwrap().edits.gain_db, 2.0);
    assert_eq!(app.status, Status::Edited(EditNote::PreviewGain));
}

#[test]
fn fades_use_the_default_length() {
    let mut app = app_with_markers(Vec::new(), 1_000);
    let _ = app.dispatch_audio_edit(EditRequest::FadeIn, total_gain);
    let _ = app.dispatch_audio_edit(EditRequest::FadeOut, total_gain);
    let audio = app.audio.as_ref().unwrap();
    assert_eq!(audio.edits.fade_in_samples, 240);
    assert_eq!(audio.edits.fade_out_samples, 240);
    assert_eq!(app.status.text().as_deref(), Some("Fade out applied to preview."));
}

#[test]
fn edits_without_document_or_frames_do_nothing() {
    let mut app = EditApp::<f32, f32>::new(empty_setup(), true);
    assert_eq!(app.dispatch_audio_edit(EditRequest::Reverse, total_gain), Effect::Idle);
    assert_eq!(app.status, Status::NoAudioOpen);
    let mut app = app_with_markers(Vec::new(), 10);
    let action = AudioEditAction::Delete { start_sample: 10, length_samples: 5 };
    assert_eq!(app.apply_audio_edit_action(action, total_gain), Effect::Idle);
    assert_eq!(app.status.text().as_deref(), Some("Selection is empty."));
}

#[test]
fn edits_prepare_the_engine_track_when_standalone() {
    let mut app = app_with_markers(Vec::new(), 10);
    app.engine_open = true;
    let effect = app.dispatch_audio_edit(EditRequest::Reverse, total_gain);
    assert_eq!(effect, Effect::RebuildPreview { prepare_track: true });
    assert!(app.preparing_playback);
    assert_eq!(app.status.text().as_deref(), Some("Preparing audio for playback..."));
    let effect = app.play();
    assert_eq!(effect, Effect::Idle);
    assert_eq!(app.status, Status::PlaybackNotReady);
}

#[test]
fn standalone_playback_goes_through_the_engine() {
    let mut app = app_with_markers(Vec::new(), 100);
    assert_eq!(app.play(), Effect::Idle);
    assert_eq!(app.status.text().as_deref(), Some("Open audio hardware before playback."));
    app.engine_open = true;
    app.playhead_samples = 100;
    assert_eq!(app.play(), Effect::StartEnginePlayback { start: 0 });
    assert!(app.playing);
    assert_eq!(app.toggle_playback(), Effect::StopEnginePlayback);
    assert!(!app.playing);
    assert_eq!(app.status.text().as_deref(), Some("Stopped."));
}

#[test]
fn playback_ticks_advance_and_stop_at_the_end() {
    let mut app = app_with_markers(Vec::new(), 4_000);
    app.standalone_ready = false;
    let _ = app.play();
    assert_eq!(app.playback_tick(), Effect::Idle);
    assert_eq!(app.playhead_samples, 1_920);
    let _ = app.playback_tick();
    assert_eq!(app.playhead_samples, 3_840);
    let _ = app.playback_tick();
    assert_eq!(app.playhead_samples, 4_000);
    assert!(!app.playing);
}

#[test]
fn transport_moves_and_embedded_positions() {
    let mut app = app_with_markers(Vec::new(), 50);
    app.go_to_end();
    assert_eq!(app.playhead_samples, 50);
    app.rewind_to_start();
    assert_eq!(app.playhead_samples, 0);
    app.set_embedded_transport(true, 80);
    assert!(app.playing);
    assert_eq!(app.playhead_samples, 50);
}

#[test]
fn zero_crossing_jump_moves_playhead() {
    let mut app = app_with_markers(Vec::new(), 3);
    let signs = [FrameSign::Positive, FrameSign::Positive, FrameSign::Negative];
    app.jump_to_next_zero_crossing(&signs);
    assert_eq!(app.playhead_samples, 2);
    assert_eq!(app.status.text().as_deref(), Some("Jumped to zero crossing at frame 2."));
    app.jump_to_next_zero_crossing(&signs);
    assert_eq!(app.status.text().as_deref(), Some("No zero crossing found after playhead."));
}

#[test]
fn drag_selection_orders_its_ends() {
    let mut app = app_with_markers(Vec::new(), 100);
    app.selection_start(60);
    app.selection_drag(20);
    assert_eq!(app.selection_samples, Some((20, 60)));
    app.selection_finish(30);
    assert_eq!(app.selection_samples, Some((30, 60)));
    assert_eq!(app.selection_anchor_samples, None);
    app.selection_start(10);
    app.selection_finish(10);
    assert_eq!(app.selection_samples, None);
}

#[test]
fn markers_are_added_and_deleted() {
    let mut app = app_with_markers(Vec::new(), 100);
    assert_eq!(app.open_marker_dialog(30), Effect::FocusMarkerName);
    app.marker_name_input(String::from("  Verse  "));
    app.confirm_marker_name();
    assert!(app.marker_dialog.is_none());
    assert_eq!(app.audio.as_ref().unwrap().markers, vec![(30, "Verse".to_string())]);
    assert_eq!(app.status.text().as_deref(), Some("Marker added at sample 30."));
    app.delete_marker(30);
    assert!(app.audio.as_ref().unwrap().markers.is_empty());
    assert_eq!(app.status.text().as_deref(), Some("Marker at sample 30 deleted."));
    app.delete_marker(30);
    assert_eq!(app.status.text().as_deref(), Some("No marker at that position."));
}

#[test]
fn blank_marker_names_are_ignored() {
    let mut app = app_with_markers(Vec::new(), 100);
    let _ = app.open_marker_dialog(30);
    app.marker_name_input(String::from("   "));
    app.confirm_marker_name();
    assert!(app.marker_dialog.is_none());
    assert!(app.audio.as_ref().unwrap().markers.is_empty());
}

#[test]
fn detect_markers_checks_silence_count() {
    let mut app = app_with_markers(Vec::new(), 10);
    app.detect_markers_dialog =
        Some(DetectMarkersDialog { threshold_db: String::from("-60"), silence_samples: String::from(" 0 ") });
    confirm_detect(&mut app);
    assert_eq!(app.status.text().as_deref(), Some("Silence sample count must be greater than zero."));
    app.detect_markers_dialog =
        Some(DetectMarkersDialog { threshold_db: String::from("-60"), silence_samples: String::from("many") });
    confirm_detect(&mut app);
    assert_eq!(app.status, Status::InvalidSilenceCount);
}

#[test]
fn export_needs_directory_and_markers() {
    let mut app = app_with_markers(Vec::new(), 100);
    assert_eq!(app.open_export_markers_dialog(), Effect::Idle);
    assert_eq!(app.open_export_markers_dialog(), Effect::ChooseExportDirectory);
    assert_eq!(app.confirm_export_markers(), Effect::Idle);
    assert_eq!(app.status.text().as_deref(), Some("Choose an export directory."));
    let _ = app.open_export_markers_dialog();
    app.export_directory_selected(Some(PathBuf::from("/tmp/out")));
    assert_eq!(app.confirm_export_markers(), Effect::Idle);
    assert_eq!(app.status, Status::NoMarkersToExport);
    app.audio.as_mut().unwrap().markers = vec![(50, "A".to_string())];
    let _ = app.open_export_markers_dialog();
    app.export_directory_selected(Some(PathBuf::from("/tmp/out")));
    app.export_sample_rate_selected(maolan_editor::dialogs::ExportSampleRate::Hz44100);
    let effect = app.confirm_export_markers();
    assert_eq!(
        effect,
        Effect::ExportMarkers {
            directory: PathBuf::from("/tmp/out"),
            format: maolan_editor::dialogs::ExportFormat::Wav,
            bit_depth: maolan_editor::dialogs::ExportBitDepth::Bits24,
            sample_rate: 44_100,
        }
    );
    assert!(app.busy);
    app.export_finished(Ok(2));
    assert_eq!(app.status.text().as_deref(), Some("Exported 2 marker range(s)."));
}

#[test]
fn saving_and_closing() {
    let mut app = app_with_markers(Vec::new(), 10);
    assert_eq!(app.save(), Effect::AskSavePath { start: SaveStart::SourcePath });
    assert_eq!(app.save_path_chosen(None), Effect::Idle);
    assert_eq!(app.status.text().as_deref(), Some("Save cancelled."));
    let _ = app.dispatch_audio_edit(EditRequest::Reverse, total_gain);
    assert_eq!(app.close_requested(), Effect::ConfirmClose);
    assert_eq!(app.close_choice(CloseChoice::Save), Effect::AskSavePath { start: SaveStart::SourcePath });
    assert!(app.close_pending);
    let chosen = PathBuf::from("out.wav");
    assert_eq!(
        app.save_path_chosen(Some(chosen.clone())),
        Effect::SaveDocument { target: SaveTarget::Chosen(chosen.clone()) }
    );
    assert_eq!(app.document_saved(Ok(chosen.clone())), Effect::CloseWindow);
    assert!(!app.history.is_dirty());
    assert_eq!(app.audio.as_ref().unwrap().save_path, Some(chosen));
    assert_eq!(app.save(), Effect::SaveDocument { target: SaveTarget::SavePath });
    assert_eq!(app.close_requested(), Effect::CloseWindow);
}

#[test]
fn close_keeps_setup_and_engine() {
    let mut app = app_with_markers(vec![(1, "A".to_string())], 10);
    app.engine_open = true;
    app.plugin_scan_finished(PluginFormat::Vst3, true);
    app.close();
    assert!(app.audio.is_none());
    assert!(app.engine_open && app.standalone_ready);
    assert!(!app.plugins.vst3_loaded);
    assert_eq!(app.status.text().as_deref(), Some("Open an audio file to view its waveform."));
}

#[test]
fn startup_flow() {
    let mut app = EditApp::<f32, f32>::new(empty_setup(), true);
    assert_eq!(app.status.text().as_deref(), Some("Choose audio hardware and open the engine."));
    assert_eq!(app.start_engine(), Effect::OpenEngine);
    app.engine_opened(Err(String::from("no device")));
    assert_eq!(app.status, Status::Text(String::from("no device")));
    assert!(!app.busy);
    app.engine_opened(Ok(()));
    assert!(app.standalone_ready && app.engine_open);
    assert!(!app.plugins_loaded());
    app.plugin_scan_finished(PluginFormat::Vst3, true);
    app.plugin_scan_finished(PluginFormat::Clap, false);
    app.plugin_scan_finished(PluginFormat::Lv2, true);
    assert!(app.plugins_loaded());
}

#[test]
fn backend_switch_rediscovers_devices() {
    let mut app = EditApp::<f32, f32>::new(empty_setup(), true);
    let out = AudioDeviceOption::with_supported_direction_caps("hw:0,0", "Card", vec![16], vec![44_100], false, true);
    app.select_backend(AudioEngineOption::Alsa, vec![out.clone()], vec![out.clone()]);
    assert_eq!(app.setup.output_device.as_ref().unwrap().id, "hw:0,0");
    assert!(app.setup.input_device.is_none());
    assert_eq!(app.setup.sample_rate_hz, 44_100);
    assert_eq!(app.setup.bits, 16);
    app.select_backend(AudioEngineOption::Jack, Vec::new(), Vec::new());
    assert_eq!(app.setup.output_device.as_ref().unwrap().id, "jack");
    app.select_bits(24);
    assert_eq!(app.setup.bits, 24);
}

#[test]
fn loaded_document_starts_fresh() {
    let mut app = app_with_markers(Vec::new(), 10);
    app.playhead_samples = 5;
    app.selection_samples = Some((1, 2));
    let _ = app.dispatch_audio_edit(EditRequest::Reverse, total_gain);
    let prepare = app.document_loaded(test_document(vec![0.5f32; 20], 2));
    assert!(!prepare);
    assert_eq!(app.playhead_samples, 0);
    assert!(app.selection_samples.is_none());
    assert!(!app.history.is_dirty());
    assert_eq!(app.status, Status::DocumentInfo);
    assert_eq!(app.audio.as_ref().unwrap().frames(), 10);
}

#[test]
fn playhead_label_counts_minutes_seconds_and_millis() {
    let mut app = app_with_markers(Vec::new(), 10);
    app.playhead_samples = 48_000 * 61 + 24_000;
    assert_eq!(playhead_label(&app), "01:01.500");
    app.playhead_samples = 0;
    assert_eq!(playhead_label(&app), "00:00.000");
    let empty = EditApp::<f32, f32>::new(empty_setup(), true);
    assert_eq!(playhead_label(&empty), "00:00.000");
}

#[test]
fn document_status_lists_clip_and_format() {
    let mut audio = test_document(vec![0.0f32; 8], 2);
    assert_eq!(document_status(&audio, "a.wav"), "a.wav - 2 ch, 48000 Hz, 4 frames");
    audio.clip_region = Some(maolan_editor::edits::AudioRegion { offset: 10, length: 4 });
    assert_eq!(document_status(&audio, "a.wav"), "a.wav - clip 10..14 samples, 2 ch, 48000 Hz, 4 frames");
}

#[test]
fn title_shows_file_and_unsaved_mark() {
    let mut app = app_with_markers(Vec::new(), 10);
    app.audio.as_mut().unwrap().source_path = PathBuf::from("/music/take.wav");
    assert_eq!(title(&app), "Maolan Editor - take.wav");
    let _ = app.dispatch_audio_edit(EditRequest::Reverse, total_gain);
    assert_eq!(title(&app), "Maolan Editor - take.wav *");
    let empty = EditApp::<f32, f32>::new(empty_setup(), true);
    assert_eq!(title(&empty), "Maolan Editor");
}

#[test]
fn host_reads_preview_transport_and_edits() {
    let empty = EditApp::<f32, f32>::new(empty_setup(), true);
    assert!(host_preview(&empty).is_none());
    assert!(rendered_audio(&empty).is_none());
    assert!(current_audio_edits(&empty, total_gain).is_none());
    assert!(current_audio_edit_actions(&empty).is_none());

    let mut app = app_with_markers(Vec::new(), 4);
    app.audio.as_mut().unwrap().preview_samples = vec![0.5, -0.5, 0.25, 0.0];
    app.set_embedded_transport(true, 3);
    assert!(is_playing(&app));
    let preview = host_preview(&app).unwrap();
    assert_eq!(*preview.samples, vec![0.5, -0.5, 0.25, 0.0]);
    assert_eq!(preview.channels, 1);
    assert_eq!(preview.start_sample, 3);
    let rendered = rendered_audio(&app).unwrap();
    assert_eq!(*rendered.samples, vec![0.5, -0.5, 0.25, 0.0]);
    assert_eq!(rendered.sample_rate, 48_000);

    let _ = app.dispatch_audio_edit(EditRequest::Reverse, total_gain);
    assert_eq!(current_audio_edit_actions(&app), Some(vec![AudioEditAction::Reverse]));
    let edits = current_audio_edits(&app, total_gain).unwrap();
    assert!(edits.reversed);
    assert_eq!(edits.fade_in_samples, 0);
    assert_eq!(edits.gain_db, 0.0);
}
