use maolan_editor::edits::{AudioEditAction, SampleEdit};
use std::path::PathBuf;

use maolan_editor::document::{
    clip_samples, deinterleave, delete_sample_range, from_decoded, next_zero_crossing_frame, restore_document,
    AudioDocument, DocumentSnapshot, FrameSign,
};
use maolan_editor::edits::{AudioEdits, AudioRegion};

fn test_document(preview: Vec<f32>, channels: usize) -> AudioDocument<f32, f32> {
    let channel_samples = deinterleave(&preview, channels);
    AudioDocument {
        source_path: PathBuf::new(),
        save_path: None,
        samples: preview.clone(),
        preview_samples: preview,
        channels,
        sample_rate: 48_000,
        channel_samples,
        peak: 1.0,
        clip_region: None,
        edits: AudioEdits::default(),
        edit_actions: Vec::new(),
        markers: Vec::new(),
    }
}

/// The sign of each preview frame's channel average, as the editor takes it
/// before looking for zero crossings.
fn frame_signs(audio: &AudioDocument<f32, f32>) -> Vec<FrameSign> {
    let channels = audio.channels.max(1);
    audio
        .preview_samples
        .chunks_exact(channels)
        .map(|frame| {
            let mean = frame.iter().sum::<f32>() / channels as f32;
            if mean > 0.0 {
                FrameSign::Positive
            } else if mean < 0.0 {
                FrameSign::Negative
            } else if mean == 0.0 {
                FrameSign::Zero
            } else {
                FrameSign::Unordered
            }
        })
        .collect()
}

fn crossing(audio: &AudioDocument<f32, f32>, start: usize) -> Option<usize> {
    next_zero_crossing_frame(&frame_signs(audio), start)
}

#[test]
fn deinterleave_splits_channels() {
    assert_eq!(deinterleave(&[1.0, 2.0, 3.0, 4.0], 2), vec![vec![1.0, 3.0], vec![2.0, 4.0]]);
}

#[test]
fn clip_samples_extracts_frame_range() {
    let samples = [1.0, 10.0, 2.0, 20.0, 3.0, 30.0, 4.0, 40.0];
    assert_eq!(
        clip_samples(&samples, 2, Some(AudioRegion { offset: 1, length: 2 })),
        vec![2.0, 20.0, 3.0, 30.0]
    );
}

#[test]
fn next_zero_crossing_finds_positive_to_negative_crossing() {
    let audio = test_document(vec![1.0f32, -1.0], 1);
    assert_eq!(crossing(&audio, 0), Some(1));
}

#[test]
fn next_zero_crossing_finds_negative_to_positive_crossing() {
    let audio = test_document(vec![-1.0f32, -0.5, 0.5, 1.0], 1);
    assert_eq!(crossing(&audio, 0), Some(2));
}

#[test]
fn next_zero_crossing_detects_exact_zero_sample() {
    let audio = test_document(vec![1.0f32, 0.0, -1.0], 1);
    assert_eq!(crossing(&audio, 0), Some(1));
}

#[test]
fn next_zero_crossing_returns_none_when_no_crossing() {
    let audio = test_document(vec![0.1f32, 0.2, 0.3], 1);
    assert_eq!(crossing(&audio, 0), None);
}

#[test]
fn next_zero_crossing_respects_start_frame() {
    let audio = test_document(vec![1.0f32, -1.0, 1.0, -1.0], 1);
    assert_eq!(crossing(&audio, 1), Some(2));
}

#[test]
fn next_zero_crossing_returns_none_past_end() {
    let audio = test_document(vec![1.0f32, -1.0], 1);
    assert_eq!(crossing(&audio, 1), None);
}

#[test]
fn next_zero_crossing_averages_multiple_channels() {
    let audio = test_document(vec![1.0f32, 1.0, 1.0, -1.0], 2);
    assert_eq!(crossing(&audio, 0), Some(1));
}

#[test]
fn next_zero_crossing_ignores_unordered_frames() {
    let signs = [FrameSign::Positive, FrameSign::Unordered, FrameSign::Negative];
    assert_eq!(next_zero_crossing_frame(&signs, 0), None);
    let signs = [FrameSign::Zero, FrameSign::Negative, FrameSign::Zero];
    assert_eq!(next_zero_crossing_frame(&signs, 0), Some(2));
}

#[test]
fn clip_samples_without_region_keeps_everything() {
    let samples = [1.0f32, 2.0, 3.0];
    assert_eq!(clip_samples(&samples, 2, None), vec![1.0, 2.0, 3.0]);
    assert_eq!(clip_samples(&samples, 1, Some(AudioRegion { offset: 2, length: 5 })), vec![3.0]);
    assert!(clip_samples(&samples, 1, Some(AudioRegion { offset: 5, length: 5 })).is_empty());
}

#[test]
fn deinterleave_drops_partial_frame() {
    assert_eq!(deinterleave(&[1.0f32, 2.0, 3.0], 2), vec![vec![1.0], vec![2.0]]);
    assert_eq!(deinterleave(&[1.0f32, 2.0], 0), vec![vec![1.0, 2.0]]);
}

#[test]
fn delete_sample_range_removes_frames_and_shifts_markers() {
    let mut audio = test_document((0..10).map(|i| i as f32).collect(), 1);
    audio.markers = vec![(1, "A".to_string()), (4, "X".to_string()), (8, "B".to_string())];
    audio.clip_region = Some(AudioRegion { offset: 2, length: 6 });
    delete_sample_range(&mut audio, 3, 3);
    assert_eq!(audio.samples, vec![0.0, 1.0, 2.0, 6.0, 7.0, 8.0, 9.0]);
    assert_eq!(audio.markers, vec![(1, "A".to_string()), (5, "B".to_string())]);
    assert_eq!(audio.clip_region, Some(AudioRegion { offset: 2, length: 3 }));
    assert_eq!(audio.frames(), 7);
}

#[test]
fn delete_sample_range_before_region_moves_it() {
    let mut audio = test_document((0..10).map(|i| i as f32).collect(), 1);
    audio.clip_region = Some(AudioRegion { offset: 6, length: 2 });
    delete_sample_range(&mut audio, 0, 2);
    assert_eq!(audio.clip_region, Some(AudioRegion { offset: 4, length: 2 }));
    delete_sample_range(&mut audio, 3, 10);
    assert_eq!(audio.clip_region, None);
    assert_eq!(audio.frames(), 3);
}

#[test]
fn delete_sample_range_outside_document_changes_nothing() {
    let mut audio = test_document(vec![1.0f32, 2.0], 1);
    delete_sample_range(&mut audio, 5, 2);
    assert_eq!(audio.samples, vec![1.0, 2.0]);
}

#[test]
fn restore_document_puts_snapshot_back() {
    let mut audio = test_document(vec![1.0f32, 2.0], 1);
    restore_document(
        &mut audio,
        DocumentSnapshot {
            samples: vec![5.0],
            edits: AudioEdits { fade_in_samples: 1, fade_out_samples: 0, gain_db: 0.0, reversed: true },
            edit_actions: Vec::new(),
            markers: vec![(0, "m".to_string())],
        },
    );
    assert_eq!(audio.samples, vec![5.0]);
    assert!(audio.edits.reversed);
    assert_eq!(audio.markers, vec![(0, "m".to_string())]);
    assert_eq!(audio.preview_samples, vec![1.0, 2.0]);
}

#[test]
fn from_decoded_builds_unedited_clip() {
    let samples = [1.0f32, -2.0, 3.0, -4.0, 5.0, -6.0];
    let audio = from_decoded(
        PathBuf::from("a.wav"),
        None,
        &samples,
        2,
        44_100,
        Some(AudioRegion { offset: 1, length: 1 }),
        0.0f32,
        |preview: &Vec<f32>| preview.iter().fold(0.0f32, |p, s| p.max(s.abs())),
    );
    assert_eq!(audio.samples, vec![3.0, -4.0]);
    assert_eq!(audio.preview_samples, vec![3.0, -4.0]);
    assert_eq!(audio.channel_samples, vec![vec![3.0], vec![-4.0]]);
    assert_eq!(audio.peak, 4.0);
    assert_eq!(audio.frames(), 1);
    assert!(audio.edit_actions.is_empty());
}

#[test]
fn from_interleaved_names_embedded_audio() {
    let audio = AudioDocument::<f32, f32>::from_interleaved(
        String::new(),
        &[0.5, 0.25],
        0,
        0,
        None,
        0.0,
        |preview: &Vec<f32>| preview.iter().fold(0.0f32, |p, s| p.max(s.abs())),
    );
    assert_eq!(audio.source_path, PathBuf::from("embedded audio"));
    assert_eq!(audio.channels, 1);
    assert_eq!(audio.sample_rate, 1);
    assert_eq!(audio.frames(), 2);
    assert_eq!(audio.peak, 0.5);
}

#[test]
fn snapshot_copies_document_state() {
    let mut audio = test_document(vec![1.0f32, 2.0], 1);
    audio.markers = vec![(1, "x".to_string())];
    let snapshot = audio.snapshot();
    assert_eq!(snapshot.samples, vec![1.0, 2.0]);
    assert_eq!(snapshot.markers, vec![(1, "x".to_string())]);
}

#[test]
fn rebuild_preview_applies_the_edit_list() {
    let shape = |edit: SampleEdit<f32>, x: f32| match edit {
        SampleEdit::Gain(db) => (x * 10.0f32.powf(db / 20.0)).clamp(-1.0, 1.0),
        _ => x,
    };
    let mut audio = test_document(vec![0.5f32, -0.5, 0.25, -0.25], 2);
    audio.edit_actions = vec![AudioEditAction::Reverse, AudioEditAction::GainDb { start_sample: 0, length_samples: 2, delta_db: 0.0 }];
    audio.rebuild_preview(
        0.0,
        &shape,
        |deltas: Vec<f32>| deltas.iter().sum(),
        |p: &Vec<f32>| p.iter().fold(0.0f32, |m, s| m.max(s.abs())),
    );
    assert_eq!(audio.preview_samples, vec![0.25, -0.25, 0.5, -0.5]);
    assert_eq!(audio.channel_samples, vec![vec![0.25, 0.5], vec![-0.25, -0.5]]);
    assert_eq!(audio.peak, 0.5);
    assert!(audio.edits.reversed);
    assert_eq!(audio.samples, vec![0.5, -0.5, 0.25, -0.25]);
}
