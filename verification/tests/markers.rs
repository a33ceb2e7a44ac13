use std::path::PathBuf;

use maolan_editor::document::AudioDocument;
use maolan_editor::edits::AudioEdits;
use maolan_editor::markers::{
    add_markers, detect_markers_from_silence, marker_range_samples, marker_ranges, marker_region_around,
    nearest_marker_sample_to, remove_markers_at,
};

fn test_document(preview: Vec<f32>, channels: usize) -> AudioDocument<f32, f32> {
    let channel_samples = maolan_editor::document::deinterleave(&preview, channels);
    AudioDocument {
        source_path: PathBuf::new(),
        save_path: None,
        samples: preview.clone(),
        preview_samples: preview,
        channels,
        sample_rate: 48_000,
        channel_samples,
        peak: 1.0,
        clip_region: None,
        edits: AudioEdits::default(),
        edit_actions: Vec::new(),
        markers: Vec::new(),
    }
}

/// Frames whose mean absolute amplitude is below the threshold, as the
/// editor measures them before detecting markers.
fn silent_frames(samples: &[f32], channels: usize, threshold_db: f32) -> Vec<bool> {
    let channels = channels.max(1);
    let threshold = 10.0f32.powf(threshold_db / 20.0);
    samples
        .chunks_exact(channels)
        .map(|frame| frame.iter().map(|s| s.abs()).sum::<f32>() / (channels as f32) < threshold)
        .collect()
}

fn named(markers: &[(usize, &str)]) -> Vec<(usize, String)> {
    markers.iter().map(|(s, n)| (*s, n.to_string())).collect()
}

#[test]
fn marker_ranges_split_at_sorted_markers() {
    let markers = vec![(50, "A".to_string()), (20, "B".to_string())];
    assert_eq!(marker_ranges(&markers, 100), vec![(0, 20), (20, 50), (50, 100)]);
}

#[test]
fn marker_ranges_ignores_out_of_bounds_markers() {
    let markers = vec![(150, "A".to_string())];
    assert_eq!(marker_ranges(&markers, 100), vec![(0, 100)]);
}

#[test]
fn marker_range_samples_extracts_interleaved_range() {
    let audio = test_document(vec![1.0f32, 2.0, 3.0, 4.0, 5.0, 6.0], 2);
    assert_eq!(marker_range_samples(&audio, 0, 2), vec![1.0, 2.0, 3.0, 4.0]);
}

#[test]
fn detect_markers_places_boundaries_around_sound_regions() {
    let mut samples = vec![0.0f32; 10];
    samples.extend(vec![0.8f32; 10]);
    samples.extend(vec![0.0f32; 10]);
    samples.extend(vec![0.8f32; 10]);
    samples.extend(vec![0.0f32; 10]);
    let markers = detect_markers_from_silence(&silent_frames(&samples, 1, -60.0), 5);
    assert_eq!(
        markers,
        vec![
            (10, "Region 1".to_string()),
            (20, "Region 2".to_string()),
            (30, "Region 3".to_string()),
            (40, "Region 4".to_string()),
        ]
    );
}

#[test]
fn detect_markers_ignores_short_silence() {
    let mut samples = vec![0.0f32; 10];
    samples.extend(vec![0.8f32; 5]);
    samples.extend(vec![0.0f32; 2]);
    samples.extend(vec![0.8f32; 8]);
    samples.extend(vec![0.0f32; 10]);
    let markers = detect_markers_from_silence(&silent_frames(&samples, 1, -60.0), 5);
    assert_eq!(markers, vec![(10, "Region 1".to_string()), (25, "Region 2".to_string())]);
}

#[test]
fn detect_markers_all_silence_returns_empty() {
    let samples = vec![0.0f32; 100];
    let markers = detect_markers_from_silence(&silent_frames(&samples, 1, -60.0), 5);
    assert!(markers.is_empty());
}

#[test]
fn detect_markers_all_sound_returns_single_region() {
    let samples = vec![0.8f32; 100];
    let markers = detect_markers_from_silence(&silent_frames(&samples, 1, -60.0), 5);
    assert_eq!(markers, vec![(0, "Region 1".to_string()), (100, "Region 2".to_string())]);
}

#[test]
fn detect_markers_without_frames_is_empty() {
    assert!(detect_markers_from_silence(&[], 5).is_empty());
}

#[test]
fn detect_markers_sound_at_start_has_no_leading_silence_marker() {
    let silent = [false, false, false, true, true, true];
    assert_eq!(
        detect_markers_from_silence(&silent, 2),
        vec![(0, "Region 1".to_string()), (3, "Region 2".to_string())]
    );
}

#[test]
fn marker_ranges_without_markers_cover_the_clip() {
    assert_eq!(marker_ranges(&[], 10), vec![(0, 10)]);
    assert!(marker_ranges(&[], 0).is_empty());
}

#[test]
fn marker_ranges_merge_duplicates_and_skip_zero() {
    let markers = named(&[(0, "start"), (5, "a"), (5, "b"), (10, "end")]);
    assert_eq!(marker_ranges(&markers, 10), vec![(0, 5), (5, 10)]);
}

#[test]
fn marker_range_samples_clamps_to_document() {
    let audio = test_document(vec![1.0f32, 2.0, 3.0], 1);
    assert_eq!(marker_range_samples(&audio, 1, 10), vec![2.0, 3.0]);
    assert!(marker_range_samples(&audio, 2, 1).is_empty());
}

#[test]
fn nearest_marker_prefers_first_of_equally_close() {
    let markers = named(&[(10, "a"), (30, "b"), (20, "c")]);
    assert_eq!(nearest_marker_sample_to(&markers, 25), Some(30));
    assert_eq!(nearest_marker_sample_to(&markers, 15), Some(10));
    assert_eq!(nearest_marker_sample_to(&[], 15), None);
}

#[test]
fn marker_region_around_picks_neighbours() {
    let markers = named(&[(60, "b"), (20, "a")]);
    assert_eq!(marker_region_around(&markers, 100, 40), (20, 60));
    assert_eq!(marker_region_around(&markers, 100, 10), (0, 20));
    assert_eq!(marker_region_around(&markers, 100, 75), (60, 100));
}

#[test]
fn remove_markers_at_drops_every_marker_there() {
    let mut markers = named(&[(5, "a"), (7, "b"), (5, "c")]);
    assert!(remove_markers_at(&mut markers, 5));
    assert_eq!(markers, named(&[(7, "b")]));
    assert!(!remove_markers_at(&mut markers, 5));
}

#[test]
fn add_markers_sorts_and_drops_repeats() {
    let mut markers = named(&[(30, "c"), (10, "a")]);
    add_markers(&mut markers, named(&[(20, "b"), (10, "a"), (10, "z")]));
    assert_eq!(markers, named(&[(10, "a"), (10, "z"), (20, "b"), (30, "c")]));
}
