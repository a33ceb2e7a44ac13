use maolan_editor::edits::{apply_audio_edit_action_to_samples, apply_audio_edit_actions, SampleEdit};
use maolan_editor::edits::{
    apply_region, audio_edit_status, clip_gain_deltas, default_fade_samples, delete_frames, edit_frame_range,
    region_action, reverse_samples, silence_frames, summarize_audio_edit_actions, summarize_edit_envelope,
    AudioEditAction, AudioEditKind, AudioRegion, EditNote,
};

#[derive(Clone, Copy)]
enum EditOperation {
    FadeIn,
    FadeOut,
    IncreaseVolume,
    DecreaseVolume,
}

/// The frame-wise edits of the editor's tests: the covered frames come from
/// `edit_frame_range`, and `apply_region` rewrites their samples.
fn apply_edit_to_samples(samples: &mut Vec<f32>, channels: usize, region: AudioRegion, operation: EditOperation) {
    let (start, end) = edit_frame_range(samples.len(), channels, region.offset, region.length);
    if start >= end {
        return;
    }
    let fade_len = (end - start) as f32;
    match operation {
        EditOperation::FadeIn => {
            apply_region(samples, channels, region.offset, region.length, |pos, s| s * (pos as f32 / fade_len))
        }
        EditOperation::FadeOut => apply_region(samples, channels, region.offset, region.length, |pos, s| {
            s * ((end - start - 1 - pos) as f32 / fade_len)
        }),
        EditOperation::IncreaseVolume => {
            let gain = 10.0f32.powf(1.0 / 20.0);
            apply_region(samples, channels, region.offset, region.length, |_, s| (s * gain).clamp(-1.0, 1.0))
        }
        EditOperation::DecreaseVolume => {
            let gain = 10.0f32.powf(-1.0 / 20.0);
            apply_region(samples, channels, region.offset, region.length, |_, s| (s * gain).clamp(-1.0, 1.0))
        }
    }
}

#[test]
fn apply_edit_to_samples_fades_in_region() {
    let mut samples = vec![1.0f32; 8];
    apply_edit_to_samples(&mut samples, 1, AudioRegion { offset: 2, length: 4 }, EditOperation::FadeIn);
    assert_eq!(samples, vec![1.0, 1.0, 0.0, 0.25, 0.5, 0.75, 1.0, 1.0]);
}

#[test]
fn apply_edit_to_samples_fades_out_region() {
    let mut samples = vec![1.0f32; 8];
    apply_edit_to_samples(&mut samples, 1, AudioRegion { offset: 2, length: 4 }, EditOperation::FadeOut);
    assert_eq!(samples, vec![1.0, 1.0, 0.75, 0.5, 0.25, 0.0, 1.0, 1.0]);
}

#[test]
fn apply_edit_to_samples_adjusts_volume_in_region() {
    let mut samples = vec![0.5f32; 8];
    apply_edit_to_samples(&mut samples, 1, AudioRegion { offset: 2, length: 4 }, EditOperation::IncreaseVolume);
    let expected_gain = 10.0f32.powf(1.0 / 20.0);
    for (index, sample) in samples.iter().enumerate() {
        let expected = if (2..6).contains(&index) { 0.5 * expected_gain } else { 0.5 };
        assert!((sample - expected).abs() < 1.0e-5, "index {index}");
    }
}

#[test]
fn apply_edit_to_samples_decreases_volume_in_region() {
    let mut samples = vec![1.0f32; 8];
    apply_edit_to_samples(&mut samples, 1, AudioRegion { offset: 2, length: 4 }, EditOperation::DecreaseVolume);
    let expected_gain = 10.0f32.powf(-1.0 / 20.0);
    for (index, sample) in samples.iter().enumerate() {
        let expected = if (2..6).contains(&index) { expected_gain } else { 1.0 };
        assert!((sample - expected).abs() < 1.0e-5, "index {index}");
    }
}

#[test]
fn apply_edit_to_samples_clamps_region_to_bounds() {
    let mut samples = vec![1.0f32; 4];
    apply_edit_to_samples(&mut samples, 1, AudioRegion { offset: 2, length: 100 }, EditOperation::FadeIn);
    assert_eq!(samples, vec![1.0, 1.0, 0.0, 0.5]);
}

#[test]
fn default_fade_is_a_twentieth_within_limits() {
    assert_eq!(default_fade_samples(100_000), 5_000);
    assert_eq!(default_fade_samples(1_000), 240);
    assert_eq!(default_fade_samples(100), 50);
    assert_eq!(default_fade_samples(10_000_000), 48_000);
    assert_eq!(default_fade_samples(0), 0);
}

#[test]
fn region_actions_cover_the_clip_ends() {
    assert_eq!(
        region_action::<f32>(AudioEditKind::FadeIn, 1_000),
        AudioEditAction::FadeIn { start_sample: 0, length_samples: 240 }
    );
    assert_eq!(
        region_action::<f32>(AudioEditKind::FadeOut, 1_000),
        AudioEditAction::FadeOut { start_sample: 760, length_samples: 240 }
    );
    assert_eq!(
        region_action(AudioEditKind::GainDb { delta_db: 1.0f32 }, 1_000),
        AudioEditAction::GainDb { start_sample: 0, length_samples: 1_000, delta_db: 1.0 }
    );
}

#[test]
fn empty_actions_touch_no_frame() {
    assert!(AudioEditAction::<f32>::Delete { start_sample: 10, length_samples: 1 }.is_empty_for_frames(10));
    assert!(AudioEditAction::<f32>::FadeIn { start_sample: 0, length_samples: 0 }.is_empty_for_frames(10));
    assert!(!AudioEditAction::<f32>::Reverse.is_empty_for_frames(0));
    assert!(!AudioEditAction::<f32>::ReplaceWithSilence { start_sample: 9, length_samples: 5 }.is_empty_for_frames(10));
}

#[test]
fn summary_keeps_longest_fades_and_reversal() {
    let actions = vec![
        AudioEditAction::FadeIn { start_sample: 0, length_samples: 100 },
        AudioEditAction::FadeIn { start_sample: 0, length_samples: 50 },
        AudioEditAction::FadeIn { start_sample: 5, length_samples: 500 },
        AudioEditAction::FadeOut { start_sample: 900, length_samples: 200 },
        AudioEditAction::FadeOut { start_sample: 100, length_samples: 20 },
        AudioEditAction::Reverse,
        AudioEditAction::Reverse,
        AudioEditAction::Reverse,
        AudioEditAction::GainDb { start_sample: 0, length_samples: 1_000, delta_db: 2.0f32 },
        AudioEditAction::GainDb { start_sample: 0, length_samples: 10, delta_db: 5.0 },
        AudioEditAction::GainDb { start_sample: 0, length_samples: 2_000, delta_db: -0.5 },
    ];
    let env = summarize_edit_envelope(1_000, &actions);
    assert_eq!(env.fade_in_samples, 100);
    assert_eq!(env.fade_out_samples, 200);
    assert!(env.reversed);
    assert_eq!(clip_gain_deltas(1_000, &actions), vec![2.0, -0.5]);
    let edits = summarize_audio_edit_actions(1_000, &actions, |deltas: Vec<f32>| {
        deltas.iter().fold(0.0f32, |g, d| (g + d).clamp(-48.0, 24.0))
    });
    assert_eq!(edits.fade_in_samples, 100);
    assert_eq!(edits.fade_out_samples, 200);
    assert!(edits.reversed);
    assert_eq!(edits.gain_db, 1.5);
}

#[test]
fn edit_status_tells_preview_from_selection() {
    let fade_in = AudioEditAction::<f32>::FadeIn { start_sample: 0, length_samples: 10 };
    assert_eq!(audio_edit_status(&fade_in, false, 100), EditNote::FadeInPreview);
    let fade_out = AudioEditAction::<f32>::FadeOut { start_sample: 10, length_samples: 10 };
    assert_eq!(audio_edit_status(&fade_out, false, 100), EditNote::FadeOutSelection);
    assert_eq!(audio_edit_status(&AudioEditAction::<f32>::Reverse, true, 100), EditNote::Reversed);
    assert_eq!(audio_edit_status(&AudioEditAction::<f32>::Reverse, false, 100), EditNote::Forward);
    let gain = AudioEditAction::GainDb { start_sample: 0, length_samples: 0, delta_db: 1.0f32 };
    assert_eq!(audio_edit_status(&gain, false, 100), EditNote::VolumeOnSelection);
}

#[test]
fn frame_operations_on_interleaved_audio() {
    let samples = vec![1, 10, 2, 20, 3, 30];
    assert_eq!(reverse_samples(&samples, 2), vec![3, 30, 2, 20, 1, 10]);
    let mut cut = samples.clone();
    delete_frames(&mut cut, 2, 1, 5);
    assert_eq!(cut, vec![1, 10]);
    let mut quiet = samples.clone();
    silence_frames(&mut quiet, 2, 1, 1, 0);
    assert_eq!(quiet, vec![1, 10, 0, 0, 3, 30]);
    assert_eq!(edit_frame_range(6, 2, 2, 10), (2, 3));
}

fn shape(edit: maolan_editor::edits::SampleEdit<f32>, x: f32) -> f32 {
    match edit {
        SampleEdit::FadeIn { position, length } => x * (position as f32 / length.max(1) as f32),
        SampleEdit::FadeOut { position, length } => {
            x * (length.saturating_sub(position + 1) as f32 / length.max(1) as f32).clamp(0.0, 1.0)
        }
        SampleEdit::Gain(db) => (x * 10.0f32.powf(db / 20.0)).clamp(-1.0, 1.0),
    }
}

#[test]
fn editor_actions_on_samples() {
    let mut samples = vec![1.0f32; 4];
    apply_audio_edit_action_to_samples(
        &mut samples,
        1,
        AudioEditAction::FadeIn { start_sample: 0, length_samples: 4 },
        0.0,
        &shape,
    );
    assert_eq!(samples, vec![0.0, 0.25, 0.5, 0.75]);
    let mut samples = vec![1.0f32; 4];
    apply_audio_edit_action_to_samples(
        &mut samples,
        1,
        AudioEditAction::FadeOut { start_sample: 0, length_samples: 4 },
        0.0,
        &shape,
    );
    assert_eq!(samples, vec![0.75, 0.5, 0.25, 0.0]);
    let actions = vec![
        AudioEditAction::ReplaceWithSilence { start_sample: 0, length_samples: 1 },
        AudioEditAction::Reverse,
        AudioEditAction::Delete { start_sample: 0, length_samples: 1 },
    ];
    let out = apply_audio_edit_actions(&[1.0f32, 2.0, 3.0, 4.0], 2, &actions, 0.0, &shape);
    assert_eq!(out, vec![0.0, 0.0]);
}
