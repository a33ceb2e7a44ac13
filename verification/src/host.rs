//! What a host that embeds the editor reads back: the preview to play, the
//! rendered audio, the transport state and the edit list.

use std::sync::Arc;

use vstd::prelude::*;

use crate::document::copy_vec;
use crate::edits::{spec_clip_gain_deltas, spec_envelope, summarize_audio_edit_actions, AudioEditAction, AudioEdits};
use crate::session::EditApp;

verus! {

/// The preview samples a host plays, from the playhead on.
pub struct HostPreview<T> {
    pub samples: Arc<Vec<T>>,
    pub channels: usize,
    pub start_sample: usize,
}

/// The document as it sounds with every edit applied.
pub struct RenderedAudio<T> {
    pub samples: Arc<Vec<T>>,
    pub channels: usize,
    pub sample_rate: u32,
}

/// The preview of the open document and where the playhead stands; `None`
/// without a document.
pub fn host_preview<T: Copy, G: Copy>(app: &EditApp<T, G>) -> (preview: Option<HostPreview<T>>)
    ensures
        match app.audio {
            None => preview is None,
            Some(audio) => preview matches Some(p) && {
                &&& (*p.samples)@ == audio.preview_samples@
                &&& p.channels == audio.channels
                &&& p.start_sample == app.playhead_samples
            },
        },
{
    match &app.audio {
        None => None,
        Some(audio) => Some(HostPreview {
            samples: Arc::new(copy_vec(&audio.preview_samples)),
            channels: audio.channels,
            start_sample: app.playhead_samples,
        }),
    }
}

/// Whether the editor is playing.
pub fn is_playing<T, G>(app: &EditApp<T, G>) -> (playing: bool)
    ensures
        playing == app.playing,
{
    app.playing
}

/// The edited samples of the open document with its format; `None`
/// without a document.
pub fn rendered_audio<T: Copy, G: Copy>(app: &EditApp<T, G>) -> (rendered: Option<RenderedAudio<T>>)
    ensures
        match app.audio {
            None => rendered is None,
            Some(audio) => rendered matches Some(r) && {
                &&& (*r.samples)@ == audio.preview_samples@
                &&& r.channels == audio.channels
                &&& r.sample_rate == audio.sample_rate
            },
        },
{
    match &app.audio {
        None => None,
        Some(audio) => Some(RenderedAudio {
            samples: Arc::new(copy_vec(&audio.preview_samples)),
            channels: audio.channels,
            sample_rate: audio.sample_rate,
        }),
    }
}

/// The summary of the open document's edit list: its fades and reversal,
/// and the clip gain that `total_gain` makes of its whole-clip gains.
pub fn current_audio_edits<T: Copy, G: Copy, F: Fn(Vec<G>) -> G>(
    app: &EditApp<T, G>,
    total_gain: F,
) -> (edits: Option<AudioEdits<G>>)
    requires
        forall|deltas: Vec<G>| total_gain.requires((deltas,)),
    ensures
        match app.audio {
            None => edits is None,
            Some(audio) => edits matches Some(e) && {
                let env = spec_envelope(audio.spec_frames(), audio.edit_actions@);
                &&& e.fade_in_samples == env.fade_in_samples
                &&& e.fade_out_samples == env.fade_out_samples
                &&& e.reversed == env.reversed
                &&& exists|deltas: Vec<G>| deltas@ == spec_clip_gain_deltas(audio.spec_frames(), audio.edit_actions@)
                    && #[trigger] total_gain.ensures((deltas,), e.gain_db)
            },
        },
{
    match &app.audio {
        None => None,
        Some(audio) => Some(summarize_audio_edit_actions(audio.frames(), audio.edit_actions.as_slice(), total_gain)),
    }
}

/// The open document's edit list, in the order the edits were made.
pub fn current_audio_edit_actions<T, G: Copy>(app: &EditApp<T, G>) -> (actions: Option<Vec<AudioEditAction<G>>>)
    ensures
        match app.audio {
            None => actions is None,
            Some(audio) => actions matches Some(a) && a@ == audio.edit_actions@,
        },
{
    match &app.audio {
        None => None,
        Some(audio) => Some(copy_vec(&audio.edit_actions)),
    }
}

} // verus!
