//! Edit actions and the frame-level operations they perform on
//! interleaved audio.
//!
//! Sample values are a type parameter `T` and gain amounts a type parameter
//! `G`: this module only moves, drops and overwrites samples, and decides
//! which frames an edit touches.

use vstd::prelude::*;

verus! {

/// A frame range of a source clip.
#[derive(Debug, Clone, Copy, PartialEq, Eq)]
pub struct AudioRegion {
    pub offset: usize,
    pub length: usize,
}

/// One edit applied to a document. Sample positions count frames.
#[derive(Debug, Clone, Copy, PartialEq)]
pub enum AudioEditAction<G> {
    FadeIn { start_sample: usize, length_samples: usize },
    FadeOut { start_sample: usize, length_samples: usize },
    GainDb { start_sample: usize, length_samples: usize, delta_db: G },
    Reverse,
    Delete { start_sample: usize, length_samples: usize },
    ReplaceWithSilence { start_sample: usize, length_samples: usize },
}

/// Whole-clip edits that the editor derives from the clip length.
#[derive(Debug, Clone, Copy)]
pub enum AudioEditKind<G> {
    FadeIn,
    FadeOut,
    GainDb { delta_db: G },
}

/// Summary of the whole-clip edits in an action list.
#[derive(Debug, Clone, Copy, PartialEq, Default)]
pub struct AudioEdits<G> {
    pub fade_in_samples: usize,
    pub fade_out_samples: usize,
    pub gain_db: G,
    pub reversed: bool,
}

/// What an applied edit did, for the status line.
#[derive(Debug, Clone, Copy, PartialEq, Eq, Structural)]
pub enum EditNote {
    FadeInPreview,
    FadeInSelection,
    FadeOutPreview,
    FadeOutSelection,
    PreviewGain,
    VolumeOnSelection,
    Reversed,
    Forward,
    SelectionDeleted,
    SelectionSilenced,
}

/// The whole-clip fades and the reversal that an action list amounts to.
#[derive(Debug, Clone, Copy, PartialEq, Eq, Default)]
pub struct EditEnvelope {
    pub fade_in_samples: usize,
    pub fade_out_samples: usize,
    pub reversed: bool,
}

pub open spec fn channel_count(channels: usize) -> nat {
    if channels == 0 { 1 } else { channels as nat }
}

pub open spec fn frame_count(len: nat, channels: usize) -> nat {
    len / channel_count(channels)
}

pub open spec fn min_nat(a: nat, b: nat) -> nat {
    if a <= b { a } else { b }
}

pub open spec fn max_nat(a: nat, b: nat) -> nat {
    if a >= b { a } else { b }
}

/// The frames `[start, end)` that an edit at `start_sample` of
/// `length_samples` frames covers in a clip of `frames` frames.
pub open spec fn clamped_range(frames: nat, start_sample: nat, length_samples: nat) -> (nat, nat) {
    let start = min_nat(start_sample, frames);
    (start, min_nat(start + length_samples, frames))
}

impl<G> AudioEditAction<G> {
    pub open spec fn spec_is_empty_for_frames(self, frames: nat) -> bool {
        match self {
            AudioEditAction::FadeIn { start_sample, length_samples }
            | AudioEditAction::FadeOut { start_sample, length_samples }
            | AudioEditAction::GainDb { start_sample, length_samples, .. }
            | AudioEditAction::Delete { start_sample, length_samples }
            | AudioEditAction::ReplaceWithSilence { start_sample, length_samples } =>
                start_sample >= frames || length_samples == 0,
            AudioEditAction::Reverse => false,
        }
    }

    /// Whether the action touches no frame of a clip of `frames` frames.
    pub fn is_empty_for_frames(&self, frames: usize) -> (empty: bool)
        ensures
            empty == self.spec_is_empty_for_frames(frames as nat),
    {
        match self {
            AudioEditAction::FadeIn { start_sample, length_samples }
            | AudioEditAction::FadeOut { start_sample, length_samples }
            | AudioEditAction::GainDb { start_sample, length_samples, .. }
            | AudioEditAction::Delete { start_sample, length_samples }
            | AudioEditAction::ReplaceWithSilence { start_sample, length_samples } =>
                *start_sample >= frames || *length_samples == 0,
            AudioEditAction::Reverse => false,
        }
    }
}

pub open spec fn spec_default_fade_samples(frames: nat) -> nat {
    let twentieth = frames / 20;
    let clamped = if twentieth < 240 { 240 } else if twentieth > 48_000 { 48_000 } else { twentieth };
    min_nat(clamped as nat, frames / 2)
}

/// Length of the default fade: a twentieth of the clip, kept within
/// 240..=48000 frames and never more than half the clip.
pub fn default_fade_samples(frames: usize) -> (length: usize)
    ensures
        length == spec_default_fade_samples(frames as nat),
        length <= frames / 2,
{
    let twentieth = frames / 20;
    let clamped = if twentieth < 240 { 240 } else if twentieth > 48_000 { 48_000 } else { twentieth };
    if clamped <= frames / 2 { clamped } else { frames / 2 }
}

pub open spec fn spec_region_action<G>(kind: AudioEditKind<G>, frames: nat) -> AudioEditAction<G> {
    match kind {
        AudioEditKind::FadeIn => AudioEditAction::FadeIn {
            start_sample: 0,
            length_samples: spec_default_fade_samples(frames) as usize,
        },
        AudioEditKind::FadeOut => AudioEditAction::FadeOut {
            start_sample: (frames - spec_default_fade_samples(frames)) as usize,
            length_samples: spec_default_fade_samples(frames) as usize,
        },
        AudioEditKind::GainDb { delta_db } => AudioEditAction::GainDb {
            start_sample: 0,
            length_samples: frames as usize,
            delta_db,
        },
    }
}

/// The whole-clip action for `kind` on a clip of `frames` frames: a fade in
/// at the start, a fade out that ends at the last frame, or a gain change
/// over every frame.
pub fn region_action<G: Copy>(kind: AudioEditKind<G>, frames: usize) -> (action: AudioEditAction<G>)
    ensures
        action == spec_region_action(kind, frames as nat),
{
    match kind {
        AudioEditKind::FadeIn => AudioEditAction::FadeIn {
            start_sample: 0,
            length_samples: default_fade_samples(frames),
        },
        AudioEditKind::FadeOut => {
            let length = default_fade_samples(frames);
            AudioEditAction::FadeOut { start_sample: frames - length, length_samples: length }
        },
        AudioEditKind::GainDb { delta_db } => AudioEditAction::GainDb {
            start_sample: 0,
            length_samples: frames,
            delta_db,
        },
    }
}

/// Whether a gain action spans the whole clip and so counts toward the
/// clip gain in the summary.
pub open spec fn spec_is_clip_gain<G>(action: AudioEditAction<G>, frames: nat) -> bool {
    match action {
        AudioEditAction::GainDb { start_sample, length_samples, .. } =>
            start_sample == 0 && length_samples >= frames,
        _ => false,
    }
}

/// Effect of one action on the envelope summary.
pub open spec fn envelope_step<G>(env: EditEnvelope, frames: nat, action: AudioEditAction<G>) -> EditEnvelope {
    match action {
        AudioEditAction::FadeIn { start_sample, length_samples } =>
            if start_sample == 0 {
                EditEnvelope {
                    fade_in_samples: max_nat(env.fade_in_samples as nat, min_nat(length_samples as nat, frames)) as usize,
                    ..env
                }
            } else {
                env
            },
        AudioEditAction::FadeOut { start_sample, length_samples } =>
            if start_sample + length_samples >= frames {
                EditEnvelope {
                    fade_out_samples: max_nat(env.fade_out_samples as nat, min_nat(length_samples as nat, frames)) as usize,
                    ..env
                }
            } else {
                env
            },
        AudioEditAction::Reverse => EditEnvelope { reversed: !env.reversed, ..env },
        _ => env,
    }
}

/// The envelope of an action list: the longest whole-clip fade in (one that
/// starts at frame 0), the longest fade out that reaches the end, each
/// capped at the clip length, and whether the clip is reversed an odd
/// number of times.
pub open spec fn spec_envelope<G>(frames: nat, actions: Seq<AudioEditAction<G>>) -> EditEnvelope
    decreases actions.len(),
{
    if actions.len() == 0 {
        EditEnvelope { fade_in_samples: 0, fade_out_samples: 0, reversed: false }
    } else {
        envelope_step(spec_envelope(frames, actions.drop_last()), frames, actions.last())
    }
}

/// The gains of the whole-clip gain actions, in order.
pub open spec fn spec_clip_gain_deltas<G>(frames: nat, actions: Seq<AudioEditAction<G>>) -> Seq<G>
    decreases actions.len(),
{
    if actions.len() == 0 {
        Seq::empty()
    } else {
        let rest = spec_clip_gain_deltas(frames, actions.drop_last());
        match actions.last() {
            AudioEditAction::GainDb { delta_db, .. } =>
                if spec_is_clip_gain(actions.last(), frames) { rest.push(delta_db) } else { rest },
            _ => rest,
        }
    }
}

/// Summarizes the fades and the reversal of an action list.
pub fn summarize_edit_envelope<G>(frames: usize, actions: &[AudioEditAction<G>]) -> (env: EditEnvelope)
    ensures
        env == spec_envelope(frames as nat, actions@),
        env.reversed == (reverse_count(actions@) % 2 == 1),
{
    proof { lemma_reversed_is_parity(frames as nat, actions@); }
    let mut env = EditEnvelope { fade_in_samples: 0, fade_out_samples: 0, reversed: false };
    let mut i: usize = 0;
    while i < actions.len()
        invariant
            i <= actions@.len(),
            env == spec_envelope(frames as nat, actions@.subrange(0, i as int)),
        decreases actions@.len() - i,
    {
        proof {
            assert(actions@.subrange(0, i + 1).drop_last() =~= actions@.subrange(0, i as int));
        }
        match &actions[i] {
            AudioEditAction::FadeIn { start_sample, length_samples } => {
                if *start_sample == 0 {
                    let capped = if *length_samples <= frames { *length_samples } else { frames };
                    if capped > env.fade_in_samples {
                        env.fade_in_samples = capped;
                    }
                }
            },
            AudioEditAction::FadeOut { start_sample, length_samples } => {
                if start_sample.saturating_add(*length_samples) >= frames {
                    let capped = if *length_samples <= frames { *length_samples } else { frames };
                    if capped > env.fade_out_samples {
                        env.fade_out_samples = capped;
                    }
                }
            },
            AudioEditAction::Reverse => {
                env.reversed = !env.reversed;
            },
            _ => {},
        }
        i += 1;
    }
    proof {
        assert(actions@.subrange(0, actions@.len() as int) =~= actions@);
    }
    env
}

/// How many `Reverse` actions a list holds.
pub open spec fn reverse_count<G>(actions: Seq<AudioEditAction<G>>) -> nat
    decreases actions.len(),
{
    if actions.len() == 0 {
        0
    } else {
        reverse_count(actions.drop_last()) + if actions.last() is Reverse { 1nat } else { 0nat }
    }
}

/// The summary says the clip is reversed exactly when the list reverses it
/// an odd number of times.
pub proof fn lemma_reversed_is_parity<G>(frames: nat, actions: Seq<AudioEditAction<G>>)
    ensures
        spec_envelope(frames, actions).reversed == (reverse_count(actions) % 2 == 1),
    decreases actions.len(),
{
    if actions.len() > 0 {
        lemma_reversed_is_parity(frames, actions.drop_last());
    }
}

/// Appending a reversal flips whether the clip plays reversed and leaves
/// its fades as they were; so two reversals in a row cancel out.
pub proof fn lemma_reverse_flips<G>(frames: nat, actions: Seq<AudioEditAction<G>>)
    ensures
        spec_envelope(frames, actions.push(AudioEditAction::Reverse)).reversed == !spec_envelope(frames, actions).reversed,
        spec_envelope(frames, actions.push(AudioEditAction::Reverse)).fade_in_samples
            == spec_envelope(frames, actions).fade_in_samples,
        spec_envelope(frames, actions.push(AudioEditAction::Reverse)).fade_out_samples
            == spec_envelope(frames, actions).fade_out_samples,
        spec_envelope(frames, actions.push(AudioEditAction::Reverse).push(AudioEditAction::Reverse))
            == spec_envelope(frames, actions),
{
    let once = actions.push(AudioEditAction::Reverse);
    let twice = once.push(AudioEditAction::Reverse);
    assert(once.drop_last() =~= actions);
    assert(twice.drop_last() =~= once);
    lemma_reversed_is_parity(frames, actions);
    lemma_reversed_is_parity(frames, once);
    lemma_reversed_is_parity(frames, twice);
}

/// The gain amounts of the whole-clip gain actions, in order; the clip gain
/// of the summary adds them up.
pub fn clip_gain_deltas<G: Copy>(frames: usize, actions: &[AudioEditAction<G>]) -> (deltas: Vec<G>)
    ensures
        deltas@ == spec_clip_gain_deltas(frames as nat, actions@),
{
    let mut deltas: Vec<G> = Vec::new();
    let mut i: usize = 0;
    while i < actions.len()
        invariant
            i <= actions@.len(),
            deltas@ == spec_clip_gain_deltas(frames as nat, actions@.subrange(0, i as int)),
        decreases actions@.len() - i,
    {
        proof {
            assert(actions@.subrange(0, i + 1).drop_last() =~= actions@.subrange(0, i as int));
        }
        match &actions[i] {
            AudioEditAction::GainDb { start_sample, length_samples, delta_db } => {
                if *start_sample == 0 && *length_samples >= frames {
                    deltas.push(*delta_db);
                }
            },
            _ => {},
        }
        i += 1;
    }
    proof {
        assert(actions@.subrange(0, actions@.len() as int) =~= actions@);
    }
    deltas
}

/// The summary of an action list: the envelope of [`summarize_edit_envelope`]
/// and, as clip gain, what `total_gain` makes of the whole-clip gains of
/// [`clip_gain_deltas`] (the editor adds them up within its gain limits).
pub fn summarize_audio_edit_actions<G: Copy, F: Fn(Vec<G>) -> G>(
    frames: usize,
    actions: &[AudioEditAction<G>],
    total_gain: F,
) -> (edits: AudioEdits<G>)
    requires
        forall|deltas: Vec<G>| total_gain.requires((deltas,)),
    ensures
        ({
            let env = spec_envelope(frames as nat, actions@);
            &&& edits.fade_in_samples == env.fade_in_samples
            &&& edits.fade_out_samples == env.fade_out_samples
            &&& edits.reversed == env.reversed
        }),
        edits.reversed == (reverse_count(actions@) % 2 == 1),
        exists|deltas: Vec<G>| deltas@ == spec_clip_gain_deltas(frames as nat, actions@)
            && #[trigger] total_gain.ensures((deltas,), edits.gain_db),
{
    let env = summarize_edit_envelope(frames, actions);
    let deltas = clip_gain_deltas(frames, actions);
    let ghost d = deltas;
    let gain_db = total_gain(deltas);
    let edits = AudioEdits {
        fade_in_samples: env.fade_in_samples,
        fade_out_samples: env.fade_out_samples,
        gain_db,
        reversed: env.reversed,
    };
    proof {
        assert(d@ == spec_clip_gain_deltas(frames as nat, actions@));
        assert(total_gain.ensures((d,), edits.gain_db));
    }
    edits
}

/// What an applied edit did: a fade in from the first frame or a fade out
/// reaching the last one worked on the whole preview, otherwise on the
/// selection; a gain from the first frame over at least one frame changed
/// the preview gain; a reversal reversed or restored the clip, as
/// `reversed` (the summary after it) tells.
pub open spec fn spec_edit_note<G>(action: AudioEditAction<G>, reversed: bool, frames: nat) -> EditNote {
    match action {
        AudioEditAction::FadeIn { start_sample, .. } =>
            if start_sample == 0 { EditNote::FadeInPreview } else { EditNote::FadeInSelection },
        AudioEditAction::FadeOut { start_sample, length_samples } =>
            if start_sample + length_samples >= frames { EditNote::FadeOutPreview } else { EditNote::FadeOutSelection },
        AudioEditAction::GainDb { start_sample, length_samples, .. } =>
            if start_sample == 0 && length_samples > 0 { EditNote::PreviewGain } else { EditNote::VolumeOnSelection },
        AudioEditAction::Reverse => if reversed { EditNote::Reversed } else { EditNote::Forward },
        AudioEditAction::Delete { .. } => EditNote::SelectionDeleted,
        AudioEditAction::ReplaceWithSilence { .. } => EditNote::SelectionSilenced,
    }
}

/// The status note for an applied edit (see [`spec_edit_note`]).
pub fn audio_edit_status<G>(action: &AudioEditAction<G>, reversed: bool, frames: usize) -> (note: EditNote)
    ensures
        note == spec_edit_note(*action, reversed, frames as nat),
{
    match action {
        AudioEditAction::FadeIn { start_sample, .. } =>
            if *start_sample == 0 { EditNote::FadeInPreview } else { EditNote::FadeInSelection },
        AudioEditAction::FadeOut { start_sample, length_samples } =>
            if start_sample.saturating_add(*length_samples) >= frames { EditNote::FadeOutPreview } else { EditNote::FadeOutSelection },
        AudioEditAction::GainDb { start_sample, length_samples, .. } =>
            if *start_sample == 0 && *length_samples > 0 { EditNote::PreviewGain } else { EditNote::VolumeOnSelection },
        AudioEditAction::Reverse => if reversed { EditNote::Reversed } else { EditNote::Forward },
        AudioEditAction::Delete { .. } => EditNote::SelectionDeleted,
        AudioEditAction::ReplaceWithSilence { .. } => EditNote::SelectionSilenced,
    }
}

/// The frame range `[start, end)` that an edit covers in interleaved audio of
/// `len` samples: the start is clamped to the clip and the end to both the
/// requested length and the clip.
pub fn edit_frame_range(len: usize, channels: usize, start_sample: usize, length_samples: usize) -> (range: (usize, usize))
    ensures
        range.0 as nat == clamped_range(frame_count(len as nat, channels), start_sample as nat, length_samples as nat).0,
        range.1 as nat == clamped_range(frame_count(len as nat, channels), start_sample as nat, length_samples as nat).1,
        range.0 <= range.1,
        range.1 * channel_count(channels) <= len,
{
    let ch = if channels == 0 { 1 } else { channels };
    let frames = len / ch;
    let start = if start_sample <= frames { start_sample } else { frames };
    let sum = start.saturating_add(length_samples);
    let end = if sum <= frames { sum } else { frames };
    proof {
        assert(frames * ch <= len) by (nonlinear_arith)
            requires frames == len / ch, ch > 0;
        assert(end * ch <= frames * ch) by (nonlinear_arith)
            requires end <= frames, ch > 0;
    }
    (start, end)
}

/// The whole frames of `samples` in reverse order; a trailing partial frame
/// is dropped.
pub fn reverse_samples<T: Copy>(samples: &[T], channels: usize) -> (output: Vec<T>)
    ensures
        output@.len() == frame_count(samples@.len(), channels) * channel_count(channels),
        forall|f: int, c: int|
            0 <= f < frame_count(samples@.len(), channels) && 0 <= c < channel_count(channels) ==>
                #[trigger] output@[f * channel_count(channels) + c]
                    == samples@[(frame_count(samples@.len(), channels) - 1 - f) * channel_count(channels) + c],
{
    let ch = if channels == 0 { 1 } else { channels };
    let frames = samples.len() / ch;
    let ghost chn = ch as int;
    let ghost fr = frames as int;
    proof {
        assert(fr * chn <= samples@.len()) by (nonlinear_arith)
            requires fr == samples@.len() as int / chn, chn > 0;
    }
    let mut output: Vec<T> = Vec::new();
    let mut f: usize = 0;
    while f < frames
        invariant
            ch == chn, frames == fr, chn > 0,
            ch as nat == channel_count(channels),
            frames as nat == frame_count(samples@.len(), channels),
            fr * chn <= samples@.len(),
            samples@.len() <= usize::MAX,
            f <= frames,
            output@.len() == f * chn,
            forall|g: int, c: int|
                0 <= g < f && 0 <= c < chn ==>
                    #[trigger] output@[g * chn + c] == samples@[(fr - 1 - g) * chn + c],
        decreases frames - f,
    {
        proof {
            assert((fr - 1 - f) * chn + chn <= fr * chn) by (nonlinear_arith)
                requires f < fr, chn > 0;
        }
        let source = (frames - 1 - f) * ch;
        let mut c: usize = 0;
        while c < ch
            invariant
                ch == chn, frames == fr, chn > 0, f < frames,
                fr * chn <= samples@.len(),
                samples@.len() <= usize::MAX,
                source == (fr - 1 - f) * chn,
                source + chn <= fr * chn,
                c <= ch,
                output@.len() == f * chn + c,
                forall|g: int, d: int|
                    0 <= g < f && 0 <= d < chn ==>
                        #[trigger] output@[g * chn + d] == samples@[(fr - 1 - g) * chn + d],
                forall|d: int| 0 <= d < c ==> #[trigger] output@[f * chn + d] == samples@[source + d],
            decreases ch - c,
        {
            output.push(samples[source + c]);
            proof {
                assert forall|g: int, d: int| 0 <= g < f && 0 <= d < chn implies
                    #[trigger] output@[g * chn + d] == samples@[(fr - 1 - g) * chn + d] by {
                    assert(g * chn + d < f * chn) by (nonlinear_arith)
                        requires g < f, d < chn, 0 <= d;
                }
            }
            c += 1;
        }
        proof {
            assert forall|g: int, d: int| 0 <= g < f + 1 && 0 <= d < chn implies
                #[trigger] output@[g * chn + d] == samples@[(fr - 1 - g) * chn + d] by {
                if g == f {
                    assert(output@[f * chn + d] == samples@[source + d]);
                }
            }
            assert(output@.len() == (f + 1) * chn) by (nonlinear_arith)
                requires output@.len() == f * chn + chn;
        }
        f += 1;
    }
    output
}

/// Removes the frames `[start, end)` of an edit from interleaved samples; a
/// trailing partial frame stays.
pub fn delete_frames<T: Copy>(samples: &mut Vec<T>, channels: usize, start_sample: usize, length_samples: usize)
    ensures
        ({
            let ch = channel_count(channels);
            let r = clamped_range(frame_count(old(samples)@.len(), channels), start_sample as nat, length_samples as nat);
            final(samples)@ == old(samples)@.subrange(0, (r.0 * ch) as int)
                + old(samples)@.subrange((r.1 * ch) as int, old(samples)@.len() as int)
        }),
{
    let ch = if channels == 0 { 1 } else { channels };
    let (start, end) = edit_frame_range(samples.len(), channels, start_sample, length_samples);
    proof {
        assert(start * ch <= end * ch) by (nonlinear_arith)
            requires start <= end, ch > 0;
    }
    let cut_start = start * ch;
    let cut_end = end * ch;
    let mut output: Vec<T> = Vec::new();
    let mut i: usize = 0;
    while i < cut_start
        invariant
            cut_start <= cut_end <= samples@.len(),
            i <= cut_start,
            output@ == samples@.subrange(0, i as int),
        decreases cut_start - i,
    {
        output.push(samples[i]);
        proof { assert(output@ =~= samples@.subrange(0, i + 1)); }
        i += 1;
    }
    let mut j: usize = cut_end;
    while j < samples.len()
        invariant
            cut_start <= cut_end <= j <= samples@.len(),
            output@ == samples@.subrange(0, cut_start as int) + samples@.subrange(cut_end as int, j as int),
        decreases samples@.len() - j,
    {
        output.push(samples[j]);
        proof {
            assert(output@ =~= samples@.subrange(0, cut_start as int) + samples@.subrange(cut_end as int, j + 1));
        }
        j += 1;
    }
    *samples = output;
}

/// Sets every sample of the frames an edit covers to `silence`.
pub fn silence_frames<T: Copy>(samples: &mut Vec<T>, channels: usize, start_sample: usize, length_samples: usize, silence: T)
    ensures
        final(samples)@.len() == old(samples)@.len(),
        ({
            let ch = channel_count(channels);
            let r = clamped_range(frame_count(old(samples)@.len(), channels), start_sample as nat, length_samples as nat);
            forall|i: int| 0 <= i < old(samples)@.len() ==>
                #[trigger] final(samples)@[i] == if r.0 * ch <= i < r.1 * ch { silence } else { old(samples)@[i] }
        }),
{
    let ch = if channels == 0 { 1 } else { channels };
    let (start, end) = edit_frame_range(samples.len(), channels, start_sample, length_samples);
    proof {
        assert(start * ch <= end * ch) by (nonlinear_arith)
            requires start <= end, ch > 0;
    }
    let lo = start * ch;
    let hi = end * ch;
    let ghost original = samples@;
    let mut i: usize = lo;
    while i < hi
        invariant
            lo <= i <= hi <= original.len(),
            samples@.len() == original.len(),
            forall|k: int| 0 <= k < original.len() ==>
                #[trigger] samples@[k] == if lo <= k < i { silence } else { original[k] },
        decreases hi - i,
    {
        samples.set(i, silence);
        i += 1;
    }
}

/// Rewrites every sample of the frames an edit covers with `f(position,
/// sample)`, where `position` counts frames from the start of the range.
pub fn apply_region<T: Copy, F: Fn(usize, T) -> T>(
    samples: &mut Vec<T>,
    channels: usize,
    start_sample: usize,
    length_samples: usize,
    f: F,
)
    requires
        forall|pos: usize, x: T| f.requires((pos, x)),
    ensures
        final(samples)@.len() == old(samples)@.len(),
        ({
            let ch = channel_count(channels);
            let r = clamped_range(frame_count(old(samples)@.len(), channels), start_sample as nat, length_samples as nat);
            forall|i: int| 0 <= i < old(samples)@.len() ==>
                if r.0 * ch <= i < r.1 * ch {
                    f.ensures(((i / (ch as int) - r.0) as usize, old(samples)@[i]), #[trigger] final(samples)@[i])
                } else {
                    final(samples)@[i] == old(samples)@[i]
                }
        }),
{
    let ch = if channels == 0 { 1 } else { channels };
    let (start, end) = edit_frame_range(samples.len(), channels, start_sample, length_samples);
    let ghost original = samples@;
    let ghost chn = ch as int;
    let mut frame: usize = start;
    while frame < end
        invariant
            ch == chn, chn > 0, ch as nat == channel_count(channels),
            original.len() <= usize::MAX,
            start <= frame <= end,
            end * chn <= original.len(),
            samples@.len() == original.len(),
            forall|pos: usize, x: T| f.requires((pos, x)),
            forall|i: int| 0 <= i < original.len() ==>
                if start * chn <= i < frame * chn {
                    f.ensures(((i / chn - start) as usize, original[i]), #[trigger] samples@[i])
                } else {
                    samples@[i] == original[i]
                },
        decreases end - frame,
    {
        let pos = frame - start;
        proof {
            assert(frame * chn + chn <= end * chn) by (nonlinear_arith)
                requires frame < end, chn > 0;
        }
        let base = frame * ch;
        let mut c: usize = 0;
        while c < ch
            invariant
                ch == chn, chn > 0,
                start <= frame < end,
                base == frame * chn,
                base + chn <= end * chn,
                end * chn <= original.len(),
                original.len() <= usize::MAX,
                pos == frame - start,
                c <= ch,
                samples@.len() == original.len(),
                forall|pos: usize, x: T| f.requires((pos, x)),
                forall|i: int| 0 <= i < original.len() ==>
                    if start * chn <= i < base + c {
                        f.ensures(((i / chn - start) as usize, original[i]), #[trigger] samples@[i])
                    } else {
                        samples@[i] == original[i]
                    },
            decreases ch - c,
        {
            let index = base + c;
            let value = f(pos, samples[index]);
            proof {
                assert((index as int) / chn == frame) by (nonlinear_arith)
                    requires index == frame * chn + c, 0 <= c < chn;
                assert(start * chn <= index) by (nonlinear_arith)
                    requires index == frame * chn + c, start <= frame, 0 <= c;
            }
            samples.set(index, value);
            c += 1;
        }
        proof {
            assert(base + chn == (frame + 1) * chn) by (nonlinear_arith)
                requires base == frame * chn;
        }
        frame += 1;
    }
}


/// How an edit changes one sample of the frames it covers: a fade in or
/// out at `position` frames into a fade of `length` frames, or a gain. The
/// shell supplies the arithmetic.
#[derive(Debug, Clone, Copy, PartialEq)]
pub enum SampleEdit<G> {
    FadeIn { position: usize, length: usize },
    FadeOut { position: usize, length: usize },
    Gain(G),
}

/// The sample change a fade or gain action makes `position` frames into
/// its range.
pub open spec fn sample_edit<G>(action: AudioEditAction<G>, position: usize) -> SampleEdit<G> {
    match action {
        AudioEditAction::FadeIn { length_samples, .. } => SampleEdit::FadeIn { position, length: length_samples },
        AudioEditAction::FadeOut { length_samples, .. } => SampleEdit::FadeOut { position, length: length_samples },
        AudioEditAction::GainDb { delta_db, .. } => SampleEdit::Gain(delta_db),
        _ => SampleEdit::FadeIn { position, length: 0 },
    }
}

/// `after` is interleaved audio `before` with `action` applied: a reversal
/// reverses the order of the whole frames, a deletion removes the covered
/// frames, silencing overwrites their samples with `silence`, and a fade or
/// gain rewrites each of their samples as `shape` does for the action at
/// that frame; samples outside the covered frames stay.
pub open spec fn action_applied<T, G, S: Fn(SampleEdit<G>, T) -> T>(
    before: Seq<T>,
    after: Seq<T>,
    channels: usize,
    action: AudioEditAction<G>,
    silence: T,
    shape: S,
) -> bool {
    let ch = channel_count(channels);
    let frames = frame_count(before.len(), channels);
    match action {
        AudioEditAction::Reverse => {
            &&& after.len() == frames * ch
            &&& forall|f: int, c: int| 0 <= f < frames && 0 <= c < ch ==>
                    #[trigger] after[f * ch + c] == before[(frames - 1 - f) * ch + c]
        },
        AudioEditAction::Delete { start_sample, length_samples } => {
            let r = clamped_range(frames, start_sample as nat, length_samples as nat);
            after == before.subrange(0, (r.0 * ch) as int) + before.subrange((r.1 * ch) as int, before.len() as int)
        },
        AudioEditAction::ReplaceWithSilence { start_sample, length_samples } => {
            let r = clamped_range(frames, start_sample as nat, length_samples as nat);
            &&& after.len() == before.len()
            &&& forall|i: int| 0 <= i < before.len() ==>
                    #[trigger] after[i] == if r.0 * ch <= i < r.1 * ch { silence } else { before[i] }
        },
        AudioEditAction::FadeIn { start_sample, length_samples }
        | AudioEditAction::FadeOut { start_sample, length_samples }
        | AudioEditAction::GainDb { start_sample, length_samples, .. } => {
            let r = clamped_range(frames, start_sample as nat, length_samples as nat);
            &&& after.len() == before.len()
            &&& forall|i: int| 0 <= i < before.len() ==>
                    if r.0 * ch <= i < r.1 * ch {
                        shape.ensures((sample_edit(action, (i / (ch as int) - r.0) as usize), before[i]), #[trigger] after[i])
                    } else {
                        after[i] == before[i]
                    }
        },
    }
}

/// Applies one edit action to interleaved samples (see [`action_applied`]).
pub fn apply_audio_edit_action_to_samples<T: Copy, G: Copy, S: Fn(SampleEdit<G>, T) -> T>(
    samples: &mut Vec<T>,
    channels: usize,
    action: AudioEditAction<G>,
    silence: T,
    shape: &S,
)
    requires
        forall|edit: SampleEdit<G>, x: T| shape.requires((edit, x)),
    ensures
        action_applied(old(samples)@, final(samples)@, channels, action, silence, *shape),
{
    match action {
        AudioEditAction::Reverse => {
            let reversed = reverse_samples(samples.as_slice(), channels);
            *samples = reversed;
        },
        AudioEditAction::Delete { start_sample, length_samples } => {
            delete_frames(samples, channels, start_sample, length_samples);
        },
        AudioEditAction::ReplaceWithSilence { start_sample, length_samples } => {
            silence_frames(samples, channels, start_sample, length_samples, silence);
        },
        AudioEditAction::FadeIn { start_sample, length_samples } => {
            let f = |position: usize, x: T| -> (y: T)
                requires
                    forall|edit: SampleEdit<G>, x: T| shape.requires((edit, x)),
                ensures
                    shape.ensures((SampleEdit::FadeIn { position, length: length_samples }, x), y),
            { shape(SampleEdit::FadeIn { position, length: length_samples }, x) };
            apply_region(samples, channels, start_sample, length_samples, f);
        },
        AudioEditAction::FadeOut { start_sample, length_samples } => {
            let f = |position: usize, x: T| -> (y: T)
                requires
                    forall|edit: SampleEdit<G>, x: T| shape.requires((edit, x)),
                ensures
                    shape.ensures((SampleEdit::FadeOut { position, length: length_samples }, x), y),
            { shape(SampleEdit::FadeOut { position, length: length_samples }, x) };
            apply_region(samples, channels, start_sample, length_samples, f);
        },
        AudioEditAction::GainDb { start_sample, length_samples, delta_db } => {
            let f = |position: usize, x: T| -> (y: T)
                requires
                    forall|edit: SampleEdit<G>, x: T| shape.requires((edit, x)),
                ensures
                    shape.ensures((SampleEdit::Gain(delta_db), x), y),
            { shape(SampleEdit::Gain(delta_db), x) };
            apply_region(samples, channels, start_sample, length_samples, f);
        },
    }
}

/// `after` is `before` with the actions applied in order: there is one
/// state per action, each following from the one before as
/// [`action_applied`] says.
pub open spec fn actions_applied<T, G, S: Fn(SampleEdit<G>, T) -> T>(
    before: Seq<T>,
    after: Seq<T>,
    channels: usize,
    actions: Seq<AudioEditAction<G>>,
    silence: T,
    shape: S,
) -> bool {
    exists|states: Seq<Seq<T>>| {
        &&& states.len() == actions.len() + 1
        &&& states[0] == before
        &&& states.last() == after
        &&& forall|k: int| 0 <= k < actions.len() ==>
                action_applied(#[trigger] states[k], states[k + 1], channels, actions[k], silence, shape)
    }
}

/// A copy of `samples`.
pub fn copy_slice<T: Copy>(samples: &[T]) -> (copy: Vec<T>)
    ensures
        copy@ == samples@,
{
    let mut copy: Vec<T> = Vec::new();
    let mut i: usize = 0;
    while i < samples.len()
        invariant
            i <= samples@.len(),
            copy@ == samples@.subrange(0, i as int),
        decreases samples@.len() - i,
    {
        copy.push(samples[i]);
        proof { assert(copy@ =~= samples@.subrange(0, i + 1)); }
        i += 1;
    }
    proof { assert(copy@ =~= samples@); }
    copy
}

/// Applies an action list in order to a copy of interleaved samples: the
/// result is reached through one state per action, each following from the
/// one before as [`action_applied`] says.
pub fn apply_audio_edit_actions<T: Copy, G: Copy, S: Fn(SampleEdit<G>, T) -> T>(
    samples: &[T],
    channels: usize,
    actions: &[AudioEditAction<G>],
    silence: T,
    shape: &S,
) -> (output: Vec<T>)
    requires
        forall|edit: SampleEdit<G>, x: T| shape.requires((edit, x)),
    ensures
        actions_applied(samples@, output@, channels, actions@, silence, *shape),
{
    let mut output = copy_slice(samples);
    let ghost mut states: Seq<Seq<T>> = seq![samples@];
    let mut k: usize = 0;
    while k < actions.len()
        invariant
            forall|edit: SampleEdit<G>, x: T| shape.requires((edit, x)),
            k <= actions@.len(),
            states.len() == k + 1,
            states[0] == samples@,
            states.last() == output@,
            forall|j: int| 0 <= j < k ==>
                action_applied(#[trigger] states[j], states[j + 1], channels, actions@[j], silence, *shape),
        decreases actions@.len() - k,
    {
        let ghost before = output@;
        apply_audio_edit_action_to_samples(&mut output, channels, actions[k], silence, shape);
        proof {
            let next = states.push(output@);
            assert forall|j: int| 0 <= j < k + 1 implies
                action_applied(#[trigger] next[j], next[j + 1], channels, actions@[j], silence, *shape) by {
                if j < k {
                    assert(next[j] == states[j] && next[j + 1] == states[j + 1]);
                } else {
                    assert(next[j] == before && next[j + 1] == output@);
                }
            }
            states = next;
        }
        k += 1;
    }
    proof { assert(actions_applied(samples@, output@, channels, actions@, silence, *shape)); }
    output
}

} // verus!
