//! The open document: interleaved samples, their rendered preview, the edit
//! list and the markers, with the frame-level operations on them.

use std::path::PathBuf;

use vstd::prelude::*;

use crate::edits::{
    actions_applied, apply_audio_edit_actions, channel_count, clamped_range, frame_count, region_action,
    spec_clip_gain_deltas, spec_envelope, spec_region_action, summarize_audio_edit_actions, AudioEditAction,
    AudioEditKind, AudioEdits, AudioRegion, SampleEdit,
};

verus! {

/// File paths are carried through the library unchanged.
#[verifier::external_type_specification]
#[verifier::external_body]
pub struct ExPathBuf(PathBuf);

/// The document state that undo and redo restore.
pub struct DocumentSnapshot<T, G> {
    pub samples: Vec<T>,
    pub edits: AudioEdits<G>,
    pub edit_actions: Vec<AudioEditAction<G>>,
    pub markers: Vec<(usize, String)>,
}

impl<T, G> DocumentSnapshot<T, G> {
    /// Two snapshots hold the same samples, edits and markers.
    pub open spec fn same_as(self, other: Self) -> bool {
        &&& self.samples@ == other.samples@
        &&& self.edits == other.edits
        &&& self.edit_actions@ == other.edit_actions@
        &&& self.markers@ == other.markers@
    }
}

impl<T: Copy, G: Copy> Clone for DocumentSnapshot<T, G> {
    fn clone(&self) -> (copy: Self)
        ensures
            copy.same_as(*self),
    {
        DocumentSnapshot {
            samples: copy_vec(&self.samples),
            edits: self.edits,
            edit_actions: copy_vec(&self.edit_actions),
            markers: copy_markers(&self.markers),
        }
    }
}

/// An element-by-element copy of a vector of plain values.
pub fn copy_vec<E: Copy>(source: &Vec<E>) -> (copy: Vec<E>)
    ensures
        copy@ == source@,
{
    let mut copy: Vec<E> = Vec::new();
    let mut i: usize = 0;
    while i < source.len()
        invariant
            i <= source@.len(),
            copy@ == source@.subrange(0, i as int),
        decreases source@.len() - i,
    {
        copy.push(source[i]);
        proof { assert(copy@ =~= source@.subrange(0, i + 1)); }
        i += 1;
    }
    proof { assert(copy@ =~= source@); }
    copy
}

/// A copy of a marker list.
pub fn copy_markers(source: &Vec<(usize, String)>) -> (copy: Vec<(usize, String)>)
    ensures
        copy@ == source@,
{
    let mut copy: Vec<(usize, String)> = Vec::new();
    let mut i: usize = 0;
    while i < source.len()
        invariant
            i <= source@.len(),
            copy@ == source@.subrange(0, i as int),
        decreases source@.len() - i,
    {
        let entry = (source[i].0, source[i].1.clone());
        copy.push(entry);
        proof { assert(copy@ =~= source@.subrange(0, i + 1)); }
        i += 1;
    }
    proof { assert(copy@ =~= source@); }
    copy
}

/// An audio clip open in the editor. `samples` hold the source frames,
/// `preview_samples` the frames with every edit applied.
#[derive(Debug)]
pub struct AudioDocument<T, G> {
    pub source_path: PathBuf,
    pub save_path: Option<PathBuf>,
    pub samples: Vec<T>,
    pub preview_samples: Vec<T>,
    pub channels: usize,
    pub sample_rate: u32,
    pub channel_samples: Vec<Vec<T>>,
    pub peak: T,
    pub clip_region: Option<AudioRegion>,
    pub edits: AudioEdits<G>,
    pub edit_actions: Vec<AudioEditAction<G>>,
    pub markers: Vec<(usize, String)>,
}

/// Where a clip region ends up when the document frames `[start, end)` are
/// deleted: a region after the cut moves left, one that overlaps it loses the
/// overlap, and one that becomes empty is dropped.
pub open spec fn spec_region_after_delete(region: AudioRegion, start: nat, end: nat) -> Option<AudioRegion> {
    let region_start = region.offset as nat;
    let region_end = region.offset + region.length;
    let deleted = end - start;
    if end <= region_start {
        Some(AudioRegion { offset: (region_start - deleted) as usize, length: region.length })
    } else if start < region_end {
        let delete_start = if start >= region_start { start } else { region_start };
        let delete_end = if end <= region_end { end } else { region_end as nat };
        let overlap: nat = if delete_end >= delete_start { (delete_end - delete_start) as nat } else { 0 };
        let length: nat = if region.length >= overlap { (region.length - overlap) as nat } else { 0 };
        let offset = if start < region_start {
            if region_start >= deleted { (region_start - deleted) as nat } else { 0 }
        } else {
            region_start
        };
        if length == 0 {
            None
        } else {
            Some(AudioRegion { offset: offset as usize, length: length as usize })
        }
    } else {
        Some(region)
    }
}

/// Markers after deleting frames `[start, end)`: markers inside the cut go,
/// markers after it move left by its length, the order stays.
pub open spec fn spec_markers_after_delete(markers: Seq<(usize, String)>, start: nat, end: nat) -> Seq<(usize, String)>
    decreases markers.len(),
{
    if markers.len() == 0 {
        Seq::empty()
    } else {
        let rest = spec_markers_after_delete(markers.drop_last(), start, end);
        let (sample, name) = markers.last();
        if sample < start {
            rest.push((sample, name))
        } else if sample >= end {
            rest.push(((sample - (end - start)) as usize, name))
        } else {
            rest
        }
    }
}

/// Whether a marker at `sample` lies outside the cut frames `[start, end)`.
pub open spec fn outside_cut(sample: usize, start: nat, end: nat) -> bool {
    sample < start || sample >= end
}

/// A marker kept by a delete of `[start, end)`: those before the cut stay,
/// those after it move left by the cut's length.
pub open spec fn shifted_marker(marker: (usize, String), start: nat, end: nat) -> (usize, String) {
    if marker.0 < start { marker } else { ((marker.0 - (end - start)) as usize, marker.1) }
}

/// Deleting frames `[start, end)` keeps exactly the markers outside the cut,
/// in their order and with their names: a marker at `p` survives when
/// `p < start` or `p >= end` (one right at the end of the cut moves to the
/// join), and those at or after `end` move left by `end - start`. So the
/// marker count afterwards is the number of markers outside the cut.
pub proof fn lemma_delete_keeps_markers_outside_cut(markers: Seq<(usize, String)>, start: nat, end: nat)
    requires
        start <= end,
    ensures
        spec_markers_after_delete(markers, start, end)
            == markers.filter(|m: (usize, String)| outside_cut(m.0, start, end))
                .map_values(|m: (usize, String)| shifted_marker(m, start, end)),
        spec_markers_after_delete(markers, start, end).len()
            == markers.filter(|m: (usize, String)| outside_cut(m.0, start, end)).len(),
    decreases markers.len(),
{
    reveal(Seq::filter);
    let pred = |m: (usize, String)| outside_cut(m.0, start, end);
    let shift = |m: (usize, String)| shifted_marker(m, start, end);
    if markers.len() > 0 {
        lemma_delete_keeps_markers_outside_cut(markers.drop_last(), start, end);
        let kept = markers.drop_last().filter(pred);
        if pred(markers.last()) {
            assert(kept.push(markers.last()).map_values(shift) =~= kept.map_values(shift).push(shift(markers.last())));
        }
    } else {
        assert(markers.filter(pred).map_values(shift) =~= Seq::<(usize, String)>::empty());
    }
}

impl<T: Copy, G: Copy> AudioDocument<T, G> {
    pub open spec fn spec_frames(&self) -> nat {
        frame_count(self.samples@.len(), self.channels)
    }

    /// Number of whole frames in the source samples.
    pub fn frames(&self) -> (frames: usize)
        ensures
            frames == self.spec_frames(),
    {
        let ch = if self.channels == 0 { 1 } else { self.channels };
        self.samples.len() / ch
    }

    /// The whole-clip action of `kind` for this document.
    pub fn region_action(&self, kind: AudioEditKind<G>) -> (action: AudioEditAction<G>)
        ensures
            action == spec_region_action(kind, self.spec_frames()),
    {
        region_action(kind, self.frames())
    }

    /// The parts of the document that undo and redo restore.
    pub fn snapshot(&self) -> (snapshot: DocumentSnapshot<T, G>)
        ensures
            snapshot.samples@ == self.samples@,
            snapshot.edits == self.edits,
            snapshot.edit_actions@ == self.edit_actions@,
            snapshot.markers@ == self.markers@,
    {
        DocumentSnapshot {
            samples: copy_vec(&self.samples),
            edits: self.edits,
            edit_actions: copy_vec(&self.edit_actions),
            markers: copy_markers(&self.markers),
        }
    }
}

/// Puts a snapshot's samples, edits and markers back into the document.
pub fn restore_document<T, G>(audio: &mut AudioDocument<T, G>, snapshot: DocumentSnapshot<T, G>)
    ensures
        final(audio).samples == snapshot.samples,
        final(audio).edits == snapshot.edits,
        final(audio).edit_actions == snapshot.edit_actions,
        final(audio).markers == snapshot.markers,
        final(audio).source_path == old(audio).source_path,
        final(audio).save_path == old(audio).save_path,
        final(audio).preview_samples == old(audio).preview_samples,
        final(audio).channels == old(audio).channels,
        final(audio).sample_rate == old(audio).sample_rate,
        final(audio).channel_samples == old(audio).channel_samples,
        final(audio).peak == old(audio).peak,
        final(audio).clip_region == old(audio).clip_region,
{
    audio.samples = snapshot.samples;
    audio.edits = snapshot.edits;
    audio.edit_actions = snapshot.edit_actions;
    audio.markers = snapshot.markers;
}

/// `after` is `before` with the frames `[start, start + length)` (clamped to
/// the document) deleted: their samples go, the clip region shrinks or
/// moves, the markers inside the cut go and those after it move left;
/// nothing changes when the range is empty.
pub open spec fn spec_deleted<T: Copy, G: Copy>(before: AudioDocument<T, G>, after: AudioDocument<T, G>, start: usize, length: usize) -> bool {
    let frames = before.spec_frames();
    let end = if start + length <= frames { (start + length) as nat } else { frames };
    let ch = channel_count(before.channels);
    if start >= end {
        after == before
    } else {
        &&& after.samples@ == before.samples@.subrange(0, (start * ch) as int)
                + before.samples@.subrange((end * ch) as int, before.samples@.len() as int)
        &&& after.clip_region == match before.clip_region {
                Some(r) => spec_region_after_delete(r, start as nat, end),
                None => None,
            }
        &&& after.markers@ == spec_markers_after_delete(before.markers@, start as nat, end)
        &&& after.source_path == before.source_path
        &&& after.save_path == before.save_path
        &&& after.preview_samples == before.preview_samples
        &&& after.channels == before.channels
        &&& after.sample_rate == before.sample_rate
        &&& after.channel_samples == before.channel_samples
        &&& after.peak == before.peak
        &&& after.edits == before.edits
        &&& after.edit_actions == before.edit_actions
    }
}

/// Deletes the document frames `[start, start + length)` (clamped to the
/// document): their samples go, the clip region shrinks or moves, and the
/// markers inside the cut go while those after it move left.
pub fn delete_sample_range<T: Copy, G: Copy>(audio: &mut AudioDocument<T, G>, start: usize, length: usize)
    requires
        old(audio).clip_region matches Some(r) ==> r.offset + r.length <= usize::MAX,
    ensures
        spec_deleted(*old(audio), *final(audio), start, length),
        ({
            let frames = old(audio).spec_frames();
            let end = if start + length <= frames { (start + length) as nat } else { frames };
            start < end ==> final(audio).markers@
                == old(audio).markers@.filter(|m: (usize, String)| outside_cut(m.0, start as nat, end))
                    .map_values(|m: (usize, String)| shifted_marker(m, start as nat, end))
        }),
{
    let frames = audio.frames();
    let sum = start.saturating_add(length);
    let end = if sum <= frames { sum } else { frames };
    if start >= end {
        return;
    }
    crate::edits::delete_frames(&mut audio.samples, audio.channels, start, end - start);
    let deleted = end - start;

    match audio.clip_region {
        Some(region) => {
            let region_start = region.offset;
            let region_end = region.offset + region.length;
            if end <= region_start {
                audio.clip_region = Some(AudioRegion {
                    offset: region.offset.saturating_sub(deleted),
                    length: region.length,
                });
            } else if start < region_end {
                let delete_start = if start >= region_start { start } else { region_start };
                let delete_end = if end <= region_end { end } else { region_end };
                let overlap = delete_end.saturating_sub(delete_start);
                let new_length = region.length.saturating_sub(overlap);
                let new_offset = if start < region_start {
                    region_start.saturating_sub(deleted)
                } else {
                    region.offset
                };
                if new_length == 0 {
                    audio.clip_region = None;
                } else {
                    audio.clip_region = Some(AudioRegion { offset: new_offset, length: new_length });
                }
            }
        },
        None => {},
    }

    let ghost old_markers = audio.markers@;
    let mut kept: Vec<(usize, String)> = Vec::new();
    let mut i: usize = 0;
    while i < audio.markers.len()
        invariant
            start < end,
            deleted == end - start,
            old_markers == audio.markers@,
            i <= old_markers.len(),
            kept@ == spec_markers_after_delete(old_markers.subrange(0, i as int), start as nat, end as nat),
        decreases old_markers.len() - i,
    {
        proof {
            assert(old_markers.subrange(0, i + 1).drop_last() =~= old_markers.subrange(0, i as int));
        }
        let sample = audio.markers[i].0;
        if sample < start {
            kept.push((sample, audio.markers[i].1.clone()));
        } else if sample >= end {
            kept.push((sample - deleted, audio.markers[i].1.clone()));
        }
        i += 1;
    }
    proof {
        assert(old_markers.subrange(0, old_markers.len() as int) =~= old_markers);
        lemma_delete_keeps_markers_outside_cut(old_markers, start as nat, end as nat);
    }
    audio.markers = kept;
}

/// The interleaved samples of a clip region, clamped to the whole frames of
/// `samples`; without a region, all samples.
pub fn clip_samples<T: Copy>(samples: &[T], channels: usize, region: Option<AudioRegion>) -> (clip: Vec<T>)
    ensures
        clip@ == match region {
            None => samples@,
            Some(r) => {
                let range = clamped_range(frame_count(samples@.len(), channels), r.offset as nat, r.length as nat);
                samples@.subrange((range.0 * channel_count(channels)) as int, (range.1 * channel_count(channels)) as int)
            },
        },
{
    let ch = if channels == 0 { 1 } else { channels };
    let (lo, hi) = match region {
        None => (0, samples.len()),
        Some(r) => {
            let (start, end) = crate::edits::edit_frame_range(samples.len(), channels, r.offset, r.length);
            proof {
                assert(start * ch <= end * ch) by (nonlinear_arith)
                    requires start <= end, ch > 0;
            }
            (start * ch, end * ch)
        },
    };
    let mut clip: Vec<T> = Vec::new();
    let mut i: usize = lo;
    while i < hi
        invariant
            lo <= i <= hi <= samples@.len(),
            clip@ == samples@.subrange(lo as int, i as int),
        decreases hi - i,
    {
        clip.push(samples[i]);
        proof { assert(clip@ =~= samples@.subrange(lo as int, i + 1)); }
        i += 1;
    }
    proof {
        if region is None {
            assert(samples@.subrange(0, samples@.len() as int) =~= samples@);
        }
    }
    clip
}

/// Splits interleaved samples into one sequence per channel; a trailing
/// partial frame is dropped.
pub fn deinterleave<T: Copy>(samples: &[T], channels: usize) -> (output: Vec<Vec<T>>)
    ensures
        output@.len() == channel_count(channels),
        forall|c: int| 0 <= c < channel_count(channels) ==>
            (#[trigger] output@[c])@.len() == frame_count(samples@.len(), channels),
        forall|c: int, f: int| 0 <= c < channel_count(channels) && 0 <= f < frame_count(samples@.len(), channels) ==>
            #[trigger] output@[c]@[f] == samples@[f * channel_count(channels) + c],
{
    let ch = if channels == 0 { 1 } else { channels };
    let frames = samples.len() / ch;
    let ghost chn = ch as int;
    let ghost fr = frames as int;
    proof {
        assert(fr * chn <= samples@.len()) by (nonlinear_arith)
            requires fr == samples@.len() as int / chn, chn > 0;
    }
    let mut output: Vec<Vec<T>> = Vec::new();
    let mut c: usize = 0;
    while c < ch
        invariant
            ch == chn, frames == fr, chn > 0,
            fr * chn <= samples@.len(),
            samples@.len() <= usize::MAX,
            c <= ch,
            output@.len() == c,
            forall|d: int| 0 <= d < c ==> (#[trigger] output@[d])@.len() == fr,
            forall|d: int, f: int| 0 <= d < c && 0 <= f < fr ==>
                #[trigger] output@[d]@[f] == samples@[f * chn + d],
        decreases ch - c,
    {
        let mut channel: Vec<T> = Vec::new();
        let mut f: usize = 0;
        while f < frames
            invariant
                ch == chn, frames == fr, chn > 0, c < ch,
                fr * chn <= samples@.len(),
                samples@.len() <= usize::MAX,
                f <= frames,
                channel@.len() == f,
                forall|g: int| 0 <= g < f ==> #[trigger] channel@[g] == samples@[g * chn + c],
            decreases frames - f,
        {
            proof {
                assert(f * chn + c < fr * chn) by (nonlinear_arith)
                    requires f < fr, c < chn;
            }
            channel.push(samples[f * ch + c]);
            f += 1;
        }
        output.push(channel);
        c += 1;
    }
    output
}


/// The sign of a frame's channel average, which decides where the waveform
/// crosses zero. `Unordered` is an average that compares with nothing (not
/// a number).
#[derive(Debug, Clone, Copy, PartialEq, Eq, Structural)]
pub enum FrameSign {
    Negative,
    Zero,
    Positive,
    Unordered,
}

/// Whether the waveform crosses zero going from a frame of sign `previous`
/// to one of sign `current`: from above zero to at most zero, or from below
/// zero to at least zero.
pub open spec fn crosses_zero(previous: FrameSign, current: FrameSign) -> bool {
    ||| previous == FrameSign::Positive && (current == FrameSign::Zero || current == FrameSign::Negative)
    ||| previous == FrameSign::Negative && (current == FrameSign::Zero || current == FrameSign::Positive)
}

/// Frame `f` ends a zero crossing.
pub open spec fn crossing_at(signs: Seq<FrameSign>, f: int) -> bool {
    1 <= f < signs.len() && crosses_zero(signs[f - 1], signs[f])
}

/// The first frame after `start_frame` at which the waveform, whose frame
/// signs are `signs`, crosses zero; `None` when there is none.
pub fn next_zero_crossing_frame(signs: &[FrameSign], start_frame: usize) -> (frame: Option<usize>)
    ensures
        match frame {
            Some(f) => start_frame < f && crossing_at(signs@, f as int)
                && forall|g: int| start_frame < g < f ==> !crossing_at(signs@, g),
            None => forall|g: int| start_frame < g < signs@.len() ==> !crossing_at(signs@, g),
        },
{
    let frames = signs.len();
    if start_frame >= frames {
        return None;
    }
    let mut f: usize = start_frame + 1;
    while f < frames
        invariant
            frames == signs@.len(),
            start_frame < f <= frames,
            forall|g: int| start_frame < g < f ==> !crossing_at(signs@, g),
        decreases frames - f,
    {
        let previous = signs[f - 1];
        let current = signs[f];
        let crossed = match previous {
            FrameSign::Positive => current == FrameSign::Zero || current == FrameSign::Negative,
            FrameSign::Negative => current == FrameSign::Zero || current == FrameSign::Positive,
            _ => false,
        };
        if crossed {
            return Some(f);
        }
        f += 1;
    }
    None
}


/// Makes a path from text (`PathBuf::from`).
#[verifier::external_body]
fn path_from(text: String) -> (path: PathBuf)
{
    PathBuf::from(text)
}

/// A fresh document (no edits, no markers) holding the clip `region` of
/// decoded interleaved `samples` (all of them without a region): its
/// preview is the clip itself, split per channel for the waveform, and its
/// peak is what `peak_of` measures on the preview. `no_gain` is the clip
/// gain of an unedited document.
pub fn from_decoded<T: Copy, G: Copy, F: Fn(&Vec<T>) -> T>(
    source_path: PathBuf,
    save_path: Option<PathBuf>,
    samples: &[T],
    channels: usize,
    sample_rate: u32,
    region: Option<AudioRegion>,
    no_gain: G,
    peak_of: F,
) -> (audio: AudioDocument<T, G>)
    requires
        forall|preview: &Vec<T>| peak_of.requires((preview,)),
    ensures
        audio.source_path == source_path,
        audio.save_path == save_path,
        audio.samples@ == match region {
            None => samples@,
            Some(r) => {
                let range = clamped_range(frame_count(samples@.len(), channels), r.offset as nat, r.length as nat);
                samples@.subrange((range.0 * channel_count(channels)) as int, (range.1 * channel_count(channels)) as int)
            },
        },
        audio.preview_samples@ == audio.samples@,
        audio.channels == channels,
        audio.sample_rate == sample_rate,
        audio.channel_samples@.len() == channel_count(channels),
        forall|c: int| 0 <= c < channel_count(channels) ==>
            (#[trigger] audio.channel_samples@[c])@.len() == frame_count(audio.samples@.len(), channels),
        forall|c: int, f: int| 0 <= c < channel_count(channels) && 0 <= f < frame_count(audio.samples@.len(), channels) ==>
            #[trigger] audio.channel_samples@[c]@[f] == audio.samples@[f * channel_count(channels) + c],
        peak_of.ensures((&audio.preview_samples,), audio.peak),
        audio.clip_region == region,
        audio.edits == (AudioEdits { fade_in_samples: 0, fade_out_samples: 0, gain_db: no_gain, reversed: false }),
        audio.edit_actions@.len() == 0,
        audio.markers@.len() == 0,
{
    let clip = clip_samples(samples, channels, region);
    let preview = copy_vec(&clip);
    let channel_samples = deinterleave(preview.as_slice(), channels);
    let peak = peak_of(&preview);
    AudioDocument {
        source_path,
        save_path,
        samples: clip,
        preview_samples: preview,
        channels,
        sample_rate,
        channel_samples,
        peak,
        clip_region: region,
        edits: AudioEdits { fade_in_samples: 0, fade_out_samples: 0, gain_db: no_gain, reversed: false },
        edit_actions: Vec::new(),
        markers: Vec::new(),
    }
}

impl<T: Copy, G: Copy> AudioDocument<T, G> {
    /// A document for audio handed over by a host, named `name` (or
    /// `embedded audio` when the name is empty), with at least one channel
    /// and a sample rate of at least 1 Hz; otherwise as [`from_decoded`]
    /// builds it, without a save path.
    pub fn from_interleaved<F: Fn(&Vec<T>) -> T>(
        name: String,
        samples: &[T],
        channels: usize,
        sample_rate: u32,
        region: Option<AudioRegion>,
        no_gain: G,
        peak_of: F,
    ) -> (audio: Self)
        requires
            forall|preview: &Vec<T>| peak_of.requires((preview,)),
        ensures
            audio.save_path is None,
            audio.channels == if channels == 0 { 1 } else { channels },
            audio.sample_rate == if sample_rate == 0 { 1 } else { sample_rate },
            audio.samples@ == match region {
                None => samples@,
                Some(r) => {
                    let range = clamped_range(frame_count(samples@.len(), channels), r.offset as nat, r.length as nat);
                    samples@.subrange((range.0 * channel_count(channels)) as int, (range.1 * channel_count(channels)) as int)
                },
            },
            audio.preview_samples@ == audio.samples@,
            audio.channel_samples@.len() == channel_count(channels),
            peak_of.ensures((&audio.preview_samples,), audio.peak),
            audio.clip_region == region,
            audio.edits == (AudioEdits { fade_in_samples: 0, fade_out_samples: 0, gain_db: no_gain, reversed: false }),
            audio.edit_actions@.len() == 0,
            audio.markers@.len() == 0,
    {
        let channels = if channels == 0 { 1 } else { channels };
        let sample_rate = if sample_rate == 0 { 1 } else { sample_rate };
        let source_name = if name.unicode_len() == 0 { String::from_str("embedded audio") } else { name };
        from_decoded(path_from(source_name), None, samples, channels, sample_rate, region, no_gain, peak_of)
    }
}


impl<T: Copy, G: Copy> AudioDocument<T, G> {
    /// Brings the derived parts up to date with the edit list: the summary
    /// (clip gain as `total_gain` makes it of the whole-clip gains), the
    /// preview (the samples with every action applied, fades and gains as
    /// `shape` computes them, silence as `silence`), its per-channel split,
    /// and its peak as `peak_of` measures it.
    pub fn rebuild_preview<S: Fn(SampleEdit<G>, T) -> T, F: Fn(Vec<G>) -> G, P: Fn(&Vec<T>) -> T>(
        &mut self,
        silence: T,
        shape: &S,
        total_gain: F,
        peak_of: P,
    )
        requires
            forall|edit: SampleEdit<G>, x: T| shape.requires((edit, x)),
            forall|deltas: Vec<G>| total_gain.requires((deltas,)),
            forall|preview: &Vec<T>| peak_of.requires((preview,)),
        ensures
            ({
                let env = spec_envelope(old(self).spec_frames(), old(self).edit_actions@);
                &&& final(self).edits.fade_in_samples == env.fade_in_samples
                &&& final(self).edits.fade_out_samples == env.fade_out_samples
                &&& final(self).edits.reversed == env.reversed
            }),
            exists|deltas: Vec<G>| deltas@ == spec_clip_gain_deltas(old(self).spec_frames(), old(self).edit_actions@)
                && #[trigger] total_gain.ensures((deltas,), final(self).edits.gain_db),
            actions_applied(old(self).samples@, final(self).preview_samples@, old(self).channels,
                old(self).edit_actions@, silence, *shape),
            final(self).channel_samples@.len() == channel_count(old(self).channels),
            forall|c: int| 0 <= c < channel_count(old(self).channels) ==>
                (#[trigger] final(self).channel_samples@[c])@.len() == frame_count(final(self).preview_samples@.len(), old(self).channels),
            forall|c: int, f: int| 0 <= c < channel_count(old(self).channels)
                && 0 <= f < frame_count(final(self).preview_samples@.len(), old(self).channels) ==>
                #[trigger] final(self).channel_samples@[c]@[f]
                    == final(self).preview_samples@[f * channel_count(old(self).channels) + c],
            peak_of.ensures((&final(self).preview_samples,), final(self).peak),
            *final(self) == (AudioDocument {
                edits: final(self).edits,
                preview_samples: final(self).preview_samples,
                channel_samples: final(self).channel_samples,
                peak: final(self).peak,
                ..*old(self)
            }),
    {
        let frames = self.frames();
        self.edits = summarize_audio_edit_actions(frames, self.edit_actions.as_slice(), total_gain);
        let preview = apply_audio_edit_actions(self.samples.as_slice(), self.channels, self.edit_actions.as_slice(), silence, shape);
        self.channel_samples = deinterleave(preview.as_slice(), self.channels);
        self.peak = peak_of(&preview);
        self.preview_samples = preview;
    }
}

} // verus!
