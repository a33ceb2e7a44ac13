//! Markers: the ranges they split a clip into, the region around a click,
//! and marker list upkeep.

use vstd::prelude::*;

use crate::document::AudioDocument;
use crate::edits::{channel_count, frame_count};
use crate::text::{decimal, push_str, spec_decimal};

verus! {

/// Whether some marker sits exactly at `sample`.
pub open spec fn has_marker_at(markers: Seq<(usize, String)>, sample: nat) -> bool {
    exists|j: int| 0 <= j < markers.len() && markers[j].0 == sample
}

/// The ranges `[start, end)` that the markers split `frames` frames into:
/// they cover `0..frames` in order without gaps, and they are split exactly
/// at the markers that lie strictly inside the clip.
pub open spec fn is_marker_partition(ranges: Seq<(usize, usize)>, markers: Seq<(usize, String)>, frames: nat) -> bool {
    &&& (frames == 0 <==> ranges.len() == 0)
    &&& ranges.len() > 0 ==> ranges[0].0 == 0 && ranges.last().1 == frames
    &&& forall|i: int| 0 <= i < ranges.len() ==> #[trigger] ranges[i].0 < ranges[i].1
    &&& forall|i: int| 0 <= i < ranges.len() - 1 ==> #[trigger] ranges[i].1 == ranges[i + 1].0
    &&& forall|i: int| 0 <= i < ranges.len() - 1 ==> has_marker_at(markers, #[trigger] ranges[i].1 as nat)
    &&& forall|j: int| 0 <= j < markers.len() && 0 < #[trigger] markers[j].0 < frames ==>
            exists|i: int| 0 <= i < ranges.len() - 1 && ranges[i].1 == markers[j].0
}

/// Splits `0..frames` at the in-bounds markers, in ascending order, each
/// position once.
#[verifier::rlimit(30)]
pub fn marker_ranges(markers: &[(usize, String)], frames: usize) -> (ranges: Vec<(usize, usize)>)
    ensures
        is_marker_partition(ranges@, markers@, frames as nat),
{
    let mut ranges: Vec<(usize, usize)> = Vec::new();
    let mut start: usize = 0;
    loop
        invariant
            start <= frames,
            ranges@.len() == 0 ==> start == 0,
            ranges@.len() > 0 ==> start > 0,
            ranges@.len() > 0 ==> ranges@[0].0 == 0 && ranges@.last().1 == start,
            forall|i: int| 0 <= i < ranges@.len() ==> #[trigger] ranges@[i].0 < ranges@[i].1,
            forall|i: int| 0 <= i < ranges@.len() - 1 ==> #[trigger] ranges@[i].1 == ranges@[i + 1].0,
            forall|i: int| 0 <= i < ranges@.len() ==> has_marker_at(markers@, #[trigger] ranges@[i].1 as nat),
            forall|j: int| 0 <= j < markers@.len() && 0 < #[trigger] markers@[j].0 <= start ==>
                exists|i: int| 0 <= i < ranges@.len() && ranges@[i].1 == markers@[j].0,
        ensures
            start <= frames,
            ranges@.len() == 0 ==> start == 0,
            ranges@.len() > 0 ==> start > 0,
            ranges@.len() > 0 ==> ranges@[0].0 == 0 && ranges@.last().1 == start,
            forall|i: int| 0 <= i < ranges@.len() ==> #[trigger] ranges@[i].0 < ranges@[i].1,
            forall|i: int| 0 <= i < ranges@.len() - 1 ==> #[trigger] ranges@[i].1 == ranges@[i + 1].0,
            forall|i: int| 0 <= i < ranges@.len() ==> has_marker_at(markers@, #[trigger] ranges@[i].1 as nat),
            forall|j: int| 0 <= j < markers@.len() && 0 < #[trigger] markers@[j].0 <= start ==>
                exists|i: int| 0 <= i < ranges@.len() && ranges@[i].1 == markers@[j].0,
            forall|j: int| 0 <= j < markers@.len() ==> !(start < #[trigger] markers@[j].0 <= frames),
        decreases frames - start,
    {
        // The smallest marker position in (start, frames].
        let mut next: Option<usize> = None;
        let mut j: usize = 0;
        while j < markers.len()
            invariant
                start <= frames,
                j <= markers@.len(),
                match next {
                    None => forall|k: int| 0 <= k < j ==> !(start < #[trigger] markers@[k].0 <= frames),
                    Some(m) => start < m <= frames && has_marker_at(markers@, m as nat)
                        && forall|k: int| 0 <= k < j && start < #[trigger] markers@[k].0 <= frames ==> m <= markers@[k].0,
                },
            decreases markers@.len() - j,
        {
            let sample = markers[j].0;
            if start < sample && sample <= frames {
                match next {
                    None => { next = Some(sample); },
                    Some(m) => { if sample < m { next = Some(sample); } },
                }
            }
            j += 1;
        }
        match next {
            None => { break; },
            Some(m) => {
                let ghost old_ranges = ranges@;
                ranges.push((start, m));
                proof {
                    assert forall|k: int| 0 <= k < markers@.len() && 0 < #[trigger] markers@[k].0 <= m implies
                        exists|i: int| 0 <= i < ranges@.len() && ranges@[i].1 == markers@[k].0 by {
                        if markers@[k].0 <= start {
                            let i = choose|i: int| 0 <= i < old_ranges.len() && old_ranges[i].1 == markers@[k].0;
                            assert(ranges@[i] == old_ranges[i]);
                        } else {
                            assert(markers@[k].0 == m);
                            assert(ranges@[ranges@.len() - 1].1 == m);
                        }
                    }
                }
                start = m;
            },
        }
    }
    if start < frames {
        let ghost old_ranges = ranges@;
        ranges.push((start, frames));
        proof {
            assert forall|k: int| 0 <= k < markers@.len() && 0 < #[trigger] markers@[k].0 < frames implies
                exists|i: int| 0 <= i < ranges@.len() - 1 && ranges@[i].1 == markers@[k].0 by {
                let i = choose|i: int| 0 <= i < old_ranges.len() && old_ranges[i].1 == markers@[k].0;
                assert(ranges@[i] == old_ranges[i]);
            }
            assert(forall|i: int| 0 <= i < ranges@.len() - 1 ==> ranges@[i] == old_ranges[i]);
        }
    } else {
        proof {
            assert forall|k: int| 0 <= k < markers@.len() && 0 < #[trigger] markers@[k].0 < frames implies
                exists|i: int| 0 <= i < ranges@.len() - 1 && ranges@[i].1 == markers@[k].0 by {
                let i = choose|i: int| 0 <= i < ranges@.len() && ranges@[i].1 == markers@[k].0;
                assert(i != ranges@.len() - 1);
            }
        }
    }
    ranges
}

/// The preview samples of the frames `[start, end)`, clamped to the clip.
pub fn marker_range_samples<T: Copy, G: Copy>(audio: &AudioDocument<T, G>, start: usize, end: usize) -> (range: Vec<T>)
    requires
        ({
            let frames = audio.spec_frames();
            let s = if start <= frames { start as nat } else { frames };
            let e = if end <= frames { end as nat } else { frames };
            s < e ==> e * channel_count(audio.channels) <= audio.preview_samples@.len()
        }),
    ensures
        ({
            let frames = audio.spec_frames();
            let ch = channel_count(audio.channels);
            let s = if start <= frames { start as nat } else { frames };
            let e = if end <= frames { end as nat } else { frames };
            range@ == if s >= e {
                Seq::<T>::empty()
            } else {
                audio.preview_samples@.subrange((s * ch) as int, (e * ch) as int)
            }
        }),
{
    let ch = if audio.channels == 0 { 1 } else { audio.channels };
    let frames = audio.frames();
    let s = if start <= frames { start } else { frames };
    let e = if end <= frames { end } else { frames };
    let mut range: Vec<T> = Vec::new();
    if s >= e {
        return range;
    }
    proof {
        assert(s * ch <= e * ch && e * ch <= frames * ch) by (nonlinear_arith)
            requires s <= e, e <= frames, ch > 0;
    }
    let plen = audio.preview_samples.len();
    proof {
        assert(e * ch <= plen);
    }
    let lo = s * ch;
    let hi = e * ch;
    let mut i: usize = lo;
    while i < hi
        invariant
            lo <= i <= hi <= audio.preview_samples@.len(),
            range@ == audio.preview_samples@.subrange(lo as int, i as int),
        decreases hi - i,
    {
        range.push(audio.preview_samples[i]);
        proof { assert(range@ =~= audio.preview_samples@.subrange(lo as int, i + 1)); }
        i += 1;
    }
    range
}

pub open spec fn abs_diff(a: nat, b: nat) -> nat {
    if a >= b { (a - b) as nat } else { (b - a) as nat }
}

/// The position of the marker closest to `target`; among equally close
/// markers the one listed first. `None` without markers.
pub fn nearest_marker_sample_to(markers: &[(usize, String)], target: usize) -> (nearest: Option<usize>)
    ensures
        markers@.len() == 0 <==> nearest is None,
        nearest matches Some(s) ==> exists|j: int| 0 <= j < markers@.len() && markers@[j].0 == s
            && (forall|k: int| 0 <= k < markers@.len() ==>
                    abs_diff(s as nat, target as nat) <= abs_diff(#[trigger] markers@[k].0 as nat, target as nat))
            && (forall|k: int| 0 <= k < j ==>
                    abs_diff(s as nat, target as nat) < abs_diff(#[trigger] markers@[k].0 as nat, target as nat)),
{
    if markers.len() == 0 {
        return None;
    }
    let mut best: usize = 0;
    let mut i: usize = 1;
    while i < markers.len()
        invariant
            1 <= i <= markers@.len(),
            best < i,
            forall|k: int| 0 <= k < i ==>
                abs_diff(markers@[best as int].0 as nat, target as nat) <= abs_diff(#[trigger] markers@[k].0 as nat, target as nat),
            forall|k: int| 0 <= k < best ==>
                abs_diff(markers@[best as int].0 as nat, target as nat) < abs_diff(#[trigger] markers@[k].0 as nat, target as nat),
        decreases markers@.len() - i,
    {
        let candidate = markers[i].0;
        let current = markers[best].0;
        let dc = if candidate >= target { candidate - target } else { target - candidate };
        let db = if current >= target { current - target } else { target - current };
        if dc < db {
            best = i;
        }
        i += 1;
    }
    Some(markers[best].0)
}

/// `region` is the stretch around `click`: from the closest marker before
/// the click (or the clip start) to the closest marker after it; past the
/// last marker, from the last marker to the clip end `frames`.
pub open spec fn spec_marker_region_around(markers: Seq<(usize, String)>, frames: usize, click: usize, region: (usize, usize)) -> bool {
    &&& (exists|j: int| 0 <= j < markers.len() && markers[j].0 > click) ==> {
        &&& exists|j: int| 0 <= j < markers.len() && markers[j].0 > click && markers[j].0 == region.1
        &&& forall|j: int| 0 <= j < markers.len() && #[trigger] markers[j].0 > click ==> region.1 <= markers[j].0
        &&& (exists|j: int| 0 <= j < markers.len() && markers[j].0 < click) ==>
                (exists|j: int| 0 <= j < markers.len() && markers[j].0 < click && markers[j].0 == region.0)
        &&& forall|j: int| 0 <= j < markers.len() && #[trigger] markers[j].0 < click ==> markers[j].0 <= region.0
        &&& !(exists|j: int| 0 <= j < markers.len() && markers[j].0 < click) ==> region.0 == 0
    }
    &&& !(exists|j: int| 0 <= j < markers.len() && markers[j].0 > click) ==> {
        &&& region.1 == frames
        &&& markers.len() == 0 ==> region.0 == 0
        &&& markers.len() > 0 ==> (exists|j: int| 0 <= j < markers.len() && markers[j].0 == region.0)
        &&& forall|j: int| 0 <= j < markers.len() ==> #[trigger] markers[j].0 <= region.0
    }
}

/// The selection that a double click at `click` picks: from the closest
/// marker before the click (or the clip start) to the closest marker after
/// it; past the last marker, from the last marker to the clip end.
pub fn marker_region_around(markers: &[(usize, String)], frames: usize, click: usize) -> (region: (usize, usize))
    ensures
        spec_marker_region_around(markers@, frames, click, region),
{
    let mut above: Option<usize> = None;
    let mut below: Option<usize> = None;
    let mut last: Option<usize> = None;
    let mut i: usize = 0;
    while i < markers.len()
        invariant
            i <= markers@.len(),
            match above {
                None => forall|k: int| 0 <= k < i ==> #[trigger] markers@[k].0 <= click,
                Some(m) => m > click && (exists|k: int| 0 <= k < i && markers@[k].0 == m)
                    && forall|k: int| 0 <= k < i && #[trigger] markers@[k].0 > click ==> m <= markers@[k].0,
            },
            match below {
                None => forall|k: int| 0 <= k < i ==> #[trigger] markers@[k].0 >= click,
                Some(m) => m < click && (exists|k: int| 0 <= k < i && markers@[k].0 == m)
                    && forall|k: int| 0 <= k < i && #[trigger] markers@[k].0 < click ==> markers@[k].0 <= m,
            },
            match last {
                None => i == 0,
                Some(m) => (exists|k: int| 0 <= k < i && markers@[k].0 == m)
                    && forall|k: int| 0 <= k < i ==> #[trigger] markers@[k].0 <= m,
            },
        decreases markers@.len() - i,
    {
        let sample = markers[i].0;
        if sample > click {
            match above {
                None => { above = Some(sample); },
                Some(m) => { if sample < m { above = Some(sample); } },
            }
        }
        if sample < click {
            match below {
                None => { below = Some(sample); },
                Some(m) => { if sample > m { below = Some(sample); } },
            }
        }
        match last {
            None => { last = Some(sample); },
            Some(m) => { if sample > m { last = Some(sample); } },
        }
        i += 1;
    }
    match above {
        Some(next) => {
            let prev = match below { Some(m) => m, None => 0 };
            (prev, next)
        },
        None => {
            let start = match last { Some(m) => m, None => 0 };
            (start, frames)
        },
    }
}

/// The markers that remain after removing every marker at `sample`.
pub open spec fn spec_markers_without(markers: Seq<(usize, String)>, sample: nat) -> Seq<(usize, String)>
    decreases markers.len(),
{
    if markers.len() == 0 {
        Seq::empty()
    } else {
        let rest = spec_markers_without(markers.drop_last(), sample);
        if markers.last().0 == sample { rest } else { rest.push(markers.last()) }
    }
}

/// Removes every marker at `sample`, keeping the order of the others;
/// reports whether any was removed.
pub fn remove_markers_at(markers: &mut Vec<(usize, String)>, sample: usize) -> (removed: bool)
    ensures
        final(markers)@ == spec_markers_without(old(markers)@, sample as nat),
        removed == has_marker_at(old(markers)@, sample as nat),
{
    let ghost original = markers@;
    let mut kept: Vec<(usize, String)> = Vec::new();
    let mut removed = false;
    let mut i: usize = 0;
    while i < markers.len()
        invariant
            markers@ == original,
            i <= original.len(),
            kept@ == spec_markers_without(original.subrange(0, i as int), sample as nat),
            removed == has_marker_at(original.subrange(0, i as int), sample as nat),
        decreases original.len() - i,
    {
        proof {
            let prefix = original.subrange(0, i + 1);
            assert(prefix.drop_last() =~= original.subrange(0, i as int));
            if has_marker_at(original.subrange(0, i as int), sample as nat) {
                let k = choose|k: int| 0 <= k < i && original.subrange(0, i as int)[k].0 == sample;
                assert(prefix[k].0 == sample);
            }
            if original[i as int].0 == sample {
                assert(prefix[i as int].0 == sample);
            }
            if has_marker_at(prefix, sample as nat) && original[i as int].0 != sample {
                let k = choose|k: int| 0 <= k < i + 1 && prefix[k].0 == sample;
                assert(original.subrange(0, i as int)[k].0 == sample);
            }
        }
        if markers[i].0 == sample {
            removed = true;
        } else {
            kept.push((markers[i].0, markers[i].1.clone()));
        }
        i += 1;
    }
    proof { assert(original.subrange(0, original.len() as int) =~= original); }
    *markers = kept;
    removed
}

/// Two markers with the same position and name.
pub open spec fn same_marker(a: (usize, String), b: (usize, String)) -> bool {
    a.0 == b.0 && a.1@ == b.1@
}

/// Position in `sorted` after every marker at or before `sample`.
pub open spec fn insertion_point(sorted: Seq<(usize, String)>, sample: usize) -> nat
    decreases sorted.len(),
{
    if sorted.len() == 0 {
        0
    } else if sorted.last().0 <= sample {
        sorted.len()
    } else {
        insertion_point(sorted.drop_last(), sample)
    }
}

/// The markers ordered by position; markers at the same position keep
/// their relative order.
pub open spec fn spec_sort_markers(markers: Seq<(usize, String)>) -> Seq<(usize, String)>
    decreases markers.len(),
{
    if markers.len() == 0 {
        markers
    } else {
        let sorted = spec_sort_markers(markers.drop_last());
        sorted.insert(insertion_point(sorted, markers.last().0) as int, markers.last())
    }
}

/// The markers without any marker equal to the one kept right before it.
pub open spec fn spec_dedup_markers(markers: Seq<(usize, String)>) -> Seq<(usize, String)>
    decreases markers.len(),
{
    if markers.len() == 0 {
        markers
    } else {
        let kept = spec_dedup_markers(markers.drop_last());
        if kept.len() > 0 && same_marker(kept.last(), markers.last()) { kept } else { kept.push(markers.last()) }
    }
}

pub open spec fn sorted_by_position(markers: Seq<(usize, String)>) -> bool {
    forall|i: int, j: int| 0 <= i <= j < markers.len() ==> #[trigger] markers[i].0 <= #[trigger] markers[j].0
}

proof fn lemma_insertion_point(sorted: Seq<(usize, String)>, sample: usize)
    requires
        sorted_by_position(sorted),
    ensures
        insertion_point(sorted, sample) <= sorted.len(),
        forall|i: int| 0 <= i < insertion_point(sorted, sample) ==> #[trigger] sorted[i].0 <= sample,
        forall|i: int| insertion_point(sorted, sample) <= i < sorted.len() ==> #[trigger] sorted[i].0 > sample,
    decreases sorted.len(),
{
    if sorted.len() > 0 {
        let last = sorted.len() - 1;
        if sorted[last].0 > sample {
            let prefix = sorted.drop_last();
            assert forall|i: int, j: int| 0 <= i <= j < prefix.len() implies
                #[trigger] prefix[i].0 <= #[trigger] prefix[j].0 by {
                assert(prefix[i] == sorted[i] && prefix[j] == sorted[j]);
            }
            lemma_insertion_point(prefix, sample);
            let k = insertion_point(sorted, sample);
            assert forall|i: int| 0 <= i < k implies #[trigger] sorted[i].0 <= sample by {
                assert(prefix[i] == sorted[i]);
            }
            assert forall|i: int| k <= i < sorted.len() implies #[trigger] sorted[i].0 > sample by {
                if i < last {
                    assert(prefix[i] == sorted[i]);
                }
            }
        } else {
            assert forall|i: int| 0 <= i < sorted.len() implies #[trigger] sorted[i].0 <= sample by {
                assert(sorted[i].0 <= sorted[last].0);
            }
        }
    }
}

proof fn lemma_sort_markers_sorted(markers: Seq<(usize, String)>)
    ensures
        sorted_by_position(spec_sort_markers(markers)),
        spec_sort_markers(markers).len() == markers.len(),
    decreases markers.len(),
{
    if markers.len() > 0 {
        let sorted = spec_sort_markers(markers.drop_last());
        lemma_sort_markers_sorted(markers.drop_last());
        lemma_insertion_point(sorted, markers.last().0);
        let k = insertion_point(sorted, markers.last().0) as int;
        let r = sorted.insert(k, markers.last());
        assert forall|i: int, j: int| 0 <= i <= j < r.len() implies #[trigger] r[i].0 <= #[trigger] r[j].0 by {
            if i < k && j < k {
            } else if i < k && j == k {
            } else if i < k && j > k {
                assert(r[j] == sorted[j - 1]);
            } else if i == k && j > k {
                assert(r[j] == sorted[j - 1]);
            } else if i > k {
                assert(r[i] == sorted[i - 1]);
                assert(r[j] == sorted[j - 1]);
            }
        }
    }
}

proof fn lemma_dedup_keeps_order(markers: Seq<(usize, String)>)
    requires
        sorted_by_position(markers),
    ensures
        sorted_by_position(spec_dedup_markers(markers)),
        spec_dedup_markers(markers).len() <= markers.len(),
        markers.len() > 0 ==> spec_dedup_markers(markers).len() > 0
            && spec_dedup_markers(markers).last().0 == markers.last().0,
        forall|i: int| 0 <= i < spec_dedup_markers(markers).len() ==>
            exists|j: int| 0 <= j < markers.len() && #[trigger] spec_dedup_markers(markers)[i] == markers[j],
    decreases markers.len(),
{
    if markers.len() > 0 {
        let prefix = markers.drop_last();
        assert(sorted_by_position(prefix));
        lemma_dedup_keeps_order(prefix);
        let kept = spec_dedup_markers(prefix);
        let r = spec_dedup_markers(markers);
        assert forall|i: int| 0 <= i < r.len() implies
            exists|j: int| 0 <= j < markers.len() && #[trigger] r[i] == markers[j] by {
            if i < kept.len() {
                let j = choose|j: int| 0 <= j < prefix.len() && kept[i] == prefix[j];
                assert(r[i] == markers[j]);
            } else {
                assert(r[i] == markers[markers.len() - 1]);
            }
        }
        assert forall|i: int, j: int| 0 <= i <= j < r.len() implies #[trigger] r[i].0 <= #[trigger] r[j].0 by {
            let a = choose|a: int| 0 <= a < markers.len() && r[i] == markers[a];
            if j < kept.len() {
            } else {
                if i < kept.len() {
                    let b = choose|b: int| 0 <= b < prefix.len() && kept[i] == prefix[b];
                    assert(markers[b].0 <= markers[markers.len() - 1].0);
                }
            }
        }
    }
}

/// Adds `added` to the markers, orders them by position and drops each
/// marker equal to the one right before it.
pub fn add_markers(markers: &mut Vec<(usize, String)>, added: Vec<(usize, String)>)
    ensures
        final(markers)@ == spec_dedup_markers(spec_sort_markers(old(markers)@ + added@)),
        sorted_by_position(final(markers)@),
{
    let mut all = crate::document::copy_markers(markers);
    let mut i: usize = 0;
    while i < added.len()
        invariant
            i <= added@.len(),
            all@ == old(markers)@ + added@.subrange(0, i as int),
        decreases added@.len() - i,
    {
        all.push((added[i].0, added[i].1.clone()));
        proof { assert(all@ =~= old(markers)@ + added@.subrange(0, i + 1)); }
        i += 1;
    }
    proof { assert(added@.subrange(0, added@.len() as int) =~= added@); }
    let ghost combined = all@;
    let mut sorted: Vec<(usize, String)> = Vec::new();
    let mut k: usize = 0;
    while k < all.len()
        invariant
            all@ == combined,
            k <= combined.len(),
            sorted@ == spec_sort_markers(combined.subrange(0, k as int)),
            sorted@.len() == k,
        decreases combined.len() - k,
    {
        proof {
            assert(combined.subrange(0, k + 1).drop_last() =~= combined.subrange(0, k as int));
            lemma_sort_markers_sorted(combined.subrange(0, k as int));
        }
        let sample = all[k].0;
        let mut pos: usize = sorted.len();
        proof { assert(sorted@.subrange(0, pos as int) =~= sorted@); }
        while pos > 0 && sorted[pos - 1].0 > sample
            invariant
                pos <= sorted@.len(),
                insertion_point(sorted@, sample) == insertion_point(sorted@.subrange(0, pos as int), sample),
            decreases pos,
        {
            proof {
                assert(sorted@.subrange(0, pos as int).drop_last() =~= sorted@.subrange(0, pos - 1));
            }
            pos -= 1;
        }
        proof {
            if pos > 0 {
                assert(sorted@.subrange(0, pos as int).last() == sorted@[pos - 1]);
            }
            assert(insertion_point(sorted@.subrange(0, pos as int), sample) == pos);
        }
        sorted.insert(pos, (sample, all[k].1.clone()));
        k += 1;
    }
    proof {
        assert(combined.subrange(0, combined.len() as int) =~= combined);
        lemma_sort_markers_sorted(combined);
    }
    let ghost ordered = sorted@;
    let mut result: Vec<(usize, String)> = Vec::new();
    let mut j: usize = 0;
    while j < sorted.len()
        invariant
            sorted@ == ordered,
            j <= ordered.len(),
            result@ == spec_dedup_markers(ordered.subrange(0, j as int)),
        decreases ordered.len() - j,
    {
        proof { assert(ordered.subrange(0, j + 1).drop_last() =~= ordered.subrange(0, j as int)); }
        let n = result.len();
        let duplicate = n > 0 && result[n - 1].0 == sorted[j].0 && result[n - 1].1 == sorted[j].1;
        if !duplicate {
            result.push((sorted[j].0, sorted[j].1.clone()));
        }
        j += 1;
    }
    proof {
        assert(ordered.subrange(0, ordered.len() as int) =~= ordered);
        lemma_dedup_keeps_order(ordered);
    }
    *markers = result;
}

/// First frame of the run of silent frames around frame `f`.
pub open spec fn run_start(silent: Seq<bool>, f: int) -> int
    decreases f,
{
    if f <= 0 || !silent[f - 1] { f } else { run_start(silent, f - 1) }
}

/// One past the last frame of the run of silent frames around frame `f`.
pub open spec fn run_end(silent: Seq<bool>, f: int) -> int
    decreases silent.len() - f,
{
    if f + 1 >= silent.len() || !silent[f + 1] { f + 1 } else { run_end(silent, f + 1) }
}

/// A frame counts as sound unless it lies in a run of at least
/// `silence_samples` silent frames.
pub open spec fn is_sound(silent: Seq<bool>, silence_samples: nat, f: int) -> bool {
    !silent[f] || run_end(silent, f) - run_start(silent, f) < silence_samples
}

/// `p` starts or ends a stretch of sound frames.
pub open spec fn is_sound_boundary(silent: Seq<bool>, silence_samples: nat, p: int) -> bool {
    ||| (p < silent.len() && is_sound(silent, silence_samples, p) && (p == 0 || !is_sound(silent, silence_samples, p - 1)))
    ||| (p > 0 && is_sound(silent, silence_samples, p - 1) && (p == silent.len() || !is_sound(silent, silence_samples, p)))
}

/// The sound boundaries below `p`, ascending.
pub open spec fn sound_boundaries(silent: Seq<bool>, silence_samples: nat, p: nat) -> Seq<usize>
    decreases p,
{
    if p == 0 {
        Seq::empty()
    } else {
        let below = sound_boundaries(silent, silence_samples, (p - 1) as nat);
        if is_sound_boundary(silent, silence_samples, p - 1) { below.push((p - 1) as usize) } else { below }
    }
}

pub open spec fn region_name(index: nat) -> Seq<char> {
    "Region "@ + spec_decimal(index)
}

proof fn lemma_run_bounds(silent: Seq<bool>, a: int, b: int, g: int)
    requires
        0 <= a <= g < b <= silent.len(),
        a == 0 || !silent[a - 1],
        b == silent.len() || !silent[b],
        forall|k: int| a <= k < b ==> #[trigger] silent[k],
    ensures
        run_start(silent, g) == a,
        run_end(silent, g) == b,
{
    lemma_run_start(silent, a, g);
    lemma_run_end(silent, b, g);
}

proof fn lemma_run_start(silent: Seq<bool>, a: int, g: int)
    requires
        0 <= a <= g < silent.len(),
        a == 0 || !silent[a - 1],
        forall|k: int| a <= k <= g ==> #[trigger] silent[k],
    ensures
        run_start(silent, g) == a,
    decreases g - a,
{
    if g > a {
        lemma_run_start(silent, a, g - 1);
    }
}

proof fn lemma_run_end(silent: Seq<bool>, b: int, g: int)
    requires
        0 <= g < b <= silent.len(),
        b == silent.len() || !silent[b],
        forall|k: int| g <= k < b ==> #[trigger] silent[k],
    ensures
        run_end(silent, g) == b,
    decreases b - g,
{
    if g + 1 < b {
        lemma_run_end(silent, b, g + 1);
    }
}

/// Markers around the stretches of sound in a clip whose frames are marked
/// silent or not: a run of at least `silence_samples` silent frames
/// separates stretches, a shorter run belongs to the sound around it. Each
/// stretch gets a marker at its first frame and one just past its last, all
/// in ascending order and named `Region 1`, `Region 2`, ...
pub fn detect_markers_from_silence(silent: &[bool], silence_samples: usize) -> (markers: Vec<(usize, String)>)
    requires
        silent@.len() < usize::MAX,
    ensures
        markers_match(markers@, sound_boundaries(silent@, silence_samples as nat, (silent@.len() + 1) as nat)),
{
    let n = silent.len();
    let ghost s = silent@;
    let ghost thr = silence_samples as nat;
    let mut sound: Vec<bool> = Vec::new();
    let mut f: usize = 0;
    while f < n
        invariant
            n == s.len(),
            s == silent@,
            thr == silence_samples as nat,
            f <= n,
            sound@.len() == f,
            f < n && s[f as int] ==> (f == 0 || !s[f - 1]),
            forall|g: int| 0 <= g < f ==> #[trigger] sound@[g] == is_sound(s, thr, g),
        decreases n - f,
    {
        if !silent[f] {
            sound.push(true);
            f += 1;
        } else {
            let mut b: usize = f;
            while b < n && silent[b]
                invariant
                    f <= b <= n,
                    n == s.len(),
                    s == silent@,
                    forall|k: int| f <= k < b ==> #[trigger] s[k],
                decreases n - b,
            {
                b += 1;
            }
            let long = b - f >= silence_samples;
            let mut g: usize = f;
            while g < b
                invariant
                    f <= g <= b <= n,
                    f < b,
                    n == s.len(),
                    s == silent@,
                    sound@.len() == g,
                    f == 0 || !s[f - 1],
                    b == n || !s[b as int],
                    forall|k: int| f <= k < b ==> #[trigger] s[k],
                    long == (b - f >= silence_samples),
                    thr == silence_samples as nat,
                    forall|k: int| 0 <= k < g ==> #[trigger] sound@[k] == is_sound(s, thr, k),
                decreases b - g,
            {
                proof {
                    lemma_run_bounds(s, f as int, b as int, g as int);
                    assert(s[g as int]);
                    assert(run_end(s, g as int) - run_start(s, g as int) == b - f);
                    assert(is_sound(s, thr, g as int) == !long);
                }
                sound.push(!long);
                proof {
                    assert(sound@[g as int] == is_sound(s, thr, g as int));
                }
                g += 1;
            }
            f = b;
        }
    }
    let mut markers: Vec<(usize, String)> = Vec::new();
    let mut p: usize = 0;
    while p < n
        invariant
            n == s.len(),
            sound@.len() == n,
            forall|g: int| 0 <= g < n ==> #[trigger] sound@[g] == is_sound(s, thr, g),
            p <= n,
            markers@.len() <= p,
            markers_match(markers@, sound_boundaries(s, thr, p as nat)),
        decreases n - p,
    {
        let starts = sound[p] && (p == 0 || !sound[p - 1]);
        let ends = p > 0 && sound[p - 1] && !sound[p];
        push_boundary_marker(&mut markers, p, starts || ends);
        proof {
            assert(is_sound_boundary(s, thr, p as int) == (starts || ends));
        }
        p += 1;
    }
    let ends = n > 0 && sound[n - 1];
    proof {
        assert(is_sound_boundary(s, thr, n as int) == ends);
    }
    push_boundary_marker(&mut markers, n, ends);
    markers
}

/// Markers whose positions are `bounds`, named `Region 1`, `Region 2`, ...
pub open spec fn markers_match(markers: Seq<(usize, String)>, bounds: Seq<usize>) -> bool {
    &&& markers.len() == bounds.len()
    &&& forall|i: int| 0 <= i < bounds.len() ==>
            (#[trigger] markers[i]).0 == bounds[i] && markers[i].1@ == region_name((i + 1) as nat)
}

fn push_boundary_marker(markers: &mut Vec<(usize, String)>, p: usize, boundary: bool)
    requires
        old(markers)@.len() <= p,
        p < usize::MAX,
    ensures
        final(markers)@.len() <= p + 1,
        forall|bounds: Seq<usize>| markers_match(old(markers)@, bounds) ==>
            markers_match(final(markers)@, if boundary { bounds.push(p) } else { bounds }),
{
    if boundary {
        let mut name = String::from_str("Region ");
        let index = markers.len() + 1;
        let number = decimal(index);
        push_str(&mut name, number.as_str());
        markers.push((p, name));
        proof {
            reveal_strlit("Region ");
        }
    }
}


} // verus!
