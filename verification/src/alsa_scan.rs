//! ALSA device discovery from the kernel's sound card listings: the card
//! names in `/proc/asound/cards`, the PCM devices in `/proc/asound/pcm`,
//! and the device list built from them and from what each device reports
//! it can do.

use vstd::prelude::*;

use crate::devices::{
    all_usable, fallback_sample_rates, oss_caps_fit, oss_frame_bytes, sort_and_dedup_devices, spec_dedup_devices, spec_sort_devices,
    spec_fallback_sample_rates, AudioDeviceOption,
};
use crate::ordered::positive_values;
use crate::text::{
    chars_of, decimal, lines_of, parse_unsigned, parse_unsigned_chars, push_str, slice_chars,
    spec_decimal, spec_lines, string_of, trim, trim_chars, trim_start, trim_start_chars,
};

verus! {

/// Which way a PCM device moves audio.
#[derive(Debug, Clone, Copy, PartialEq, Eq, Structural)]
pub enum PcmDirection {
    Playback,
    Capture,
}

impl PcmDirection {
    pub open spec fn spec_marker(self) -> Seq<char> {
        match self {
            PcmDirection::Playback => "playback"@,
            PcmDirection::Capture => "capture"@,
        }
    }

    /// The word that marks the direction in `/proc/asound/pcm`.
    pub fn marker(self) -> (marker: &'static str)
        ensures
            marker@ == self.spec_marker(),
    {
        match self {
            PcmDirection::Playback => "playback",
            PcmDirection::Capture => "capture",
        }
    }
}

/// Index of the first `c` in `s`.
pub open spec fn find_char(s: Seq<char>, c: char) -> Option<int>
    decreases s.len(),
{
    if s.len() == 0 {
        None
    } else if s[0] == c {
        Some(0)
    } else {
        match find_char(s.drop_first(), c) {
            Some(i) => Some(i + 1),
            None => None,
        }
    }
}

/// Index of the first `a` directly followed by `b` in `s`.
pub open spec fn find_pair(s: Seq<char>, a: char, b: char) -> Option<int>
    decreases s.len(),
{
    if s.len() < 2 {
        None
    } else if s[0] == a && s[1] == b {
        Some(0)
    } else {
        match find_pair(s.drop_first(), a, b) {
            Some(i) => Some(i + 1),
            None => None,
        }
    }
}

/// `s` holds `part` somewhere.
pub open spec fn contains_text(s: Seq<char>, part: Seq<char>) -> bool {
    exists|i: int| 0 <= i && i + part.len() <= s.len() && #[trigger] s.subrange(i, i + part.len()) == part
}

proof fn lemma_find_char(s: Seq<char>, c: char)
    ensures
        find_char(s, c) matches Some(i) ==> 0 <= i < s.len() && s[i] == c
            && forall|j: int| 0 <= j < i ==> s[j] != c,
        find_char(s, c) is None ==> forall|j: int| 0 <= j < s.len() ==> s[j] != c,
    decreases s.len(),
{
    if s.len() > 0 && s[0] != c {
        lemma_find_char(s.drop_first(), c);
        assert forall|j: int| 1 <= j < s.len() implies s[j] == s.drop_first()[j - 1] by {}
    }
}

proof fn lemma_find_pair(s: Seq<char>, a: char, b: char)
    ensures
        find_pair(s, a, b) matches Some(i) ==> 0 <= i && i + 1 < s.len() && s[i] == a && s[i + 1] == b
            && forall|j: int| 0 <= j < i ==> !(#[trigger] s[j] == a && s[j + 1] == b),
        find_pair(s, a, b) is None ==> forall|j: int| 0 <= j && j + 1 < s.len() ==> !(#[trigger] s[j] == a && s[j + 1] == b),
    decreases s.len(),
{
    if s.len() >= 2 && !(s[0] == a && s[1] == b) {
        lemma_find_pair(s.drop_first(), a, b);
        assert forall|j: int| 1 <= j < s.len() implies s[j] == s.drop_first()[j - 1] by {}
    }
}

/// Index of the first `c` in `s` (see [`find_char`]).
pub fn find_char_in(s: &[char], c: char) -> (found: Option<usize>)
    ensures
        match (found, find_char(s@, c)) {
            (Some(i), Some(j)) => i as int == j,
            (None, None) => true,
            _ => false,
        },
{
    let mut i: usize = 0;
    while i < s.len()
        invariant
            i <= s@.len(),
            forall|j: int| 0 <= j < i ==> s@[j] != c,
        decreases s@.len() - i,
    {
        if s[i] == c {
            proof { lemma_find_char(s@, c); }
            return Some(i);
        }
        i += 1;
    }
    proof { lemma_find_char(s@, c); }
    None
}

/// Index of the first `a` followed by `b` in `s` (see [`find_pair`]).
pub fn find_pair_in(s: &[char], a: char, b: char) -> (found: Option<usize>)
    ensures
        match (found, find_pair(s@, a, b)) {
            (Some(i), Some(j)) => i as int == j,
            (None, None) => true,
            _ => false,
        },
{
    if s.len() < 2 {
        proof { lemma_find_pair(s@, a, b); }
        return None;
    }
    let mut i: usize = 0;
    while i < s.len() - 1
        invariant
            s@.len() >= 2,
            i <= s@.len() - 1,
            forall|j: int| 0 <= j < i && j + 1 < s@.len() ==> !(#[trigger] s@[j] == a && s@[j + 1] == b),
        decreases s@.len() - i,
    {
        if s[i] == a && s[i + 1] == b {
            proof { lemma_find_pair(s@, a, b); }
            return Some(i);
        }
        i += 1;
    }
    proof { lemma_find_pair(s@, a, b); }
    None
}

/// Whether `s` holds `part` (see [`contains_text`]).
pub fn contains_chars(s: &[char], part: &[char]) -> (found: bool)
    ensures
        found == contains_text(s@, part@),
{
    if part.len() > s.len() {
        return false;
    }
    if part.len() == 0 {
        proof {
            assert(s@.subrange(0int, 0int + part@.len()) =~= part@);
            assert(contains_text(s@, part@));
        }
        return true;
    }
    let mut i: usize = 0;
    while i <= s.len() - part.len()
        invariant
            1 <= part@.len() <= s@.len(),
            i <= s@.len() - part@.len() + 1,
            forall|k: int| 0 <= k < i && k + part@.len() <= s@.len() ==> #[trigger] s@.subrange(k, k + part@.len()) != part@,
        decreases s@.len() - i,
    {
        let piece = slice_chars(s, i, i + part.len());
        if crate::text::starts_with_chars(&piece, part) {
            proof { assert(piece@.subrange(0, part@.len() as int) =~= piece@); }
            return true;
        }
        proof {
            assert(piece@ == s@.subrange(i as int, i + part@.len()));
            if piece@ == part@ { assert(piece@.subrange(0, part@.len() as int) =~= piece@); }
        }
        i += 1;
    }
    false
}

/// A line of `/proc/asound/cards` that names a card: after leading
/// whitespace, the card number up to the first space, then text up to the
/// first `]:`, and after it the card's description, which is kept trimmed
/// when not empty.
pub open spec fn card_entry(line: Seq<char>) -> Option<(u32, Seq<char>)> {
    let t = trim_start(line);
    match find_char(t, ' ') {
        None => None,
        Some(i) => match parse_unsigned(t.subrange(0, i), u32::MAX as nat) {
            None => None,
            Some(card) => {
                let rest = t.subrange(i + 1, t.len() as int);
                match find_pair(rest, ']', ':') {
                    None => None,
                    Some(j) => {
                        let desc = trim(rest.subrange(j + 2, rest.len() as int));
                        if desc.len() > 0 { Some((card as u32, desc)) } else { None }
                    },
                }
            },
        },
    }
}

/// The card entries of the lines, in order.
pub open spec fn card_entries(lines: Seq<Seq<char>>) -> Seq<(u32, Seq<char>)>
    decreases lines.len(),
{
    if lines.len() == 0 {
        Seq::empty()
    } else {
        let rest = card_entries(lines.drop_last());
        match card_entry(lines.last()) {
            Some(e) => rest.push(e),
            None => rest,
        }
    }
}

pub open spec fn label_pairs_view(pairs: Seq<(u32, String)>) -> Seq<(u32, Seq<char>)> {
    pairs.map_values(|p: (u32, String)| (p.0, p.1@))
}

fn card_entry_of(line: &[char]) -> (entry: Option<(u32, String)>)
    ensures
        match (entry, card_entry(line@)) {
            (Some(e), Some(f)) => e.0 == f.0 && e.1@ == f.1,
            (None, None) => true,
            _ => false,
        },
{
    let t = trim_start_chars(line);
    let i = match find_char_in(&t, ' ') {
        Some(i) => i,
        None => return None,
    };
    proof { lemma_find_char(t@, ' '); }
    let number = slice_chars(&t, 0, i);
    let card = match parse_unsigned_chars(&number, u32::MAX as u64) {
        Some(n) => n as u32,
        None => return None,
    };
    let n = t.len();
    let rest = slice_chars(&t, i + 1, n);
    let j = match find_pair_in(&rest, ']', ':') {
        Some(j) => j,
        None => return None,
    };
    proof { lemma_find_pair(rest@, ']', ':'); }
    let desc = trim_chars(&slice_chars(&rest, j + 2, rest.len()));
    if desc.len() > 0 {
        Some((card, string_of(&desc)))
    } else {
        None
    }
}

/// The named cards of `/proc/asound/cards`, in the order listed (see
/// [`card_entry`]); a later entry for a card overrides an earlier one.
pub fn parse_alsa_card_labels(contents: &str) -> (labels: Vec<(u32, String)>)
    ensures
        label_pairs_view(labels@) == card_entries(spec_lines(contents@)),
{
    let chars = chars_of(contents);
    let lines = lines_of(&chars);
    let ghost ls = spec_lines(contents@);
    let mut labels: Vec<(u32, String)> = Vec::new();
    let mut k: usize = 0;
    while k < lines.len()
        invariant
            lines@.len() == ls.len(),
            forall|j: int| 0 <= j < lines@.len() ==> (#[trigger] lines@[j])@ == ls[j],
            k <= lines@.len(),
            label_pairs_view(labels@) == card_entries(ls.subrange(0, k as int)),
        decreases lines@.len() - k,
    {
        proof {
            assert(ls.subrange(0, k + 1).drop_last() =~= ls.subrange(0, k as int));
            assert(ls.subrange(0, k + 1).last() == ls[k as int]);
        }
        let ghost before = labels@;
        match card_entry_of(lines[k].as_slice()) {
            Some(e) => {
                labels.push(e);
                proof { assert(label_pairs_view(labels@) =~= label_pairs_view(before).push((e.0, e.1@))); }
            },
            None => {},
        }
        k += 1;
    }
    proof { assert(ls.subrange(0, ls.len() as int) =~= ls); }
    labels
}

/// The description a card got last, if any (what a map filled with the
/// entries in order holds for it).
pub open spec fn last_label(pairs: Seq<(u32, Seq<char>)>, card: u32) -> Option<Seq<char>>
    decreases pairs.len(),
{
    if pairs.len() == 0 {
        None
    } else if pairs.last().0 == card {
        Some(pairs.last().1)
    } else {
        last_label(pairs.drop_last(), card)
    }
}

/// A PCM device of `/proc/asound/pcm`.
#[derive(Debug)]
pub struct AlsaPcmEntry {
    pub card: u32,
    pub dev: u32,
    pub device_name: String,
}

/// A line of `/proc/asound/pcm` for a device of the direction marked by
/// `marker`: before the first `:` the trimmed `card-device` numbers (the
/// text before the first `-` and the text from there to the next `-`),
/// after it text holding the marker, whose part before its first `:` is the
/// trimmed device name.
pub open spec fn pcm_entry(line: Seq<char>, marker: Seq<char>) -> Option<(u32, u32, Seq<char>)> {
    match find_char(line, ':') {
        None => None,
        Some(i) => {
            let rest = line.subrange(i + 1, line.len() as int);
            if !contains_text(rest, marker) {
                None
            } else {
                let numbers = trim(line.subrange(0, i));
                match find_char(numbers, '-') {
                    None => None,
                    Some(d) => {
                        let card_text = numbers.subrange(0, d);
                        let after = numbers.subrange(d + 1, numbers.len() as int);
                        let dev_text = match find_char(after, '-') {
                            Some(e) => after.subrange(0, e),
                            None => after,
                        };
                        match (parse_unsigned(card_text, u32::MAX as nat), parse_unsigned(dev_text, u32::MAX as nat)) {
                            (Some(card), Some(dev)) => {
                                let name = match find_char(rest, ':') {
                                    Some(e) => rest.subrange(0, e),
                                    None => rest,
                                };
                                Some((card as u32, dev as u32, trim(name)))
                            },
                            _ => None,
                        }
                    },
                }
            }
        },
    }
}

/// The PCM entries of the lines for `marker`, in order.
pub open spec fn pcm_entries(lines: Seq<Seq<char>>, marker: Seq<char>) -> Seq<(u32, u32, Seq<char>)>
    decreases lines.len(),
{
    if lines.len() == 0 {
        Seq::empty()
    } else {
        let rest = pcm_entries(lines.drop_last(), marker);
        match pcm_entry(lines.last(), marker) {
            Some(e) => rest.push(e),
            None => rest,
        }
    }
}

pub open spec fn pcm_view(entries: Seq<AlsaPcmEntry>) -> Seq<(u32, u32, Seq<char>)> {
    entries.map_values(|e: AlsaPcmEntry| (e.card, e.dev, e.device_name@))
}

fn pcm_entry_of(line: &[char], marker: &[char]) -> (entry: Option<AlsaPcmEntry>)
    ensures
        match (entry, pcm_entry(line@, marker@)) {
            (Some(e), Some(f)) => e.card == f.0 && e.dev == f.1 && e.device_name@ == f.2,
            (None, None) => true,
            _ => false,
        },
{
    proof { lemma_find_char(line@, ':'); }
    let i = match find_char_in(line, ':') {
        Some(i) => i,
        None => return None,
    };
    let n = line.len();
    let rest = slice_chars(line, i + 1, n);
    if !contains_chars(&rest, marker) {
        return None;
    }
    let numbers = trim_chars(&slice_chars(line, 0, i));
    proof { lemma_find_char(numbers@, '-'); }
    let d = match find_char_in(&numbers, '-') {
        Some(d) => d,
        None => return None,
    };
    let card_text = slice_chars(&numbers, 0, d);
    let after = slice_chars(&numbers, d + 1, numbers.len());
    proof { lemma_find_char(after@, '-'); }
    let dev_text = match find_char_in(&after, '-') {
        Some(e) => slice_chars(&after, 0, e),
        None => slice_chars(&after, 0, after.len()),
    };
    proof { assert(after@.subrange(0, after@.len() as int) =~= after@); }
    let card = match parse_unsigned_chars(&card_text, u32::MAX as u64) {
        Some(n) => n as u32,
        None => return None,
    };
    let dev = match parse_unsigned_chars(&dev_text, u32::MAX as u64) {
        Some(n) => n as u32,
        None => return None,
    };
    proof { lemma_find_char(rest@, ':'); }
    let name = match find_char_in(&rest, ':') {
        Some(e) => slice_chars(&rest, 0, e),
        None => slice_chars(&rest, 0, rest.len()),
    };
    proof { assert(rest@.subrange(0, rest@.len() as int) =~= rest@); }
    Some(AlsaPcmEntry { card, dev, device_name: string_of(&trim_chars(&name)) })
}

/// The PCM devices of `/proc/asound/pcm` that move audio in `direction`,
/// in the order listed (see [`pcm_entry`]).
pub fn parse_alsa_pcm(contents: &str, direction: PcmDirection) -> (entries: Vec<AlsaPcmEntry>)
    ensures
        pcm_view(entries@) == pcm_entries(spec_lines(contents@), direction.spec_marker()),
{
    let chars = chars_of(contents);
    let marker = chars_of(direction.marker());
    let lines = lines_of(&chars);
    let ghost ls = spec_lines(contents@);
    let mut entries: Vec<AlsaPcmEntry> = Vec::new();
    let mut k: usize = 0;
    while k < lines.len()
        invariant
            marker@ == direction.spec_marker(),
            lines@.len() == ls.len(),
            forall|j: int| 0 <= j < lines@.len() ==> (#[trigger] lines@[j])@ == ls[j],
            k <= lines@.len(),
            pcm_view(entries@) == pcm_entries(ls.subrange(0, k as int), direction.spec_marker()),
        decreases lines@.len() - k,
    {
        proof {
            assert(ls.subrange(0, k + 1).drop_last() =~= ls.subrange(0, k as int));
            assert(ls.subrange(0, k + 1).last() == ls[k as int]);
        }
        let ghost before = entries@;
        match pcm_entry_of(lines[k].as_slice(), &marker) {
            Some(e) => {
                let ghost v = (e.card, e.dev, e.device_name@);
                entries.push(e);
                proof { assert(pcm_view(entries@) =~= pcm_view(before).push(v)); }
            },
            None => {},
        }
        k += 1;
    }
    proof { assert(ls.subrange(0, ls.len() as int) =~= ls); }
    entries
}

pub open spec fn spec_device_id(card: u32, dev: u32) -> Seq<char> {
    "hw:"@ + spec_decimal(card as nat) + seq![','] + spec_decimal(dev as nat)
}

/// The id of a PCM device: `hw:CARD,DEVICE`.
pub fn alsa_device_id(entry: &AlsaPcmEntry) -> (id: String)
    ensures
        id@ == spec_device_id(entry.card, entry.dev),
{
    let mut id = String::from_str("hw:");
    push_str(&mut id, decimal(entry.card as usize).as_str());
    push_str(&mut id, ",");
    push_str(&mut id, decimal(entry.dev as usize).as_str());
    proof {
        reveal_strlit("hw:");
        reveal_strlit(",");
    }
    id
}

/// The label of a PCM device: the card's description (or `Card N`), then
/// ` - ` and the device name when there is one, then the id in brackets.
pub open spec fn spec_device_label(labels: Seq<(u32, Seq<char>)>, card: u32, dev: u32, name: Seq<char>) -> Seq<char> {
    let card_label = match last_label(labels, card) {
        Some(l) => l,
        None => "Card "@ + spec_decimal(card as nat),
    };
    let base = if name.len() == 0 { card_label } else { card_label + " - "@ + name };
    base + " ("@ + spec_device_id(card, dev) + ")"@
}

fn card_label_for(labels: &Vec<(u32, String)>, card: u32) -> (label: String)
    ensures
        label@ == match last_label(label_pairs_view(labels@), card) {
            Some(l) => l,
            None => "Card "@ + spec_decimal(card as nat),
        },
{
    let ghost view = label_pairs_view(labels@);
    let mut i: usize = labels.len();
    proof { assert(view.subrange(0, i as int) =~= view); }
    while i > 0
        invariant
            i <= labels@.len(),
            view == label_pairs_view(labels@),
            last_label(view, card) == last_label(view.subrange(0, i as int), card),
        decreases i,
    {
        proof {
            assert(view.subrange(0, i as int).drop_last() =~= view.subrange(0, i - 1));
            assert(view.subrange(0, i as int).last() == view[i - 1]);
        }
        if labels[i - 1].0 == card {
            return labels[i - 1].1.clone();
        }
        i -= 1;
    }
    proof { reveal_strlit("Card "); }
    let mut label = String::from_str("Card ");
    push_str(&mut label, decimal(card as usize).as_str());
    label
}

/// The label of a PCM device (see [`spec_device_label`]).
pub fn alsa_device_label(labels: &Vec<(u32, String)>, entry: &AlsaPcmEntry) -> (label: String)
    ensures
        label@ == spec_device_label(label_pairs_view(labels@), entry.card, entry.dev, entry.device_name@),
{
    let mut label = card_label_for(labels, entry.card);
    if entry.device_name.unicode_len() > 0 {
        push_str(&mut label, " - ");
        push_str(&mut label, entry.device_name.as_str());
    }
    push_str(&mut label, " (");
    let id = alsa_device_id(entry);
    push_str(&mut label, id.as_str());
    push_str(&mut label, ")");
    proof {
        reveal_strlit(" - ");
        reveal_strlit(" (");
        reveal_strlit(")");
    }
    label
}

/// What a PCM device reported it supports, probed by its id.
#[derive(Debug)]
pub struct PcmCaps {
    pub bits: Vec<usize>,
    pub sample_rates: Vec<i32>,
}

/// The device built for a PCM entry: its id and label, the depths it
/// reported, the rates it reported (the fallback rates when it reported
/// none) and the one direction it serves.
pub open spec fn device_for(
    device: AudioDeviceOption,
    labels: Seq<(u32, Seq<char>)>,
    entry: (u32, u32, Seq<char>),
    caps_bits: Seq<usize>,
    caps_rates: Seq<i32>,
    direction: PcmDirection,
) -> bool {
    let rates = if caps_rates.len() == 0 { spec_fallback_sample_rates() } else { caps_rates };
    &&& device.wf()
    &&& device.id@ == spec_device_id(entry.0, entry.1)
    &&& device.label@ == spec_device_label(labels, entry.0, entry.1, entry.2)
    &&& device.supported_bits@.to_set() == caps_bits.to_set()
    &&& device.supported_sample_rates@.to_set() == positive_values(rates)
    &&& device.max_channels == 0 && device.max_buffer_bytes == 0
    &&& device.supports_input == (direction == PcmDirection::Capture)
    &&& device.supports_output == (direction == PcmDirection::Playback)
}

/// The ALSA devices of a direction: one per PCM entry, built with the
/// capabilities probed for it (`caps[k]` for `entries[k]`), then ordered by
/// lowercase label with one device per id.
pub fn alsa_devices(
    entries: &Vec<AlsaPcmEntry>,
    labels: &Vec<(u32, String)>,
    caps: Vec<PcmCaps>,
    direction: PcmDirection,
) -> (devices: Vec<AudioDeviceOption>)
    requires
        caps@.len() == entries@.len(),
    ensures
        exists|built: Seq<AudioDeviceOption>| {
            &&& built.len() == entries@.len()
            &&& forall|k: int| 0 <= k < built.len() ==> device_for(#[trigger] built[k], label_pairs_view(labels@),
                    pcm_view(entries@)[k], caps@[k].bits@, caps@[k].sample_rates@, direction)
            &&& devices@ == spec_dedup_devices(spec_sort_devices(built))
        },
        all_usable(devices@),
{
    let ghost all_caps = caps@;
    let mut built: Vec<AudioDeviceOption> = Vec::new();
    let mut rest = caps;
    let mut k: usize = 0;
    while k < entries.len()
        invariant
            all_caps.len() == entries@.len(),
            k <= entries@.len(),
            rest@ == all_caps.subrange(k as int, all_caps.len() as int),
            built@.len() == k,
            forall|j: int| 0 <= j < k ==> device_for(#[trigger] built@[j], label_pairs_view(labels@),
                pcm_view(entries@)[j], all_caps[j].bits@, all_caps[j].sample_rates@, direction),
        decreases entries@.len() - k,
    {
        let entry = &entries[k];
        let probed = rest.remove(0);
        proof {
            assert(probed == all_caps[k as int]);
            assert(rest@ =~= all_caps.subrange(k + 1, all_caps.len() as int));
        }
        let id = alsa_device_id(entry);
        let label = alsa_device_label(labels, entry);
        let rates = if probed.sample_rates.len() == 0 { fallback_sample_rates() } else { probed.sample_rates };
        let device = AudioDeviceOption::with_supported_direction_caps(
            id.as_str(),
            label.as_str(),
            probed.bits,
            rates,
            direction == PcmDirection::Capture,
            direction == PcmDirection::Playback,
        );
        built.push(device);
        k += 1;
    }
    let ghost b = built@;
    proof {
        assert forall|j: int| 0 <= j < b.len() implies (#[trigger] b[j]).wf() && oss_caps_fit(b[j]) by {
            assert(device_for(b[j], label_pairs_view(labels@), pcm_view(entries@)[j], all_caps[j].bits@,
                all_caps[j].sample_rates@, direction));
            assert forall|bits: usize| (#[trigger] oss_frame_bytes(b[j], bits)) is None by {}
        }
    }
    let devices = sort_and_dedup_devices(built);
    proof { assert(devices@ == spec_dedup_devices(spec_sort_devices(b))); }
    devices
}

} // verus!
