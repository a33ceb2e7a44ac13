//! Audio backends, device descriptions and the startup audio setup.

use vstd::prelude::*;
use vstd::std_specs::cmp::PartialEqSpecImpl;

use crate::document::copy_vec;
use crate::ordered::{
    distinct_ascending, distinct_descending, strictly_ascending, distinct_positive_ascending, positive_values, strictly_ascending_i32,
    strictly_descending,
};
use crate::preferences::EditorPreferences;

verus! {

/// Audio backends that the editor can open on this platform.
#[derive(Debug, Clone, Copy, PartialEq, Eq, Structural)]
pub enum AudioEngineOption {
    Alsa,
    Jack,
}

impl Default for AudioEngineOption {
    /// ALSA is the default backend.
    fn default() -> (engine: Self)
        ensures
            engine == AudioEngineOption::Alsa,
    {
        AudioEngineOption::Alsa
    }
}

impl AudioEngineOption {
    pub open spec fn spec_is_jack(self) -> bool {
        self == AudioEngineOption::Jack
    }

    /// Whether this is the JACK backend.
    pub fn is_jack(self) -> (jack: bool)
        ensures
            jack == self.spec_is_jack(),
    {
        self == AudioEngineOption::Jack
    }

    /// Every backend offered in the setup screen, in display order.
    pub fn all() -> (engines: Vec<AudioEngineOption>)
        ensures
            engines@ == seq![AudioEngineOption::Alsa, AudioEngineOption::Jack],
    {
        let mut engines = Vec::new();
        engines.push(AudioEngineOption::Alsa);
        engines.push(AudioEngineOption::Jack);
        proof { assert(engines@ =~= seq![AudioEngineOption::Alsa, AudioEngineOption::Jack]); }
        engines
    }

    /// The name shown for the backend.
    pub fn name(self) -> (name: &'static str)
        ensures
            self == AudioEngineOption::Alsa ==> name@ == "ALSA"@,
            self == AudioEngineOption::Jack ==> name@ == "JACK"@,
    {
        match self {
            AudioEngineOption::Alsa => "ALSA",
            AudioEngineOption::Jack => "JACK",
        }
    }
}

/// An audio device and the formats it supports. Two options are equal when
/// their ids are.
#[derive(Debug)]
pub struct AudioDeviceOption {
    pub id: String,
    pub label: String,
    pub supported_bits: Vec<usize>,
    pub supported_sample_rates: Vec<i32>,
    pub max_channels: usize,
    pub max_buffer_bytes: usize,
    pub supports_input: bool,
    pub supports_output: bool,
}

impl AudioDeviceOption {
    /// Bit depths are distinct and largest first; sample rates are positive,
    /// distinct and smallest first.
    pub open spec fn wf(self) -> bool {
        &&& strictly_descending(self.supported_bits@)
        &&& strictly_ascending_i32(self.supported_sample_rates@)
        &&& forall|k: int| 0 <= k < self.supported_sample_rates@.len() ==> #[trigger] self.supported_sample_rates@[k] > 0
    }

    /// Same id, label, formats and capabilities.
    pub open spec fn same_as(self, other: Self) -> bool {
        &&& self.id@ == other.id@
        &&& self.label@ == other.label@
        &&& self.supported_bits@ == other.supported_bits@
        &&& self.supported_sample_rates@ == other.supported_sample_rates@
        &&& self.max_channels == other.max_channels
        &&& self.max_buffer_bytes == other.max_buffer_bytes
        &&& self.supports_input == other.supports_input
        &&& self.supports_output == other.supports_output
    }

    /// A device with the given formats: bit depths are deduplicated and
    /// ordered largest first, sample rates keep only the positive ones,
    /// deduplicated and ordered smallest first. It can record and play, and
    /// has no OSS buffer limits.
    pub fn with_supported_caps(id: &str, label: &str, supported_bits: Vec<usize>, supported_sample_rates: Vec<i32>) -> (device: Self)
        ensures
            device.wf(),
            device.id@ == id@,
            device.label@ == label@,
            device.supported_bits@.to_set() == supported_bits@.to_set(),
            device.supported_sample_rates@.to_set() == positive_values(supported_sample_rates@),
            device.max_channels == 0,
            device.max_buffer_bytes == 0,
            device.supports_input,
            device.supports_output,
    {
        Self::with_supported_direction_caps(id, label, supported_bits, supported_sample_rates, true, true)
    }

    /// Like [`Self::with_supported_caps`], with the OSS channel and buffer
    /// limits of the device.
    pub fn with_oss_caps(
        id: &str,
        label: &str,
        supported_bits: Vec<usize>,
        supported_sample_rates: Vec<i32>,
        max_channels: usize,
        max_buffer_bytes: usize,
    ) -> (device: Self)
        ensures
            device.wf(),
            device.id@ == id@,
            device.label@ == label@,
            device.supported_bits@.to_set() == supported_bits@.to_set(),
            device.supported_sample_rates@.to_set() == positive_values(supported_sample_rates@),
            device.max_channels == max_channels,
            device.max_buffer_bytes == max_buffer_bytes,
            device.supports_input,
            device.supports_output,
    {
        let mut out = Self::with_supported_caps(id, label, supported_bits, supported_sample_rates);
        out.max_channels = max_channels;
        out.max_buffer_bytes = max_buffer_bytes;
        out
    }

    /// Like [`Self::with_supported_caps`], with the directions the device
    /// supports.
    pub fn with_supported_direction_caps(
        id: &str,
        label: &str,
        supported_bits: Vec<usize>,
        supported_sample_rates: Vec<i32>,
        supports_input: bool,
        supports_output: bool,
    ) -> (device: Self)
        ensures
            device.wf(),
            device.id@ == id@,
            device.label@ == label@,
            device.supported_bits@.to_set() == supported_bits@.to_set(),
            device.supported_sample_rates@.to_set() == positive_values(supported_sample_rates@),
            device.max_channels == 0,
            device.max_buffer_bytes == 0,
            device.supports_input == supports_input,
            device.supports_output == supports_output,
    {
        AudioDeviceOption {
            id: String::from_str(id),
            label: String::from_str(label),
            supported_bits: distinct_descending(&supported_bits),
            supported_sample_rates: distinct_positive_ascending(&supported_sample_rates),
            max_channels: 0,
            max_buffer_bytes: 0,
            supports_input,
            supports_output,
        }
    }

    /// The text shown for the device: its label, followed by its bit depths
    /// as `[32/24/16-bit]` when it lists any.
    pub fn display_label(&self) -> (text: String)
        ensures
            text@ == spec_display_label(self.label@, self.supported_bits@),
    {
        let mut text = self.label.clone();
        if self.supported_bits.len() == 0 {
            return text;
        }
        crate::text::push_str(&mut text, " [");
        let mut i: usize = 0;
        while i < self.supported_bits.len()
            invariant
                1 <= self.supported_bits@.len(),
                i <= self.supported_bits@.len(),
                text@ == self.label@ + " ["@ + joined_bits(self.supported_bits@.subrange(0, i as int)),
            decreases self.supported_bits@.len() - i,
        {
            let ghost before = text@;
            if i > 0 {
                crate::text::push_str(&mut text, "/");
            }
            let digits = crate::text::decimal(self.supported_bits[i]);
            crate::text::push_str(&mut text, digits.as_str());
            proof {
                reveal_strlit("/");
                let prefix = self.supported_bits@.subrange(0, i + 1);
                assert(prefix.drop_last() =~= self.supported_bits@.subrange(0, i as int));
                assert(text@ =~= self.label@ + " ["@ + joined_bits(prefix));
            }
            i += 1;
        }
        crate::text::push_str(&mut text, "-bit]");
        proof {
            assert(self.supported_bits@.subrange(0, self.supported_bits@.len() as int) =~= self.supported_bits@);
        }
        text
    }
}

/// Bit depths in decimal, separated by `/`.
pub open spec fn joined_bits(bits: Seq<usize>) -> Seq<char>
    decreases bits.len(),
{
    if bits.len() == 0 {
        Seq::empty()
    } else if bits.len() == 1 {
        crate::text::spec_decimal(bits[0] as nat)
    } else {
        joined_bits(bits.drop_last()) + "/"@ + crate::text::spec_decimal(bits.last() as nat)
    }
}

pub open spec fn spec_display_label(label: Seq<char>, bits: Seq<usize>) -> Seq<char> {
    if bits.len() == 0 { label } else { label + " ["@ + joined_bits(bits) + "-bit]"@ }
}

/// Two device options are the same device when their ids are equal.
impl PartialEq for AudioDeviceOption {
    fn eq(&self, other: &Self) -> (same: bool) {
        self.id == other.id
    }
}

impl PartialEqSpecImpl for AudioDeviceOption {
    open spec fn obeys_eq_spec() -> bool {
        true
    }

    open spec fn eq_spec(&self, other: &Self) -> bool {
        self.id@ == other.id@
    }
}

impl Eq for AudioDeviceOption {}

impl Clone for AudioDeviceOption {
    fn clone(&self) -> (copy: Self)
        ensures
            copy.same_as(*self),
    {
        AudioDeviceOption {
            id: self.id.clone(),
            label: self.label.clone(),
            supported_bits: copy_vec(&self.supported_bits),
            supported_sample_rates: copy_vec(&self.supported_sample_rates),
            max_channels: self.max_channels,
            max_buffer_bytes: self.max_buffer_bytes,
            supports_input: self.supports_input,
            supports_output: self.supports_output,
        }
    }
}

pub open spec fn spec_fallback_sample_rates() -> Seq<i32> {
    seq![8_000i32, 11_025, 16_000, 22_050, 32_000, 44_100, 48_000, 88_200, 96_000, 176_400, 192_000, 384_000]
}

pub open spec fn spec_fallback_bits() -> Seq<usize> {
    seq![32usize, 24, 16, 8]
}

pub open spec fn spec_default_period_frame_options() -> Seq<usize> {
    seq![16usize, 32, 64, 128, 256, 512, 1024, 2048, 4096, 8192, 16384, 32768, 65536]
}

/// Sample rates offered when a device lists none.
pub fn fallback_sample_rates() -> (rates: Vec<i32>)
    ensures
        rates@ == spec_fallback_sample_rates(),
{
    let rates = vec![8_000, 11_025, 16_000, 22_050, 32_000, 44_100, 48_000, 88_200, 96_000, 176_400, 192_000, 384_000];
    proof { assert(rates@ =~= spec_fallback_sample_rates()); }
    rates
}

/// Bit depths offered when a device lists none.
pub fn fallback_bits() -> (bits: Vec<usize>)
    ensures
        bits@ == spec_fallback_bits(),
{
    let bits = vec![32, 24, 16, 8];
    proof { assert(bits@ =~= spec_fallback_bits()); }
    bits
}

/// Period sizes offered unless the device limits them.
pub fn default_period_frame_options() -> (options: Vec<usize>)
    ensures
        options@ == spec_default_period_frame_options(),
{
    let options = vec![16, 32, 64, 128, 256, 512, 1024, 2048, 4096, 8192, 16384, 32768, 65536];
    proof { assert(options@ =~= spec_default_period_frame_options()); }
    options
}

/// A device known only by name: its id is also its label, and it takes
/// every fallback format.
pub fn simple_audio_device(id: &str) -> (device: AudioDeviceOption)
    ensures
        device.wf(),
        device.id@ == id@,
        device.label@ == id@,
        device.supported_bits@ == spec_fallback_bits(),
        device.supported_sample_rates@ == spec_fallback_sample_rates(),
        device.max_channels == 0,
        device.max_buffer_bytes == 0,
        device.supports_input,
        device.supports_output,
{
    let device = AudioDeviceOption::with_supported_caps(id, id, fallback_bits(), fallback_sample_rates());
    proof {
        lemma_fallback_bits_canonical(device.supported_bits@);
        lemma_fallback_rates_canonical(device.supported_sample_rates@);
    }
    device
}

proof fn lemma_fallback_bits_canonical(bits: Seq<usize>)
    requires
        strictly_descending(bits),
        bits.to_set() == spec_fallback_bits().to_set(),
    ensures
        bits == spec_fallback_bits(),
{
    let f = spec_fallback_bits();
    assert(f.to_set().contains(32) && f.to_set().contains(24) && f.to_set().contains(16) && f.to_set().contains(8)) by {
        assert(f[0] == 32 && f[1] == 24 && f[2] == 16 && f[3] == 8);
    }
    assert forall|k: int| 0 <= k < bits.len() implies
        #[trigger] bits[k] == 32 || bits[k] == 24 || bits[k] == 16 || bits[k] == 8 by {
        assert(bits.to_set().contains(bits[k]));
        let j = choose|j: int| 0 <= j < f.len() && f[j] == bits[k];
    }
    lemma_descending_distinct_of_four(bits);
}

proof fn lemma_descending_distinct_of_four(bits: Seq<usize>)
    requires
        strictly_descending(bits),
        forall|k: int| 0 <= k < bits.len() ==> #[trigger] bits[k] == 32 || bits[k] == 24 || bits[k] == 16 || bits[k] == 8,
        bits.to_set().contains(32usize),
        bits.to_set().contains(24usize),
        bits.to_set().contains(16usize),
        bits.to_set().contains(8usize),
    ensures
        bits == spec_fallback_bits(),
{
    let a = choose|k: int| 0 <= k < bits.len() && bits[k] == 32usize;
    let b = choose|k: int| 0 <= k < bits.len() && bits[k] == 24usize;
    let c = choose|k: int| 0 <= k < bits.len() && bits[k] == 16usize;
    let d = choose|k: int| 0 <= k < bits.len() && bits[k] == 8usize;
    if a > 0 { assert(bits[0] > bits[a]); }
    assert(a == 0);
    if b > 1 { assert(bits[1] > bits[b]); assert(bits[1] < bits[0]); }
    if b < 1 { assert(bits[b] == bits[0]); }
    assert(b == 1);
    if c > 2 { assert(bits[2] > bits[c]); assert(bits[2] < bits[1]); }
    if c < 2 { assert(bits[c] == bits[0] || bits[c] == bits[1]); }
    assert(c == 2);
    if d > 3 { assert(bits[3] > bits[d]); assert(bits[3] < bits[2]); }
    if d < 3 { assert(bits[d] == bits[0] || bits[d] == bits[1] || bits[d] == bits[2]); }
    assert(d == 3);
    if bits.len() > 4 {
        assert(bits[4] < bits[3]);
        assert(bits[4int] == 32 || bits[4int] == 24 || bits[4int] == 16 || bits[4int] == 8);
    }
    assert(bits =~= spec_fallback_bits());
}

proof fn lemma_fallback_rates_canonical(rates: Seq<i32>)
    requires
        strictly_ascending_i32(rates),
        rates.to_set() == positive_values(spec_fallback_sample_rates()),
    ensures
        rates == spec_fallback_sample_rates(),
{
    let f = spec_fallback_sample_rates();
    assert(positive_values(f) =~= f.to_set()) by {
        assert forall|r: i32| f.to_set().contains(r) implies r > 0 by {
            let j = choose|j: int| 0 <= j < f.len() && f[j] == r;
        }
    }
    lemma_ascending_same_set(rates, f);
}

/// Two strictly ascending sequences with the same elements are equal.
proof fn lemma_ascending_same_set(a: Seq<i32>, b: Seq<i32>)
    requires
        strictly_ascending_i32(a),
        strictly_ascending_i32(b),
        a.to_set() == b.to_set(),
    ensures
        a == b,
    decreases a.len() + b.len(),
{
    if a.len() == 0 || b.len() == 0 {
        if a.len() > 0 { assert(a.to_set().contains(a[0])); }
        if b.len() > 0 { assert(b.to_set().contains(b[0])); }
        assert(a =~= b);
    } else {
        assert(a.to_set().contains(a[0]) && b.to_set().contains(b[0]));
        let i = choose|i: int| 0 <= i < b.len() && b[i] == a[0];
        let j = choose|j: int| 0 <= j < a.len() && a[j] == b[0];
        if i > 0 { assert(b[0] < b[i]); if j > 0 { assert(a[0] < a[j]); } }
        if j > 0 { assert(a[0] < a[j]); }
        assert(a[0] == b[0]);
        let a1 = a.drop_first();
        let b1 = b.drop_first();
        assert forall|x: i32| a1.to_set().contains(x) <==> b1.to_set().contains(x) by {
            if a1.to_set().contains(x) {
                let k = choose|k: int| 0 <= k < a1.len() && a1[k] == x;
                assert(a[k + 1] == x);
                assert(a.to_set().contains(x));
                let m = choose|m: int| 0 <= m < b.len() && b[m] == x;
                assert(a[0] < a[k + 1]);
                assert(m != 0);
                assert(b1[m - 1] == x);
            }
            if b1.to_set().contains(x) {
                let k = choose|k: int| 0 <= k < b1.len() && b1[k] == x;
                assert(b[k + 1] == x);
                assert(b.to_set().contains(x));
                let m = choose|m: int| 0 <= m < a.len() && a[m] == x;
                assert(b[0] < b[k + 1]);
                assert(m != 0);
                assert(a1[m - 1] == x);
            }
        }
        assert(a1.to_set() =~= b1.to_set());
        lemma_ascending_same_set(a1, b1);
        assert(a =~= b) by {
            assert forall|k: int| 0 <= k < a.len() implies a[k] == b[k] by {
                if k > 0 { assert(a[k] == a1[k - 1] && b[k] == b1[k - 1]); }
            }
        }
    }
}

/// Name for what `str::to_lowercase` from std returns for a text: its
/// Unicode lowercase form. Devices are listed in the order of this form of
/// their labels.
pub uninterp spec fn spec_to_lowercase(text: Seq<char>) -> Seq<char>;

/// Calls `str::to_lowercase` from std. Claims only that the result is the
/// named lowercase form of the argument; what that form is, is left to std.
#[verifier::external_body]
fn to_lowercase(text: &str) -> (lower: String)
    ensures
        lower@ == spec_to_lowercase(text@),
{
    text.to_lowercase()
}

/// Lexicographic order of texts by code point, as `Ord` orders `str`.
pub open spec fn text_le(a: Seq<char>, b: Seq<char>) -> bool
    decreases a.len(),
{
    if a.len() == 0 {
        true
    } else if b.len() == 0 {
        false
    } else if a[0] != b[0] {
        (a[0] as u32) < (b[0] as u32)
    } else {
        text_le(a.drop_first(), b.drop_first())
    }
}

pub open spec fn sort_key(device: AudioDeviceOption) -> Seq<char> {
    spec_to_lowercase(device.label@)
}

fn text_le_exec(a: &Vec<char>, b: &Vec<char>) -> (le: bool)
    ensures
        le == text_le(a@, b@),
{
    let mut i: usize = 0;
    proof {
        assert(a@.subrange(0, a@.len() as int) =~= a@);
        assert(b@.subrange(0, b@.len() as int) =~= b@);
    }
    while i < a.len() && i < b.len() && a[i] == b[i]
        invariant
            i <= a@.len(),
            i <= b@.len(),
            text_le(a@, b@) == text_le(a@.subrange(i as int, a@.len() as int), b@.subrange(i as int, b@.len() as int)),
        decreases a@.len() - i,
    {
        proof {
            let sa = a@.subrange(i as int, a@.len() as int);
            let sb = b@.subrange(i as int, b@.len() as int);
            assert(sa.drop_first() =~= a@.subrange(i + 1, a@.len() as int));
            assert(sb.drop_first() =~= b@.subrange(i + 1, b@.len() as int));
        }
        i += 1;
    }
    proof {
        assert(a@.subrange(0, a@.len() as int) =~= a@);
        assert(b@.subrange(0, b@.len() as int) =~= b@);
    }
    if i == a.len() {
        true
    } else if i == b.len() {
        false
    } else {
        (a[i] as u32) < (b[i] as u32)
    }
}

fn label_le(a: &AudioDeviceOption, b: &AudioDeviceOption) -> (le: bool)
    ensures
        le == text_le(sort_key(*a), sort_key(*b)),
{
    let ka = crate::text::chars_of(to_lowercase(a.label.as_str()).as_str());
    let kb = crate::text::chars_of(to_lowercase(b.label.as_str()).as_str());
    text_le_exec(&ka, &kb)
}

/// Position in `sorted` after the last device whose key is at most `key`,
/// counting from the end.
pub open spec fn device_insertion_point(sorted: Seq<AudioDeviceOption>, key: Seq<char>) -> nat
    decreases sorted.len(),
{
    if sorted.len() == 0 {
        0
    } else if text_le(sort_key(sorted.last()), key) {
        sorted.len()
    } else {
        device_insertion_point(sorted.drop_last(), key)
    }
}

/// The devices in the order of their lowercase labels; devices with equal
/// keys keep their relative order (a stable sort).
pub open spec fn spec_sort_devices(devices: Seq<AudioDeviceOption>) -> Seq<AudioDeviceOption>
    decreases devices.len(),
{
    if devices.len() == 0 {
        devices
    } else {
        let sorted = spec_sort_devices(devices.drop_last());
        sorted.insert(device_insertion_point(sorted, sort_key(devices.last())) as int, devices.last())
    }
}

/// The devices without each one whose id equals that of the device kept
/// right before it.
pub open spec fn spec_dedup_devices(devices: Seq<AudioDeviceOption>) -> Seq<AudioDeviceOption>
    decreases devices.len(),
{
    if devices.len() == 0 {
        devices
    } else {
        let kept = spec_dedup_devices(devices.drop_last());
        if kept.len() > 0 && kept.last().id@ == devices.last().id@ { kept } else { kept.push(devices.last()) }
    }
}

/// The devices that pass `keep`, in order.
pub open spec fn spec_filter_devices(devices: Seq<AudioDeviceOption>, output: bool) -> Seq<AudioDeviceOption>
    decreases devices.len(),
{
    if devices.len() == 0 {
        devices
    } else {
        let rest = spec_filter_devices(devices.drop_last(), output);
        let d = devices.last();
        if (if output { d.supports_output } else { d.supports_input }) { rest.push(d) } else { rest }
    }
}

/// Orders devices by lowercase label (stably) and drops each one with the
/// id of the device kept right before it.
pub fn sort_and_dedup_devices(devices: Vec<AudioDeviceOption>) -> (out: Vec<AudioDeviceOption>)
    ensures
        out@ == spec_dedup_devices(spec_sort_devices(devices@)),
        all_usable(devices@) ==> all_usable(out@),
{
    proof {
        if all_usable(devices@) {
            lemma_sort_usable(devices@);
            lemma_dedup_usable(spec_sort_devices(devices@));
        }
    }
    let ghost input = devices@;
    let _ = devices.len();
    let mut rest = devices;
    let mut sorted: Vec<AudioDeviceOption> = Vec::new();
    let mut k: usize = 0;
    while rest.len() > 0
        invariant
            k <= input.len(),
            input.len() <= usize::MAX,
            rest@ == input.subrange(k as int, input.len() as int),
            sorted@ == spec_sort_devices(input.subrange(0, k as int)),
        decreases rest@.len(),
    {
        let device = rest.remove(0);
        proof {
            assert(input.subrange(0, k + 1).drop_last() =~= input.subrange(0, k as int));
            assert(input.subrange(0, k + 1).last() == device);
            assert(rest@ =~= input.subrange(k + 1, input.len() as int));
        }
        let mut pos: usize = sorted.len();
        proof { assert(sorted@.subrange(0, pos as int) =~= sorted@); }
        while pos > 0 && !label_le(&sorted[pos - 1], &device)
            invariant
                pos <= sorted@.len(),
                device_insertion_point(sorted@, sort_key(device))
                    == device_insertion_point(sorted@.subrange(0, pos as int), sort_key(device)),
            decreases pos,
        {
            proof { assert(sorted@.subrange(0, pos as int).drop_last() =~= sorted@.subrange(0, pos - 1)); }
            pos -= 1;
        }
        proof {
            if pos > 0 {
                assert(sorted@.subrange(0, pos as int).last() == sorted@[pos - 1]);
            }
        }
        sorted.insert(pos, device);
        k += 1;
    }
    proof { assert(input.subrange(0, input.len() as int) =~= input); }
    let ghost ordered = sorted@;
    let _ = sorted.len();
    let mut out: Vec<AudioDeviceOption> = Vec::new();
    let mut j: usize = 0;
    while sorted.len() > 0
        invariant
            j <= ordered.len(),
            ordered.len() <= usize::MAX,
            sorted@ == ordered.subrange(j as int, ordered.len() as int),
            out@ == spec_dedup_devices(ordered.subrange(0, j as int)),
        decreases sorted@.len(),
    {
        let device = sorted.remove(0);
        proof {
            assert(ordered.subrange(0, j + 1).drop_last() =~= ordered.subrange(0, j as int));
            assert(ordered.subrange(0, j + 1).last() == device);
            assert(sorted@ =~= ordered.subrange(j + 1, ordered.len() as int));
        }
        let n = out.len();
        if !(n > 0 && out[n - 1].id == device.id) {
            out.push(device);
        }
        j += 1;
    }
    proof { assert(ordered.subrange(0, ordered.len() as int) =~= ordered); }
    out
}

fn filter_devices(devices: Vec<AudioDeviceOption>, output: bool) -> (out: Vec<AudioDeviceOption>)
    ensures
        out@ == spec_filter_devices(devices@, output),
{
    let ghost input = devices@;
    let _ = devices.len();
    let mut rest = devices;
    let mut out: Vec<AudioDeviceOption> = Vec::new();
    let mut k: usize = 0;
    while rest.len() > 0
        invariant
            k <= input.len(),
            input.len() <= usize::MAX,
            rest@ == input.subrange(k as int, input.len() as int),
            out@ == spec_filter_devices(input.subrange(0, k as int), output),
        decreases rest@.len(),
    {
        let device = rest.remove(0);
        proof {
            assert(input.subrange(0, k + 1).drop_last() =~= input.subrange(0, k as int));
            assert(input.subrange(0, k + 1).last() == device);
            assert(rest@ =~= input.subrange(k + 1, input.len() as int));
        }
        let keep = if output { device.supports_output } else { device.supports_input };
        if keep {
            out.push(device);
        }
        k += 1;
    }
    proof { assert(input.subrange(0, input.len() as int) =~= input); }
    out
}

pub open spec fn spec_default_audio_device(engine: AudioEngineOption) -> Seq<char> {
    if engine.spec_is_jack() { "jack"@ } else { "default"@ }
}

/// The device name used when a backend lists no device.
pub fn default_audio_device(engine: AudioEngineOption) -> (name: &'static str)
    ensures
        name@ == spec_default_audio_device(engine),
{
    if engine.is_jack() { "jack" } else { "default" }
}

proof fn lemma_single_device_order(devices: Seq<AudioDeviceOption>)
    requires
        devices.len() == 1,
    ensures
        spec_dedup_devices(spec_sort_devices(devices)) == devices,
{
    let empty = Seq::<AudioDeviceOption>::empty();
    assert(devices.drop_last() =~= empty);
    assert(spec_sort_devices(empty) == empty);
    assert(device_insertion_point(empty, sort_key(devices[0])) == 0);
    assert(empty.insert(0, devices[0]) =~= devices);
    assert(spec_sort_devices(devices) == devices);
    assert(spec_dedup_devices(empty) == empty);
    assert(empty.push(devices[0]) =~= devices);
}

/// Every device holds its invariant and has OSS limits that fit the
/// machine.
pub open spec fn all_usable(devices: Seq<AudioDeviceOption>) -> bool {
    forall|k: int| 0 <= k < devices.len() ==> (#[trigger] devices[k]).wf() && oss_caps_fit(devices[k])
}

/// The playback devices offered for `engine` among the platform's devices:
/// only `jack` for JACK; otherwise those that can play, or the backend's
/// default device when none can, ordered by lowercase label, one per id.
pub open spec fn discovered_outputs(engine: AudioEngineOption, platform: Seq<AudioDeviceOption>, devices: Seq<AudioDeviceOption>) -> bool {
    &&& engine.spec_is_jack() ==> devices.len() == 1 && devices[0].id@ == "jack"@ && devices[0].label@ == "jack"@
            && devices[0].supported_bits@ == spec_fallback_bits()
            && devices[0].supported_sample_rates@ == spec_fallback_sample_rates()
    &&& !engine.spec_is_jack() && spec_filter_devices(platform, true).len() > 0 ==>
            devices == spec_dedup_devices(spec_sort_devices(spec_filter_devices(platform, true)))
    &&& !engine.spec_is_jack() && spec_filter_devices(platform, true).len() == 0 ==>
            devices.len() == 1 && devices[0].id@ == spec_default_audio_device(engine)
                && devices[0].label@ == spec_default_audio_device(engine)
                && devices[0].supported_bits@ == spec_fallback_bits()
                && devices[0].supported_sample_rates@ == spec_fallback_sample_rates()
}

/// The capture devices offered for `engine`: none for JACK; otherwise those
/// that can record, ordered by lowercase label, one per id.
pub open spec fn discovered_inputs(engine: AudioEngineOption, platform: Seq<AudioDeviceOption>, devices: Seq<AudioDeviceOption>) -> bool {
    &&& engine.spec_is_jack() ==> devices.len() == 0
    &&& !engine.spec_is_jack() ==> devices == spec_dedup_devices(spec_sort_devices(spec_filter_devices(platform, false)))
}

/// A copy of a usable device is usable.
pub proof fn lemma_same_usable(a: AudioDeviceOption, b: AudioDeviceOption)
    requires
        a.same_as(b),
        b.wf() && oss_caps_fit(b),
    ensures
        a.wf() && oss_caps_fit(a),
{
    assert forall|bits: usize| #[trigger] oss_frame_bytes(a, bits) == oss_frame_bytes(b, bits) by {}
}

proof fn lemma_filter_usable(devices: Seq<AudioDeviceOption>, output: bool)
    requires
        all_usable(devices),
    ensures
        all_usable(spec_filter_devices(devices, output)),
    decreases devices.len(),
{
    if devices.len() > 0 {
        assert(all_usable(devices.drop_last())) by {
            assert forall|k: int| 0 <= k < devices.drop_last().len() implies
                (#[trigger] devices.drop_last()[k]).wf() && oss_caps_fit(devices.drop_last()[k]) by {
                assert(devices.drop_last()[k] == devices[k]);
            }
        }
        lemma_filter_usable(devices.drop_last(), output);
        assert(devices.last() == devices[devices.len() - 1]);
    }
}

proof fn lemma_insertion_point_bound(sorted: Seq<AudioDeviceOption>, key: Seq<char>)
    ensures
        device_insertion_point(sorted, key) <= sorted.len(),
    decreases sorted.len(),
{
    if sorted.len() > 0 {
        lemma_insertion_point_bound(sorted.drop_last(), key);
    }
}

proof fn lemma_sort_usable(devices: Seq<AudioDeviceOption>)
    requires
        all_usable(devices),
    ensures
        all_usable(spec_sort_devices(devices)),
    decreases devices.len(),
{
    if devices.len() > 0 {
        let rest = devices.drop_last();
        assert(all_usable(rest)) by {
            assert forall|k: int| 0 <= k < rest.len() implies (#[trigger] rest[k]).wf() && oss_caps_fit(rest[k]) by {
                assert(rest[k] == devices[k]);
            }
        }
        lemma_sort_usable(rest);
        let sorted = spec_sort_devices(rest);
        let i = device_insertion_point(sorted, sort_key(devices.last())) as int;
        lemma_insertion_point_bound(sorted, sort_key(devices.last()));
        let out = sorted.insert(i, devices.last());
        assert(devices.last() == devices[devices.len() - 1]);
        assert forall|k: int| 0 <= k < out.len() implies (#[trigger] out[k]).wf() && oss_caps_fit(out[k]) by {
            if k < i {
                assert(out[k] == sorted[k]);
            } else if k == i {
                assert(out[k] == devices.last());
            } else {
                assert(out[k] == sorted[k - 1]);
            }
        }
    }
}

proof fn lemma_dedup_usable(devices: Seq<AudioDeviceOption>)
    requires
        all_usable(devices),
    ensures
        all_usable(spec_dedup_devices(devices)),
    decreases devices.len(),
{
    if devices.len() > 0 {
        let rest = devices.drop_last();
        assert(all_usable(rest)) by {
            assert forall|k: int| 0 <= k < rest.len() implies (#[trigger] rest[k]).wf() && oss_caps_fit(rest[k]) by {
                assert(rest[k] == devices[k]);
            }
        }
        lemma_dedup_usable(rest);
        assert(devices.last() == devices[devices.len() - 1]);
    }
}

/// Every device the platform reports, playback and capture together, ordered
/// by lowercase label, one per id.
pub fn platform_audio_devices(output_devices: Vec<AudioDeviceOption>, input_devices: Vec<AudioDeviceOption>) -> (devices: Vec<AudioDeviceOption>)
    ensures
        devices@ == spec_dedup_devices(spec_sort_devices(output_devices@ + input_devices@)),
        all_usable(output_devices@) && all_usable(input_devices@) ==> all_usable(devices@),
{
    let ghost outs = output_devices@;
    let ghost ins = input_devices@;
    let mut all = output_devices;
    let mut inputs = input_devices;
    all.append(&mut inputs);
    proof {
        assert(all@ =~= outs + ins);
        if all_usable(outs) && all_usable(ins) {
            assert forall|k: int| 0 <= k < all@.len() implies (#[trigger] all@[k]).wf() && oss_caps_fit(all@[k]) by {
                if k < outs.len() {
                    assert(all@[k] == outs[k]);
                } else {
                    assert(all@[k] == ins[k - outs.len()]);
                }
            }
        }
    }
    sort_and_dedup_devices(all)
}

/// The playback devices offered for `engine` among the platform's devices:
/// only `jack` for JACK; otherwise those that can play, or the backend's
/// default device when none can, ordered by lowercase label, one per id.
pub fn discover_output_audio_devices(engine: AudioEngineOption, platform_devices: Vec<AudioDeviceOption>) -> (devices: Vec<AudioDeviceOption>)
    ensures
        discovered_outputs(engine, platform_devices@, devices@),
        all_usable(platform_devices@) ==> all_usable(devices@),
{
    if engine.is_jack() {
        let mut devices = Vec::new();
        devices.push(simple_audio_device("jack"));
        return devices;
    }
    let mut devices = filter_devices(platform_devices, true);
    if devices.len() == 0 {
        devices.push(simple_audio_device(default_audio_device(engine)));
        proof { lemma_single_device_order(devices@); }
    }
    proof {
        if all_usable(platform_devices@) {
            lemma_filter_usable(platform_devices@, true);
        }
    }
    let ghost listed = devices@;
    let sorted = sort_and_dedup_devices(devices);
    proof {
        if all_usable(listed) {
            lemma_sort_usable(listed);
            lemma_dedup_usable(spec_sort_devices(listed));
        }
    }
    sorted
}

/// The capture devices offered for `engine`: none for JACK; otherwise those
/// that can record, ordered by lowercase label, one per id.
pub fn discover_input_audio_devices(engine: AudioEngineOption, platform_devices: Vec<AudioDeviceOption>) -> (devices: Vec<AudioDeviceOption>)
    ensures
        discovered_inputs(engine, platform_devices@, devices@),
        all_usable(platform_devices@) ==> all_usable(devices@),
{
    if engine.is_jack() {
        return Vec::new();
    }
    let devices = filter_devices(platform_devices, false);
    proof {
        if all_usable(platform_devices@) {
            lemma_filter_usable(platform_devices@, false);
            lemma_sort_usable(devices@);
            lemma_dedup_usable(spec_sort_devices(devices@));
        }
    }
    sort_and_dedup_devices(devices)
}

/// Whether a device id belongs to `engine`: ALSA hardware ids start with
/// `hw:`, and JACK lists no devices.
pub fn backend_matches_device(engine: AudioEngineOption, device_id: &str) -> (matches: bool)
    ensures
        matches == (engine == AudioEngineOption::Alsa && device_id@.len() >= 3
            && device_id@.subrange(0, 3) == "hw:"@),
{
    proof { reveal_strlit("hw:"); }
    match engine {
        AudioEngineOption::Jack => false,
        AudioEngineOption::Alsa => {
            let n = device_id.unicode_len();
            if n < 3 {
                return false;
            }
            let result = device_id.get_char(0) == 'h' && device_id.get_char(1) == 'w' && device_id.get_char(2) == ':';
            proof {
                if result {
                    assert(device_id@.subrange(0, 3) =~= "hw:"@);
                } else if device_id@.subrange(0, 3) == "hw:"@ {
                    assert(device_id@.subrange(0, 3)[0] == device_id@[0]);
                    assert(device_id@.subrange(0, 3)[1] == device_id@[1]);
                    assert(device_id@.subrange(0, 3)[2] == device_id@[2]);
                }
            }
            result
        },
    }
}

/// Audio hardware choices made on the startup screen.
#[derive(Debug)]
pub struct StartupSetup {
    pub audio_engine: AudioEngineOption,
    pub output_devices: Vec<AudioDeviceOption>,
    pub input_devices: Vec<AudioDeviceOption>,
    pub output_device: Option<AudioDeviceOption>,
    pub input_device: Option<AudioDeviceOption>,
    pub sample_rate_hz: i32,
    pub bits: usize,
    pub exclusive: bool,
    pub period_frames: usize,
    pub nperiods: usize,
    pub sync_mode: bool,
}

pub open spec fn bytes_per_sample(bits: usize) -> Option<nat> {
    if bits == 8 { Some(1) } else if bits == 16 { Some(2) } else if bits == 24 { Some(3) } else if bits == 32 { Some(4) } else { None }
}

/// Bytes per frame of an OSS device at `bits`, when the device reports its
/// limits, the depth is supported and the product fits a `usize`.
pub open spec fn oss_frame_bytes(device: AudioDeviceOption, bits: usize) -> Option<nat> {
    if device.max_channels == 0 || device.max_buffer_bytes == 0 {
        None
    } else {
        match bytes_per_sample(bits) {
            None => None,
            Some(b) => {
                let product = device.max_channels * b;
                if product > usize::MAX { None } else { Some(product as nat) }
            },
        }
    }
}

/// The frame size has a power of two at or above it within `usize`.
pub open spec fn oss_caps_fit(device: AudioDeviceOption) -> bool {
    forall|bits: usize| (#[trigger] oss_frame_bytes(device, bits)) matches Some(fb) ==> fb <= usize::MAX / 2 + 1
}

/// The smallest power of two, from `p` up by doubling, that is at least `n`.
pub open spec fn pow2_from(p: nat, n: nat) -> nat
    decreases (if p >= n { 0 } else { n - p }) when p > 0
{
    if p >= n { p } else { pow2_from(2 * p, n) }
}

/// Frames per period for buffer sizes `bytes`, `2 * bytes`, ... up to
/// `max_bytes` (while the size fits a `usize`), rounded up, at least 1.
pub open spec fn oss_sizes(bytes: nat, max_bytes: nat, frame_bytes: nat) -> Seq<usize>
    decreases (if bytes > max_bytes { 0 } else { max_bytes + 1 - bytes }) when bytes > 0 && frame_bytes > 0
{
    if bytes > max_bytes {
        Seq::empty()
    } else {
        let frames = ((bytes + frame_bytes - 1) as nat) / frame_bytes;
        let size = if frames >= 1 { frames as usize } else { 1usize };
        if 2 * bytes > usize::MAX {
            seq![size]
        } else {
            seq![size] + oss_sizes(2 * bytes, max_bytes, frame_bytes)
        }
    }
}

/// The period sizes an OSS device allows at `bits`: buffer sizes from the
/// frame size rounded up to a power of two, doubling up to the device buffer
/// (at most 64 KiB), each in whole frames; `None` when the device reports no
/// limits or the depth is not supported.
pub open spec fn spec_oss_period_frame_options(device: AudioDeviceOption, bits: usize) -> Option<Set<usize>> {
    match oss_frame_bytes(device, bits) {
        None => None,
        Some(fb) => {
            let frame_bytes: nat = if fb >= 1 { fb } else { 1 };
            let min_bytes = pow2_from(1, frame_bytes);
            let capped: nat = if device.max_buffer_bytes <= 65536 { device.max_buffer_bytes as nat } else { 65536 };
            let max_bytes = if capped >= min_bytes { capped } else { min_bytes };
            Some(oss_sizes(min_bytes, max_bytes, frame_bytes).to_set())
        },
    }
}

/// The unique ascending sequence of a finite set of sizes.
pub open spec fn ascending_seq_of(set: Set<usize>) -> Seq<usize> {
    choose|s: Seq<usize>| strictly_ascending(s) && s.to_set() == set
}

proof fn lemma_ascending_same_set_usize(a: Seq<usize>, b: Seq<usize>)
    requires
        strictly_ascending(a),
        strictly_ascending(b),
        a.to_set() == b.to_set(),
    ensures
        a == b,
    decreases a.len() + b.len(),
{
    if a.len() == 0 || b.len() == 0 {
        if a.len() > 0 { assert(a.to_set().contains(a[0])); }
        if b.len() > 0 { assert(b.to_set().contains(b[0])); }
        assert(a =~= b);
    } else {
        assert(a.to_set().contains(a[0]) && b.to_set().contains(b[0]));
        let i = choose|i: int| 0 <= i < b.len() && b[i] == a[0];
        let j = choose|j: int| 0 <= j < a.len() && a[j] == b[0];
        if i > 0 { assert(b[0] < b[i]); if j > 0 { assert(a[0] < a[j]); } }
        if j > 0 { assert(a[0] < a[j]); }
        let a1 = a.drop_first();
        let b1 = b.drop_first();
        assert forall|x: usize| a1.to_set().contains(x) <==> b1.to_set().contains(x) by {
            if a1.to_set().contains(x) {
                let k = choose|k: int| 0 <= k < a1.len() && a1[k] == x;
                assert(a[k + 1] == x);
                assert(a.to_set().contains(x));
                let m = choose|m: int| 0 <= m < b.len() && b[m] == x;
                assert(a[0] < a[k + 1]);
                assert(b1[m - 1] == x);
            }
            if b1.to_set().contains(x) {
                let k = choose|k: int| 0 <= k < b1.len() && b1[k] == x;
                assert(b[k + 1] == x);
                assert(b.to_set().contains(x));
                let m = choose|m: int| 0 <= m < a.len() && a[m] == x;
                assert(b[0] < b[k + 1]);
                assert(a1[m - 1] == x);
            }
        }
        assert(a1.to_set() =~= b1.to_set());
        lemma_ascending_same_set_usize(a1, b1);
        assert forall|k: int| 0 <= k < a.len() implies a[k] == b[k] by {
            if k > 0 { assert(a[k] == a1[k - 1] && b[k] == b1[k - 1]); }
        }
        assert(a =~= b);
    }
}

proof fn lemma_ascending_seq_of(s: Seq<usize>)
    requires
        strictly_ascending(s),
    ensures
        ascending_seq_of(s.to_set()) == s,
{
    let t = ascending_seq_of(s.to_set());
    assert(strictly_ascending(t) && t.to_set() == s.to_set());
    lemma_ascending_same_set_usize(t, s);
}

/// The period sizes an OSS device allows at `bits`, ascending, or `None`
/// when the device reports no limits or the depth is not supported.
pub fn oss_period_frame_options(device: &AudioDeviceOption, bits: usize) -> (options: Option<Vec<usize>>)
    requires
        oss_caps_fit(*device),
    ensures
        match (options, spec_oss_period_frame_options(*device, bits)) {
            (None, None) => true,
            (Some(v), Some(set)) => strictly_ascending(v@) && v@.to_set() == set && v@.len() > 0,
            _ => false,
        },
{
    if device.max_channels == 0 || device.max_buffer_bytes == 0 {
        return None;
    }
    let channels = if device.max_channels >= 1 { device.max_channels } else { 1 };
    let bytes_per_sample: usize = if bits == 8 { 1 } else if bits == 16 { 2 } else if bits == 24 { 3 } else if bits == 32 { 4 } else { return None; };
    let product = match channels.checked_mul(bytes_per_sample) { Some(p) => p, None => { return None; } };
    let frame_bytes = if product >= 1 { product } else { 1 };
    proof {
        assert(oss_frame_bytes(*device, bits) == Some(product as nat));
        assert(product <= usize::MAX / 2 + 1);
    }
    let mut min_bytes: usize = 1;
    while min_bytes < frame_bytes
        invariant
            1 <= min_bytes,
            frame_bytes <= usize::MAX / 2 + 1,
            pow2_from(min_bytes as nat, frame_bytes as nat) == pow2_from(1, frame_bytes as nat),
        decreases (if min_bytes >= frame_bytes { 0 } else { frame_bytes - min_bytes }),
    {
        min_bytes = min_bytes * 2;
    }
    let capped = if device.max_buffer_bytes <= 65536 { device.max_buffer_bytes } else { 65536 };
    let max_bytes = if capped >= min_bytes { capped } else { min_bytes };
    let mut sizes: Vec<usize> = Vec::new();
    let mut bytes: usize = min_bytes;
    let ghost all = oss_sizes(min_bytes as nat, max_bytes as nat, frame_bytes as nat);
    proof { assert(sizes@ + oss_sizes(bytes as nat, max_bytes as nat, frame_bytes as nat) =~= all); }
    loop
        invariant_except_break
            sizes@ + oss_sizes(bytes as nat, max_bytes as nat, frame_bytes as nat) == all,
        invariant
            1 <= bytes,
            frame_bytes >= 1,
        ensures
            sizes@ == all,
        decreases (if bytes > max_bytes { 0 } else { max_bytes + 1 - bytes }),
    {
        if bytes > max_bytes {
            proof { assert(sizes@ + Seq::<usize>::empty() =~= sizes@); }
            break;
        }
        let q = bytes / frame_bytes;
        let r = bytes % frame_bytes;
        proof {
            assert(r != 0 ==> q + 1 <= bytes) by (nonlinear_arith)
                requires frame_bytes >= 1, q == bytes / frame_bytes, r == bytes % frame_bytes;
        }
        let frames = if r == 0 { q } else { q + 1 };
        proof {
            assert(((bytes + frame_bytes - 1) as int) / (frame_bytes as int) == frames as int) by (nonlinear_arith)
                requires
                    frame_bytes >= 1,
                    q == bytes / frame_bytes,
                    r == bytes % frame_bytes,
                    frames == if r == 0 { q as int } else { q + 1 },
            {
                assert(bytes == q * frame_bytes + r && 0 <= r < frame_bytes);
            }
        }
        let size = if frames >= 1 { frames } else { 1 };
        sizes.push(size);
        match bytes.checked_mul(2) {
            Some(next) => {
                proof {
                    assert(sizes@ + oss_sizes(next as nat, max_bytes as nat, frame_bytes as nat) =~= all);
                }
                bytes = next;
            },
            None => {
                proof { assert(sizes@ =~= all); }
                break;
            },
        }
    }
    let options = distinct_ascending(&sizes);
    proof {
        assert(all.len() > 0);
        assert(sizes@.to_set().contains(sizes@[0]));
        assert(options@.to_set().contains(sizes@[0]));
    }
    Some(options)
}

pub open spec fn spec_selected_bits(engine: AudioEngineOption, bits: usize) -> i32 {
    if engine.spec_is_jack() { 32 } else { bits as i32 }
}

/// The period sizes offered for `engine` and the selected device at the
/// selected depth: the device's OSS sizes when it reports limits, else the
/// default list.
pub open spec fn spec_period_frame_options(engine: AudioEngineOption, device: Option<AudioDeviceOption>, bits: usize) -> Seq<usize> {
    if !engine.spec_is_jack() && device is Some
        && spec_oss_period_frame_options(device.unwrap(), spec_selected_bits(engine, bits) as usize) is Some {
        ascending_seq_of(spec_oss_period_frame_options(device.unwrap(), spec_selected_bits(engine, bits) as usize).unwrap())
    } else {
        spec_default_period_frame_options()
    }
}

pub open spec fn spec_sample_rate_options(engine: AudioEngineOption, device: Option<AudioDeviceOption>) -> Seq<i32> {
    if engine.spec_is_jack() {
        spec_fallback_sample_rates()
    } else {
        match device {
            Some(d) => if d.supported_sample_rates@.len() > 0 { d.supported_sample_rates@ } else { spec_fallback_sample_rates() },
            None => spec_fallback_sample_rates(),
        }
    }
}

pub open spec fn spec_bit_options(engine: AudioEngineOption, device: Option<AudioDeviceOption>) -> Seq<usize> {
    if engine.spec_is_jack() {
        spec_fallback_bits()
    } else {
        match device {
            Some(d) => if d.supported_bits@.len() > 0 { d.supported_bits@ } else { spec_fallback_bits() },
            None => spec_fallback_bits(),
        }
    }
}

impl StartupSetup {
    /// Devices hold their invariants and the selected output device has
    /// OSS limits that fit the machine.
    pub open spec fn wf(&self) -> bool {
        &&& self.output_device matches Some(d) ==> d.wf() && oss_caps_fit(d)
        &&& self.input_device matches Some(d) ==> d.wf()
    }
}

/// Sample rates offered for the setup: all fallback rates for JACK, else the
/// output device's rates, or the fallback rates when it lists none.
pub fn sample_rate_options(setup: &StartupSetup) -> (rates: Vec<i32>)
    ensures
        rates@ == spec_sample_rate_options(setup.audio_engine, setup.output_device),
{
    if setup.audio_engine.is_jack() {
        return fallback_sample_rates();
    }
    match &setup.output_device {
        Some(device) => {
            if device.supported_sample_rates.len() > 0 { copy_vec(&device.supported_sample_rates) } else { fallback_sample_rates() }
        },
        None => fallback_sample_rates(),
    }
}

/// Bit depths offered for the setup: all fallback depths for JACK, else the
/// output device's depths, or the fallback depths when it lists none.
pub fn bit_options(setup: &StartupSetup) -> (bits: Vec<usize>)
    ensures
        bits@ == spec_bit_options(setup.audio_engine, setup.output_device),
{
    if setup.audio_engine.is_jack() {
        return fallback_bits();
    }
    match &setup.output_device {
        Some(device) => {
            if device.supported_bits.len() > 0 { copy_vec(&device.supported_bits) } else { fallback_bits() }
        },
        None => fallback_bits(),
    }
}

/// The bit depth handed to the engine: 32 for JACK, else the selected depth
/// as an `i32`.
pub fn selected_bits(setup: &StartupSetup) -> (bits: i32)
    ensures
        bits == spec_selected_bits(setup.audio_engine, setup.bits),
{
    if setup.audio_engine.is_jack() { 32 } else { setup.bits as i32 }
}

/// Period sizes offered for the setup, ascending.
pub fn period_frame_options(setup: &StartupSetup) -> (options: Vec<usize>)
    requires
        setup.wf(),
    ensures
        options@ == spec_period_frame_options(setup.audio_engine, setup.output_device, setup.bits),
        strictly_ascending(options@),
{
    if !setup.audio_engine.is_jack() {
        match &setup.output_device {
            Some(device) => {
                match oss_period_frame_options(device, selected_bits(setup) as usize) {
                    Some(options) => {
                        proof { lemma_ascending_seq_of(options@); }
                        return options;
                    },
                    None => {},
                }
            },
            None => {},
        }
    }
    let options = default_period_frame_options();
    proof {
        assert(strictly_ascending(options@)) by {
            assert forall|i: int, j: int| 0 <= i < j < options@.len() implies #[trigger] options@[i] < #[trigger] options@[j] by {
                lemma_default_periods_ascending(i, j);
            }
        }
    }
    options
}

proof fn lemma_default_periods_ascending(i: int, j: int)
    requires
        0 <= i < j < 13,
    ensures
        spec_default_period_frame_options()[i] < spec_default_period_frame_options()[j],
{
    let s = spec_default_period_frame_options();
    assert(s[0] == 16 && s[1] == 32 && s[2] == 64 && s[3] == 128 && s[4] == 256 && s[5] == 512 && s[6] == 1024
        && s[7] == 2048 && s[8] == 4096 && s[9] == 8192 && s[10] == 16384 && s[11] == 32768 && s[12] == 65536);
}

/// Distance between two sample rates as the setup measures it: the
/// difference, saturated at `i32::MAX`, without its sign.
pub open spec fn rate_distance(candidate: i32, rate: i32) -> int {
    let d = candidate - rate;
    if d > i32::MAX { i32::MAX as int } else if d >= 0 { d } else { -d }
}

/// The first rate among `options` at the smallest distance from `rate`.
pub open spec fn closest_rate(options: Seq<i32>, rate: i32) -> i32
    decreases options.len(),
{
    if options.len() <= 1 {
        options[0]
    } else {
        let best = closest_rate(options.drop_last(), rate);
        if rate_distance(options.last(), rate) < rate_distance(best, rate) { options.last() } else { best }
    }
}

pub open spec fn spec_pick_sample_rate(options: Seq<i32>, rate: i32) -> i32 {
    if options.contains(rate) { rate } else if options.len() == 0 { 48_000 } else { closest_rate(options, rate) }
}

pub open spec fn spec_pick_bits(options: Seq<usize>, bits: usize) -> usize {
    if options.contains(bits) { bits } else if options.len() == 0 { 32 } else { options[0] }
}

/// The first option at least `value`.
pub open spec fn first_at_least(options: Seq<usize>, value: usize) -> Option<usize>
    decreases options.len(),
{
    if options.len() == 0 {
        None
    } else if options[0] >= value {
        Some(options[0])
    } else {
        first_at_least(options.drop_first(), value)
    }
}

pub open spec fn spec_pick_period_frames(options: Seq<usize>, period_frames: usize) -> usize {
    if options.contains(period_frames) {
        period_frames
    } else {
        match first_at_least(options, period_frames) {
            Some(v) => v,
            None => if options.len() > 0 { options.last() } else { period_frames },
        }
    }
}

fn contains_i32(values: &Vec<i32>, x: i32) -> (found: bool)
    ensures
        found == values@.contains(x),
{
    let mut i: usize = 0;
    while i < values.len()
        invariant
            i <= values@.len(),
            forall|k: int| 0 <= k < i ==> values@[k] != x,
        decreases values@.len() - i,
    {
        if values[i] == x {
            proof { assert(values@[i as int] == x); }
            return true;
        }
        i += 1;
    }
    false
}

fn contains_usize(values: &Vec<usize>, x: usize) -> (found: bool)
    ensures
        found == values@.contains(x),
{
    let mut i: usize = 0;
    while i < values.len()
        invariant
            i <= values@.len(),
            forall|k: int| 0 <= k < i ==> values@[k] != x,
        decreases values@.len() - i,
    {
        if values[i] == x {
            proof { assert(values@[i as int] == x); }
            return true;
        }
        i += 1;
    }
    false
}

/// The selected sample rate if the options include it, else the first
/// option closest to it.
pub fn pick_sample_rate(setup: &StartupSetup) -> (rate: i32)
    requires
        setup.wf(),
    ensures
        rate == spec_pick_sample_rate(spec_sample_rate_options(setup.audio_engine, setup.output_device), setup.sample_rate_hz),
{
    let options = sample_rate_options(setup);
    let target = setup.sample_rate_hz;
    if contains_i32(&options, target) {
        return target;
    }
    if options.len() == 0 {
        return 48_000;
    }
    proof {
        assert forall|k: int| 0 <= k < options@.len() implies #[trigger] options@[k] > 0 by {
            if !setup.audio_engine.spec_is_jack() && setup.output_device is Some
                && setup.output_device.unwrap().supported_sample_rates@.len() > 0 {
            } else {
                let f = spec_fallback_sample_rates();
                assert(f[0] > 0 && f[1] > 0 && f[2] > 0 && f[3] > 0 && f[4] > 0 && f[5] > 0 && f[6] > 0
                    && f[7] > 0 && f[8] > 0 && f[9] > 0 && f[10] > 0 && f[11] > 0);
            }
        }
    }
    let mut best = options[0];
    let mut i: usize = 1;
    proof { assert(options@.subrange(0, 1) =~= seq![options@[0]]); }
    while i < options.len()
        invariant
            1 <= i <= options@.len(),
            forall|k: int| 0 <= k < options@.len() ==> #[trigger] options@[k] > 0,
            best == closest_rate(options@.subrange(0, i as int), target),
            best > 0,
        decreases options@.len() - i,
    {
        let candidate = options[i];
        let d_candidate = distance_exec(candidate, target);
        let d_best = distance_exec(best, target);
        proof {
            assert(options@.subrange(0, i + 1).drop_last() =~= options@.subrange(0, i as int));
            lemma_closest_is_option(options@.subrange(0, i as int), target);
        }
        if d_candidate < d_best {
            best = candidate;
        }
        i += 1;
    }
    proof { assert(options@.subrange(0, options@.len() as int) =~= options@); }
    best
}

proof fn lemma_closest_is_option(options: Seq<i32>, rate: i32)
    requires
        options.len() >= 1,
    ensures
        options.contains(closest_rate(options, rate)),
    decreases options.len(),
{
    if options.len() == 1 {
        assert(options[0] == closest_rate(options, rate));
    } else {
        lemma_closest_is_option(options.drop_last(), rate);
        let best = closest_rate(options.drop_last(), rate);
        let j = choose|j: int| 0 <= j < options.drop_last().len() && options.drop_last()[j] == best;
        assert(options[j] == best);
        assert(options[options.len() - 1] == options.last());
    }
}

fn distance_exec(candidate: i32, rate: i32) -> (d: i64)
    requires
        candidate > 0,
    ensures
        d == rate_distance(candidate, rate),
{
    let diff = candidate as i64 - rate as i64;
    if diff > i32::MAX as i64 { i32::MAX as i64 } else if diff >= 0 { diff } else { -diff }
}

/// The selected depth if the options include it, else the first option.
pub fn pick_bits(setup: &StartupSetup) -> (bits: usize)
    ensures
        bits == spec_pick_bits(spec_bit_options(setup.audio_engine, setup.output_device), setup.bits),
{
    let options = bit_options(setup);
    if contains_usize(&options, setup.bits) {
        setup.bits
    } else if options.len() > 0 {
        options[0]
    } else {
        32
    }
}

fn pick_from_period_options(options: &Vec<usize>, period_frames: usize) -> (picked: usize)
    ensures
        picked == spec_pick_period_frames(options@, period_frames),
{
    if contains_usize(options, period_frames) {
        return period_frames;
    }
    let mut i: usize = 0;
    proof { assert(options@.subrange(0, options@.len() as int) =~= options@); }
    while i < options.len()
        invariant
            i <= options@.len(),
            !options@.contains(period_frames),
            first_at_least(options@, period_frames) == first_at_least(options@.subrange(i as int, options@.len() as int), period_frames),
        decreases options@.len() - i,
    {
        proof {
            assert(options@.subrange(i as int, options@.len() as int)[0] == options@[i as int]);
            assert(options@.subrange(i as int, options@.len() as int).drop_first() =~= options@.subrange(i + 1, options@.len() as int));
        }
        if options[i] >= period_frames {
            proof {
                assert(first_at_least(options@.subrange(i as int, options@.len() as int), period_frames) == Some(options@[i as int]));
            }
            return options[i];
        }
        i += 1;
    }
    proof { assert(options@.subrange(options@.len() as int, options@.len() as int) =~= Seq::<usize>::empty()); }
    if options.len() > 0 {
        options[options.len() - 1]
    } else {
        period_frames
    }
}

/// The selected period size if offered, else the first offered size at
/// least as large, else the largest offered size.
pub fn pick_period_frames(setup: &StartupSetup) -> (period_frames: usize)
    requires
        setup.wf(),
    ensures
        period_frames == spec_pick_period_frames(
            spec_period_frame_options(setup.audio_engine, setup.output_device, setup.bits),
            setup.period_frames,
        ),
{
    let options = period_frame_options(setup);
    pick_from_period_options(&options, setup.period_frames)
}

/// The period size handed to the engine; the same choice as
/// [`pick_period_frames`].
pub fn selected_period_frames(setup: &StartupSetup) -> (period_frames: usize)
    requires
        setup.wf(),
    ensures
        period_frames == spec_pick_period_frames(
            spec_period_frame_options(setup.audio_engine, setup.output_device, setup.bits),
            setup.period_frames,
        ),
{
    let options = period_frame_options(setup);
    pick_from_period_options(&options, setup.period_frames)
}

/// The output device id handed to the engine: `jack` for JACK, else the
/// selected device, else the backend's default device.
pub fn selected_output_device(setup: &StartupSetup) -> (id: String)
    ensures
        id@ == if setup.audio_engine.spec_is_jack() {
            "jack"@
        } else {
            match setup.output_device {
                Some(d) => d.id@,
                None => spec_default_audio_device(setup.audio_engine),
            }
        },
{
    if setup.audio_engine.is_jack() {
        String::from_str("jack")
    } else {
        match &setup.output_device {
            Some(device) => device.id.clone(),
            None => String::from_str(default_audio_device(setup.audio_engine)),
        }
    }
}

/// The input device id handed to the engine: none for JACK, else the
/// selected input device, if any.
pub fn selected_input_device(setup: &StartupSetup) -> (id: Option<String>)
    ensures
        match id {
            Some(s) => !setup.audio_engine.spec_is_jack() && setup.input_device is Some && s@ == setup.input_device.unwrap().id@,
            None => setup.audio_engine.spec_is_jack() || setup.input_device is None,
        },
{
    if setup.audio_engine.is_jack() {
        None
    } else {
        match &setup.input_device {
            Some(device) => Some(device.id.clone()),
            None => None,
        }
    }
}

/// Index of the first device with id `id`.
pub open spec fn first_with_id(devices: Seq<AudioDeviceOption>, id: Seq<char>) -> Option<int>
    decreases devices.len(),
{
    if devices.len() == 0 {
        None
    } else {
        match first_with_id(devices.drop_last(), id) {
            Some(j) => Some(j),
            None => if devices.last().id@ == id { Some(devices.len() - 1) } else { None },
        }
    }
}

/// The device selected at startup: the one with the preferred id, else the
/// first device, if any.
pub open spec fn preferred_index(devices: Seq<AudioDeviceOption>, preferred: Option<String>) -> Option<int> {
    let found = match preferred {
        Some(id) => first_with_id(devices, id@),
        None => None,
    };
    match found {
        Some(j) => Some(j),
        None => if devices.len() > 0 { Some(0) } else { None },
    }
}

pub open spec fn selects(chosen: Option<AudioDeviceOption>, devices: Seq<AudioDeviceOption>, index: Option<int>) -> bool {
    match (chosen, index) {
        (Some(d), Some(j)) => 0 <= j < devices.len() && d.same_as(devices[j]),
        (None, None) => true,
        _ => false,
    }
}

proof fn lemma_first_with_id(devices: Seq<AudioDeviceOption>, id: Seq<char>)
    ensures
        first_with_id(devices, id) matches Some(j) ==> 0 <= j < devices.len() && devices[j].id@ == id,
        first_with_id(devices, id) is None ==> forall|k: int| 0 <= k < devices.len() ==> (#[trigger] devices[k]).id@ != id,
    decreases devices.len(),
{
    if devices.len() > 0 {
        lemma_first_with_id(devices.drop_last(), id);
        assert forall|k: int| 0 <= k < devices.len() - 1 implies devices.drop_last()[k] == #[trigger] devices[k] by {}
    }
}

proof fn lemma_first_with_id_is_first(devices: Seq<AudioDeviceOption>, id: Seq<char>)
    ensures
        first_with_id(devices, id) matches Some(j) ==> forall|k: int| 0 <= k < j ==> (#[trigger] devices[k]).id@ != id,
    decreases devices.len(),
{
    if devices.len() > 0 {
        lemma_first_with_id_is_first(devices.drop_last(), id);
        lemma_first_with_id(devices.drop_last(), id);
        assert forall|k: int| 0 <= k < devices.len() - 1 implies devices.drop_last()[k] == #[trigger] devices[k] by {}
    }
}

/// The startup choice of a device: with no device there is none; with
/// devices there always is one. It is the first device carrying the
/// preferred id when some device carries it, and otherwise (no preference,
/// or a preference that matches no device) the first device of the list.
pub proof fn lemma_startup_choice(
    chosen: Option<AudioDeviceOption>,
    devices: Seq<AudioDeviceOption>,
    preferred: Option<String>,
)
    requires
        selects(chosen, devices, preferred_index(devices, preferred)),
    ensures
        chosen is None <==> devices.len() == 0,
        (preferred is Some && exists|k: int| 0 <= k < devices.len() && (#[trigger] devices[k]).id@ == preferred.unwrap()@) ==> {
            &&& chosen is Some
            &&& chosen.unwrap().id@ == preferred.unwrap()@
            &&& exists|j: int| 0 <= j < devices.len()
                    && chosen.unwrap().same_as(#[trigger] devices[j])
                    && forall|k: int| 0 <= k < j ==> (#[trigger] devices[k]).id@ != preferred.unwrap()@
        },
        (devices.len() > 0 && (preferred is None
            || forall|k: int| 0 <= k < devices.len() ==> (#[trigger] devices[k]).id@ != preferred.unwrap()@)) ==> {
            &&& chosen is Some
            &&& chosen.unwrap().same_as(devices[0])
        },
{
    match preferred {
        Some(id) => {
            lemma_first_with_id(devices, id@);
            lemma_first_with_id_is_first(devices, id@);
            if first_with_id(devices, id@) is None {
                if exists|k: int| 0 <= k < devices.len() && (#[trigger] devices[k]).id@ == id@ {
                    let k = choose|k: int| 0 <= k < devices.len() && (#[trigger] devices[k]).id@ == id@;
                    assert(devices[k].id@ != id@);
                }
            } else {
                let j = first_with_id(devices, id@).unwrap();
                assert(devices[j].id@ == id@);
            }
        },
        None => {},
    }
}

fn choose_device(devices: &Vec<AudioDeviceOption>, preferred: &Option<String>) -> (chosen: Option<AudioDeviceOption>)
    ensures
        selects(chosen, devices@, preferred_index(devices@, *preferred)),
{
    match preferred {
        Some(id) => {
            let mut i: usize = 0;
            while i < devices.len()
                invariant
                    i <= devices@.len(),
                    *preferred == Some(*id),
                    first_with_id(devices@.subrange(0, i as int), id@) is None,
                decreases devices@.len() - i,
            {
                proof { assert(devices@.subrange(0, i + 1).drop_last() =~= devices@.subrange(0, i as int)); }
                if devices[i].id == *id {
                    proof {
                        assert(first_with_id(devices@.subrange(0, i + 1), id@) == Some(i as int));
                        lemma_first_with_id_prefix(devices@, id@, i as int);
                        assert(preferred_index(devices@, *preferred) == Some(i as int));
                    }
                    let chosen = devices[i].clone();
                    proof { assert(chosen.same_as(devices@[i as int])); }
                    return Some(chosen);
                }
                i += 1;
            }
            proof { assert(devices@.subrange(0, devices@.len() as int) =~= devices@); }
        },
        None => {},
    }
    if devices.len() > 0 { Some(devices[0].clone()) } else { None }
}

/// A match found in a prefix is the match in the whole sequence.
pub proof fn lemma_first_with_id_prefix(devices: Seq<AudioDeviceOption>, id: Seq<char>, i: int)
    requires
        0 <= i < devices.len(),
        first_with_id(devices.subrange(0, i + 1), id) == Some(i),
    ensures
        first_with_id(devices, id) == Some(i),
    decreases devices.len(),
{
    if devices.len() > i + 1 {
        let shorter = devices.drop_last();
        assert(shorter.subrange(0, i + 1) =~= devices.subrange(0, i + 1));
        lemma_first_with_id_prefix(shorter, id, i);
    } else {
        assert(devices.subrange(0, i + 1) =~= devices);
    }
}

impl StartupSetup {
    /// The startup setup for the discovered devices: ALSA, the preferred
    /// output and input devices (else the first of each), 48 kHz, 32-bit and
    /// 1024-frame periods adjusted to what the output device offers,
    /// exclusive mode on and sync mode off.
    pub fn with_preferences(
        preferences: &EditorPreferences,
        output_devices: Vec<AudioDeviceOption>,
        input_devices: Vec<AudioDeviceOption>,
        default_n_periods: usize,
    ) -> (setup: Self)
        requires
            forall|k: int| 0 <= k < output_devices@.len() ==>
                (#[trigger] output_devices@[k]).wf() && oss_caps_fit(output_devices@[k]),
            forall|k: int| 0 <= k < input_devices@.len() ==> (#[trigger] input_devices@[k]).wf(),
        ensures
            setup.wf(),
            setup.audio_engine == AudioEngineOption::Alsa,
            setup.output_devices@ == output_devices@,
            setup.input_devices@ == input_devices@,
            selects(setup.output_device, output_devices@, preferred_index(output_devices@, preferences.default_output_device_id)),
            selects(setup.input_device, input_devices@, preferred_index(input_devices@, preferences.default_input_device_id)),
            setup.output_device is Some <==> output_devices@.len() > 0,
            setup.input_device is Some <==> input_devices@.len() > 0,
            (output_devices@.len() > 0 && (preferences.default_output_device_id is None
                || forall|k: int| 0 <= k < output_devices@.len() ==>
                    (#[trigger] output_devices@[k]).id@ != preferences.default_output_device_id.unwrap()@))
                ==> setup.output_device.unwrap().same_as(output_devices@[0]),
            (input_devices@.len() > 0 && (preferences.default_input_device_id is None
                || forall|k: int| 0 <= k < input_devices@.len() ==>
                    (#[trigger] input_devices@[k]).id@ != preferences.default_input_device_id.unwrap()@))
                ==> setup.input_device.unwrap().same_as(input_devices@[0]),
            (preferences.default_output_device_id is Some && exists|k: int| 0 <= k < output_devices@.len()
                && (#[trigger] output_devices@[k]).id@ == preferences.default_output_device_id.unwrap()@)
                ==> setup.output_device.unwrap().id@ == preferences.default_output_device_id.unwrap()@,
            (preferences.default_input_device_id is Some && exists|k: int| 0 <= k < input_devices@.len()
                && (#[trigger] input_devices@[k]).id@ == preferences.default_input_device_id.unwrap()@)
                ==> setup.input_device.unwrap().id@ == preferences.default_input_device_id.unwrap()@,
            setup.sample_rate_hz == spec_pick_sample_rate(spec_sample_rate_options(setup.audio_engine, setup.output_device), 48_000),
            setup.bits == spec_pick_bits(spec_bit_options(setup.audio_engine, setup.output_device), 32),
            setup.period_frames == spec_pick_period_frames(
                spec_period_frame_options(setup.audio_engine, setup.output_device, setup.bits),
                1024,
            ),
            setup.exclusive,
            setup.nperiods == default_n_periods,
            !setup.sync_mode,
    {
        let output_device = choose_device(&output_devices, &preferences.default_output_device_id);
        let input_device = choose_device(&input_devices, &preferences.default_input_device_id);
        proof {
            lemma_startup_choice(output_device, output_devices@, preferences.default_output_device_id);
            lemma_startup_choice(input_device, input_devices@, preferences.default_input_device_id);
            if output_device is Some {
                let d = output_device.unwrap();
                let j = preferred_index(output_devices@, preferences.default_output_device_id).unwrap();
                assert(output_devices@[j].wf() && oss_caps_fit(output_devices@[j]));
                assert forall|bits: usize| #[trigger] oss_frame_bytes(d, bits) == oss_frame_bytes(output_devices@[j], bits) by {}
            }
            if input_device is Some {
                let j = preferred_index(input_devices@, preferences.default_input_device_id).unwrap();
                assert(input_devices@[j].wf());
            }
        }
        let mut setup = StartupSetup {
            audio_engine: AudioEngineOption::Alsa,
            output_devices,
            input_devices,
            output_device,
            input_device,
            sample_rate_hz: 48_000,
            bits: 32,
            exclusive: true,
            period_frames: 1024,
            nperiods: default_n_periods,
            sync_mode: false,
        };
        setup.sample_rate_hz = pick_sample_rate(&setup);
        setup.bits = pick_bits(&setup);
        setup.period_frames = pick_period_frames(&setup);
        setup
    }
}

} // verus!
