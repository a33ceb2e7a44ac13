//! Audio file formats the editor writes: the encoder settings for an export
//! choice or a save path, and the names of exported range files.

use std::path::{Path, PathBuf};

use vstd::prelude::*;

use crate::dialogs::{ExportBitDepth, ExportFormat};
use crate::text::{push_str, spec_decimal, spec_zero_padded, zero_padded_decimal};

verus! {

/// Paths are handed to the standard library unread.
#[verifier::external_type_specification]
#[verifier::external_body]
pub struct ExPath(Path);

/// Sample format of a WAV file.
#[derive(Debug, Clone, Copy, PartialEq, Eq, Structural)]
pub enum WavBitDepth {
    Int16,
    Int24,
    Int32,
    Float32,
}

impl WavBitDepth {
    /// Bits per stored sample.
    pub open spec fn sample_bits(self) -> nat {
        match self {
            WavBitDepth::Int16 => 16,
            WavBitDepth::Int24 => 24,
            WavBitDepth::Int32 => 32,
            WavBitDepth::Float32 => 32,
        }
    }
}

/// Encoder settings handed to the audio codec: the container and, where it
/// has one, the bit depth.
#[derive(Debug, Clone, Copy, PartialEq, Eq, Structural)]
pub enum AudioEncodeFormat {
    Wav(WavBitDepth),
    Flac(u16),
    OggFlac(u16),
    Mp3,
}

pub open spec fn spec_export_encode_format(format: ExportFormat, bit_depth: ExportBitDepth) -> AudioEncodeFormat {
    let bits: u16 = match bit_depth {
        ExportBitDepth::Bits16 => 16,
        ExportBitDepth::Bits24 => 24,
        ExportBitDepth::Bits32 => 32,
    };
    match format {
        ExportFormat::Wav => AudioEncodeFormat::Wav(match bit_depth {
            ExportBitDepth::Bits16 => WavBitDepth::Int16,
            ExportBitDepth::Bits24 => WavBitDepth::Int24,
            ExportBitDepth::Bits32 => WavBitDepth::Int32,
        }),
        ExportFormat::Flac => AudioEncodeFormat::Flac(bits),
        ExportFormat::OggFlac => AudioEncodeFormat::OggFlac(bits),
        ExportFormat::Mp3 => AudioEncodeFormat::Mp3,
    }
}

/// An export writes the container the user chose, and every container that
/// has a bit depth stores samples of exactly the chosen number of bits, WAV
/// as integer PCM: 16 -> `Int16`, 24 -> `Int24`, 32 -> `Int32`.
pub proof fn lemma_export_keeps_chosen_depth(format: ExportFormat, bit_depth: ExportBitDepth)
    ensures
        match spec_export_encode_format(format, bit_depth) {
            AudioEncodeFormat::Wav(depth) => format == ExportFormat::Wav
                && depth != WavBitDepth::Float32
                && depth.sample_bits() == bit_depth.spec_bits() as nat,
            AudioEncodeFormat::Flac(bits) => format == ExportFormat::Flac && bits == bit_depth.spec_bits(),
            AudioEncodeFormat::OggFlac(bits) => format == ExportFormat::OggFlac && bits == bit_depth.spec_bits(),
            AudioEncodeFormat::Mp3 => format == ExportFormat::Mp3,
        },
{
}

/// Encoder settings for an export: integer WAV at the chosen depth, FLAC
/// and Ogg FLAC at the chosen number of bits, MP3 as is.
pub fn export_encode_format(format: ExportFormat, bit_depth: ExportBitDepth) -> (encode: AudioEncodeFormat)
    ensures
        encode == spec_export_encode_format(format, bit_depth),
        match encode {
            AudioEncodeFormat::Wav(depth) => format == ExportFormat::Wav
                && depth != WavBitDepth::Float32
                && depth.sample_bits() == bit_depth.spec_bits() as nat,
            AudioEncodeFormat::Flac(bits) => format == ExportFormat::Flac && bits == bit_depth.spec_bits(),
            AudioEncodeFormat::OggFlac(bits) => format == ExportFormat::OggFlac && bits == bit_depth.spec_bits(),
            AudioEncodeFormat::Mp3 => format == ExportFormat::Mp3,
        },
{
    proof { lemma_export_keeps_chosen_depth(format, bit_depth); }
    match format {
        ExportFormat::Wav => AudioEncodeFormat::Wav(match bit_depth {
            ExportBitDepth::Bits16 => WavBitDepth::Int16,
            ExportBitDepth::Bits24 => WavBitDepth::Int24,
            ExportBitDepth::Bits32 => WavBitDepth::Int32,
        }),
        ExportFormat::Flac => AudioEncodeFormat::Flac(bit_depth.bits()),
        ExportFormat::OggFlac => AudioEncodeFormat::OggFlac(bit_depth.bits()),
        ExportFormat::Mp3 => AudioEncodeFormat::Mp3,
    }
}

pub open spec fn spec_export_filename(stem: Seq<char>, index: nat, extension: Seq<char>) -> Seq<char> {
    stem + seq!['_'] + spec_zero_padded(spec_decimal(index), 3) + seq!['.'] + extension
}

/// The file name of exported range number `index`: the source stem, an
/// underscore, the number with at least three digits, a dot and the
/// extension (`track_007.wav`).
pub fn export_filename(stem: &str, index: usize, extension: &str) -> (name: String)
    ensures
        name@ == spec_export_filename(stem@, index as nat, extension@),
{
    let mut name = String::from_str(stem);
    push_str(&mut name, "_");
    let number = zero_padded_decimal(index, 3);
    push_str(&mut name, number.as_str());
    push_str(&mut name, ".");
    push_str(&mut name, extension);
    proof {
        reveal_strlit("_");
        reveal_strlit(".");
    }
    name
}

/// `char::to_ascii_lowercase`.
pub open spec fn ascii_lower(c: char) -> char {
    if 'A' <= c <= 'Z' { ((c as u32) + 32) as char } else { c }
}

/// `str::to_ascii_lowercase`: ASCII capitals become small letters, every
/// other character stays.
pub open spec fn spec_ascii_lowercase(s: Seq<char>) -> Seq<char> {
    Seq::new(s.len(), |i: int| ascii_lower(s[i]))
}

/// `s` with ASCII capitals made small (see [`spec_ascii_lowercase`]).
pub fn ascii_lowercase(s: &str) -> (lower: String)
    ensures
        lower@ == spec_ascii_lowercase(s@),
{
    let chars = crate::text::chars_of(s);
    let mut out: Vec<char> = Vec::new();
    let mut i: usize = 0;
    while i < chars.len()
        invariant
            chars@ == s@,
            i <= chars@.len(),
            out@ == spec_ascii_lowercase(s@).subrange(0, i as int),
        decreases chars@.len() - i,
    {
        let c = chars[i];
        let l = if 'A' <= c && c <= 'Z' { ((c as u32) + 32) as u8 as char } else { c };
        proof {
            if 'A' <= c <= 'Z' {
                assert((((c as u32) + 32) as u8) as char == ascii_lower(c));
            }
        }
        out.push(l);
        proof { assert(out@ =~= spec_ascii_lowercase(s@).subrange(0, i + 1)); }
        i += 1;
    }
    proof { assert(spec_ascii_lowercase(s@).subrange(0, s@.len() as int) =~= spec_ascii_lowercase(s@)); }
    crate::text::string_of(&out)
}

/// Why a save path has no encoder.
#[derive(Debug, Clone, Copy, PartialEq, Eq, Structural)]
pub enum SaveFormatError {
    /// The path has no extension (or one that is not text).
    MissingExtension,
    /// The extension names no format the editor writes.
    Unsupported,
}

pub open spec fn spec_format_for_extension(extension: Option<Seq<char>>) -> Result<AudioEncodeFormat, SaveFormatError> {
    match extension {
        None => Err(SaveFormatError::MissingExtension),
        Some(e) => {
            let lower = spec_ascii_lowercase(e);
            if lower == "wav"@ {
                Ok(AudioEncodeFormat::Wav(WavBitDepth::Float32))
            } else if lower == "flac"@ {
                Ok(AudioEncodeFormat::Flac(24))
            } else if lower == "mp3"@ {
                Ok(AudioEncodeFormat::Mp3)
            } else if lower == "ogg"@ {
                Ok(AudioEncodeFormat::OggFlac(24))
            } else {
                Err(SaveFormatError::Unsupported)
            }
        },
    }
}

/// The encoder for a save path's extension, compared without regard to
/// ASCII case: `wav` saves 32-bit float WAV, `flac` 24-bit FLAC, `mp3` MP3
/// and `ogg` 24-bit Ogg FLAC.
pub fn format_for_extension(extension: Option<&str>) -> (format: Result<AudioEncodeFormat, SaveFormatError>)
    ensures
        format == spec_format_for_extension(match extension { Some(e) => Some(e@), None => None }),
{
    let e = match extension {
        None => return Err(SaveFormatError::MissingExtension),
        Some(e) => e,
    };
    let lower = ascii_lowercase(e);
    proof {
        reveal_strlit("wav");
        reveal_strlit("flac");
        reveal_strlit("mp3");
        reveal_strlit("ogg");
    }
    if equal_text(lower.as_str(), "wav") {
        Ok(AudioEncodeFormat::Wav(WavBitDepth::Float32))
    } else if equal_text(lower.as_str(), "flac") {
        Ok(AudioEncodeFormat::Flac(24))
    } else if equal_text(lower.as_str(), "mp3") {
        Ok(AudioEncodeFormat::Mp3)
    } else if equal_text(lower.as_str(), "ogg") {
        Ok(AudioEncodeFormat::OggFlac(24))
    } else {
        Err(SaveFormatError::Unsupported)
    }
}

/// Whether two texts hold the same characters.
pub fn equal_text(a: &str, b: &str) -> (same: bool)
    ensures
        same == (a@ == b@),
{
    let x = crate::text::chars_of(a);
    let y = crate::text::chars_of(b);
    if x.len() != y.len() {
        return false;
    }
    let mut i: usize = 0;
    while i < x.len()
        invariant
            x@ == a@,
            y@ == b@,
            x@.len() == y@.len(),
            i <= x@.len(),
            forall|k: int| 0 <= k < i ==> x@[k] == y@[k],
        decreases x@.len() - i,
    {
        if x[i] != y[i] {
            return false;
        }
        i += 1;
    }
    proof { assert(a@ =~= b@); }
    true
}

/// Calls `Path::extension` and reads the extension as UTF-8 with
/// `OsStr::to_str`. How a path splits into components depends on the
/// platform, so nothing is claimed of the result.
#[verifier::external_body]
fn path_extension(path: &Path) -> (extension: Option<String>)
{
    path.extension().and_then(|ext| ext.to_str()).map(String::from)
}

/// Borrows a `PathBuf` as a `Path` (`PathBuf::as_path`).
#[verifier::external_body]
pub(crate) fn path_ref(path: &PathBuf) -> (borrowed: &Path)
{
    path.as_path()
}

/// Formats `Path::display` into a `String`. The text depends on the
/// platform's path encoding, so nothing is claimed of it.
#[verifier::external_body]
fn path_display(path: &Path) -> (text: String)
{
    format!("{}", path.display())
}

pub open spec fn missing_extension_message() -> Seq<char> {
    "Save path needs an audio extension: wav, flac, mp3, or ogg."@
}

pub open spec fn unsupported_message(display: Seq<char>) -> Seq<char> {
    "Cannot save '"@ + display + "': supported save formats are wav, flac, mp3, and ogg."@
}

/// The encoder for saving to `path`, chosen by its extension as
/// [`format_for_extension`] does; a path without a usable extension, or
/// with one the editor does not write, gets a message saying so (the
/// latter naming the path as displayed).
pub fn encode_format_for_path(path: &Path) -> (format: Result<AudioEncodeFormat, String>)
    ensures
        exists|extension: Option<Seq<char>>| #![trigger spec_format_for_extension(extension)]
            match spec_format_for_extension(extension) {
                Ok(f) => format == Ok::<AudioEncodeFormat, String>(f),
                Err(SaveFormatError::MissingExtension) => format matches Err(m) && m@ == missing_extension_message(),
                Err(SaveFormatError::Unsupported) => format matches Err(m)
                    && exists|display: Seq<char>| m@ == unsupported_message(display),
            },
{
    let extension = path_extension(path);
    let ghost ext_view = match &extension { Some(e) => Some(e@), None => None::<Seq<char>> };
    let found = match &extension {
        Some(e) => format_for_extension(Some(e.as_str())),
        None => format_for_extension(None),
    };
    let result = match found {
        Ok(f) => Ok(f),
        Err(SaveFormatError::MissingExtension) => {
            proof { reveal_strlit("Save path needs an audio extension: wav, flac, mp3, or ogg."); }
            Err(String::from_str("Save path needs an audio extension: wav, flac, mp3, or ogg."))
        },
        Err(SaveFormatError::Unsupported) => {
            let display = path_display(path);
            let mut message = String::from_str("Cannot save '");
            push_str(&mut message, display.as_str());
            push_str(&mut message, "': supported save formats are wav, flac, mp3, and ogg.");
            proof { assert(message@ == unsupported_message(display@)); }
            Err(message)
        },
    };
    proof { assert(spec_format_for_extension(ext_view) == found); }
    result
}


/// One file of a marker-range export: the frames `[start, end)` and the
/// file name.
#[derive(Debug, PartialEq)]
pub struct ExportJob {
    pub start: usize,
    pub end: usize,
    pub file_name: String,
}

pub open spec fn no_ranges_message() -> Seq<char> {
    "No ranges to export."@
}

/// The files of a marker-range export: one per range of
/// `marker_ranges`, numbered from 1 in order and named by
/// [`export_filename`] with the source stem and the format's extension. A
/// document without frames has no ranges, which is an error.
pub fn export_jobs(markers: &[(usize, String)], frames: usize, stem: &str, format: ExportFormat) -> (jobs: Result<Vec<ExportJob>, String>)
    ensures
        frames == 0 ==> (jobs matches Err(m) && m@ == no_ranges_message()),
        frames > 0 ==> (jobs matches Ok(list) && exists|ranges: Seq<(usize, usize)>| {
            &&& crate::markers::is_marker_partition(ranges, markers@, frames as nat)
            &&& list@.len() == ranges.len()
            &&& forall|k: int| 0 <= k < ranges.len() ==> {
                    &&& (#[trigger] list@[k]).start == ranges[k].0
                    &&& list@[k].end == ranges[k].1
                    &&& list@[k].file_name@ == spec_export_filename(stem@, (k + 1) as nat, format.spec_extension())
                }
        }),
{
    let ranges = crate::markers::marker_ranges(markers, frames);
    if ranges.len() == 0 {
        return Err(String::from_str("No ranges to export."));
    }
    let extension = format.extension();
    let mut list: Vec<ExportJob> = Vec::new();
    let mut k: usize = 0;
    while k < ranges.len()
        invariant
            k <= ranges@.len(),
            extension@ == format.spec_extension(),
            list@.len() == k,
            forall|j: int| 0 <= j < k ==> {
                &&& (#[trigger] list@[j]).start == ranges@[j].0
                &&& list@[j].end == ranges@[j].1
                &&& list@[j].file_name@ == spec_export_filename(stem@, (j + 1) as nat, format.spec_extension())
            },
        decreases ranges@.len() - k,
    {
        let (start, end) = ranges[k];
        list.push(ExportJob { start, end, file_name: export_filename(stem, k + 1, extension) });
        k += 1;
    }
    Ok(list)
}

} // verus!
