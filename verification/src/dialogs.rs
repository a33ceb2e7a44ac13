//! State of the editor's dialogs and the export choices they offer.

use std::path::PathBuf;

use vstd::prelude::*;

use crate::devices::{AudioDeviceOption, StartupSetup};

verus! {

/// Container formats for exported marker ranges.
#[derive(Debug, Clone, Copy, PartialEq, Eq, Structural)]
pub enum ExportFormat {
    Wav,
    Flac,
    OggFlac,
    Mp3,
}

impl Default for ExportFormat {
    /// WAV is the default export format.
    fn default() -> (format: Self)
        ensures
            format == ExportFormat::Wav,
    {
        ExportFormat::Wav
    }
}

impl ExportFormat {
    /// Every format, in the order the export dialog lists them.
    pub fn all() -> (formats: Vec<ExportFormat>)
        ensures
            formats@ == seq![ExportFormat::Wav, ExportFormat::Flac, ExportFormat::OggFlac, ExportFormat::Mp3],
    {
        let formats = vec![ExportFormat::Wav, ExportFormat::Flac, ExportFormat::OggFlac, ExportFormat::Mp3];
        proof { assert(formats@ =~= seq![ExportFormat::Wav, ExportFormat::Flac, ExportFormat::OggFlac, ExportFormat::Mp3]); }
        formats
    }

    pub open spec fn spec_extension(self) -> Seq<char> {
        match self {
            ExportFormat::Wav => "wav"@,
            ExportFormat::Flac => "flac"@,
            ExportFormat::OggFlac => "ogg"@,
            ExportFormat::Mp3 => "mp3"@,
        }
    }

    /// File extension of exported files.
    pub fn extension(self) -> (ext: &'static str)
        ensures
            ext@ == self.spec_extension(),
    {
        match self {
            ExportFormat::Wav => "wav",
            ExportFormat::Flac => "flac",
            ExportFormat::OggFlac => "ogg",
            ExportFormat::Mp3 => "mp3",
        }
    }

    /// The name shown in the export dialog.
    pub fn label(self) -> (label: &'static str)
        ensures
            self == ExportFormat::Wav ==> label@ == "WAV"@,
            self == ExportFormat::Flac ==> label@ == "FLAC"@,
            self == ExportFormat::OggFlac ==> label@ == "OGG FLAC"@,
            self == ExportFormat::Mp3 ==> label@ == "MP3"@,
    {
        match self {
            ExportFormat::Wav => "WAV",
            ExportFormat::Flac => "FLAC",
            ExportFormat::OggFlac => "OGG FLAC",
            ExportFormat::Mp3 => "MP3",
        }
    }
}

/// Sample depths for exported marker ranges.
#[derive(Debug, Clone, Copy, PartialEq, Eq, Structural)]
pub enum ExportBitDepth {
    Bits16,
    Bits24,
    Bits32,
}

impl Default for ExportBitDepth {
    /// 16-bit is the default depth.
    fn default() -> (depth: Self)
        ensures
            depth == ExportBitDepth::Bits16,
    {
        ExportBitDepth::Bits16
    }
}

impl ExportBitDepth {
    /// Every depth, in the order the export dialog lists them.
    pub fn all() -> (depths: Vec<ExportBitDepth>)
        ensures
            depths@ == seq![ExportBitDepth::Bits16, ExportBitDepth::Bits24, ExportBitDepth::Bits32],
    {
        let depths = vec![ExportBitDepth::Bits16, ExportBitDepth::Bits24, ExportBitDepth::Bits32];
        proof { assert(depths@ =~= seq![ExportBitDepth::Bits16, ExportBitDepth::Bits24, ExportBitDepth::Bits32]); }
        depths
    }

    pub open spec fn spec_bits(self) -> u16 {
        match self {
            ExportBitDepth::Bits16 => 16,
            ExportBitDepth::Bits24 => 24,
            ExportBitDepth::Bits32 => 32,
        }
    }

    /// Bits per sample.
    pub fn bits(self) -> (bits: u16)
        ensures
            bits == self.spec_bits(),
    {
        match self {
            ExportBitDepth::Bits16 => 16,
            ExportBitDepth::Bits24 => 24,
            ExportBitDepth::Bits32 => 32,
        }
    }

    /// The name shown in the export dialog.
    pub fn label(self) -> (label: &'static str)
        ensures
            self == ExportBitDepth::Bits16 ==> label@ == "16-bit"@,
            self == ExportBitDepth::Bits24 ==> label@ == "24-bit"@,
            self == ExportBitDepth::Bits32 ==> label@ == "32-bit"@,
    {
        match self {
            ExportBitDepth::Bits16 => "16-bit",
            ExportBitDepth::Bits24 => "24-bit",
            ExportBitDepth::Bits32 => "32-bit",
        }
    }
}

/// Sample rates for exported marker ranges.
#[derive(Debug, Clone, Copy, PartialEq, Eq, Structural)]
pub enum ExportSampleRate {
    Hz22050,
    Hz44100,
    Hz48000,
    Hz88200,
    Hz96000,
    Hz192000,
}

impl ExportSampleRate {
    /// Every rate, in the order the export dialog lists them.
    pub fn all() -> (rates: Vec<ExportSampleRate>)
        ensures
            rates@ == seq![
                ExportSampleRate::Hz22050, ExportSampleRate::Hz44100, ExportSampleRate::Hz48000,
                ExportSampleRate::Hz88200, ExportSampleRate::Hz96000, ExportSampleRate::Hz192000,
            ],
    {
        let rates = vec![
            ExportSampleRate::Hz22050, ExportSampleRate::Hz44100, ExportSampleRate::Hz48000,
            ExportSampleRate::Hz88200, ExportSampleRate::Hz96000, ExportSampleRate::Hz192000,
        ];
        proof {
            assert(rates@ =~= seq![
                ExportSampleRate::Hz22050, ExportSampleRate::Hz44100, ExportSampleRate::Hz48000,
                ExportSampleRate::Hz88200, ExportSampleRate::Hz96000, ExportSampleRate::Hz192000,
            ]);
        }
        rates
    }

    pub open spec fn spec_value(self) -> u32 {
        match self {
            ExportSampleRate::Hz22050 => 22_050,
            ExportSampleRate::Hz44100 => 44_100,
            ExportSampleRate::Hz48000 => 48_000,
            ExportSampleRate::Hz88200 => 88_200,
            ExportSampleRate::Hz96000 => 96_000,
            ExportSampleRate::Hz192000 => 192_000,
        }
    }

    /// The rate in hertz.
    pub fn value(self) -> (hz: u32)
        ensures
            hz == self.spec_value(),
    {
        match self {
            ExportSampleRate::Hz22050 => 22_050,
            ExportSampleRate::Hz44100 => 44_100,
            ExportSampleRate::Hz48000 => 48_000,
            ExportSampleRate::Hz88200 => 88_200,
            ExportSampleRate::Hz96000 => 96_000,
            ExportSampleRate::Hz192000 => 192_000,
        }
    }

    /// The name shown in the export dialog, such as `48000 Hz`.
    pub fn label(self) -> (label: String)
        ensures
            label@ == crate::text::spec_decimal(self.spec_value() as nat) + " Hz"@,
    {
        let mut label = crate::text::decimal(self.value() as usize);
        crate::text::push_str(&mut label, " Hz");
        label
    }
}

/// The marker-name dialog, opened at a sample position.
#[derive(Debug)]
pub struct MarkerDialog {
    pub sample: usize,
    pub name: String,
}

/// The marker-detection dialog, holding its inputs as typed.
#[derive(Debug)]
pub struct DetectMarkersDialog {
    pub threshold_db: String,
    pub silence_samples: String,
}

impl Default for DetectMarkersDialog {
    /// A threshold of -60 dB and 1000 silent samples.
    fn default() -> (dialog: Self)
        ensures
            dialog.threshold_db@ == "-60.0"@,
            dialog.silence_samples@ == "1000"@,
    {
        DetectMarkersDialog {
            threshold_db: String::from_str("-60.0"),
            silence_samples: String::from_str("1000"),
        }
    }
}

/// The marker-export dialog.
#[derive(Debug)]
pub struct ExportMarkersDialog {
    pub directory: Option<PathBuf>,
    pub format: ExportFormat,
    pub bit_depth: ExportBitDepth,
    pub sample_rate: ExportSampleRate,
}

impl Default for ExportMarkersDialog {
    /// No directory yet, 24-bit WAV at 48 kHz.
    fn default() -> (dialog: Self)
        ensures
            dialog.directory is None,
            dialog.format == ExportFormat::Wav,
            dialog.bit_depth == ExportBitDepth::Bits24,
            dialog.sample_rate == ExportSampleRate::Hz48000,
    {
        ExportMarkersDialog {
            directory: None,
            format: ExportFormat::Wav,
            bit_depth: ExportBitDepth::Bits24,
            sample_rate: ExportSampleRate::Hz48000,
        }
    }
}

/// The preferences dialog: the device lists and the chosen defaults.
#[derive(Debug)]
pub struct PreferencesDialog {
    pub output_devices: Vec<AudioDeviceOption>,
    pub input_devices: Vec<AudioDeviceOption>,
    pub output_device: Option<AudioDeviceOption>,
    pub input_device: Option<AudioDeviceOption>,
}

pub open spec fn same_device_lists(a: Seq<AudioDeviceOption>, b: Seq<AudioDeviceOption>) -> bool {
    a.len() == b.len() && forall|k: int| 0 <= k < a.len() ==> (#[trigger] a[k]).same_as(b[k])
}

pub open spec fn same_device_choice(a: Option<AudioDeviceOption>, b: Option<AudioDeviceOption>) -> bool {
    match (a, b) {
        (Some(x), Some(y)) => x.same_as(y),
        (None, None) => true,
        _ => false,
    }
}

/// A copy of a device list.
pub fn copy_devices(devices: &Vec<AudioDeviceOption>) -> (copy: Vec<AudioDeviceOption>)
    ensures
        same_device_lists(copy@, devices@),
{
    let mut copy: Vec<AudioDeviceOption> = Vec::new();
    let mut i: usize = 0;
    while i < devices.len()
        invariant
            i <= devices@.len(),
            copy@.len() == i,
            forall|k: int| 0 <= k < i ==> (#[trigger] copy@[k]).same_as(devices@[k]),
        decreases devices@.len() - i,
    {
        copy.push(devices[i].clone());
        i += 1;
    }
    copy
}

/// A copy of a device choice.
pub fn copy_device_choice(device: &Option<AudioDeviceOption>) -> (copy: Option<AudioDeviceOption>)
    ensures
        same_device_choice(copy, *device),
{
    match device {
        Some(d) => Some(d.clone()),
        None => None,
    }
}

impl PreferencesDialog {
    /// The dialog opened on the current setup: its device lists and its
    /// selected devices.
    pub fn from_setup(setup: &StartupSetup) -> (dialog: Self)
        ensures
            same_device_lists(dialog.output_devices@, setup.output_devices@),
            same_device_lists(dialog.input_devices@, setup.input_devices@),
            same_device_choice(dialog.output_device, setup.output_device),
            same_device_choice(dialog.input_device, setup.input_device),
    {
        PreferencesDialog {
            output_devices: copy_devices(&setup.output_devices),
            input_devices: copy_devices(&setup.input_devices),
            output_device: copy_device_choice(&setup.output_device),
            input_device: copy_device_choice(&setup.input_device),
        }
    }
}

} // verus!
