use maolan_editor::formats::{export_jobs, ExportJob};
use std::path::Path;

use maolan_editor::dialogs::{ExportBitDepth, ExportFormat, ExportSampleRate};
use maolan_editor::formats::{
    ascii_lowercase, encode_format_for_path, export_encode_format, export_filename, format_for_extension,
    AudioEncodeFormat, SaveFormatError, WavBitDepth,
};

#[test]
fn encode_format_matches_extensions() {
    assert!(matches!(
        encode_format_for_path(Path::new("x.wav")).unwrap(),
        AudioEncodeFormat::Wav(WavBitDepth::Float32)
    ));
    assert!(matches!(encode_format_for_path(Path::new("x.flac")).unwrap(), AudioEncodeFormat::Flac(24)));
    assert!(matches!(encode_format_for_path(Path::new("x.mp3")).unwrap(), AudioEncodeFormat::Mp3));
    assert!(matches!(encode_format_for_path(Path::new("x.ogg")).unwrap(), AudioEncodeFormat::OggFlac(24)));
}

#[test]
fn export_filename_includes_index_and_extension() {
    assert_eq!(export_filename("track", 7, "wav"), "track_007.wav");
}

#[test]
fn export_encode_format_maps_formats() {
    assert!(matches!(
        export_encode_format(ExportFormat::Wav, ExportBitDepth::Bits24),
        AudioEncodeFormat::Wav(WavBitDepth::Int24)
    ));
    assert!(matches!(export_encode_format(ExportFormat::Flac, ExportBitDepth::Bits16), AudioEncodeFormat::Flac(16)));
    assert!(matches!(
        export_encode_format(ExportFormat::OggFlac, ExportBitDepth::Bits32),
        AudioEncodeFormat::OggFlac(32)
    ));
    assert!(matches!(export_encode_format(ExportFormat::Mp3, ExportBitDepth::Bits24), AudioEncodeFormat::Mp3));
}

#[test]
fn export_filename_keeps_long_numbers() {
    assert_eq!(export_filename("take", 1234, "flac"), "take_1234.flac");
    assert_eq!(export_filename("", 0, "mp3"), "_000.mp3");
}

#[test]
fn encode_format_ignores_extension_case() {
    assert_eq!(encode_format_for_path(Path::new("dir/Song.WAV")), Ok(AudioEncodeFormat::Wav(WavBitDepth::Float32)));
    assert_eq!(format_for_extension(Some("FlAc")), Ok(AudioEncodeFormat::Flac(24)));
}

#[test]
fn encode_format_needs_an_extension() {
    assert_eq!(
        encode_format_for_path(Path::new("song")),
        Err(String::from("Save path needs an audio extension: wav, flac, mp3, or ogg."))
    );
    assert_eq!(format_for_extension(None), Err(SaveFormatError::MissingExtension));
}

#[test]
fn encode_format_rejects_other_extensions() {
    assert_eq!(
        encode_format_for_path(Path::new("song.aiff")),
        Err(String::from("Cannot save 'song.aiff': supported save formats are wav, flac, mp3, and ogg."))
    );
    assert_eq!(format_for_extension(Some("m4a")), Err(SaveFormatError::Unsupported));
}

#[test]
fn ascii_lowercase_changes_only_ascii_capitals() {
    assert_eq!(ascii_lowercase("MiXeD Ä"), "mixed Ä");
}

#[test]
fn export_choices_have_extensions_bits_and_rates() {
    assert_eq!(ExportFormat::OggFlac.extension(), "ogg");
    assert_eq!(ExportFormat::Mp3.extension(), "mp3");
    assert_eq!(ExportBitDepth::Bits24.bits(), 24);
    assert_eq!(ExportSampleRate::Hz44100.value(), 44_100);
}

#[test]
fn export_jobs_name_each_range() {
    let markers = vec![(12_000, "A".to_string()), (36_000, "B".to_string())];
    let jobs = export_jobs(&markers, 48_000, "test_track", ExportFormat::Wav).unwrap();
    assert_eq!(
        jobs,
        vec![
            ExportJob { start: 0, end: 12_000, file_name: String::from("test_track_001.wav") },
            ExportJob { start: 12_000, end: 36_000, file_name: String::from("test_track_002.wav") },
            ExportJob { start: 36_000, end: 48_000, file_name: String::from("test_track_003.wav") },
        ]
    );
    assert_eq!(export_jobs(&markers, 0, "t", ExportFormat::Flac), Err(String::from("No ranges to export.")));
}
