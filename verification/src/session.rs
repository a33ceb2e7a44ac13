//! The editor's state and how each user action or engine event changes it.
//!
//! An [`EditApp`] holds what the editor decides on: the startup setup, the
//! open document with its undo history, the playhead and the selection, the
//! open dialogs and the status line. Each method handles one event and
//! returns the [`Effect`] that the shell must carry out (talk to the audio
//! engine, close the window, ...); the shell performs it and hands the
//! outcome back as another event.

use std::path::PathBuf;

use vstd::prelude::*;

use crate::devices::{
    all_usable, discover_input_audio_devices, discover_output_audio_devices, discovered_inputs,
    discovered_outputs, lemma_same_usable, oss_caps_fit, pick_bits,
    pick_period_frames, pick_sample_rate, spec_bit_options, spec_filter_devices,
    spec_period_frame_options, spec_pick_bits, spec_pick_period_frames, spec_pick_sample_rate,
    spec_sample_rate_options, spec_sort_devices, spec_dedup_devices, device_insertion_point,
    AudioDeviceOption, AudioEngineOption, StartupSetup,
};
use crate::dialogs::{
    same_device_choice, DetectMarkersDialog, ExportBitDepth, ExportFormat, ExportMarkersDialog, ExportSampleRate,
    MarkerDialog, PreferencesDialog,
};
use crate::preferences::EditorPreferences;
use crate::document::{delete_sample_range, restore_document, spec_deleted, crossing_at, next_zero_crossing_frame, AudioDocument, DocumentSnapshot, FrameSign};
use crate::markers::{
    add_markers, detect_markers_from_silence, has_marker_at, markers_match, marker_region_around,
    remove_markers_at, sound_boundaries, spec_dedup_markers, spec_markers_without, spec_sort_markers,
};
use crate::text::{
    chars_of, decimal, parse_unsigned, parse_unsigned_chars, push_str, spec_decimal, spec_zero_padded, string_of,
    trim, trim_chars, zero_padded_decimal,
};
use crate::formats::{encode_format_for_path, path_ref, spec_format_for_extension};
use crate::edits::{
    audio_edit_status, spec_clip_gain_deltas, spec_edit_note, spec_envelope, spec_region_action,
    summarize_audio_edit_actions, AudioEditAction, AudioEditKind, EditNote,
};
use crate::history::EditHistory;

verus! {

/// What the status line says. The shell renders it as text; `Text` carries
/// a message the shell composed itself (an error from the engine or a
/// message naming a file).
#[derive(Debug, PartialEq)]
pub enum Status {
    Text(String),
    OpenAudioPrompt,
    ChooseHardware,
    ScanningPlugins,
    NoAudioOpen,
    PlaybackNotReady,
    PreparingPlayback,
    PlayingPreview,
    Playing,
    OpenHardwareFirst,
    Stopped,
    ZeroCrossing { frame: usize },
    NoZeroCrossing,
    Selected { start: usize, end: usize },
    SelectedRegion { start: usize, end: usize },
    NoMarkersToSelect,
    Undone,
    NothingToUndo,
    Redone,
    NothingToRedo,
    SelectionEmpty,
    Deleted { start: usize, end: usize },
    Edited(EditNote),
    MarkerAdded { sample: usize },
    MarkerDeleted { sample: usize },
    NoMarkerAtPosition,
    InvalidThreshold,
    InvalidSilenceCount,
    SilenceCountZero,
    MarkersDetected { count: usize },
    OpeningFile,
    Saving,
    Saved,
    DocumentInfo,
    OpenCancelled,
    SaveCancelled,
    CloseCancelled,
    UnsavedChanges,
    ChooseSaveDestination,
    ChooseClipSaveLocation,
    ChooseSaveFormat,
    ChooseExportDirectory,
    NoMarkersToExport,
    ExportingRanges,
    Exported { count: usize },
    PreferencesSaved,
    PreferencesNotSaved(String),
}

/// The plugin formats the engine scans at startup.
#[derive(Debug, Clone, Copy, PartialEq, Eq, Structural)]
pub enum PluginFormat {
    Vst3,
    Clap,
    Lv2,
}

/// Which plugin scans have finished, and how.
#[derive(Debug, Clone, Copy, PartialEq, Eq, Structural)]
pub struct PluginScan {
    pub vst3_loaded: bool,
    pub vst3_unavailable: bool,
    pub clap_loaded: bool,
    pub clap_unavailable: bool,
    pub lv2_loaded: bool,
    pub lv2_unavailable: bool,
}

impl PluginScan {
    pub open spec fn spec_done(self) -> bool {
        &&& (self.vst3_loaded || self.vst3_unavailable)
        &&& (self.clap_loaded || self.clap_unavailable)
        &&& (self.lv2_loaded || self.lv2_unavailable)
    }

    /// Every scan has finished, found plugins or not.
    pub fn done(&self) -> (done: bool)
        ensures
            done == self.spec_done(),
    {
        (self.vst3_loaded || self.vst3_unavailable) && (self.clap_loaded || self.clap_unavailable)
            && (self.lv2_loaded || self.lv2_unavailable)
    }
}

/// The outside work an event calls for.
#[derive(Debug, PartialEq)]
pub enum Effect {
    Idle,
    /// Scan plugins and open the audio device of the setup.
    OpenEngine,
    /// Rebuild the preview of the edited document, then, when
    /// `prepare_track`, load it into the engine's preview track.
    RebuildPreview { prepare_track: bool },
    /// Move the keyboard focus to the marker-name field.
    FocusMarkerName,
    /// Let the user pick the directory to export marker ranges to.
    ChooseExportDirectory,
    /// Let the user pick an audio file to open.
    OpenFileDialog,
    /// Save the rendered document.
    SaveDocument { target: SaveTarget },
    /// Let the user pick where to save, starting from a path of the
    /// document.
    AskSavePath { start: SaveStart },
    /// Close the editor window.
    CloseWindow,
    /// Ask whether to save, discard or keep the unsaved changes.
    ConfirmClose,
    /// Export the ranges between the document's markers.
    ExportMarkers {
        directory: PathBuf,
        format: ExportFormat,
        bit_depth: ExportBitDepth,
        sample_rate: u32,
    },
    /// Store these preferences.
    SavePreferences(EditorPreferences),
    /// Start engine playback at the given frame.
    StartEnginePlayback { start: usize },
    /// Stop engine playback.
    StopEnginePlayback,
}

/// Where a save goes.
#[derive(Debug, PartialEq)]
pub enum SaveTarget {
    /// The document's own save path.
    SavePath,
    /// A path the user picked.
    Chosen(PathBuf),
}

/// The path a save dialog starts from.
#[derive(Debug, Clone, Copy, PartialEq, Eq, Structural)]
pub enum SaveStart {
    SavePath,
    SourcePath,
}

/// The answer to the unsaved-changes question.
#[derive(Debug, Clone, Copy, PartialEq, Eq, Structural)]
pub enum CloseChoice {
    Save,
    Discard,
    Cancel,
}

/// An edit the user asks for from the menu, the toolbar or the host.
#[derive(Debug, Clone, Copy)]
pub enum EditRequest<G> {
    /// A ready-made action.
    Action(AudioEditAction<G>),
    /// The default fade in over the clip start.
    FadeIn,
    /// The default fade out over the clip end.
    FadeOut,
    /// A gain change of the given amount over the whole clip (the editor's
    /// volume buttons ask for one decibel up or down).
    Gain(G),
    Reverse,
    /// Deleting the selected frames.
    DeleteSelection,
}

/// The editor state.
pub struct EditApp<T, G> {
    pub standalone_ready: bool,
    pub engine_open: bool,
    pub setup: StartupSetup,
    pub audio: Option<AudioDocument<T, G>>,
    pub history: EditHistory<DocumentSnapshot<T, G>>,
    pub status: Status,
    pub busy: bool,
    pub preparing_playback: bool,
    pub playing: bool,
    pub playhead_samples: usize,
    pub selection_anchor_samples: Option<usize>,
    pub selection_samples: Option<(usize, usize)>,
    pub marker_dialog: Option<MarkerDialog>,
    pub detect_markers_dialog: Option<DetectMarkersDialog>,
    pub export_markers_dialog: Option<ExportMarkersDialog>,
    pub preferences_dialog: Option<PreferencesDialog>,
    pub plugins: PluginScan,
    /// The window closes once the pending save succeeds.
    pub close_pending: bool,
}

/// Frames of the open document, or 0 without one.
pub open spec fn doc_frames<T: Copy, G: Copy>(audio: Option<AudioDocument<T, G>>) -> nat {
    match audio {
        Some(a) => a.spec_frames(),
        None => 0,
    }
}

impl<T: Copy, G: Copy> EditApp<T, G> {
    /// The setup's devices hold their invariants, the history its own, and
    /// the clip region of the document fits in a `usize`.
    pub open spec fn wf(&self) -> bool {
        &&& self.setup.wf()
        &&& self.history.wf()
        &&& self.audio matches Some(a) ==> (a.clip_region matches Some(r) ==> r.offset + r.length <= usize::MAX)
        &&& self.preferences_dialog matches Some(d) ==> {
                &&& d.output_device matches Some(x) ==> x.wf() && oss_caps_fit(x)
                &&& d.input_device matches Some(x) ==> x.wf()
            }
    }

    pub open spec fn frames(&self) -> nat {
        doc_frames(self.audio)
    }

    /// A fresh editor on `setup` with no document; `standalone` selects the
    /// startup prompt (choose the hardware, or open a file).
    pub fn new(setup: StartupSetup, standalone: bool) -> (app: Self)
        requires
            setup.wf(),
        ensures
            app.wf(),
            app.setup == setup,
            app.audio is None,
            app.history@ == crate::history::HistoryModel::<DocumentSnapshot<T, G>>::empty(),
            app.status == if standalone { Status::ChooseHardware } else { Status::OpenAudioPrompt },
            !app.standalone_ready && !app.engine_open && !app.busy && !app.preparing_playback && !app.playing,
            app.playhead_samples == 0,
            app.selection_anchor_samples is None && app.selection_samples is None,
            app.marker_dialog is None && app.detect_markers_dialog is None,
            app.export_markers_dialog is None && app.preferences_dialog is None,
            app.plugins == PluginScan::default_spec(),
            !app.close_pending,
    {
        EditApp {
            standalone_ready: false,
            engine_open: false,
            setup,
            audio: None,
            history: EditHistory::default(),
            status: if standalone { Status::ChooseHardware } else { Status::OpenAudioPrompt },
            busy: false,
            preparing_playback: false,
            playing: false,
            playhead_samples: 0,
            selection_anchor_samples: None,
            selection_samples: None,
            marker_dialog: None,
            detect_markers_dialog: None,
            export_markers_dialog: None,
            preferences_dialog: None,
            plugins: PluginScan::not_started(),
            close_pending: false,
        }
    }
}

impl PluginScan {
    pub open spec fn default_spec() -> Self {
        PluginScan {
            vst3_loaded: false,
            vst3_unavailable: false,
            clap_loaded: false,
            clap_unavailable: false,
            lv2_loaded: false,
            lv2_unavailable: false,
        }
    }

    /// No scan has finished yet.
    pub fn not_started() -> (scan: Self)
        ensures
            scan == Self::default_spec(),
    {
        PluginScan {
            vst3_loaded: false,
            vst3_unavailable: false,
            clap_loaded: false,
            clap_unavailable: false,
            lv2_loaded: false,
            lv2_unavailable: false,
        }
    }
}


impl<T: Copy, G: Copy> EditApp<T, G> {
    /// The frame where playback starts: the playhead, or the first frame
    /// once the playhead has reached the end.
    pub open spec fn restart_point(self) -> usize {
        if self.playhead_samples >= self.frames() { 0 } else { self.playhead_samples }
    }

    /// Starting playback. Nothing starts while a document is loading or
    /// being prepared, while already playing, or without a document; without
    /// an opened engine the editor plays its own preview unless it runs
    /// standalone, where the hardware has to be opened first.
    pub open spec fn after_play(self) -> (Self, Effect) {
        if self.busy || self.preparing_playback {
            (EditApp { status: Status::PlaybackNotReady, ..self }, Effect::Idle)
        } else if self.playing {
            (self, Effect::Idle)
        } else if self.audio is None {
            (EditApp { status: Status::NoAudioOpen, ..self }, Effect::Idle)
        } else if !self.engine_open {
            if !self.standalone_ready {
                (
                    EditApp {
                        playing: true,
                        status: Status::PlayingPreview,
                        playhead_samples: self.restart_point(),
                        ..self
                    },
                    Effect::Idle,
                )
            } else {
                (EditApp { status: Status::OpenHardwareFirst, ..self }, Effect::Idle)
            }
        } else {
            (
                EditApp { playing: true, status: Status::Playing, playhead_samples: self.restart_point(), ..self },
                Effect::StartEnginePlayback { start: self.restart_point() },
            )
        }
    }

    /// Stopping playback; an opened engine is told to stop too.
    pub open spec fn after_stop(self) -> (Self, Effect) {
        (
            EditApp { playing: false, status: Status::Stopped, ..self },
            if self.engine_open { Effect::StopEnginePlayback } else { Effect::Idle },
        )
    }

    /// Starts playback (see [`EditApp::after_play`]).
    pub fn play(&mut self) -> (effect: Effect)
        ensures
            (*final(self), effect) == old(self).after_play(),
    {
        if self.busy || self.preparing_playback {
            self.status = Status::PlaybackNotReady;
            return Effect::Idle;
        }
        if self.playing {
            return Effect::Idle;
        }
        let frames = match &self.audio {
            Some(audio) => audio.frames(),
            None => {
                self.status = Status::NoAudioOpen;
                return Effect::Idle;
            },
        };
        if !self.engine_open {
            if !self.standalone_ready {
                self.playing = true;
                self.status = Status::PlayingPreview;
                if self.playhead_samples >= frames {
                    self.playhead_samples = 0;
                }
            } else {
                self.status = Status::OpenHardwareFirst;
            }
            return Effect::Idle;
        }
        self.playing = true;
        self.status = Status::Playing;
        if self.playhead_samples >= frames {
            self.playhead_samples = 0;
        }
        Effect::StartEnginePlayback { start: self.playhead_samples }
    }

    /// Stops playback (see [`EditApp::after_stop`]).
    pub fn stop(&mut self) -> (effect: Effect)
        ensures
            (*final(self), effect) == old(self).after_stop(),
    {
        self.playing = false;
        self.status = Status::Stopped;
        if self.engine_open { Effect::StopEnginePlayback } else { Effect::Idle }
    }

    /// Stops when playing, plays otherwise.
    pub fn toggle_playback(&mut self) -> (effect: Effect)
        ensures
            (*final(self), effect) == if old(self).playing { old(self).after_stop() } else { old(self).after_play() },
    {
        if self.playing { self.stop() } else { self.play() }
    }

    /// Frames the playhead advances on each playback tick: a 25th of a
    /// second, at least one frame.
    pub open spec fn tick_step(self) -> nat {
        match self.audio {
            Some(a) => if a.sample_rate / 25 == 0 { 1 } else { (a.sample_rate / 25) as nat },
            None => 1,
        }
    }

    /// A playback tick: while playing, the playhead advances by
    /// [`EditApp::tick_step`] (saturating); on reaching the end it stays at
    /// the end and playback stops. Without a document playback just ends.
    pub fn playback_tick(&mut self) -> (effect: Effect)
        ensures
            !old(self).playing ==> *final(self) == *old(self) && effect == Effect::Idle,
            old(self).playing && old(self).audio is None ==>
                *final(self) == (EditApp { playing: false, ..*old(self) }) && effect == Effect::Idle,
            old(self).playing && old(self).audio is Some ==> ({
                let advanced = old(self).playhead_samples + old(self).tick_step();
                if advanced >= old(self).frames() {
                    (*final(self), effect) == (EditApp { playhead_samples: old(self).frames() as usize, ..*old(self) }).after_stop()
                } else {
                    *final(self) == (EditApp { playhead_samples: advanced as usize, ..*old(self) }) && effect == Effect::Idle
                }
            }),
    {
        if !self.playing {
            return Effect::Idle;
        }
        let (frames, rate) = match &self.audio {
            Some(audio) => (audio.frames(), audio.sample_rate),
            None => {
                self.playing = false;
                return Effect::Idle;
            },
        };
        let step: usize = if rate / 25 == 0 { 1 } else { (rate / 25) as usize };
        let advanced = self.playhead_samples.saturating_add(step);
        if advanced >= frames {
            self.playhead_samples = frames;
            self.stop()
        } else {
            self.playhead_samples = advanced;
            Effect::Idle
        }
    }

    /// Moves the playhead to the first frame.
    pub fn rewind_to_start(&mut self)
        ensures
            *final(self) == (EditApp { playhead_samples: 0, ..*old(self) }),
    {
        self.playhead_samples = 0;
    }

    /// Moves the playhead past the last frame (to 0 without a document).
    pub fn go_to_end(&mut self)
        ensures
            *final(self) == (EditApp { playhead_samples: old(self).frames() as usize, ..*old(self) }),
    {
        self.playhead_samples = match &self.audio {
            Some(audio) => audio.frames(),
            None => 0,
        };
    }

    /// Takes the host's transport state: whether it plays and where, the
    /// position kept within the document.
    pub fn set_embedded_transport(&mut self, playing: bool, playhead_samples: usize)
        ensures
            *final(self) == (EditApp {
                playing,
                playhead_samples: if playhead_samples <= old(self).frames() { playhead_samples } else { old(self).frames() as usize },
                ..*old(self)
            }),
    {
        self.playing = playing;
        let frames = match &self.audio {
            Some(audio) => audio.frames(),
            None => 0,
        };
        self.playhead_samples = if playhead_samples <= frames { playhead_samples } else { frames };
    }
}


impl<T: Copy, G: Copy> EditApp<T, G> {
    /// Moves the playhead to the first zero crossing after it, given the
    /// sign of every preview frame.
    pub fn jump_to_next_zero_crossing(&mut self, signs: &[FrameSign])
        ensures
            old(self).audio is None ==> *final(self) == (EditApp { status: Status::NoAudioOpen, ..*old(self) }),
            old(self).audio is Some ==> ({
                let start = if old(self).playhead_samples <= old(self).frames() { old(self).playhead_samples as int } else { old(self).frames() as int };
                ||| exists|f: usize| #![trigger crossing_at(signs@, f as int)]
                        start < f && crossing_at(signs@, f as int)
                        && (forall|g: int| start < g < f ==> !crossing_at(signs@, g))
                        && *final(self) == (EditApp { playhead_samples: f, status: Status::ZeroCrossing { frame: f }, ..*old(self) })
                ||| (forall|g: int| start < g < signs@.len() ==> !crossing_at(signs@, g))
                        && *final(self) == (EditApp { status: Status::NoZeroCrossing, ..*old(self) })
            }),
    {
        let frames = match &self.audio {
            Some(audio) => audio.frames(),
            None => {
                self.status = Status::NoAudioOpen;
                return;
            },
        };
        let start = if self.playhead_samples <= frames { self.playhead_samples } else { frames };
        match next_zero_crossing_frame(signs, start) {
            Some(frame) => {
                self.playhead_samples = frame;
                self.status = Status::ZeroCrossing { frame };
            },
            None => {
                self.status = Status::NoZeroCrossing;
            },
        }
    }

    /// Starts a selection at `sample` (a click on the waveform).
    pub fn selection_start(&mut self, sample: usize)
        ensures
            old(self).audio is None ==> *final(self) == *old(self),
            old(self).audio is Some ==> *final(self) == (EditApp {
                selection_anchor_samples: Some(sample),
                selection_samples: Some((sample, sample)),
                ..*old(self)
            }),
    {
        if self.audio.is_some() {
            self.selection_anchor_samples = Some(sample);
            self.selection_samples = Some((sample, sample));
        }
    }

    /// Extends the selection being dragged from its anchor to `sample`.
    pub fn selection_drag(&mut self, sample: usize)
        ensures
            (old(self).audio is None || old(self).selection_anchor_samples is None) ==> *final(self) == *old(self),
            old(self).audio is Some ==> (old(self).selection_anchor_samples matches Some(a) ==>
                *final(self) == (EditApp {
                    selection_samples: Some((if a <= sample { a } else { sample }, if a <= sample { sample } else { a })),
                    ..*old(self)
                })),
    {
        if self.audio.is_some() {
            if let Some(anchor) = self.selection_anchor_samples {
                let start = if anchor <= sample { anchor } else { sample };
                let end = if anchor <= sample { sample } else { anchor };
                self.selection_samples = Some((start, end));
            }
        }
    }

    /// Ends a drag at `sample`: the anchor goes, and the range from it to
    /// `sample` becomes the selection, or no selection when it is empty.
    pub fn selection_finish(&mut self, sample: usize)
        ensures
            (old(self).audio is None || old(self).selection_anchor_samples is None) ==>
                *final(self) == (EditApp { selection_anchor_samples: None, ..*old(self) }),
            old(self).audio is Some ==> (old(self).selection_anchor_samples matches Some(a) ==> ({
                let start = if a <= sample { a } else { sample };
                let end = if a <= sample { sample } else { a };
                if start < end {
                    *final(self) == (EditApp {
                        selection_anchor_samples: None,
                        selection_samples: Some((start, end)),
                        status: Status::Selected { start, end },
                        ..*old(self)
                    })
                } else {
                    *final(self) == (EditApp { selection_anchor_samples: None, selection_samples: None, ..*old(self) })
                }
            })),
    {
        let anchor = self.selection_anchor_samples;
        self.selection_anchor_samples = None;
        if self.audio.is_some() {
            if let Some(a) = anchor {
                let start = if a <= sample { a } else { sample };
                let end = if a <= sample { sample } else { a };
                if start < end {
                    self.selection_samples = Some((start, end));
                    self.status = Status::Selected { start, end };
                } else {
                    self.selection_samples = None;
                }
            }
        }
    }

    /// Moves the nearer edge of the selection to `sample`: the start when
    /// the click is at or before it, the end when at or after it, and inside
    /// the range whichever edge is closer (the end on a tie).
    pub fn selection_resize(&mut self, sample: usize)
        ensures
            (old(self).selection_samples is None || old(self).audio is None) ==> *final(self) == *old(self),
            old(self).audio is Some ==> (old(self).selection_samples matches Some((start, end)) ==> ({
                let range = if sample <= start {
                    (sample, end)
                } else if sample >= end {
                    (start, sample)
                } else if sample - start < end - sample {
                    (sample, end)
                } else {
                    (start, sample)
                };
                *final(self) == (EditApp {
                    selection_anchor_samples: None,
                    selection_samples: Some(range),
                    status: Status::Selected { start: range.0, end: range.1 },
                    ..*old(self)
                })
            })),
    {
        let (start, end) = match self.selection_samples {
            Some(range) => range,
            None => return,
        };
        if self.audio.is_none() {
            return;
        }
        let range = if sample <= start {
            (sample, end)
        } else if sample >= end {
            (start, sample)
        } else if sample - start < end - sample {
            (sample, end)
        } else {
            (start, sample)
        };
        self.selection_anchor_samples = None;
        self.selection_samples = Some(range);
        self.status = Status::Selected { start: range.0, end: range.1 };
    }

    /// Moves the playhead to `sample` (a click on the ruler).
    pub fn move_playhead(&mut self, sample: usize)
        ensures
            old(self).audio is None ==> *final(self) == *old(self),
            old(self).audio is Some ==> *final(self) == (EditApp { playhead_samples: sample, ..*old(self) }),
    {
        if self.audio.is_some() {
            self.playhead_samples = sample;
        }
    }

    /// Selects the stretch between the markers around `click` (see
    /// [`marker_region_around`]).
    pub fn select_marker_region(&mut self, click: usize)
        ensures
            old(self).audio is None ==> *final(self) == *old(self),
            old(self).audio matches Some(a) ==> (a.markers@.len() == 0 ==>
                *final(self) == (EditApp { status: Status::NoMarkersToSelect, ..*old(self) })),
            old(self).audio matches Some(a) ==> (a.markers@.len() > 0 ==> ({
                let r = final(self).selection_samples.unwrap();
                &&& final(self).selection_samples is Some
                &&& crate::markers::spec_marker_region_around(a.markers@, a.spec_frames() as usize, click, r)
                &&& *final(self) == (EditApp {
                    selection_anchor_samples: None,
                    selection_samples: Some(r),
                    status: Status::SelectedRegion { start: r.0, end: r.1 },
                    ..*old(self)
                })
                            })),
    {
        let region = match &self.audio {
            None => return,
            Some(audio) => {
                if audio.markers.len() == 0 {
                    self.status = Status::NoMarkersToSelect;
                    return;
                }
                marker_region_around(audio.markers.as_slice(), audio.frames(), click)
            },
        };
        self.selection_anchor_samples = None;
        self.selection_samples = Some(region);
        self.status = Status::SelectedRegion { start: region.0, end: region.1 };
    }
}


/// The snapshot holds the document's samples, edits and markers.
pub open spec fn snapshot_of<T: Copy, G: Copy>(snapshot: DocumentSnapshot<T, G>, audio: AudioDocument<T, G>) -> bool {
    &&& snapshot.samples@ == audio.samples@
    &&& snapshot.edits == audio.edits
    &&& snapshot.edit_actions@ == audio.edit_actions@
    &&& snapshot.markers@ == audio.markers@
}

/// `after` is `before` with `action` appended to its edit list and the
/// summary of the new list, whose clip gain is what `total_gain` made of
/// the whole-clip gains.
pub open spec fn spec_appended<T: Copy, G: Copy, F: Fn(Vec<G>) -> G>(
    before: AudioDocument<T, G>,
    after: AudioDocument<T, G>,
    action: AudioEditAction<G>,
    total_gain: F,
) -> bool {
    let actions = before.edit_actions@.push(action);
    let env = spec_envelope(before.spec_frames(), actions);
    &&& after.edit_actions@ == actions
    &&& after.edits.fade_in_samples == env.fade_in_samples
    &&& after.edits.fade_out_samples == env.fade_out_samples
    &&& after.edits.reversed == env.reversed
    &&& exists|deltas: Vec<G>| deltas@ == spec_clip_gain_deltas(before.spec_frames(), actions)
            && #[trigger] total_gain.ensures((deltas,), after.edits.gain_db)
    &&& after == AudioDocument { edit_actions: after.edit_actions, edits: after.edits, ..before }
}

/// `after` is `before` with the snapshot's samples, edits and markers put
/// back.
pub open spec fn spec_restored<T: Copy, G: Copy>(before: AudioDocument<T, G>, after: AudioDocument<T, G>, snapshot: DocumentSnapshot<T, G>) -> bool {
    &&& snapshot_of(snapshot, after)
    &&& after == AudioDocument {
            samples: after.samples,
            edits: after.edits,
            edit_actions: after.edit_actions,
            markers: after.markers,
            ..before
        }
}

impl<T: Copy, G: Copy> EditApp<T, G> {
    /// Loading the document into the engine after it changed: only an
    /// editor running standalone with an opened engine does, and it then
    /// reports that it prepares playback.
    pub open spec fn after_prepare(self) -> (Self, bool) {
        if self.standalone_ready && self.audio is Some && self.engine_open {
            (EditApp { preparing_playback: true, status: Status::PreparingPlayback, ..self }, true)
        } else {
            (self, false)
        }
    }

    /// See [`EditApp::after_prepare`]; reports whether the engine track must
    /// be prepared.
    pub fn prepare_document_track(&mut self) -> (prepare: bool)
        ensures
            (*final(self), prepare) == old(self).after_prepare(),
    {
        if self.standalone_ready && self.audio.is_some() && self.engine_open {
            self.preparing_playback = true;
            self.status = Status::PreparingPlayback;
            true
        } else {
            false
        }
    }

    /// The action an edit request stands for on the open document: the
    /// whole-clip fades and gain of [`spec_region_action`], or deleting the
    /// selection when it is not empty. `None` without a document.
    pub open spec fn spec_action_for(self, request: EditRequest<G>) -> Option<AudioEditAction<G>> {
        match self.audio {
            None => None,
            Some(a) => match request {
                EditRequest::Action(action) => Some(action),
                EditRequest::FadeIn => Some(spec_region_action(AudioEditKind::FadeIn, a.spec_frames())),
                EditRequest::FadeOut => Some(spec_region_action(AudioEditKind::FadeOut, a.spec_frames())),
                EditRequest::Gain(delta_db) => Some(spec_region_action(AudioEditKind::GainDb { delta_db }, a.spec_frames())),
                EditRequest::Reverse => Some(AudioEditAction::Reverse),
                EditRequest::DeleteSelection => match self.selection_samples {
                    Some((start, end)) => if start < end {
                        Some(AudioEditAction::Delete { start_sample: start, length_samples: (end - start) as usize })
                    } else {
                        None
                    },
                    None => None,
                },
            },
        }
    }

    /// See [`EditApp::spec_action_for`].
    pub fn audio_edit_action_for_message(&self, request: &EditRequest<G>) -> (action: Option<AudioEditAction<G>>)
        ensures
            action == self.spec_action_for(*request),
    {
        let audio = match &self.audio {
            Some(audio) => audio,
            None => return None,
        };
        match request {
            EditRequest::Action(action) => Some(*action),
            EditRequest::FadeIn => Some(audio.region_action(AudioEditKind::FadeIn)),
            EditRequest::FadeOut => Some(audio.region_action(AudioEditKind::FadeOut)),
            EditRequest::Gain(delta_db) => Some(audio.region_action(AudioEditKind::GainDb { delta_db: *delta_db })),
            EditRequest::Reverse => Some(AudioEditAction::Reverse),
            EditRequest::DeleteSelection => match self.selection_samples {
                Some((start, end)) => if start < end {
                    Some(AudioEditAction::Delete { start_sample: start, length_samples: end - start })
                } else {
                    None
                },
                None => None,
            },
        }
    }

    /// Applies `action` to the open document and records it for undo: a
    /// deletion removes the frames and clears the selection, any other
    /// action joins the edit list. Requires a document the action touches.
    fn record_edit<F: Fn(Vec<G>) -> G>(&mut self, action: AudioEditAction<G>, total_gain: F)
        requires
            old(self).wf(),
            old(self).audio matches Some(a) && !action.spec_is_empty_for_frames(a.spec_frames()),
            forall|deltas: Vec<G>| total_gain.requires((deltas,)),
        ensures
            final(self).wf(),
            ({
                let a = old(self).audio.unwrap();
                let b = final(self).audio.unwrap();
                &&& final(self).audio is Some
                &&& exists|p: DocumentSnapshot<T, G>, c: DocumentSnapshot<T, G>|
                        snapshot_of(p, a) && snapshot_of(c, b)
                        && #[trigger] final(self).history@ == old(self).history@.record(p, c)
                &&& match action {
                    AudioEditAction::Delete { start_sample, length_samples } => {
                        &&& spec_deleted(a, b, start_sample, length_samples)
                        &&& *final(self) == (EditApp {
                                audio: final(self).audio,
                                history: final(self).history,
                                selection_anchor_samples: None,
                                selection_samples: None,
                                status: Status::Deleted {
                                    start: start_sample,
                                    end: if start_sample + length_samples <= usize::MAX { (start_sample + length_samples) as usize } else { usize::MAX },
                                },
                                ..*old(self)
                            })
                    },
                    _ => {
                        &&& spec_appended(a, b, action, total_gain)
                        &&& *final(self) == (EditApp {
                                audio: final(self).audio,
                                history: final(self).history,
                                status: Status::Edited(spec_edit_note(action, b.edits.reversed, a.spec_frames())),
                                ..*old(self)
                            })
                    },
                }
            }),
    {
        let mut audio = self.audio.take().unwrap();
        let ghost before = audio;
        let previous = audio.snapshot();
        let ghost p = previous;
        match action {
            AudioEditAction::Delete { start_sample, length_samples } => {
                delete_sample_range(&mut audio, start_sample, length_samples);
                self.selection_anchor_samples = None;
                self.selection_samples = None;
                self.status = Status::Deleted { start: start_sample, end: start_sample.saturating_add(length_samples) };
            },
            _ => {
                let frames = audio.frames();
                audio.edit_actions.push(action);
                audio.edits = summarize_audio_edit_actions(frames, audio.edit_actions.as_slice(), total_gain);
                self.status = Status::Edited(audio_edit_status(&action, audio.edits.reversed, frames));
            },
        }
        let current = audio.snapshot();
        let ghost c = current;
        self.history.record(previous, current);
        self.audio = Some(audio);
        proof {
            assert(snapshot_of(p, before));
            assert(snapshot_of(c, self.audio.unwrap()));
            assert(self.history@ == old(self).history@.record(p, c));
        }
    }
}


/// The state after `action` was applied to the document of `before` (one
/// the action touches): the document changed as [`EditApp::record_edit`]
/// says, the change was recorded for undo, and the preview is rebuilt and,
/// as [`EditApp::after_prepare`] decides, loaded into the engine.
pub open spec fn spec_edit_applied<T: Copy, G: Copy, F: Fn(Vec<G>) -> G>(
    before: EditApp<T, G>,
    after: EditApp<T, G>,
    effect: Effect,
    action: AudioEditAction<G>,
    total_gain: F,
) -> bool {
    let a = before.audio.unwrap();
    let a2 = after.audio.unwrap();
    &&& after.audio is Some
    &&& exists|p: DocumentSnapshot<T, G>, c: DocumentSnapshot<T, G>|
            snapshot_of(p, a) && snapshot_of(c, a2)
            && #[trigger] after.history@ == before.history@.record(p, c)
    &&& match action {
        AudioEditAction::Delete { start_sample, length_samples } => spec_deleted(a, a2, start_sample, length_samples)
            && after.selection_anchor_samples is None && after.selection_samples is None,
        _ => spec_appended(a, a2, action, total_gain)
            && after.selection_anchor_samples == before.selection_anchor_samples
            && after.selection_samples == before.selection_samples,
    }
    &&& if before.standalone_ready && before.engine_open {
            &&& after.preparing_playback
            &&& after.status == Status::PreparingPlayback
            &&& effect == (Effect::RebuildPreview { prepare_track: true })
        } else {
            &&& after.preparing_playback == before.preparing_playback
            &&& after.status == match action {
                    AudioEditAction::Delete { start_sample, length_samples } => Status::Deleted {
                        start: start_sample,
                        end: if start_sample + length_samples <= usize::MAX { (start_sample + length_samples) as usize } else { usize::MAX },
                    },
                    _ => Status::Edited(spec_edit_note(action, a2.edits.reversed, a.spec_frames())),
                }
            &&& effect == (Effect::RebuildPreview { prepare_track: false })
        }
    &&& after == (EditApp {
            audio: after.audio,
            history: after.history,
            selection_anchor_samples: after.selection_anchor_samples,
            selection_samples: after.selection_samples,
            status: after.status,
            preparing_playback: after.preparing_playback,
            ..before
        })
}

impl<T: Copy, G: Copy> EditApp<T, G> {
    /// Applies an edit action to the open document: without a document, or
    /// when the action touches no frame, only the status changes; otherwise
    /// the document changes as [`EditApp::record_edit`] says, the change is
    /// recorded for undo, and the shell rebuilds the preview and, as
    /// [`EditApp::after_prepare`] decides, loads it into the engine.
    pub fn apply_audio_edit_action<F: Fn(Vec<G>) -> G>(&mut self, action: AudioEditAction<G>, total_gain: F) -> (effect: Effect)
        requires
            old(self).wf(),
            forall|deltas: Vec<G>| total_gain.requires((deltas,)),
        ensures
            final(self).wf(),
            old(self).audio is None ==>
                *final(self) == (EditApp { status: Status::NoAudioOpen, ..*old(self) }) && effect == Effect::Idle,
            old(self).audio matches Some(a) ==> (action.spec_is_empty_for_frames(a.spec_frames()) ==>
                *final(self) == (EditApp { status: Status::SelectionEmpty, ..*old(self) }) && effect == Effect::Idle),
            old(self).audio matches Some(a) ==> (!action.spec_is_empty_for_frames(a.spec_frames()) ==>
                spec_edit_applied(*old(self), *final(self), effect, action, total_gain)),
    {
        let empty = match &self.audio {
            None => {
                self.status = Status::NoAudioOpen;
                return Effect::Idle;
            },
            Some(audio) => action.is_empty_for_frames(audio.frames()),
        };
        if empty {
            self.status = Status::SelectionEmpty;
            return Effect::Idle;
        }
        self.record_edit(action, total_gain);
        let prepare_track = self.prepare_document_track();
        Effect::RebuildPreview { prepare_track }
    }
}


/// The state after an undo or redo put `snapshot` back into document `a`:
/// the history is `history`, the status `done` unless the engine track is
/// being prepared, and the preview is rebuilt.
pub open spec fn spec_stepped<T: Copy, G: Copy>(
    before: EditApp<T, G>,
    after: EditApp<T, G>,
    effect: Effect,
    a: AudioDocument<T, G>,
    snapshot: DocumentSnapshot<T, G>,
    done: Status,
) -> bool {
    &&& after.audio matches Some(b) && spec_restored(a, b, snapshot)
    &&& if before.standalone_ready && before.engine_open {
            &&& after.preparing_playback
            &&& after.status == Status::PreparingPlayback
            &&& effect == (Effect::RebuildPreview { prepare_track: true })
        } else {
            &&& after.preparing_playback == before.preparing_playback
            &&& after.status == done
            &&& effect == (Effect::RebuildPreview { prepare_track: false })
        }
    &&& after == (EditApp {
            audio: after.audio,
            history: after.history,
            status: after.status,
            preparing_playback: after.preparing_playback,
            ..before
        })
}

/// The state after undo: without a document only the status changes;
/// with nothing to undo the status says so; otherwise the history steps
/// back and the document gets the snapshot from before the last edit
/// (see [`spec_stepped`]).
pub open spec fn spec_undone<T: Copy, G: Copy>(before: EditApp<T, G>, after: EditApp<T, G>, effect: Effect) -> bool {
    &&& before.audio is None ==> after == (EditApp { status: Status::NoAudioOpen, ..before }) && effect == Effect::Idle
    &&& before.audio is Some ==> after.history@ == before.history@.undo().0
    &&& before.audio is Some ==> (before.history@.undo().1 is None ==>
            after == (EditApp { history: after.history, status: Status::NothingToUndo, ..before }) && effect == Effect::Idle)
    &&& before.audio matches Some(a) ==> (before.history@.undo().1 matches Some(snapshot) ==>
            spec_stepped(before, after, effect, a, snapshot, Status::Undone))
}

/// The state after redo: as [`spec_undone`], stepping forward to the
/// snapshot after the last undone edit.
pub open spec fn spec_redone<T: Copy, G: Copy>(before: EditApp<T, G>, after: EditApp<T, G>, effect: Effect) -> bool {
    &&& before.audio is None ==> after == (EditApp { status: Status::NoAudioOpen, ..before }) && effect == Effect::Idle
    &&& before.audio is Some ==> after.history@ == before.history@.redo().0
    &&& before.audio is Some ==> (before.history@.redo().1 is None ==>
            after == (EditApp { history: after.history, status: Status::NothingToRedo, ..before }) && effect == Effect::Idle)
    &&& before.audio matches Some(a) ==> (before.history@.redo().1 matches Some(snapshot) ==>
            spec_stepped(before, after, effect, a, snapshot, Status::Redone))
}

impl<T: Copy, G: Copy> EditApp<T, G> {
    /// Steps back one edit: the document gets the snapshot from before it.
    pub fn undo(&mut self) -> (effect: Effect)
        requires
            old(self).wf(),
        ensures
            final(self).wf(),
            spec_undone(*old(self), *final(self), effect),
    {
        if self.audio.is_none() {
            self.status = Status::NoAudioOpen;
            return Effect::Idle;
        }
        let ghost model = self.history@;
        match self.history.undo() {
            Some(snapshot) => {
                let mut audio = self.audio.take().unwrap();
                restore_document(&mut audio, snapshot);
                self.audio = Some(audio);
                self.status = Status::Undone;
                proof {
                    let t = model.undo().1.unwrap();
                    assert(snapshot_of(t, self.audio.unwrap()));
                }
                let prepare_track = self.prepare_document_track();
                Effect::RebuildPreview { prepare_track }
            },
            None => {
                self.status = Status::NothingToUndo;
                Effect::Idle
            },
        }
    }

    /// Re-applies the last undone edit: the document gets the snapshot from
    /// after it.
    pub fn redo(&mut self) -> (effect: Effect)
        requires
            old(self).wf(),
        ensures
            final(self).wf(),
            spec_redone(*old(self), *final(self), effect),
    {
        if self.audio.is_none() {
            self.status = Status::NoAudioOpen;
            return Effect::Idle;
        }
        let ghost model = self.history@;
        match self.history.redo() {
            Some(snapshot) => {
                let mut audio = self.audio.take().unwrap();
                restore_document(&mut audio, snapshot);
                self.audio = Some(audio);
                self.status = Status::Redone;
                proof {
                    let t = model.redo().1.unwrap();
                    assert(snapshot_of(t, self.audio.unwrap()));
                }
                let prepare_track = self.prepare_document_track();
                Effect::RebuildPreview { prepare_track }
            },
            None => {
                self.status = Status::NothingToRedo;
                Effect::Idle
            },
        }
    }

    /// Handles an edit request: the action it stands for is applied as
    /// [`EditApp::apply_audio_edit_action`] does; without one (no document)
    /// the status says so.
    pub fn dispatch_audio_edit<F: Fn(Vec<G>) -> G>(&mut self, request: EditRequest<G>, total_gain: F) -> (effect: Effect)
        requires
            old(self).wf(),
            forall|deltas: Vec<G>| total_gain.requires((deltas,)),
        ensures
            final(self).wf(),
            old(self).spec_action_for(request) is None ==>
                *final(self) == (EditApp { status: Status::NoAudioOpen, ..*old(self) }) && effect == Effect::Idle,
            old(self).spec_action_for(request) matches Some(action) ==>
                old(self).audio matches Some(a) && (action.spec_is_empty_for_frames(a.spec_frames()) ==>
                    *final(self) == (EditApp { status: Status::SelectionEmpty, ..*old(self) }) && effect == Effect::Idle),
            old(self).spec_action_for(request) matches Some(action) ==>
                old(self).audio matches Some(a) && (!action.spec_is_empty_for_frames(a.spec_frames()) ==>
                    spec_edit_applied(*old(self), *final(self), effect, action, total_gain)),
    {
        match self.audio_edit_action_for_message(&request) {
            Some(action) => self.apply_audio_edit_action(action, total_gain),
            None => {
                self.status = Status::NoAudioOpen;
                Effect::Idle
            },
        }
    }

    /// Deletes the selected frames (see [`EditApp::apply_audio_edit_action`]);
    /// nothing happens without a document or a non-empty selection.
    pub fn delete_selection<F: Fn(Vec<G>) -> G>(&mut self, total_gain: F) -> (effect: Effect)
        requires
            old(self).wf(),
            forall|deltas: Vec<G>| total_gain.requires((deltas,)),
        ensures
            final(self).wf(),
            old(self).spec_action_for(EditRequest::DeleteSelection) is None ==>
                *final(self) == *old(self) && effect == Effect::Idle,
            old(self).spec_action_for(EditRequest::DeleteSelection) matches Some(action) ==> ({
                let (start, end) = old(self).selection_samples.unwrap();
                let a = old(self).audio.unwrap();
                &&& action == AudioEditAction::<G>::Delete { start_sample: start, length_samples: (end - start) as usize }
                &&& start >= a.spec_frames() ==>
                        *final(self) == (EditApp { status: Status::SelectionEmpty, ..*old(self) }) && effect == Effect::Idle
                &&& start < a.spec_frames() ==> spec_edit_applied(*old(self), *final(self), effect, action, total_gain)
            }),
    {
        match self.audio_edit_action_for_message(&EditRequest::DeleteSelection) {
            Some(action) => self.apply_audio_edit_action(action, total_gain),
            None => Effect::Idle,
        }
    }
}


impl<T: Copy, G: Copy> EditApp<T, G> {
    /// Opens the marker-name dialog for a marker at `sample`.
    pub fn open_marker_dialog(&mut self, sample: usize) -> (effect: Effect)
        ensures
            final(self).marker_dialog matches Some(d) && d.sample == sample && d.name@.len() == 0,
            *final(self) == (EditApp { marker_dialog: final(self).marker_dialog, ..*old(self) }),
            effect == Effect::FocusMarkerName,
    {
        self.marker_dialog = Some(MarkerDialog { sample, name: String::new() });
        Effect::FocusMarkerName
    }

    /// The marker name as typed so far.
    pub fn marker_name_input(&mut self, name: String)
        ensures
            old(self).marker_dialog is None ==> *final(self) == *old(self),
            old(self).marker_dialog matches Some(d) ==>
                *final(self) == (EditApp { marker_dialog: Some(MarkerDialog { sample: d.sample, name }), ..*old(self) }),
    {
        if let Some(dialog) = self.marker_dialog.as_mut() {
            dialog.name = name;
        }
    }

    /// Closes the marker dialog and adds its marker: the name without
    /// surrounding whitespace, at the dialog's sample. A blank name, or no
    /// document, adds nothing.
    pub fn confirm_marker_name(&mut self)
        requires
            old(self).wf(),
        ensures
            final(self).wf(),
            old(self).marker_dialog is None ==> *final(self) == *old(self),
            old(self).marker_dialog matches Some(d) ==> (trim(d.name@).len() == 0 || old(self).audio is None ==>
                *final(self) == (EditApp { marker_dialog: None, ..*old(self) })),
            old(self).marker_dialog matches Some(d) ==> (old(self).audio matches Some(a) ==> (trim(d.name@).len() > 0 ==> ({
                let b = final(self).audio.unwrap();
                &&& final(self).audio is Some
                &&& exists|name: String| name@ == trim(d.name@)
                        && #[trigger] b.markers@ == spec_dedup_markers(spec_sort_markers(a.markers@.push((d.sample, name))))
                &&& b == AudioDocument { markers: b.markers, ..a }
                &&& *final(self) == (EditApp {
                        marker_dialog: None,
                        audio: final(self).audio,
                        status: Status::MarkerAdded { sample: d.sample },
                        ..*old(self)
                    })
            }))),
    {
        let dialog = match self.marker_dialog.take() {
            Some(d) => d,
            None => return,
        };
        let trimmed = trim_chars(&chars_of(dialog.name.as_str()));
        if trimmed.len() == 0 {
            return;
        }
        let name = string_of(&trimmed);
        let mut audio = match self.audio.take() {
            Some(a) => a,
            None => return,
        };
        let ghost before = audio;
        let ghost n = name;
        let mut added: Vec<(usize, String)> = Vec::new();
        added.push((dialog.sample, name));
        proof { assert(before.markers@ + added@ =~= before.markers@.push((dialog.sample, n))); }
        add_markers(&mut audio.markers, added);
        self.audio = Some(audio);
        self.status = Status::MarkerAdded { sample: dialog.sample };
        proof {
            assert(n@ == trim(dialog.name@));
            assert(self.audio.unwrap().markers@ == spec_dedup_markers(spec_sort_markers(before.markers@.push((dialog.sample, n)))));
        }
    }

    /// Closes every dialog.
    pub fn cancel_dialogs(&mut self)
        ensures
            *final(self) == (EditApp {
                marker_dialog: None,
                detect_markers_dialog: None,
                export_markers_dialog: None,
                preferences_dialog: None,
                ..*old(self)
            }),
    {
        self.marker_dialog = None;
        self.detect_markers_dialog = None;
        self.export_markers_dialog = None;
        self.preferences_dialog = None;
    }

    /// Deletes every marker at `sample`, reporting whether there was one.
    pub fn delete_marker(&mut self, sample: usize)
        requires
            old(self).wf(),
        ensures
            final(self).wf(),
            old(self).audio is None ==> *final(self) == *old(self),
            old(self).audio matches Some(a) ==> ({
                &&& final(self).audio == Some(AudioDocument { markers: final(self).audio.unwrap().markers, ..a })
                &&& final(self).audio.unwrap().markers@ == spec_markers_without(a.markers@, sample as nat)
                &&& *final(self) == (EditApp {
                        audio: final(self).audio,
                        status: if has_marker_at(a.markers@, sample as nat) {
                            Status::MarkerDeleted { sample }
                        } else {
                            Status::NoMarkerAtPosition
                        },
                        ..*old(self)
                    })
            }),
    {
        let mut audio = match self.audio.take() {
            Some(a) => a,
            None => return,
        };
        let removed = remove_markers_at(&mut audio.markers, sample);
        self.audio = Some(audio);
        self.status = if removed { Status::MarkerDeleted { sample } } else { Status::NoMarkerAtPosition };
    }

    /// Opens the marker-detection dialog with its default inputs.
    pub fn open_detect_markers_dialog(&mut self)
        ensures
            final(self).detect_markers_dialog matches Some(d)
                && d.threshold_db@ == "-60.0"@ && d.silence_samples@ == "1000"@,
            *final(self) == (EditApp { detect_markers_dialog: final(self).detect_markers_dialog, ..*old(self) }),
    {
        self.detect_markers_dialog = Some(DetectMarkersDialog::default());
    }

    /// The threshold as typed so far.
    pub fn detect_markers_threshold_input(&mut self, value: String)
        ensures
            old(self).detect_markers_dialog is None ==> *final(self) == *old(self),
            old(self).detect_markers_dialog matches Some(d) ==> *final(self) == (EditApp {
                detect_markers_dialog: Some(DetectMarkersDialog { threshold_db: value, silence_samples: d.silence_samples }),
                ..*old(self)
            }),
    {
        if let Some(dialog) = self.detect_markers_dialog.as_mut() {
            dialog.threshold_db = value;
        }
    }

    /// The silence length as typed so far.
    pub fn detect_markers_silence_samples_input(&mut self, value: String)
        ensures
            old(self).detect_markers_dialog is None ==> *final(self) == *old(self),
            old(self).detect_markers_dialog matches Some(d) ==> *final(self) == (EditApp {
                detect_markers_dialog: Some(DetectMarkersDialog { threshold_db: d.threshold_db, silence_samples: value }),
                ..*old(self)
            }),
    {
        if let Some(dialog) = self.detect_markers_dialog.as_mut() {
            dialog.silence_samples = value;
        }
    }

    /// Closes the detection dialog.
    pub fn cancel_detect_markers(&mut self)
        ensures
            *final(self) == (EditApp { detect_markers_dialog: None, ..*old(self) }),
    {
        self.detect_markers_dialog = None;
    }

    /// Closes the detection dialog and runs it: the checks come in order (a
    /// document, a threshold that reads as a number, a silence length that
    /// reads as a whole number, a length above zero), and the first that
    /// fails sets the status. `threshold_valid` tells whether the shell could
    /// read the threshold, and `silent` marks each preview frame quieter than
    /// it. The markers of [`detect_markers_from_silence`] join the
    /// document's markers as [`add_markers`] adds them.
    pub fn confirm_detect_markers(&mut self, threshold_valid: bool, silent: &[bool])
        requires
            old(self).wf(),
            silent@.len() < usize::MAX,
        ensures
            final(self).wf(),
            old(self).detect_markers_dialog is None ==> *final(self) == *old(self),
            old(self).detect_markers_dialog matches Some(d) ==> ({
                let count = parse_unsigned(trim(d.silence_samples@), usize::MAX as nat);
                if old(self).audio is None {
                    *final(self) == (EditApp { detect_markers_dialog: None, status: Status::NoAudioOpen, ..*old(self) })
                } else if !threshold_valid {
                    *final(self) == (EditApp { detect_markers_dialog: None, status: Status::InvalidThreshold, ..*old(self) })
                } else if count is None {
                    *final(self) == (EditApp { detect_markers_dialog: None, status: Status::InvalidSilenceCount, ..*old(self) })
                } else if count == Some(0nat) {
                    *final(self) == (EditApp { detect_markers_dialog: None, status: Status::SilenceCountZero, ..*old(self) })
                } else {
                    let a = old(self).audio.unwrap();
                    let b = final(self).audio.unwrap();
                    &&& final(self).audio is Some
                    &&& exists|found: Seq<(usize, String)>|
                            markers_match(found, sound_boundaries(silent@, count.unwrap(), (silent@.len() + 1) as nat))
                            && #[trigger] b.markers@ == spec_dedup_markers(spec_sort_markers(a.markers@ + found))
                            && final(self).status == (Status::MarkersDetected { count: found.len() as usize })
                    &&& b == AudioDocument { markers: b.markers, ..a }
                    &&& *final(self) == (EditApp {
                            detect_markers_dialog: None,
                            audio: final(self).audio,
                            status: final(self).status,
                            ..*old(self)
                        })
                }
            }),
    {
        let dialog = match self.detect_markers_dialog.take() {
            Some(d) => d,
            None => return,
        };
        if self.audio.is_none() {
            self.status = Status::NoAudioOpen;
            return;
        }
        if !threshold_valid {
            self.status = Status::InvalidThreshold;
            return;
        }
        let text = trim_chars(&chars_of(dialog.silence_samples.as_str()));
        let silence_samples = match parse_unsigned_chars(&text, usize::MAX as u64) {
            Some(n) => n as usize,
            None => {
                self.status = Status::InvalidSilenceCount;
                return;
            },
        };
        if silence_samples == 0 {
            self.status = Status::SilenceCountZero;
            return;
        }
        let detected = detect_markers_from_silence(silent, silence_samples);
        let ghost found = detected@;
        let added = detected.len();
        let mut audio = self.audio.take().unwrap();
        add_markers(&mut audio.markers, detected);
        self.audio = Some(audio);
        self.status = Status::MarkersDetected { count: added };
    }
}


/// The device chosen first from a list: a copy of its first device, or
/// none when it is empty.
pub open spec fn first_choice(chosen: Option<AudioDeviceOption>, devices: Seq<AudioDeviceOption>) -> bool {
    if devices.len() == 0 { chosen is None } else { chosen matches Some(d) && d.same_as(devices[0]) }
}

fn first_device(devices: &Vec<AudioDeviceOption>) -> (chosen: Option<AudioDeviceOption>)
    ensures
        first_choice(chosen, devices@),
        all_usable(devices@) ==> (chosen matches Some(d) ==> d.wf() && oss_caps_fit(d)),
{
    if devices.len() == 0 {
        None
    } else {
        let d = devices[0].clone();
        proof {
            if all_usable(devices@) {
                lemma_same_usable(d, devices@[0]);
            }
        }
        Some(d)
    }
}

impl<T: Copy, G: Copy> EditApp<T, G> {
    /// The sample rate, depth and period size re-picked for the current
    /// backend and output device, as `pick_sample_rate`, `pick_bits` and
    /// `pick_period_frames` pick them, in that order.
    pub open spec fn repicked(setup: StartupSetup, after: StartupSetup) -> bool {
        let rate = spec_pick_sample_rate(spec_sample_rate_options(setup.audio_engine, setup.output_device), setup.sample_rate_hz);
        let bits = spec_pick_bits(spec_bit_options(setup.audio_engine, setup.output_device), setup.bits);
        let period = spec_pick_period_frames(spec_period_frame_options(setup.audio_engine, setup.output_device, bits), setup.period_frames);
        after == StartupSetup { sample_rate_hz: rate, bits, period_frames: period, ..setup }
    }

    fn repick_formats(&mut self)
        requires
            old(self).wf(),
        ensures
            final(self).wf(),
            Self::repicked(old(self).setup, final(self).setup),
            *final(self) == (EditApp { setup: final(self).setup, ..*old(self) }),
    {
        self.setup.sample_rate_hz = pick_sample_rate(&self.setup);
        self.setup.bits = pick_bits(&self.setup);
        self.setup.period_frames = pick_period_frames(&self.setup);
    }

    /// Switches the backend: the device lists are discovered anew for it,
    /// the playback devices among `output_scan` and the capture devices among
    /// `input_scan` (each a scan of every device the platform reports), the
    /// first device of each list is selected, and the formats re-picked.
    pub fn select_backend(
        &mut self,
        engine: AudioEngineOption,
        output_scan: Vec<AudioDeviceOption>,
        input_scan: Vec<AudioDeviceOption>,
    )
        requires
            old(self).wf(),
            all_usable(output_scan@),
            all_usable(input_scan@),
        ensures
            final(self).wf(),
            discovered_outputs(engine, output_scan@, final(self).setup.output_devices@),
            discovered_inputs(engine, input_scan@, final(self).setup.input_devices@),
            first_choice(final(self).setup.output_device, final(self).setup.output_devices@),
            first_choice(final(self).setup.input_device, final(self).setup.input_devices@),
            Self::repicked(
                StartupSetup {
                    audio_engine: engine,
                    output_devices: final(self).setup.output_devices,
                    input_devices: final(self).setup.input_devices,
                    output_device: final(self).setup.output_device,
                    input_device: final(self).setup.input_device,
                    ..old(self).setup
                },
                final(self).setup,
            ),
            *final(self) == (EditApp { setup: final(self).setup, ..*old(self) }),
    {
        let outputs = discover_output_audio_devices(engine, output_scan);
        let inputs = discover_input_audio_devices(engine, input_scan);
        let output_device = first_device(&outputs);
        let input_device = first_device(&inputs);
        self.setup.audio_engine = engine;
        self.setup.output_devices = outputs;
        self.setup.input_devices = inputs;
        self.setup.output_device = output_device;
        self.setup.input_device = input_device;
        self.repick_formats();
    }

    /// Selects the output device and re-picks the formats for it.
    pub fn select_output_device(&mut self, device: AudioDeviceOption)
        requires
            old(self).wf(),
            device.wf() && oss_caps_fit(device),
        ensures
            final(self).wf(),
            Self::repicked(StartupSetup { output_device: Some(device), ..old(self).setup }, final(self).setup),
            *final(self) == (EditApp { setup: final(self).setup, ..*old(self) }),
    {
        self.setup.output_device = Some(device);
        self.repick_formats();
    }

    /// Selects the input device.
    pub fn select_input_device(&mut self, device: AudioDeviceOption)
        requires
            old(self).wf(),
            device.wf(),
        ensures
            final(self).wf(),
            *final(self) == (EditApp { setup: StartupSetup { input_device: Some(device), ..old(self).setup }, ..*old(self) }),
    {
        self.setup.input_device = Some(device);
    }

    /// Selects the sample rate.
    pub fn select_sample_rate(&mut self, rate: i32)
        ensures
            *final(self) == (EditApp { setup: StartupSetup { sample_rate_hz: rate, ..old(self).setup }, ..*old(self) }),
    {
        self.setup.sample_rate_hz = rate;
    }

    /// Selects the bit depth and re-picks the period size for it.
    pub fn select_bits(&mut self, bits: usize)
        requires
            old(self).wf(),
        ensures
            final(self).wf(),
            *final(self) == (EditApp {
                setup: StartupSetup {
                    bits,
                    period_frames: spec_pick_period_frames(
                        spec_period_frame_options(old(self).setup.audio_engine, old(self).setup.output_device, bits),
                        old(self).setup.period_frames,
                    ),
                    ..old(self).setup
                },
                ..*old(self)
            }),
    {
        self.setup.bits = bits;
        self.setup.period_frames = pick_period_frames(&self.setup);
    }

    /// Selects the period size.
    pub fn select_period_frames(&mut self, period_frames: usize)
        ensures
            *final(self) == (EditApp { setup: StartupSetup { period_frames, ..old(self).setup }, ..*old(self) }),
    {
        self.setup.period_frames = period_frames;
    }

    /// Selects the number of periods.
    pub fn select_nperiods(&mut self, nperiods: usize)
        ensures
            *final(self) == (EditApp { setup: StartupSetup { nperiods, ..old(self).setup }, ..*old(self) }),
    {
        self.setup.nperiods = nperiods;
    }

    /// Sets exclusive device access.
    pub fn set_exclusive(&mut self, exclusive: bool)
        ensures
            *final(self) == (EditApp { setup: StartupSetup { exclusive, ..old(self).setup }, ..*old(self) }),
    {
        self.setup.exclusive = exclusive;
    }

    /// Sets the sync mode.
    pub fn set_sync_mode(&mut self, sync_mode: bool)
        ensures
            *final(self) == (EditApp { setup: StartupSetup { sync_mode, ..old(self).setup }, ..*old(self) }),
    {
        self.setup.sync_mode = sync_mode;
    }

    /// The startup screen's open button: the engine is scanned and opened.
    pub fn start_engine(&mut self) -> (effect: Effect)
        ensures
            *final(self) == (EditApp { busy: true, status: Status::ScanningPlugins, ..*old(self) }),
            effect == Effect::OpenEngine,
    {
        self.busy = true;
        self.status = Status::ScanningPlugins;
        Effect::OpenEngine
    }

    /// The engine finished opening: on success the editor is ready and
    /// prompts for a file; on failure the status shows the error.
    pub fn engine_opened(&mut self, result: Result<(), String>)
        ensures
            result is Ok ==> *final(self) == (EditApp {
                busy: false,
                standalone_ready: true,
                engine_open: true,
                status: Status::OpenAudioPrompt,
                ..*old(self)
            }),
            result matches Err(e) ==> *final(self) == (EditApp { busy: false, status: Status::Text(e), ..*old(self) }),
    {
        self.busy = false;
        match result {
            Ok(()) => {
                self.standalone_ready = true;
                self.engine_open = true;
                self.status = Status::OpenAudioPrompt;
            },
            Err(e) => {
                self.status = Status::Text(e);
            },
        }
    }

    /// A plugin scan finished, having found plugins (`loaded`) or not.
    pub fn plugin_scan_finished(&mut self, format: PluginFormat, loaded: bool)
        ensures
            *final(self) == (EditApp {
                plugins: match (format, loaded) {
                    (PluginFormat::Vst3, true) => PluginScan { vst3_loaded: true, ..old(self).plugins },
                    (PluginFormat::Vst3, false) => PluginScan { vst3_unavailable: true, ..old(self).plugins },
                    (PluginFormat::Clap, true) => PluginScan { clap_loaded: true, ..old(self).plugins },
                    (PluginFormat::Clap, false) => PluginScan { clap_unavailable: true, ..old(self).plugins },
                    (PluginFormat::Lv2, true) => PluginScan { lv2_loaded: true, ..old(self).plugins },
                    (PluginFormat::Lv2, false) => PluginScan { lv2_unavailable: true, ..old(self).plugins },
                },
                ..*old(self)
            }),
    {
        match (format, loaded) {
            (PluginFormat::Vst3, true) => self.plugins.vst3_loaded = true,
            (PluginFormat::Vst3, false) => self.plugins.vst3_unavailable = true,
            (PluginFormat::Clap, true) => self.plugins.clap_loaded = true,
            (PluginFormat::Clap, false) => self.plugins.clap_unavailable = true,
            (PluginFormat::Lv2, true) => self.plugins.lv2_loaded = true,
            (PluginFormat::Lv2, false) => self.plugins.lv2_unavailable = true,
        }
    }

    /// Whether every plugin scan has finished.
    pub fn plugins_loaded(&self) -> (loaded: bool)
        ensures
            loaded == self.plugins.spec_done(),
    {
        self.plugins.done()
    }

    /// Engine playback started, or failed to: a failure stops playback and
    /// shows the error.
    pub fn playback_started(&mut self, result: Result<(), String>)
        ensures
            result is Ok ==> *final(self) == *old(self),
            result matches Err(e) ==> *final(self) == (EditApp { playing: false, status: Status::Text(e), ..*old(self) }),
    {
        if let Err(e) = result {
            self.playing = false;
            self.status = Status::Text(e);
        }
    }

    /// Engine playback stopped, or failed to: a failure only shows the
    /// error.
    pub fn playback_stopped(&mut self, result: Result<(), String>)
        ensures
            result is Ok ==> *final(self) == (EditApp { playing: false, status: Status::Stopped, ..*old(self) }),
            result matches Err(e) ==> *final(self) == (EditApp { status: Status::Text(e), ..*old(self) }),
    {
        match result {
            Ok(()) => {
                self.playing = false;
                self.status = Status::Stopped;
            },
            Err(e) => {
                self.status = Status::Text(e);
            },
        }
    }
}


impl<T: Copy, G: Copy> EditApp<T, G> {
    /// The open button: the user picks a file.
    pub fn open_file(&mut self) -> (effect: Effect)
        ensures
            *final(self) == (EditApp { busy: true, status: Status::OpeningFile, ..*old(self) }),
            effect == Effect::OpenFileDialog,
    {
        self.busy = true;
        self.status = Status::OpeningFile;
        Effect::OpenFileDialog
    }

    /// The user closed the file picker without a file.
    pub fn open_cancelled(&mut self)
        ensures
            *final(self) == (EditApp { busy: false, status: Status::OpenCancelled, ..*old(self) }),
    {
        self.busy = false;
        self.status = Status::OpenCancelled;
    }

    /// A document is loading; `status` is the shell's progress message.
    pub fn loading(&mut self, status: String)
        ensures
            *final(self) == (EditApp { busy: true, status: Status::Text(status), ..*old(self) }),
    {
        self.busy = true;
        self.status = Status::Text(status);
    }

    /// Loading failed with `error`.
    pub fn load_failed(&mut self, error: String)
        ensures
            *final(self) == (EditApp { busy: false, status: Status::Text(error), ..*old(self) }),
    {
        self.busy = false;
        self.status = Status::Text(error);
    }

    /// A document finished loading: it replaces the open one, playback,
    /// playhead and selection start over, and the history starts afresh
    /// from it; the engine track is then prepared as
    /// [`EditApp::after_prepare`] decides.
    pub fn document_loaded(&mut self, audio: AudioDocument<T, G>) -> (prepare_track: bool)
        requires
            old(self).wf(),
            audio.clip_region matches Some(r) ==> r.offset + r.length <= usize::MAX,
        ensures
            final(self).wf(),
            final(self).history@ == crate::history::HistoryModel::<DocumentSnapshot<T, G>>::empty(),
            ({
                let loaded = EditApp {
                    busy: false,
                    status: Status::DocumentInfo,
                    playing: false,
                    playhead_samples: 0,
                    selection_anchor_samples: None,
                    selection_samples: None,
                    history: final(self).history,
                    audio: Some(audio),
                    ..*old(self)
                };
                (*final(self), prepare_track) == loaded.after_prepare()
            }),
    {
        self.busy = false;
        self.status = Status::DocumentInfo;
        self.playing = false;
        self.playhead_samples = 0;
        self.selection_anchor_samples = None;
        self.selection_samples = None;
        self.history = EditHistory::new(audio.snapshot());
        self.audio = Some(audio);
        self.prepare_document_track()
    }

    /// The engine finished loading the document track, or failed to.
    pub fn engine_document_prepared(&mut self, result: Result<(), String>)
        ensures
            result is Ok ==> *final(self) == (EditApp {
                preparing_playback: false,
                status: if old(self).audio is Some { Status::DocumentInfo } else { old(self).status },
                ..*old(self)
            }),
            result matches Err(e) ==>
                *final(self) == (EditApp { preparing_playback: false, status: Status::Text(e), ..*old(self) }),
    {
        self.preparing_playback = false;
        match result {
            Ok(()) => {
                if self.audio.is_some() {
                    self.status = Status::DocumentInfo;
                }
            },
            Err(e) => {
                self.status = Status::Text(e);
            },
        }
    }

    /// Saving to the document's own path when it has one with a format the
    /// editor writes (see `encode_format_for_path`); otherwise the user
    /// picks a path, starting from the save path or, without one, from the
    /// source path.
    pub fn save(&mut self) -> (effect: Effect)
        ensures
            old(self).audio is None ==> *final(self) == (EditApp { status: Status::NoAudioOpen, ..*old(self) })
                && effect == Effect::Idle,
            old(self).audio matches Some(a) ==> (a.save_path is None ==>
                *final(self) == (EditApp { busy: true, status: Status::ChooseClipSaveLocation, ..*old(self) })
                && effect == (Effect::AskSavePath { start: SaveStart::SourcePath })),
            old(self).audio matches Some(a) ==> (a.save_path is Some ==>
                exists|extension: Option<Seq<char>>| #![trigger spec_format_for_extension(extension)]
                    if spec_format_for_extension(extension) is Ok {
                        *final(self) == (EditApp { busy: true, status: Status::Saving, ..*old(self) })
                        && effect == (Effect::SaveDocument { target: SaveTarget::SavePath })
                    } else {
                        *final(self) == (EditApp { busy: true, status: Status::ChooseSaveFormat, ..*old(self) })
                        && effect == (Effect::AskSavePath { start: SaveStart::SavePath })
                    }),
    {
        let writable = match &self.audio {
            None => {
                self.status = Status::NoAudioOpen;
                return Effect::Idle;
            },
            Some(audio) => match &audio.save_path {
                None => None,
                Some(path) => Some(encode_format_for_path(path_ref(path)).is_ok()),
            },
        };
        self.busy = true;
        match writable {
            None => {
                self.status = Status::ChooseClipSaveLocation;
                Effect::AskSavePath { start: SaveStart::SourcePath }
            },
            Some(true) => {
                self.status = Status::Saving;
                Effect::SaveDocument { target: SaveTarget::SavePath }
            },
            Some(false) => {
                self.status = Status::ChooseSaveFormat;
                Effect::AskSavePath { start: SaveStart::SavePath }
            },
        }
    }

    /// Save as: the user picks a path, starting from the source path.
    pub fn save_as(&mut self) -> (effect: Effect)
        ensures
            old(self).audio is None ==> *final(self) == (EditApp { status: Status::NoAudioOpen, ..*old(self) })
                && effect == Effect::Idle,
            old(self).audio is Some ==>
                *final(self) == (EditApp { busy: true, status: Status::ChooseSaveDestination, ..*old(self) })
                && effect == (Effect::AskSavePath { start: SaveStart::SourcePath }),
    {
        if self.audio.is_none() {
            self.status = Status::NoAudioOpen;
            return Effect::Idle;
        }
        self.busy = true;
        self.status = Status::ChooseSaveDestination;
        Effect::AskSavePath { start: SaveStart::SourcePath }
    }

    /// The user picked a save path, or cancelled (which also cancels a
    /// close waiting for the save).
    pub fn save_path_chosen(&mut self, path: Option<PathBuf>) -> (effect: Effect)
        ensures
            path is None ==> *final(self) == (EditApp {
                busy: false,
                close_pending: false,
                status: Status::SaveCancelled,
                ..*old(self)
            }) && effect == Effect::Idle,
            path is Some && old(self).audio is None ==>
                *final(self) == (EditApp { busy: false, status: Status::NoAudioOpen, ..*old(self) }) && effect == Effect::Idle,
            path matches Some(p) ==> (old(self).audio is Some ==>
                *final(self) == (EditApp { busy: true, status: Status::Saving, ..*old(self) })
                && effect == (Effect::SaveDocument { target: SaveTarget::Chosen(p) })),
    {
        match path {
            None => {
                self.busy = false;
                self.close_pending = false;
                self.status = Status::SaveCancelled;
                Effect::Idle
            },
            Some(p) => {
                if self.audio.is_none() {
                    self.busy = false;
                    self.status = Status::NoAudioOpen;
                    return Effect::Idle;
                }
                self.busy = true;
                self.status = Status::Saving;
                Effect::SaveDocument { target: SaveTarget::Chosen(p) }
            },
        }
    }

    /// The save finished: on success the document remembers the path, the
    /// history marks the save point, and a close waiting for the save goes
    /// ahead; on failure the error shows and the close is off.
    pub fn document_saved(&mut self, result: Result<PathBuf, String>) -> (effect: Effect)
        requires
            old(self).wf(),
        ensures
            final(self).wf(),
            result matches Err(e) ==> *final(self) == (EditApp {
                busy: false,
                close_pending: false,
                status: Status::Text(e),
                ..*old(self)
            }) && effect == Effect::Idle,
            result matches Ok(p) ==> ({
                &&& final(self).history@ == old(self).history@.mark_saved()
                &&& final(self).audio == match old(self).audio {
                        Some(a) => Some(AudioDocument { save_path: Some(p), ..a }),
                        None => None,
                    }
                &&& *final(self) == (EditApp {
                        busy: false,
                        audio: final(self).audio,
                        history: final(self).history,
                        close_pending: false,
                        status: Status::Saved,
                        ..*old(self)
                    })
                &&& effect == if old(self).close_pending { Effect::CloseWindow } else { Effect::Idle }
            }),
    {
        self.busy = false;
        match result {
            Err(e) => {
                self.close_pending = false;
                self.status = Status::Text(e);
                Effect::Idle
            },
            Ok(p) => {
                if let Some(audio) = self.audio.as_mut() {
                    audio.save_path = Some(p);
                }
                self.history.mark_saved();
                self.status = Status::Saved;
                let closing = self.close_pending;
                self.close_pending = false;
                if closing { Effect::CloseWindow } else { Effect::Idle }
            },
        }
    }

    /// The window is asked to close: with unsaved changes the user is asked
    /// first.
    pub fn close_requested(&mut self) -> (effect: Effect)
        ensures
            old(self).history@.is_dirty() ==>
                *final(self) == (EditApp { status: Status::UnsavedChanges, ..*old(self) }) && effect == Effect::ConfirmClose,
            !old(self).history@.is_dirty() ==> *final(self) == *old(self) && effect == Effect::CloseWindow,
    {
        if self.history.is_dirty() {
            self.status = Status::UnsavedChanges;
            Effect::ConfirmClose
        } else {
            Effect::CloseWindow
        }
    }

    /// The user answered the unsaved-changes question: save and then close,
    /// close without saving, or keep the window.
    pub fn close_choice(&mut self, choice: CloseChoice) -> (effect: Effect)
        ensures
            choice == CloseChoice::Discard ==> *final(self) == *old(self) && effect == Effect::CloseWindow,
            choice == CloseChoice::Cancel ==> *final(self) == (EditApp {
                close_pending: false,
                status: Status::CloseCancelled,
                ..*old(self)
            }) && effect == Effect::Idle,
            choice == CloseChoice::Save && old(self).audio is Some ==> final(self).close_pending && final(self).busy
                && (effect matches Effect::SaveDocument { .. } || effect matches Effect::AskSavePath { .. }),
            choice == CloseChoice::Save && old(self).audio is None ==> *final(self) == (EditApp {
                close_pending: true,
                status: Status::NoAudioOpen,
                ..*old(self)
            }) && effect == Effect::Idle,
    {
        match choice {
            CloseChoice::Save => {
                self.close_pending = true;
                self.save()
            },
            CloseChoice::Discard => Effect::CloseWindow,
            CloseChoice::Cancel => {
                self.close_pending = false;
                self.status = Status::CloseCancelled;
                Effect::Idle
            },
        }
    }

    /// Closing the document: the editor starts over with no document,
    /// keeping its setup, whether it is ready and its opened engine.
    pub fn close(&mut self)
        requires
            old(self).wf(),
        ensures
            final(self).wf(),
            final(self).history@ == crate::history::HistoryModel::<DocumentSnapshot<T, G>>::empty(),
            *final(self) == (EditApp {
                standalone_ready: old(self).standalone_ready,
                engine_open: old(self).engine_open && old(self).standalone_ready,
                setup: old(self).setup,
                audio: None,
                history: final(self).history,
                status: Status::OpenAudioPrompt,
                busy: false,
                preparing_playback: false,
                playing: false,
                playhead_samples: 0,
                selection_anchor_samples: None,
                selection_samples: None,
                marker_dialog: None,
                detect_markers_dialog: None,
                export_markers_dialog: None,
                preferences_dialog: None,
                plugins: PluginScan::default_spec(),
                close_pending: false,
            }),
    {
        self.engine_open = self.engine_open && self.standalone_ready;
        self.audio = None;
        self.history = EditHistory::default();
        self.status = Status::OpenAudioPrompt;
        self.busy = false;
        self.preparing_playback = false;
        self.playing = false;
        self.playhead_samples = 0;
        self.selection_anchor_samples = None;
        self.selection_samples = None;
        self.marker_dialog = None;
        self.detect_markers_dialog = None;
        self.export_markers_dialog = None;
        self.preferences_dialog = None;
        self.plugins = PluginScan::not_started();
        self.close_pending = false;
    }
}


impl<T: Copy, G: Copy> EditApp<T, G> {
    /// Opens the export dialog afresh; when it was already open the user
    /// also picks the export directory.
    pub fn open_export_markers_dialog(&mut self) -> (effect: Effect)
        ensures
            final(self).export_markers_dialog matches Some(d) && d.directory is None && d.format == ExportFormat::Wav
                && d.bit_depth == ExportBitDepth::Bits24 && d.sample_rate == ExportSampleRate::Hz48000,
            *final(self) == (EditApp { export_markers_dialog: final(self).export_markers_dialog, ..*old(self) }),
            effect == if old(self).export_markers_dialog is Some { Effect::ChooseExportDirectory } else { Effect::Idle },
    {
        let effect = if self.export_markers_dialog.is_some() { Effect::ChooseExportDirectory } else { Effect::Idle };
        self.export_markers_dialog = Some(ExportMarkersDialog::default());
        effect
    }

    /// The directory the user picked for the export (or none).
    pub fn export_directory_selected(&mut self, directory: Option<PathBuf>)
        ensures
            old(self).export_markers_dialog is None ==> *final(self) == *old(self),
            old(self).export_markers_dialog matches Some(d) ==> *final(self) == (EditApp {
                export_markers_dialog: Some(ExportMarkersDialog { directory, ..d }),
                ..*old(self)
            }),
    {
        if let Some(dialog) = self.export_markers_dialog.as_mut() {
            dialog.directory = directory;
        }
    }

    /// The export format chosen in the dialog.
    pub fn export_format_selected(&mut self, format: ExportFormat)
        ensures
            old(self).export_markers_dialog is None ==> *final(self) == *old(self),
            old(self).export_markers_dialog matches Some(d) ==> *final(self) == (EditApp {
                export_markers_dialog: Some(ExportMarkersDialog { format, ..d }),
                ..*old(self)
            }),
    {
        if let Some(dialog) = self.export_markers_dialog.as_mut() {
            dialog.format = format;
        }
    }

    /// The export bit depth chosen in the dialog.
    pub fn export_bit_depth_selected(&mut self, bit_depth: ExportBitDepth)
        ensures
            old(self).export_markers_dialog is None ==> *final(self) == *old(self),
            old(self).export_markers_dialog matches Some(d) ==> *final(self) == (EditApp {
                export_markers_dialog: Some(ExportMarkersDialog { bit_depth, ..d }),
                ..*old(self)
            }),
    {
        if let Some(dialog) = self.export_markers_dialog.as_mut() {
            dialog.bit_depth = bit_depth;
        }
    }

    /// The export sample rate chosen in the dialog.
    pub fn export_sample_rate_selected(&mut self, sample_rate: ExportSampleRate)
        ensures
            old(self).export_markers_dialog is None ==> *final(self) == *old(self),
            old(self).export_markers_dialog matches Some(d) ==> *final(self) == (EditApp {
                export_markers_dialog: Some(ExportMarkersDialog { sample_rate, ..d }),
                ..*old(self)
            }),
    {
        if let Some(dialog) = self.export_markers_dialog.as_mut() {
            dialog.sample_rate = sample_rate;
        }
    }

    /// Closes the export dialog and starts the export, once there is a
    /// document, a directory and at least one marker (checked in that
    /// order; the first missing one sets the status).
    pub fn confirm_export_markers(&mut self) -> (effect: Effect)
        ensures
            old(self).export_markers_dialog is None ==> *final(self) == *old(self) && effect == Effect::Idle,
            old(self).export_markers_dialog matches Some(d) ==> ({
                let closed = EditApp { export_markers_dialog: None, ..*old(self) };
                if old(self).audio is None {
                    *final(self) == (EditApp { status: Status::NoAudioOpen, ..closed }) && effect == Effect::Idle
                } else if d.directory is None {
                    *final(self) == (EditApp { status: Status::ChooseExportDirectory, ..closed }) && effect == Effect::Idle
                } else if old(self).audio.unwrap().markers@.len() == 0 {
                    *final(self) == (EditApp { status: Status::NoMarkersToExport, ..closed }) && effect == Effect::Idle
                } else {
                    &&& *final(self) == (EditApp { busy: true, status: Status::ExportingRanges, ..closed })
                    &&& effect == (Effect::ExportMarkers {
                            directory: d.directory.unwrap(),
                            format: d.format,
                            bit_depth: d.bit_depth,
                            sample_rate: d.sample_rate.spec_value(),
                        })
                }
            }),
    {
        let dialog = match self.export_markers_dialog.take() {
            Some(d) => d,
            None => return Effect::Idle,
        };
        let has_markers = match &self.audio {
            None => {
                self.status = Status::NoAudioOpen;
                return Effect::Idle;
            },
            Some(audio) => audio.markers.len() > 0,
        };
        let directory = match dialog.directory {
            Some(directory) => directory,
            None => {
                self.status = Status::ChooseExportDirectory;
                return Effect::Idle;
            },
        };
        if !has_markers {
            self.status = Status::NoMarkersToExport;
            return Effect::Idle;
        }
        self.busy = true;
        self.status = Status::ExportingRanges;
        Effect::ExportMarkers {
            directory,
            format: dialog.format,
            bit_depth: dialog.bit_depth,
            sample_rate: dialog.sample_rate.value(),
        }
    }

    /// Closes the export dialog.
    pub fn cancel_export_markers(&mut self)
        ensures
            *final(self) == (EditApp { export_markers_dialog: None, ..*old(self) }),
    {
        self.export_markers_dialog = None;
    }

    /// Closes the preferences dialog without saving.
    pub fn cancel_preferences(&mut self)
        ensures
            *final(self) == (EditApp { preferences_dialog: None, ..*old(self) }),
    {
        self.preferences_dialog = None;
    }

    /// The export finished: how many ranges it wrote, or its error.
    pub fn export_finished(&mut self, result: Result<usize, String>)
        ensures
            result matches Ok(count) ==> *final(self) == (EditApp { busy: false, status: Status::Exported { count }, ..*old(self) }),
            result matches Err(e) ==> *final(self) == (EditApp { busy: false, status: Status::Text(e), ..*old(self) }),
    {
        self.busy = false;
        match result {
            Ok(count) => self.status = Status::Exported { count },
            Err(e) => self.status = Status::Text(e),
        }
    }

    /// Opens the preferences dialog on the current setup.
    pub fn open_preferences_dialog(&mut self)
        requires
            old(self).wf(),
        ensures
            final(self).wf(),
            final(self).preferences_dialog matches Some(d)
                && crate::dialogs::same_device_lists(d.output_devices@, old(self).setup.output_devices@)
                && crate::dialogs::same_device_lists(d.input_devices@, old(self).setup.input_devices@)
                && same_device_choice(d.output_device, old(self).setup.output_device)
                && same_device_choice(d.input_device, old(self).setup.input_device),
            *final(self) == (EditApp { preferences_dialog: final(self).preferences_dialog, ..*old(self) }),
    {
        let dialog = PreferencesDialog::from_setup(&self.setup);
        proof {
            if dialog.output_device is Some {
                lemma_same_usable(dialog.output_device.unwrap(), self.setup.output_device.unwrap());
            }
        }
        self.preferences_dialog = Some(dialog);
    }

    /// The default output device chosen in the preferences dialog.
    pub fn preferences_output_device_selected(&mut self, device: AudioDeviceOption)
        requires
            old(self).wf(),
            device.wf() && oss_caps_fit(device),
        ensures
            final(self).wf(),
            old(self).preferences_dialog is None ==> *final(self) == *old(self),
            old(self).preferences_dialog matches Some(d) ==> *final(self) == (EditApp {
                preferences_dialog: Some(PreferencesDialog { output_device: Some(device), ..d }),
                ..*old(self)
            }),
    {
        if let Some(dialog) = self.preferences_dialog.as_mut() {
            dialog.output_device = Some(device);
        }
    }

    /// The default input device chosen in the preferences dialog.
    pub fn preferences_input_device_selected(&mut self, device: AudioDeviceOption)
        requires
            old(self).wf(),
            device.wf(),
        ensures
            final(self).wf(),
            old(self).preferences_dialog is None ==> *final(self) == *old(self),
            old(self).preferences_dialog matches Some(d) ==> *final(self) == (EditApp {
                preferences_dialog: Some(PreferencesDialog { input_device: Some(device), ..d }),
                ..*old(self)
            }),
    {
        if let Some(dialog) = self.preferences_dialog.as_mut() {
            dialog.input_device = Some(device);
        }
    }

    /// Closes the preferences dialog, makes its devices the setup's
    /// selected devices, and asks the shell to store their ids as the
    /// defaults.
    pub fn save_preferences(&mut self) -> (effect: Effect)
        requires
            old(self).wf(),
        ensures
            final(self).wf(),
            old(self).preferences_dialog is None ==> *final(self) == *old(self) && effect == Effect::Idle,
            old(self).preferences_dialog matches Some(d) ==> ({
                &&& same_device_choice(final(self).setup.output_device, d.output_device)
                &&& same_device_choice(final(self).setup.input_device, d.input_device)
                &&& *final(self) == (EditApp {
                        preferences_dialog: None,
                        setup: StartupSetup {
                            output_device: final(self).setup.output_device,
                            input_device: final(self).setup.input_device,
                            ..old(self).setup
                        },
                        ..*old(self)
                    })
                &&& effect matches Effect::SavePreferences(p)
                &&& crate::preferences::string_view(effect->SavePreferences_0.default_output_device_id)
                        == match d.output_device { Some(x) => Some(x.id@), None => None::<Seq<char>> }
                &&& crate::preferences::string_view(effect->SavePreferences_0.default_input_device_id)
                        == match d.input_device { Some(x) => Some(x.id@), None => None::<Seq<char>> }
            }),
    {
        let dialog = match self.preferences_dialog.take() {
            Some(d) => d,
            None => return Effect::Idle,
        };
        let output = crate::dialogs::copy_device_choice(&dialog.output_device);
        let input = crate::dialogs::copy_device_choice(&dialog.input_device);
        proof {
            if output is Some {
                lemma_same_usable(output.unwrap(), dialog.output_device.unwrap());
            }
        }
        self.setup.output_device = output;
        self.setup.input_device = input;
        let preferences = EditorPreferences {
            default_output_device_id: match dialog.output_device {
                Some(device) => Some(device.id),
                None => None,
            },
            default_input_device_id: match dialog.input_device {
                Some(device) => Some(device.id),
                None => None,
            },
        };
        Effect::SavePreferences(preferences)
    }

    /// The preferences were stored, or storing them failed.
    pub fn preferences_saved(&mut self, result: Result<(), String>)
        ensures
            result is Ok ==> *final(self) == (EditApp { status: Status::PreferencesSaved, ..*old(self) }),
            result matches Err(e) ==> *final(self) == (EditApp { status: Status::PreferencesNotSaved(e), ..*old(self) }),
    {
        match result {
            Ok(()) => self.status = Status::PreferencesSaved,
            Err(e) => self.status = Status::PreferencesNotSaved(e),
        }
    }
}


/// The clock text of a position: minutes and seconds with at least two
/// digits and milliseconds with at least three (`MM:SS.mmm`), each
/// rounded down, for `samples` frames at `rate` frames per second.
pub open spec fn spec_clock(samples: nat, rate: nat) -> Seq<char> {
    let minutes = samples / (rate * 60);
    let seconds = (samples / rate) % 60;
    let millis = (samples % rate) * 1000 / rate;
    spec_zero_padded(spec_decimal(minutes), 2) + seq![':'] + spec_zero_padded(spec_decimal(seconds), 2)
        + seq!['.'] + spec_zero_padded(spec_decimal(millis), 3)
}

/// The sample rate the playhead clock counts in: the document's, 48 kHz
/// without one, and at least 1.
pub open spec fn clock_rate<T: Copy, G: Copy>(audio: Option<AudioDocument<T, G>>) -> nat {
    let rate = match audio { Some(a) => a.sample_rate, None => 48_000 };
    if rate == 0 { 1 } else { rate as nat }
}

/// The playhead position as clock text (see [`spec_clock`]).
pub fn playhead_label<T: Copy, G: Copy>(app: &EditApp<T, G>) -> (label: String)
    ensures
        label@ == spec_clock(app.playhead_samples as nat, clock_rate(app.audio)),
{
    let rate: u32 = match &app.audio { Some(a) => a.sample_rate, None => 48_000 };
    let rate: u64 = if rate == 0 { 1 } else { rate as u64 };
    let samples = app.playhead_samples as u64;
    let minutes = samples / (rate * 60);
    let seconds = (samples / rate) % 60;
    let millis = (samples % rate) * 1000 / rate;
    proof {
        let sn = samples as int;
        let rn = rate as int;
        assert(rn * 60 == (rate * 60) as int);
        assert(minutes as int == sn / (rn * 60));
        assert(sn / (rn * 60) <= sn) by (nonlinear_arith)
            requires rn >= 1, sn >= 0;
        assert((sn % rn) * 1000 / rn < 1000) by (nonlinear_arith)
            requires rn >= 1, sn >= 0;
        assert(millis as int == (sn % rn) * 1000 / rn);
    }
    let mut label = zero_padded_decimal(minutes as usize, 2);
    push_str(&mut label, ":");
    push_str(&mut label, zero_padded_decimal(seconds as usize, 2).as_str());
    push_str(&mut label, ".");
    push_str(&mut label, zero_padded_decimal(millis as usize, 3).as_str());
    proof {
        reveal_strlit(":");
        reveal_strlit(".");
    }
    label
}

/// The status line for an open document: its path as displayed, the clip
/// range when it is a clip (the end saturating), then channels, sample
/// rate and frames.
pub open spec fn spec_document_status<T: Copy, G: Copy>(audio: AudioDocument<T, G>, display: Seq<char>) -> Seq<char> {
    let tail = spec_decimal(audio.channels as nat) + " ch, "@ + spec_decimal(audio.sample_rate as nat) + " Hz, "@
        + spec_decimal(audio.spec_frames()) + " frames"@;
    match audio.clip_region {
        Some(r) => {
            let end = if r.offset + r.length <= usize::MAX { (r.offset + r.length) as nat } else { usize::MAX as nat };
            display + " - clip "@ + spec_decimal(r.offset as nat) + ".."@ + spec_decimal(end) + " samples, "@ + tail
        },
        None => display + " - "@ + tail,
    }
}

/// See [`spec_document_status`]; `display` is the document's path as the
/// platform displays it.
pub fn document_status<T: Copy, G: Copy>(audio: &AudioDocument<T, G>, display: &str) -> (status: String)
    ensures
        status@ == spec_document_status(*audio, display@),
{
    let mut status = String::from_str(display);
    match audio.clip_region {
        Some(r) => {
            push_str(&mut status, " - clip ");
            push_str(&mut status, decimal(r.offset).as_str());
            push_str(&mut status, "..");
            push_str(&mut status, decimal(r.offset.saturating_add(r.length)).as_str());
            push_str(&mut status, " samples, ");
        },
        None => {
            push_str(&mut status, " - ");
        },
    }
    push_str(&mut status, decimal(audio.channels).as_str());
    push_str(&mut status, " ch, ");
    push_str(&mut status, decimal(audio.sample_rate as usize).as_str());
    push_str(&mut status, " Hz, ");
    push_str(&mut status, decimal(audio.frames()).as_str());
    push_str(&mut status, " frames");
    proof {
        let tail = spec_decimal(audio.channels as nat) + " ch, "@ + spec_decimal(audio.sample_rate as nat) + " Hz, "@
            + spec_decimal(audio.spec_frames()) + " frames"@;
        match audio.clip_region {
            Some(r) => {
                let end = if r.offset + r.length <= usize::MAX { (r.offset + r.length) as nat } else { usize::MAX as nat };
                assert(status@ =~= display@ + " - clip "@ + spec_decimal(r.offset as nat) + ".."@ + spec_decimal(end)
                    + " samples, "@ + tail);
            },
            None => {
                assert(status@ =~= display@ + " - "@ + tail);
            },
        }
    }
    status
}


/// Undoing an edit right after applying it gives the document back its
/// samples, edit summary, edit list and markers from before the edit; while
/// the history is below its limit, the undo stack and whether there are
/// unsaved changes are as before the edit too.
pub proof fn lemma_undo_reverts_edit<T: Copy, G: Copy, F: Fn(Vec<G>) -> G>(
    a0: EditApp<T, G>,
    a1: EditApp<T, G>,
    a2: EditApp<T, G>,
    applied: Effect,
    undone: Effect,
    action: AudioEditAction<G>,
    total_gain: F,
)
    requires
        a0.audio matches Some(d) && !action.spec_is_empty_for_frames(d.spec_frames()),
        spec_edit_applied(a0, a1, applied, action, total_gain),
        spec_undone(a1, a2, undone),
    ensures
        a2.audio is Some,
        a2.audio.unwrap().samples@ == a0.audio.unwrap().samples@,
        a2.audio.unwrap().edits == a0.audio.unwrap().edits,
        a2.audio.unwrap().edit_actions@ == a0.audio.unwrap().edit_actions@,
        a2.audio.unwrap().markers@ == a0.audio.unwrap().markers@,
        a0.history@.undo.len() < crate::history::EDIT_HISTORY_MAX_ENTRIES ==> {
            &&& a2.history@.undo == a0.history@.undo
            &&& a2.history@.is_dirty() == a0.history@.is_dirty()
        },
{
    let d0 = a0.audio.unwrap();
    let d1 = a1.audio.unwrap();
    let (p, c) = choose|p: DocumentSnapshot<T, G>, c: DocumentSnapshot<T, G>|
        snapshot_of(p, d0) && snapshot_of(c, d1) && #[trigger] a1.history@ == a0.history@.record(p, c);
    crate::history::lemma_undo_after_record_restores(a0.history@, p, c);
    assert(a1.history@.undo().1 == Some(p));
}

/// Redoing an edit right after undoing it gives the document back its
/// samples, edit summary, edit list and markers from after the edit, and
/// the history is as it was right after the edit.
pub proof fn lemma_redo_reapplies_edit<T: Copy, G: Copy, F: Fn(Vec<G>) -> G>(
    a0: EditApp<T, G>,
    a1: EditApp<T, G>,
    a2: EditApp<T, G>,
    a3: EditApp<T, G>,
    applied: Effect,
    undone: Effect,
    redone: Effect,
    action: AudioEditAction<G>,
    total_gain: F,
)
    requires
        a0.audio matches Some(d) && !action.spec_is_empty_for_frames(d.spec_frames()),
        spec_edit_applied(a0, a1, applied, action, total_gain),
        spec_undone(a1, a2, undone),
        spec_redone(a2, a3, redone),
    ensures
        a3.audio is Some,
        a3.audio.unwrap().samples@ == a1.audio.unwrap().samples@,
        a3.audio.unwrap().edits == a1.audio.unwrap().edits,
        a3.audio.unwrap().edit_actions@ == a1.audio.unwrap().edit_actions@,
        a3.audio.unwrap().markers@ == a1.audio.unwrap().markers@,
        a3.history@ == a1.history@,
{
    let d0 = a0.audio.unwrap();
    let d1 = a1.audio.unwrap();
    let (p, c) = choose|p: DocumentSnapshot<T, G>, c: DocumentSnapshot<T, G>|
        snapshot_of(p, d0) && snapshot_of(c, d1) && #[trigger] a1.history@ == a0.history@.record(p, c);
    crate::history::lemma_undo_after_record_restores(a0.history@, p, c);
    crate::history::lemma_undo_then_redo_is_identity(a1.history@);
    assert(a2.history@.redo().1 == Some(c));
}


/// The status line's text, for every status that needs nothing besides
/// itself: `None` for a selection (whose text gives its length in seconds),
/// a preview gain (which gives the gain), and the messages that name the
/// document's file.
pub open spec fn spec_status_text(status: Status) -> Option<Seq<char>> {
    match status {
        Status::OpenAudioPrompt => Some("Open an audio file to view its waveform."@),
        Status::ChooseHardware => Some("Choose audio hardware and open the engine."@),
        Status::ScanningPlugins => Some("Scanning plugins and opening audio device..."@),
        Status::NoAudioOpen => Some("No audio file is open."@),
        Status::PlaybackNotReady => Some("Preparing audio for playback."@),
        Status::PreparingPlayback => Some("Preparing audio for playback..."@),
        Status::PlayingPreview => Some("Playing preview."@),
        Status::Playing => Some("Playing."@),
        Status::OpenHardwareFirst => Some("Open audio hardware before playback."@),
        Status::Stopped => Some("Stopped."@),
        Status::NoZeroCrossing => Some("No zero crossing found after playhead."@),
        Status::NoMarkersToSelect => Some("No markers to select between."@),
        Status::Undone => Some("Undone."@),
        Status::NothingToUndo => Some("Nothing to undo."@),
        Status::Redone => Some("Redone."@),
        Status::NothingToRedo => Some("Nothing to redo."@),
        Status::SelectionEmpty => Some("Selection is empty."@),
        Status::NoMarkerAtPosition => Some("No marker at that position."@),
        Status::InvalidThreshold => Some("Invalid threshold value."@),
        Status::InvalidSilenceCount => Some("Invalid silence sample count."@),
        Status::SilenceCountZero => Some("Silence sample count must be greater than zero."@),
        Status::OpeningFile => Some("Opening audio file..."@),
        Status::OpenCancelled => Some("Open cancelled."@),
        Status::SaveCancelled => Some("Save cancelled."@),
        Status::CloseCancelled => Some("Close cancelled."@),
        Status::UnsavedChanges => Some("Unsaved changes. Save, discard, or cancel?"@),
        Status::ChooseSaveDestination => Some("Choosing save destination..."@),
        Status::ChooseClipSaveLocation => Some("Choose where to save this clip."@),
        Status::ChooseSaveFormat => Some("Choose a Maolan export format to save."@),
        Status::ChooseExportDirectory => Some("Choose an export directory."@),
        Status::NoMarkersToExport => Some("No markers to export between."@),
        Status::ExportingRanges => Some("Exporting marker ranges..."@),
        Status::PreferencesSaved => Some("Preferences saved."@),
        Status::Edited(EditNote::FadeInPreview) => Some("Fade in applied to preview."@),
        Status::Edited(EditNote::FadeInSelection) => Some("Fade in applied to selection."@),
        Status::Edited(EditNote::FadeOutPreview) => Some("Fade out applied to preview."@),
        Status::Edited(EditNote::FadeOutSelection) => Some("Fade out applied to selection."@),
        Status::Edited(EditNote::VolumeOnSelection) => Some("Volume adjusted on selection."@),
        Status::Edited(EditNote::Reversed) => Some("Clip reversed."@),
        Status::Edited(EditNote::Forward) => Some("Clip restored to forward playback."@),
        Status::Edited(EditNote::SelectionDeleted) => Some("Selection deleted."@),
        Status::Edited(EditNote::SelectionSilenced) => Some("Selection replaced with silence."@),
        Status::Edited(EditNote::PreviewGain) => None,
        Status::Text(t) => Some(t@),
        Status::ZeroCrossing { frame } => Some("Jumped to zero crossing at frame "@ + spec_decimal(frame as nat) + "."@),
        Status::Deleted { start, end } => Some("Deleted "@ + spec_decimal(start as nat) + ".."@ + spec_decimal(end as nat) + " samples."@),
        Status::MarkerAdded { sample } => Some("Marker added at sample "@ + spec_decimal(sample as nat) + "."@),
        Status::MarkerDeleted { sample } => Some("Marker at sample "@ + spec_decimal(sample as nat) + " deleted."@),
        Status::MarkersDetected { count } => Some("Detected "@ + spec_decimal(count as nat) + " marker positions."@),
        Status::Exported { count } => Some("Exported "@ + spec_decimal(count as nat) + " marker range(s)."@),
        Status::PreferencesNotSaved(e) => Some("Failed to save preferences: "@ + e@),
        Status::Selected { .. } | Status::SelectedRegion { .. } | Status::Saving | Status::Saved | Status::DocumentInfo => None,
    }
}

fn framed(before: &str, n: usize, after: &str) -> (text: String)
    ensures
        text@ == before@ + spec_decimal(n as nat) + after@,
{
    let mut text = String::from_str(before);
    push_str(&mut text, decimal(n).as_str());
    push_str(&mut text, after);
    text
}

impl Status {
    /// See [`spec_status_text`].
    pub fn text(&self) -> (text: Option<String>)
        ensures
            match (text, spec_status_text(*self)) {
                (Some(t), Some(u)) => t@ == u,
                (None, None) => true,
                _ => false,
            },
    {
        match self {
            Status::OpenAudioPrompt => Some(String::from_str("Open an audio file to view its waveform.")),
            Status::ChooseHardware => Some(String::from_str("Choose audio hardware and open the engine.")),
            Status::ScanningPlugins => Some(String::from_str("Scanning plugins and opening audio device...")),
            Status::NoAudioOpen => Some(String::from_str("No audio file is open.")),
            Status::PlaybackNotReady => Some(String::from_str("Preparing audio for playback.")),
            Status::PreparingPlayback => Some(String::from_str("Preparing audio for playback...")),
            Status::PlayingPreview => Some(String::from_str("Playing preview.")),
            Status::Playing => Some(String::from_str("Playing.")),
            Status::OpenHardwareFirst => Some(String::from_str("Open audio hardware before playback.")),
            Status::Stopped => Some(String::from_str("Stopped.")),
            Status::NoZeroCrossing => Some(String::from_str("No zero crossing found after playhead.")),
            Status::NoMarkersToSelect => Some(String::from_str("No markers to select between.")),
            Status::Undone => Some(String::from_str("Undone.")),
            Status::NothingToUndo => Some(String::from_str("Nothing to undo.")),
            Status::Redone => Some(String::from_str("Redone.")),
            Status::NothingToRedo => Some(String::from_str("Nothing to redo.")),
            Status::SelectionEmpty => Some(String::from_str("Selection is empty.")),
            Status::NoMarkerAtPosition => Some(String::from_str("No marker at that position.")),
            Status::InvalidThreshold => Some(String::from_str("Invalid threshold value.")),
            Status::InvalidSilenceCount => Some(String::from_str("Invalid silence sample count.")),
            Status::SilenceCountZero => Some(String::from_str("Silence sample count must be greater than zero.")),
            Status::OpeningFile => Some(String::from_str("Opening audio file...")),
            Status::OpenCancelled => Some(String::from_str("Open cancelled.")),
            Status::SaveCancelled => Some(String::from_str("Save cancelled.")),
            Status::CloseCancelled => Some(String::from_str("Close cancelled.")),
            Status::UnsavedChanges => Some(String::from_str("Unsaved changes. Save, discard, or cancel?")),
            Status::ChooseSaveDestination => Some(String::from_str("Choosing save destination...")),
            Status::ChooseClipSaveLocation => Some(String::from_str("Choose where to save this clip.")),
            Status::ChooseSaveFormat => Some(String::from_str("Choose a Maolan export format to save.")),
            Status::ChooseExportDirectory => Some(String::from_str("Choose an export directory.")),
            Status::NoMarkersToExport => Some(String::from_str("No markers to export between.")),
            Status::ExportingRanges => Some(String::from_str("Exporting marker ranges...")),
            Status::PreferencesSaved => Some(String::from_str("Preferences saved.")),
            Status::Edited(EditNote::FadeInPreview) => Some(String::from_str("Fade in applied to preview.")),
            Status::Edited(EditNote::FadeInSelection) => Some(String::from_str("Fade in applied to selection.")),
            Status::Edited(EditNote::FadeOutPreview) => Some(String::from_str("Fade out applied to preview.")),
            Status::Edited(EditNote::FadeOutSelection) => Some(String::from_str("Fade out applied to selection.")),
            Status::Edited(EditNote::VolumeOnSelection) => Some(String::from_str("Volume adjusted on selection.")),
            Status::Edited(EditNote::Reversed) => Some(String::from_str("Clip reversed.")),
            Status::Edited(EditNote::Forward) => Some(String::from_str("Clip restored to forward playback.")),
            Status::Edited(EditNote::SelectionDeleted) => Some(String::from_str("Selection deleted.")),
            Status::Edited(EditNote::SelectionSilenced) => Some(String::from_str("Selection replaced with silence.")),
            Status::Edited(EditNote::PreviewGain) => None,
            Status::Text(t) => Some(t.clone()),
            Status::ZeroCrossing { frame } => Some(framed("Jumped to zero crossing at frame ", *frame, ".")),
            Status::Deleted { start, end } => {
                let mut text = String::from_str("Deleted ");
                push_str(&mut text, decimal(*start).as_str());
                push_str(&mut text, "..");
                push_str(&mut text, decimal(*end).as_str());
                push_str(&mut text, " samples.");
                Some(text)
            },
            Status::MarkerAdded { sample } => Some(framed("Marker added at sample ", *sample, ".")),
            Status::MarkerDeleted { sample } => Some(framed("Marker at sample ", *sample, " deleted.")),
            Status::MarkersDetected { count } => Some(framed("Detected ", *count, " marker positions.")),
            Status::Exported { count } => Some(framed("Exported ", *count, " marker range(s).")),
            Status::PreferencesNotSaved(e) => {
                let mut text = String::from_str("Failed to save preferences: ");
                push_str(&mut text, e.as_str());
                Some(text)
            },
            Status::Selected { .. } | Status::SelectedRegion { .. } | Status::Saving | Status::Saved | Status::DocumentInfo => None,
        }
    }
}


/// Reads the file name of a path as text (`Path::file_name`, then
/// `OsStr::to_string_lossy`). How a path splits into components depends on
/// the platform, so nothing is claimed of the result.
#[verifier::external_body]
fn file_name_text(path: &PathBuf) -> (name: Option<String>)
{
    path.file_name().map(|name| name.to_string_lossy().into_owned())
}

/// The window title: the editor's name, then ` - ` and the document's file
/// name when it has one, then ` *` while there are unsaved changes.
pub open spec fn spec_title(name: Option<Seq<char>>, dirty: bool) -> Seq<char> {
    let base = match name {
        Some(n) => "Maolan Editor - "@ + n,
        None => "Maolan Editor"@,
    };
    if dirty { base + " *"@ } else { base }
}

/// See [`spec_title`]; the file name is the document source's.
pub fn title<T: Copy, G: Copy>(app: &EditApp<T, G>) -> (title: String)
    requires
        app.history.wf(),
    ensures
        exists|name: Option<Seq<char>>| #![trigger spec_title(name, app.history@.is_dirty())]
            (app.audio is None ==> name is None) && title@ == spec_title(name, app.history@.is_dirty()),
{
    let name = match &app.audio {
        Some(audio) => file_name_text(&audio.source_path),
        None => None,
    };
    let ghost name_view = match &name { Some(n) => Some(n@), None => None::<Seq<char>> };
    let mut title = match &name {
        Some(n) => {
            let mut t = String::from_str("Maolan Editor - ");
            push_str(&mut t, n.as_str());
            t
        },
        None => String::from_str("Maolan Editor"),
    };
    if app.history.is_dirty() {
        push_str(&mut title, " *");
    }
    proof { assert(title@ == spec_title(name_view, app.history@.is_dirty())); }
    title
}

} // verus!
