//! The requests the editor sends the audio engine: opening the device,
//! loading the document into a preview track, and starting playback. Each
//! is a list of steps that the shell sends in order, waiting after a step
//! for the engine's reply to it where the step says so.

use vstd::prelude::*;

use crate::devices::{
    selected_bits, selected_input_device, selected_output_device, selected_period_frames,
    spec_default_audio_device, spec_period_frame_options, spec_pick_period_frames,
    spec_selected_bits, StartupSetup,
};
use crate::text::push_str;

verus! {

pub open spec fn spec_preview_track() -> Seq<char> {
    "editor-preview"@
}

pub open spec fn spec_hardware_out() -> Seq<char> {
    "hw:out"@
}

/// The name of the engine track that plays the document.
pub fn preview_track() -> (name: String)
    ensures
        name@ == spec_preview_track(),
{
    String::from_str("editor-preview")
}

/// The engine's hardware output.
pub fn hardware_out() -> (name: String)
    ensures
        name@ == spec_hardware_out(),
{
    String::from_str("hw:out")
}

/// One request to the engine.
#[derive(Debug, PartialEq)]
pub enum EngineStep {
    /// Stop the transport.
    Stop,
    /// Remove a track; a failure is ignored and no reply awaited.
    RemoveTrack { name: String },
    /// Add an audio track with as many inputs and outputs as channels.
    AddTrack { name: String, channels: usize },
    /// Add an audio clip, placed at the timeline start, with short fades at
    /// both ends.
    AddClip {
        clip_name: String,
        track_name: String,
        length: usize,
        offset: usize,
        reversed: bool,
        fade_samples: usize,
    },
    /// Connect a track output to a hardware output port.
    Connect { from_track: String, from_port: usize, to_track: String, to_port: usize },
    /// Let clips play.
    EnableClipPlayback,
    /// Move the transport to a frame.
    TransportPosition { frame: usize },
    /// Start the transport.
    Play,
}

impl EngineStep {
    /// Whether the shell waits for the engine's reply to this step before
    /// sending the next one (a failed reply aborts the list).
    pub open spec fn spec_awaits_reply(&self) -> bool {
        !(self is Stop || self is RemoveTrack || self is TransportPosition)
    }

    /// See [`EngineStep::spec_awaits_reply`].
    pub fn awaits_reply(&self) -> (waits: bool)
        ensures
            waits == self.spec_awaits_reply(),
    {
        match self {
            EngineStep::Stop | EngineStep::RemoveTrack { .. } | EngineStep::TransportPosition { .. } => false,
            _ => true,
        }
    }
}

/// The step connects output `port` of the preview track to the hardware
/// output of the same number.
pub open spec fn connects_port(step: EngineStep, port: int) -> bool {
    match step {
        EngineStep::Connect { from_track, from_port, to_track, to_port } =>
            from_track@ == spec_preview_track() && from_port == port && to_track@ == spec_hardware_out() && to_port == port,
        _ => false,
    }
}

/// Output ports connected for a document: one per channel, at least one and
/// at most two.
pub open spec fn connected_ports(channels: usize) -> nat {
    if channels < 1 { 1 } else if channels > 2 { 2 } else { channels as nat }
}

/// Whether `steps` loads a document: stop, drop the old preview track, add
/// it anew with `channels` channels, put the clip named `clip_name` on it
/// (`length` frames from `offset`, reversed or not, 240-frame fades),
/// connect its first one or two outputs to the hardware outputs of the same
/// number, and let clips play.
pub open spec fn document_steps_are(
    steps: Seq<EngineStep>,
    clip_name: Seq<char>,
    channels: usize,
    length: usize,
    offset: usize,
    reversed: bool,
) -> bool {
    let ports = connected_ports(channels);
    &&& steps.len() == 4 + ports + 1
    &&& steps[0] == EngineStep::Stop
    &&& steps[1] matches EngineStep::RemoveTrack { name } && name@ == spec_preview_track()
    &&& steps[2] matches EngineStep::AddTrack { name, channels: c } && name@ == spec_preview_track() && c == channels
    &&& steps[3] matches EngineStep::AddClip { clip_name: n, track_name, length: l, offset: o, reversed: r, fade_samples }
            && n@ == clip_name && track_name@ == spec_preview_track() && l == length && o == offset && r == reversed
            && fade_samples == 240
    &&& forall|p: int| 0 <= p < ports ==> connects_port(#[trigger] steps[4 + p], p)
    &&& steps[4 + ports as int] == EngineStep::EnableClipPlayback
}

/// The steps that load a document into the engine (see
/// [`document_steps_are`]).
pub fn document_steps(clip_name: String, channels: usize, length: usize, offset: usize, reversed: bool) -> (steps: Vec<EngineStep>)
    ensures
        document_steps_are(steps@, clip_name@, channels, length, offset, reversed),
{
    let ghost name = clip_name@;
    let mut steps: Vec<EngineStep> = Vec::new();
    steps.push(EngineStep::Stop);
    steps.push(EngineStep::RemoveTrack { name: preview_track() });
    steps.push(EngineStep::AddTrack { name: preview_track(), channels });
    steps.push(EngineStep::AddClip {
        clip_name,
        track_name: preview_track(),
        length,
        offset,
        reversed,
        fade_samples: 240,
    });
    let ports: usize = if channels < 1 { 1 } else if channels > 2 { 2 } else { channels };
    let mut port: usize = 0;
    while port < ports
        invariant
            ports == connected_ports(channels),
            port <= ports,
            steps@.len() == 4 + port,
            steps@[0] == EngineStep::Stop,
            steps@[1] matches EngineStep::RemoveTrack { name } && name@ == spec_preview_track(),
            steps@[2] matches EngineStep::AddTrack { name, channels: c } && name@ == spec_preview_track() && c == channels,
            steps@[3] matches EngineStep::AddClip { clip_name: n, track_name, length: l, offset: o, reversed: r, fade_samples }
                && n@ == name && track_name@ == spec_preview_track() && l == length && o == offset && r == reversed
                && fade_samples == 240,
            forall|p: int| 0 <= p < port ==> connects_port(#[trigger] steps@[4 + p], p),
        decreases ports - port,
    {
        steps.push(EngineStep::Connect {
            from_track: preview_track(),
            from_port: port,
            to_track: hardware_out(),
            to_port: port,
        });
        port += 1;
    }
    steps.push(EngineStep::EnableClipPlayback);
    steps
}

/// The steps that start playback at `start`: let clips play, move the
/// transport there, and play.
pub fn playback_steps(start: usize) -> (steps: Vec<EngineStep>)
    ensures
        steps@ == seq![
            EngineStep::EnableClipPlayback,
            EngineStep::TransportPosition { frame: start },
            EngineStep::Play,
        ],
{
    let mut steps: Vec<EngineStep> = Vec::new();
    steps.push(EngineStep::EnableClipPlayback);
    steps.push(EngineStep::TransportPosition { frame: start });
    steps.push(EngineStep::Play);
    proof {
        assert(steps@ =~= seq![
            EngineStep::EnableClipPlayback,
            EngineStep::TransportPosition { frame: start },
            EngineStep::Play,
        ]);
    }
    steps
}

/// The audio device the engine opens for a setup.
#[derive(Debug)]
pub struct OpenDeviceRequest {
    pub device: String,
    pub input_device: Option<String>,
    pub sample_rate_hz: i32,
    pub bits: i32,
    pub exclusive: bool,
    pub period_frames: usize,
    pub nperiods: usize,
    pub sync_mode: bool,
}

/// The device request for `setup`: the selected output device (`jack` for
/// JACK, the backend's default without a selection), the selected input
/// device (none for JACK), 32 bits for JACK, the period size as
/// `pick_period_frames` picks it, and the rest as set up.
pub fn open_device_request(setup: &StartupSetup) -> (request: OpenDeviceRequest)
    requires
        setup.wf(),
    ensures
        request.device@ == if setup.audio_engine.spec_is_jack() {
            "jack"@
        } else {
            match setup.output_device {
                Some(d) => d.id@,
                None => spec_default_audio_device(setup.audio_engine),
            }
        },
        match request.input_device {
            Some(s) => !setup.audio_engine.spec_is_jack() && setup.input_device is Some && s@ == setup.input_device.unwrap().id@,
            None => setup.audio_engine.spec_is_jack() || setup.input_device is None,
        },
        request.sample_rate_hz == setup.sample_rate_hz,
        request.bits == spec_selected_bits(setup.audio_engine, setup.bits),
        request.exclusive == setup.exclusive,
        request.period_frames == spec_pick_period_frames(
            spec_period_frame_options(setup.audio_engine, setup.output_device, setup.bits),
            setup.period_frames,
        ),
        request.nperiods == setup.nperiods,
        request.sync_mode == setup.sync_mode,
{
    OpenDeviceRequest {
        device: selected_output_device(setup),
        input_device: selected_input_device(setup),
        sample_rate_hz: setup.sample_rate_hz,
        bits: selected_bits(setup),
        exclusive: setup.exclusive,
        period_frames: selected_period_frames(setup),
        nperiods: setup.nperiods,
        sync_mode: setup.sync_mode,
    }
}

pub open spec fn spec_preview_file_name(stem: Option<Seq<char>>) -> Seq<char> {
    "maolan-editor-preview-"@ + match stem { Some(s) => s, None => "maolan-editor-preview"@ } + ".wav"@
}

/// The name of the temporary file that holds a rendered preview: the
/// source's file stem (or a fixed name without one) in
/// `maolan-editor-preview-STEM.wav`.
pub fn preview_file_name(stem: Option<&str>) -> (name: String)
    ensures
        name@ == spec_preview_file_name(match stem { Some(s) => Some(s@), None => None }),
{
    let mut name = String::from_str("maolan-editor-preview-");
    match stem {
        Some(s) => push_str(&mut name, s),
        None => push_str(&mut name, "maolan-editor-preview"),
    }
    push_str(&mut name, ".wav");
    name
}

} // verus!
