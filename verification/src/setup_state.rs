//! What the startup screen shows: the choices offered for the audio
//! hardware, the selected ones, and whether the engine may be opened.

use vstd::prelude::*;

use crate::devices::{
    backend_matches_device, bit_options, first_with_id, period_frame_options, pick_bits,
    pick_period_frames, pick_sample_rate, sample_rate_options, selects, spec_bit_options,
    spec_period_frame_options, spec_pick_bits, spec_pick_period_frames, spec_pick_sample_rate,
    spec_sample_rate_options, AudioDeviceOption, AudioEngineOption, StartupSetup,
};
use crate::dialogs::same_device_lists;
use crate::session::EditApp;

verus! {

/// The startup screen's content.
#[derive(Debug)]
pub struct AudioSetupState {
    pub backends: Vec<AudioEngineOption>,
    pub selected_backend: AudioEngineOption,
    pub show_input_device: bool,
    pub input_devices: Vec<AudioDeviceOption>,
    pub selected_input_device: Option<AudioDeviceOption>,
    pub show_output_device: bool,
    pub output_devices: Vec<AudioDeviceOption>,
    pub selected_output_device: Option<AudioDeviceOption>,
    pub show_sample_rate: bool,
    pub sample_rates: Vec<i32>,
    pub selected_sample_rate: Option<i32>,
    pub show_bit_depth: bool,
    pub bit_depths: Vec<usize>,
    pub selected_bit_depth: Option<usize>,
    pub show_period_frames: bool,
    pub period_frames: Vec<usize>,
    pub selected_period_frames: Option<usize>,
    pub show_n_periods: bool,
    pub n_periods: Vec<usize>,
    pub selected_n_periods: Option<usize>,
    pub show_exclusive: bool,
    pub exclusive: bool,
    pub show_sync_mode: bool,
    pub sync_mode: bool,
    pub plugins_loaded: bool,
    pub can_start: bool,
    pub status_message: String,
}

/// Whether a device id belongs to `engine`: ALSA hardware ids start with
/// `hw:`, and JACK lists no devices.
pub open spec fn spec_backend_matches(engine: AudioEngineOption, id: Seq<char>) -> bool {
    engine == AudioEngineOption::Alsa && id.len() >= 3 && id.subrange(0, 3) == "hw:"@
}

/// The devices of a list that belong to `engine`, in order.
pub open spec fn backend_devices(devices: Seq<AudioDeviceOption>, engine: AudioEngineOption) -> Seq<AudioDeviceOption>
    decreases devices.len(),
{
    if devices.len() == 0 {
        devices
    } else {
        let rest = backend_devices(devices.drop_last(), engine);
        if spec_backend_matches(engine, devices.last().id@) { rest.push(devices.last()) } else { rest }
    }
}

/// Copies of the devices that belong to `engine`.
pub fn devices_for_backend(devices: &Vec<AudioDeviceOption>, engine: AudioEngineOption) -> (out: Vec<AudioDeviceOption>)
    ensures
        same_device_lists(out@, backend_devices(devices@, engine)),
{
    let mut out: Vec<AudioDeviceOption> = Vec::new();
    let mut i: usize = 0;
    while i < devices.len()
        invariant
            i <= devices@.len(),
            same_device_lists(out@, backend_devices(devices@.subrange(0, i as int), engine)),
        decreases devices@.len() - i,
    {
        proof {
            assert(devices@.subrange(0, i + 1).drop_last() =~= devices@.subrange(0, i as int));
            assert(devices@.subrange(0, i + 1).last() == devices@[i as int]);
        }
        if backend_matches_device(engine, devices[i].id.as_str()) {
            out.push(devices[i].clone());
        }
        i += 1;
    }
    proof { assert(devices@.subrange(0, devices@.len() as int) =~= devices@); }
    out
}

/// A copy of the first device with id `id`, if any.
pub fn find_device(devices: &Vec<AudioDeviceOption>, id: &String) -> (found: Option<AudioDeviceOption>)
    ensures
        selects(found, devices@, first_with_id(devices@, id@)),
{
    let mut i: usize = 0;
    while i < devices.len()
        invariant
            i <= devices@.len(),
            first_with_id(devices@.subrange(0, i as int), id@) is None,
        decreases devices@.len() - i,
    {
        proof { assert(devices@.subrange(0, i + 1).drop_last() =~= devices@.subrange(0, i as int)); }
        if devices[i].id == *id {
            proof {
                assert(first_with_id(devices@.subrange(0, i + 1), id@) == Some(i as int));
                crate::devices::lemma_first_with_id_prefix(devices@, id@, i as int);
            }
            return Some(devices[i].clone());
        }
        i += 1;
    }
    proof { assert(devices@.subrange(0, devices@.len() as int) =~= devices@); }
    None
}

/// Index in `devices` of the device with the id of `selected`.
pub open spec fn selected_index(selected: Option<AudioDeviceOption>, devices: Seq<AudioDeviceOption>) -> Option<int> {
    match selected {
        Some(d) => first_with_id(devices, d.id@),
        None => None,
    }
}

/// The numbers 1 to 16.
pub fn n_period_options() -> (options: Vec<usize>)
    ensures
        options@ == Seq::new(16, |i: int| (i + 1) as usize),
{
    let mut options: Vec<usize> = Vec::new();
    let mut n: usize = 1;
    while n <= 16
        invariant
            1 <= n <= 17,
            options@ == Seq::new((n - 1) as nat, |i: int| (i + 1) as usize),
        decreases 17 - n,
    {
        options.push(n);
        proof { assert(options@ =~= Seq::new(n as nat, |i: int| (i + 1) as usize)); }
        n += 1;
    }
    options
}

/// The startup screen for the editor's setup. JACK shows only the backend
/// choice. The device lists keep the devices of the backend, and a selected
/// device shows when the list holds one with its id. A selected rate,
/// depth or period size shows as `pick_sample_rate`, `pick_bits` and
/// `pick_period_frames` pick it, the rate and period size only when there
/// are options. The engine may be opened once every plugin scan finished
/// and, unless on JACK, an output and an input device are selected and
/// there are sample rates.
pub fn audio_setup_state<T: Copy, G: Copy>(app: &EditApp<T, G>) -> (state: AudioSetupState)
    requires
        app.setup.wf(),
    ensures
        ({
            let setup = app.setup;
            let engine = setup.audio_engine;
            let jack = engine.spec_is_jack();
            let rates = spec_sample_rate_options(engine, setup.output_device);
            let depths = spec_bit_options(engine, setup.output_device);
            let periods = spec_period_frame_options(engine, setup.output_device, setup.bits);
            let hw_ready = jack || (state.selected_output_device is Some && state.selected_input_device is Some
                && rates.len() > 0);
            &&& state.backends@ == seq![AudioEngineOption::Alsa, AudioEngineOption::Jack]
            &&& state.selected_backend == engine
            &&& state.show_input_device == !jack
            &&& state.show_output_device == !jack
            &&& state.show_sample_rate == !jack
            &&& state.show_bit_depth == !jack
            &&& state.show_period_frames == !jack
            &&& state.show_n_periods == !jack
            &&& state.show_exclusive == !jack
            &&& state.show_sync_mode == !jack
            &&& same_device_lists(state.output_devices@, backend_devices(setup.output_devices@, engine))
            &&& same_device_lists(state.input_devices@, backend_devices(setup.input_devices@, engine))
            &&& selects(state.selected_output_device, state.output_devices@,
                    selected_index(setup.output_device, state.output_devices@))
            &&& selects(state.selected_input_device, state.input_devices@,
                    selected_index(setup.input_device, state.input_devices@))
            &&& state.sample_rates@ == rates
            &&& state.selected_sample_rate == if rates.len() == 0 {
                    None
                } else {
                    Some(spec_pick_sample_rate(rates, setup.sample_rate_hz))
                }
            &&& state.bit_depths@ == depths
            &&& state.selected_bit_depth == if jack { None } else { Some(spec_pick_bits(depths, setup.bits)) }
            &&& state.period_frames@ == periods
            &&& state.selected_period_frames == if periods.len() == 0 {
                    None
                } else {
                    Some(spec_pick_period_frames(periods, setup.period_frames))
                }
            &&& state.n_periods@ == Seq::new(16, |i: int| (i + 1) as usize)
            &&& state.selected_n_periods == Some(setup.nperiods)
            &&& state.exclusive == setup.exclusive
            &&& state.sync_mode == setup.sync_mode
            &&& state.plugins_loaded == app.plugins.spec_done()
            &&& state.can_start == (app.plugins.spec_done() && hw_ready)
            &&& state.status_message@.len() == 0
        }),
{
    let setup = &app.setup;
    let engine = setup.audio_engine;
    let jack = engine.is_jack();
    let output_devices = devices_for_backend(&setup.output_devices, engine);
    let input_devices = devices_for_backend(&setup.input_devices, engine);
    let selected_output_device = match &setup.output_device {
        Some(device) => find_device(&output_devices, &device.id),
        None => None,
    };
    let selected_input_device = match &setup.input_device {
        Some(device) => find_device(&input_devices, &device.id),
        None => None,
    };
    let sample_rates = sample_rate_options(setup);
    let selected_sample_rate = if sample_rates.len() == 0 { None } else { Some(pick_sample_rate(setup)) };
    let bit_depths = bit_options(setup);
    let selected_bit_depth = if jack { None } else { Some(pick_bits(setup)) };
    let period_frames = period_frame_options(setup);
    let selected_period_frames = if period_frames.len() == 0 { None } else { Some(pick_period_frames(setup)) };
    let plugins_loaded = app.plugins_loaded();
    let hw_ready = jack || (selected_output_device.is_some() && selected_input_device.is_some()
        && sample_rates.len() > 0);
    AudioSetupState {
        backends: AudioEngineOption::all(),
        selected_backend: engine,
        show_input_device: !jack,
        input_devices,
        selected_input_device,
        show_output_device: !jack,
        output_devices,
        selected_output_device,
        show_sample_rate: !jack,
        sample_rates,
        selected_sample_rate,
        show_bit_depth: !jack,
        bit_depths,
        selected_bit_depth,
        show_period_frames: !jack,
        period_frames,
        selected_period_frames,
        show_n_periods: !jack,
        n_periods: n_period_options(),
        selected_n_periods: Some(setup.nperiods),
        show_exclusive: !jack,
        exclusive: setup.exclusive,
        show_sync_mode: !jack,
        sync_mode: setup.sync_mode,
        plugins_loaded,
        can_start: plugins_loaded && hw_ready,
        status_message: String::new(),
    }
}

} // verus!
