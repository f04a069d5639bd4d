//! The state of the audio engine and what it reports of itself.

pub mod devices;
pub mod samples;

use crate::messages::{AudioEngineStatus, AudioPreferences, AudioStatus};
use vstd::prelude::*;

verus! {

/// Whether the audio backend is healthy, stopped, or failed to initialise.
#[derive(Debug, PartialEq)]
pub enum AudioEngineState {
    /// The engine runs and the audio device opened.
    Running,
    /// The engine was stopped on request.
    Stopped,
    /// The engine runs but the audio device failed to open: audio is silent.
    Failed { reason: String },
}

pub enum AudioEngineStateView {
    Running,
    Stopped,
    Failed { reason: Seq<char> },
}

impl View for AudioEngineState {
    type V = AudioEngineStateView;

    open spec fn view(&self) -> AudioEngineStateView {
        match self {
            AudioEngineState::Running => AudioEngineStateView::Running,
            AudioEngineState::Stopped => AudioEngineStateView::Stopped,
            AudioEngineState::Failed { reason } => AudioEngineStateView::Failed { reason: reason@ },
        }
    }
}

impl Clone for AudioEngineState {
    fn clone(&self) -> (r: Self)
        ensures
            r@ == self@,
    {
        match self {
            AudioEngineState::Running => AudioEngineState::Running,
            AudioEngineState::Stopped => AudioEngineState::Stopped,
            AudioEngineState::Failed { reason } => AudioEngineState::Failed { reason: reason.clone() },
        }
    }
}

/// What runs the realtime audio callback once the engine is built.
pub trait AudioProcessRunner {}

/// Keeps the engine alive when the realtime backend failed to start.
pub struct NoopProcess;

impl AudioProcessRunner for NoopProcess {}

/// The state the engine is in after a start: a dummy backend always runs;
/// a real one runs when it was created, and otherwise carries the reason.
pub fn engine_state_after_start(use_dummy_audio: bool, created: Result<(), String>) -> (r: AudioEngineState)
    ensures
        use_dummy_audio ==> r@ == AudioEngineStateView::Running,
        !use_dummy_audio ==> match created {
            Ok(()) => r@ == AudioEngineStateView::Running,
            Err(reason) => r@ == (AudioEngineStateView::Failed { reason: reason@ }),
        },
{
    if use_dummy_audio {
        AudioEngineState::Running
    } else {
        match created {
            Ok(()) => AudioEngineState::Running,
            Err(reason) => AudioEngineState::Failed { reason },
        }
    }
}

/// Whether the metronome's stereo pair fits at `click_channel_offset`
/// among `output_channel_count` channels (then it is routed there).
pub fn click_is_routed(output_channel_count: u32, click_channel_offset: u32) -> (r: bool)
    ensures
        r == (output_channel_count >= click_channel_offset + 2),
{
    output_channel_count as u64 >= click_channel_offset as u64 + 2
}

/// The engine status reported for a state, with the failure's reason.
pub open spec fn status_of(state: AudioEngineStateView) -> (AudioEngineStatus, Seq<char>) {
    match state {
        AudioEngineStateView::Running => (AudioEngineStatus::AUDIO_ENGINE_RUNNING, Seq::empty()),
        AudioEngineStateView::Stopped => (AudioEngineStatus::AUDIO_ENGINE_STOPPED, Seq::empty()),
        AudioEngineStateView::Failed { reason } => (AudioEngineStatus::AUDIO_ENGINE_FAILED, reason),
    }
}

/// The audio status for an engine state and the preferences it runs with:
/// the device, rate, channel count and buffer size come from the preferences.
pub fn get_audio_status(engine_state: &AudioEngineState, preferences: &AudioPreferences) -> (r: AudioStatus)
    ensures
        r.current_device_id@ == preferences.output_device@,
        r.current_device_name@ == preferences.output_device@,
        r.current_sample_rate == preferences.sample_rate,
        r.current_channel_count == preferences.output_channel_count,
        r.current_buffer_size == preferences.buffer_size,
        r.engine_status == status_of(engine_state@).0,
        r.error@ == status_of(engine_state@).1,
{
    let (engine_status, error) = match engine_state {
        AudioEngineState::Running => (AudioEngineStatus::AUDIO_ENGINE_RUNNING, String::new()),
        AudioEngineState::Stopped => (AudioEngineStatus::AUDIO_ENGINE_STOPPED, String::new()),
        AudioEngineState::Failed { reason } => (AudioEngineStatus::AUDIO_ENGINE_FAILED, reason.clone()),
    };
    AudioStatus {
        current_device_id: preferences.output_device.clone(),
        current_device_name: preferences.output_device.clone(),
        current_sample_rate: preferences.sample_rate,
        current_channel_count: preferences.output_channel_count,
        current_buffer_size: preferences.buffer_size,
        engine_status,
        error,
    }
}

/// One response the controller sends when the engine starts or stops.
#[derive(Debug, Clone, Copy, PartialEq, Eq, Structural)]
pub enum Announcement {
    /// The playback state, reset to stopped.
    StoppedPlayback,
    /// The progress, reset to song, section and beat zero.
    ZeroProgress,
    /// The audio status (as `get_audio_status` gives it for the new state).
    AudioStatus,
}

/// What resetting playback announces: stopped playback, then zero progress.
pub open spec fn stopped_playback_announcements() -> Seq<Announcement> {
    seq![Announcement::StoppedPlayback, Announcement::ZeroProgress]
}

fn stopped_playback_then_status() -> (r: Vec<Announcement>)
    ensures
        r@ == stopped_playback_announcements().push(Announcement::AudioStatus),
{
    let r = vec![Announcement::StoppedPlayback, Announcement::ZeroProgress, Announcement::AudioStatus];
    assert(r@ =~= stopped_playback_announcements().push(Announcement::AudioStatus));
    r
}

/// Whether an audio engine is built, and the state it is in. The engine is
/// dropped on stop and built again on start; each is a no-op when the
/// engine already is as asked.
pub struct EngineLifecycle {
    running: bool,
    state: AudioEngineState,
}

impl View for EngineLifecycle {
    type V = (bool, AudioEngineStateView);

    closed spec fn view(&self) -> (bool, AudioEngineStateView) {
        (self.running, self.state@)
    }
}

impl EngineLifecycle {
    /// The controller builds its engine when it is created.
    pub fn new(use_dummy_audio: bool, created: Result<(), String>) -> (r: Self)
        ensures
            r@.0,
            ({
                let expected = if use_dummy_audio {
                    AudioEngineStateView::Running
                } else {
                    match created {
                        Ok(()) => AudioEngineStateView::Running,
                        Err(reason) => AudioEngineStateView::Failed { reason: reason@ },
                    }
                };
                r@.1 == expected
            }),
    {
        EngineLifecycle { running: true, state: engine_state_after_start(use_dummy_audio, created) }
    }

    pub fn is_running(&self) -> (r: bool)
        ensures
            r == self@.0,
    {
        self.running
    }

    pub fn engine_state(&self) -> (r: &AudioEngineState)
        ensures
            r@ == self@.1,
    {
        &self.state
    }

    /// A start. Where an engine runs already, nothing happens and nothing is
    /// announced (`created` is not looked at). Otherwise the engine was built
    /// (`created` tells whether the audio device opened): a failed start
    /// announces stopped playback and zero progress, and every start then
    /// announces the status.
    pub fn started(&mut self, use_dummy_audio: bool, created: Result<(), String>) -> (r: Vec<Announcement>)
        ensures
            old(self)@.0 ==> final(self)@ == old(self)@ && r@.len() == 0,
            !old(self)@.0 ==> final(self)@.0,
            !old(self)@.0 ==> ({
                let expected = if use_dummy_audio {
                    AudioEngineStateView::Running
                } else {
                    match created {
                        Ok(()) => AudioEngineStateView::Running,
                        Err(reason) => AudioEngineStateView::Failed { reason: reason@ },
                    }
                };
                &&& final(self)@.1 == expected
                &&& r@ == if expected is Failed {
                    stopped_playback_announcements().push(Announcement::AudioStatus)
                } else {
                    seq![Announcement::AudioStatus]
                }
            }),
    {
        if self.running {
            return Vec::new();
        }
        self.running = true;
        self.state = engine_state_after_start(use_dummy_audio, created);
        let failed = match &self.state {
            AudioEngineState::Failed { .. } => true,
            _ => false,
        };
        if failed {
            stopped_playback_then_status()
        } else {
            let r = vec![Announcement::AudioStatus];
            assert(r@ =~= seq![Announcement::AudioStatus]);
            r
        }
    }

    /// A stop: where the engine runs it is dropped, its state becomes
    /// stopped, and stopped playback, zero progress and the status are
    /// announced, in that order; where it does not, nothing happens.
    pub fn stop(&mut self) -> (r: Vec<Announcement>)
        ensures
            old(self)@.0 ==> {
                &&& final(self)@ == (false, AudioEngineStateView::Stopped)
                &&& r@ == stopped_playback_announcements().push(Announcement::AudioStatus)
            },
            !old(self)@.0 ==> final(self)@ == old(self)@ && r@.len() == 0,
    {
        if !self.running {
            return Vec::new();
        }
        self.running = false;
        self.state = AudioEngineState::Stopped;
        stopped_playback_then_status()
    }
}

} // verus!
