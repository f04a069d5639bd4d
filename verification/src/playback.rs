//! Playback state and the transport decisions taken from it.

use vstd::prelude::*;

verus! {

#[allow(non_camel_case_types)]
#[derive(Debug, Clone, Copy, PartialEq, Eq, Structural)]
pub enum PlayingState {
    STOPPED,
    PLAYING,
}

/// Whether the sequencer plays and whether it loops the current section.
#[derive(Debug, Clone, Copy, PartialEq, Eq, Structural)]
pub struct PlaybackState {
    pub playing: PlayingState,
    pub looping: bool,
}

impl Default for PlaybackState {
    /// Stopped, not looping.
    fn default() -> (r: Self)
        ensures
            r == (PlaybackState { playing: PlayingState::STOPPED, looping: false }),
    {
        PlaybackState { playing: PlayingState::STOPPED, looping: false }
    }
}

impl PlaybackState {
    pub fn is_playing(&self) -> (r: bool)
        ensures
            r == (self.playing == PlayingState::PLAYING),
    {
        self.playing == PlayingState::PLAYING
    }

    pub fn is_stopped(&self) -> (r: bool)
        ensures
            r == (self.playing == PlayingState::STOPPED),
    {
        self.playing == PlayingState::STOPPED
    }
}

/// A transport command.
#[allow(non_camel_case_types)]
#[derive(Debug, Clone, Copy, PartialEq, Eq, Structural)]
pub enum TransportMethod {
    PLAY,
    STOP,
    LOOP,
    EXIT_LOOP,
    QUEUE,
}

/// What the play toggle does: play when stopped, stop when playing.
pub fn toggle_play_method(state: &PlaybackState) -> (r: TransportMethod)
    ensures
        r == (if state.playing == PlayingState::STOPPED {
            TransportMethod::PLAY
        } else {
            TransportMethod::STOP
        }),
{
    match state.playing {
        PlayingState::STOPPED => TransportMethod::PLAY,
        PlayingState::PLAYING => TransportMethod::STOP,
    }
}

/// What the loop toggle does: leave the loop when looping, else enter it.
pub fn toggle_loop_method(state: &PlaybackState) -> (r: TransportMethod)
    ensures
        r == (if state.looping {
            TransportMethod::EXIT_LOOP
        } else {
            TransportMethod::LOOP
        }),
{
    if state.looping {
        TransportMethod::EXIT_LOOP
    } else {
        TransportMethod::LOOP
    }
}

/// The formats audio files are stored in.
#[derive(Debug, Clone, Copy, PartialEq, Eq, Structural)]
pub enum AudioFileFormat {
    WAV,
}

/// The file name extension of a format.
pub fn extension_for_format(format: AudioFileFormat) -> (r: &'static str)
    ensures
        format == AudioFileFormat::WAV ==> r@ == "wav"@,
{
    match format {
        AudioFileFormat::WAV => "wav",
    }
}

} // verus!
