//! Default preferences, their validation, and reading them over the
//! defaults from what a preferences file sets.

pub mod audio;

use crate::messages::{
    empty_midi_preferences, strings_view, AudioPreferences, AudioPreferencesView, MidiPreferences, MidiPreferencesView,
    Preferences, PreferencesView, SwitchPreferences, Gesture,
};
use crate::midi::str_equals;
use vstd::prelude::*;

verus! {

/// The gesture of the given name, as the message schema names it.
pub open spec fn spec_gesture_from_name(s: Seq<char>) -> Option<Gesture> {
    if s == "GESTURE_UNKNOWN"@ {
        Some(Gesture::GESTURE_UNKNOWN)
    } else if s == "GESTURE_PRESS"@ {
        Some(Gesture::GESTURE_PRESS)
    } else if s == "GESTURE_RELEASE"@ {
        Some(Gesture::GESTURE_RELEASE)
    } else if s == "GESTURE_HOLD"@ {
        Some(Gesture::GESTURE_HOLD)
    } else {
        None
    }
}

/// The gesture that a preferences file names, by its exact name.
pub fn gesture_from_name(s: &str) -> (r: Option<Gesture>)
    ensures
        r == spec_gesture_from_name(s@),
{
    if str_equals(s, "GESTURE_UNKNOWN") {
        Some(Gesture::GESTURE_UNKNOWN)
    } else if str_equals(s, "GESTURE_PRESS") {
        Some(Gesture::GESTURE_PRESS)
    } else if str_equals(s, "GESTURE_RELEASE") {
        Some(Gesture::GESTURE_RELEASE)
    } else if str_equals(s, "GESTURE_HOLD") {
        Some(Gesture::GESTURE_HOLD)
    } else {
        None
    }
}

pub open spec fn spec_default_audio_preferences() -> AudioPreferencesView {
    AudioPreferencesView {
        output_device: Seq::empty(),
        sample_rate: 48_000,
        buffer_size: 512,
        output_channel_count: 2,
        use_jack: false,
        main_channel_offset: 0,
        click_channel_offset: 2,
    }
}

pub open spec fn spec_default_preferences() -> PreferencesView {
    PreferencesView {
        audio: Some(spec_default_audio_preferences()),
        midi: None,
        switch: None,
        switch_available: false,
    }
}

/// The audio preferences used when none are set.
pub fn default_audio_preferences() -> (r: AudioPreferences)
    ensures
        r@ == spec_default_audio_preferences(),
{
    AudioPreferences {
        output_device: String::new(),
        sample_rate: 48_000,
        buffer_size: 512,
        output_channel_count: 2,
        use_jack: false,
        main_channel_offset: 0,
        click_channel_offset: 2,
    }
}

/// The MIDI preferences used when none are set: no port enabled.
pub fn default_midi_preferences() -> (r: MidiPreferences)
    ensures
        r@ == empty_midi_preferences(),
{
    MidiPreferences::default()
}

/// The preferences used when no file is read: default audio, nothing else.
pub fn default_preferences() -> (r: Preferences)
    ensures
        r@ == spec_default_preferences(),
{
    Preferences { audio: Some(default_audio_preferences()), midi: None, switch: None, switch_available: false }
}

/// Audio preferences with each out-of-range value reset: a channel count
/// outside `1 ..= 64` to 2, a buffer size outside `1 ..= 8192` to 512, a
/// sample rate outside `1 ..= 192000` to 48000.
pub open spec fn spec_validate_audio(a: AudioPreferencesView) -> AudioPreferencesView {
    AudioPreferencesView {
        output_channel_count: if a.output_channel_count == 0 || a.output_channel_count > 64 {
            2
        } else {
            a.output_channel_count
        },
        buffer_size: if a.buffer_size == 0 || a.buffer_size > 8192 {
            512
        } else {
            a.buffer_size
        },
        sample_rate: if a.sample_rate == 0 || a.sample_rate > 192_000 {
            48_000
        } else {
            a.sample_rate
        },
        ..a
    }
}

pub open spec fn spec_validate_preferences(p: PreferencesView) -> PreferencesView {
    PreferencesView {
        audio: match p.audio {
            Some(a) => Some(spec_validate_audio(a)),
            None => None,
        },
        ..p
    }
}

/// Resets out-of-range audio values to their defaults.
pub fn validate_preferences(preferences: &mut Preferences)
    ensures
        final(preferences)@ == spec_validate_preferences(old(preferences)@),
{
    match preferences.audio.take() {
        Some(mut audio_prefs) => {
            if audio_prefs.output_channel_count == 0 || audio_prefs.output_channel_count > 64 {
                audio_prefs.output_channel_count = 2;
            }
            if audio_prefs.buffer_size == 0 || audio_prefs.buffer_size > 8192 {
                audio_prefs.buffer_size = 512;
            }
            if audio_prefs.sample_rate == 0 || audio_prefs.sample_rate > 192_000 {
                audio_prefs.sample_rate = 48_000;
            }
            preferences.audio = Some(audio_prefs);
        },
        None => {},
    }
}

/// What a preferences file sets: each field that it names.
pub struct AudioPreferencesPatch {
    pub output_device: Option<String>,
    pub sample_rate: Option<u32>,
    pub buffer_size: Option<u32>,
    pub output_channel_count: Option<u32>,
    pub use_jack: Option<bool>,
    pub main_channel_offset: Option<u32>,
    pub click_channel_offset: Option<u32>,
}

pub struct MidiPreferencesPatch {
    pub enabled_devices: Option<Vec<String>>,
    pub input_device: Option<String>,
}

pub struct PreferencesPatch {
    pub audio: Option<AudioPreferencesPatch>,
    pub midi: Option<MidiPreferencesPatch>,
    pub switch: Option<SwitchPreferences>,
    pub switch_available: Option<bool>,
}

pub open spec fn opt_or<T>(o: Option<T>, d: T) -> T {
    match o {
        Some(v) => v,
        None => d,
    }
}

pub open spec fn spec_merge_audio(base: AudioPreferencesView, patch: AudioPreferencesPatch) -> AudioPreferencesView {
    AudioPreferencesView {
        output_device: match patch.output_device {
            Some(s) => s@,
            None => base.output_device,
        },
        sample_rate: opt_or(patch.sample_rate, base.sample_rate),
        buffer_size: opt_or(patch.buffer_size, base.buffer_size),
        output_channel_count: opt_or(patch.output_channel_count, base.output_channel_count),
        use_jack: opt_or(patch.use_jack, base.use_jack),
        main_channel_offset: opt_or(patch.main_channel_offset, base.main_channel_offset),
        click_channel_offset: opt_or(patch.click_channel_offset, base.click_channel_offset),
    }
}

/// The preferences a file gives: the defaults, with each field the file sets
/// replaced (an audio section merged field by field), then validated.
pub open spec fn spec_read_preferences(patch: PreferencesPatch) -> PreferencesView {
    let base = spec_default_preferences();
    spec_validate_preferences(
        PreferencesView {
            audio: match patch.audio {
                Some(a) => Some(spec_merge_audio(spec_default_audio_preferences(), a)),
                None => base.audio,
            },
            midi: match patch.midi {
                Some(m) => Some(
                    MidiPreferencesView {
                        enabled_devices: match m.enabled_devices {
                            Some(d) => strings_view(d@),
                            None => Seq::empty(),
                        },
                        input_device: match m.input_device {
                            Some(d) => d@,
                            None => Seq::empty(),
                        },
                    },
                ),
                None => base.midi,
            },
            switch: match patch.switch {
                Some(s) => Some(s@),
                None => base.switch,
            },
            switch_available: opt_or(patch.switch_available, base.switch_available),
        },
    )
}

fn merge_audio(base: AudioPreferences, patch: AudioPreferencesPatch) -> (r: AudioPreferences)
    ensures
        r@ == spec_merge_audio(base@, patch),
{
    let mut a = base;
    match patch.output_device {
        Some(s) => a.output_device = s,
        None => {},
    }
    match patch.sample_rate {
        Some(v) => a.sample_rate = v,
        None => {},
    }
    match patch.buffer_size {
        Some(v) => a.buffer_size = v,
        None => {},
    }
    match patch.output_channel_count {
        Some(v) => a.output_channel_count = v,
        None => {},
    }
    match patch.use_jack {
        Some(v) => a.use_jack = v,
        None => {},
    }
    match patch.main_channel_offset {
        Some(v) => a.main_channel_offset = v,
        None => {},
    }
    match patch.click_channel_offset {
        Some(v) => a.click_channel_offset = v,
        None => {},
    }
    a
}

/// Reads preferences from what a file sets, over the defaults, and validates them.
pub fn read_preferences_from_patch(patch: PreferencesPatch) -> (r: Preferences)
    ensures
        r@ == spec_read_preferences(patch),
{
    let ghost p = patch;
    let mut preferences = default_preferences();
    match patch.audio {
        Some(a) => {
            preferences.audio = Some(merge_audio(default_audio_preferences(), a));
        },
        None => {},
    }
    match patch.midi {
        Some(m) => {
            let mut midi = MidiPreferences::default();
            match m.enabled_devices {
                Some(d) => midi.enabled_devices = d,
                None => {},
            }
            match m.input_device {
                Some(d) => midi.input_device = d,
                None => {},
            }
            preferences.midi = Some(midi);
        },
        None => {},
    }
    match patch.switch {
        Some(s) => {
            preferences.switch = Some(s);
        },
        None => {},
    }
    match patch.switch_available {
        Some(v) => {
            preferences.switch_available = v;
        },
        None => {},
    }
    validate_preferences(&mut preferences);
    preferences
}

} // verus!
