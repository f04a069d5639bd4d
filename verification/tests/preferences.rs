use bloop::messages::{AudioPreferences, Gesture, Preferences};
use bloop::preferences::{
    default_preferences, gesture_from_name, read_preferences_from_patch, validate_preferences, AudioPreferencesPatch, PreferencesPatch,
};

fn empty_audio_patch() -> AudioPreferencesPatch {
    AudioPreferencesPatch {
        output_device: None,
        sample_rate: None,
        buffer_size: None,
        output_channel_count: None,
        use_jack: None,
        main_channel_offset: None,
        click_channel_offset: None,
    }
}

fn patch(audio: Option<AudioPreferencesPatch>) -> PreferencesPatch {
    PreferencesPatch { audio, midi: None, switch: None, switch_available: None }
}

#[test]
fn empty_json_uses_defaults() {
    let prefs = read_preferences_from_patch(patch(None));

    let audio_prefs = prefs.audio.unwrap();
    assert_eq!(audio_prefs.sample_rate, 48_000);
    assert_eq!(audio_prefs.buffer_size, 512);
    assert_eq!(audio_prefs.output_channel_count, 2);
    assert_eq!(audio_prefs.main_channel_offset, 0);
    assert_eq!(audio_prefs.click_channel_offset, 2);
    assert!(!audio_prefs.use_jack);
}

#[test]
fn test_serialize_and_deserialize_with_defaults() {
    let prefs = read_preferences_from_patch(patch(Some(empty_audio_patch())));
    let audio_prefs = prefs.audio.unwrap();
    assert_eq!(audio_prefs.sample_rate, 48_000);
    assert_eq!(audio_prefs.buffer_size, 512);
    assert_eq!(audio_prefs.main_channel_offset, 0);
}

#[test]
fn test_serialize_and_deserialize_with_custom_offsets() {
    let prefs = read_preferences_from_patch(patch(Some(AudioPreferencesPatch {
        main_channel_offset: Some(2),
        click_channel_offset: Some(4),
        ..empty_audio_patch()
    })));
    let audio_prefs = prefs.audio.unwrap();
    assert_eq!(audio_prefs.main_channel_offset, 2);
    assert_eq!(audio_prefs.click_channel_offset, 4);
}

#[test]
fn out_of_range_audio_values_are_reset() {
    let prefs = read_preferences_from_patch(patch(Some(AudioPreferencesPatch {
        sample_rate: Some(0),
        buffer_size: Some(9000),
        output_channel_count: Some(65),
        ..empty_audio_patch()
    })));
    let audio_prefs = prefs.audio.unwrap();
    assert_eq!(audio_prefs.sample_rate, 48_000);
    assert_eq!(audio_prefs.buffer_size, 512);
    assert_eq!(audio_prefs.output_channel_count, 2);
}

#[test]
fn in_range_audio_values_are_kept() {
    let mut prefs = Preferences {
        audio: Some(AudioPreferences {
            output_device: "Card".to_string(),
            sample_rate: 192_000,
            buffer_size: 8192,
            output_channel_count: 64,
            use_jack: true,
            main_channel_offset: 4,
            click_channel_offset: 6,
        }),
        ..Default::default()
    };
    validate_preferences(&mut prefs);
    let audio_prefs = prefs.audio.unwrap();
    assert_eq!(audio_prefs.sample_rate, 192_000);
    assert_eq!(audio_prefs.buffer_size, 8192);
    assert_eq!(audio_prefs.output_channel_count, 64);
}

#[test]
fn default_preferences_hold_default_audio() {
    let prefs = default_preferences();
    let audio_prefs = prefs.audio.unwrap();
    assert_eq!(audio_prefs.output_device, "");
    assert_eq!(audio_prefs.sample_rate, 48_000);
    assert_eq!(audio_prefs.click_channel_offset, 2);
    assert!(prefs.midi.is_none());
    assert!(prefs.switch.is_none());
}

#[test]
fn validating_twice_is_validating_once() {
    let mut prefs = Preferences {
        audio: Some(AudioPreferences { sample_rate: 500_000, buffer_size: 0, output_channel_count: 3, ..Default::default() }),
        ..Default::default()
    };
    validate_preferences(&mut prefs);
    let once = prefs.audio.as_ref().map(|a| (a.sample_rate, a.buffer_size, a.output_channel_count));
    validate_preferences(&mut prefs);
    let twice = prefs.audio.as_ref().map(|a| (a.sample_rate, a.buffer_size, a.output_channel_count));
    assert_eq!(once, Some((48_000, 512, 3)));
    assert_eq!(once, twice);
}

#[test]
fn gestures_are_read_by_their_exact_names() {
    assert_eq!(gesture_from_name("GESTURE_HOLD"), Some(Gesture::GESTURE_HOLD));
    assert_eq!(gesture_from_name("GESTURE_PRESS"), Some(Gesture::GESTURE_PRESS));
    assert_eq!(gesture_from_name("GESTURE_UNKNOWN"), Some(Gesture::GESTURE_UNKNOWN));
    assert_eq!(gesture_from_name("gesture_hold"), None);
}
