use bloop::device_option::{audio_device_options, sample_rate_options, selected_device_option, AudioDeviceOption};
use bloop::messages::{
    Action, AudioDevice, AudioDevices, AudioEngineStatus, AudioPreferences, AudioStatus, Gesture,
    MidiPreferences, Preferences, SwitchMapping, SwitchPreferences,
};
use bloop::settings::{
    action_label, action_options, default_switch_mapping, editable_preferences, gesture_label, gesture_options,
    parse_u32_in_range, set_midi_enabled_device, validate_audio_number, ActionOption, AudioNumberField,
    GestureOption, SampleRateOption, SettingsTab, SettingsUiState, SwitchNumberField,
};

#[test]
fn editable_preferences_fills_audio_defaults() {
    let preferences = editable_preferences(Preferences {
        audio: Some(AudioPreferences::default()),
        ..Default::default()
    });

    let audio = preferences.audio.unwrap();
    assert_eq!(audio.sample_rate, 48_000);
    assert_eq!(audio.buffer_size, 512);
}

#[test]
fn audio_number_validation_accepts_valid_values_and_rejects_invalid_values() {
    assert!(validate_audio_number("48000", AudioNumberField::SampleRate).is_none());
    assert!(validate_audio_number("0", AudioNumberField::SampleRate).is_some());
    assert!(validate_audio_number("192001", AudioNumberField::SampleRate).is_some());
    assert!(validate_audio_number("512", AudioNumberField::BufferSize).is_none());
    assert!(validate_audio_number("9000", AudioNumberField::BufferSize).is_some());
    assert!(validate_audio_number("4", AudioNumberField::MainChannelOffset).is_none());
}

#[test]
fn midi_toggle_preserves_unmatched_patterns() {
    let mut midi = MidiPreferences {
        enabled_devices: vec!["Manual Pattern".to_string(), "Port A".to_string()],
        ..Default::default()
    };

    set_midi_enabled_device(&mut midi, "Port A".to_string(), false);
    set_midi_enabled_device(&mut midi, "Port B".to_string(), true);

    assert_eq!(
        midi.enabled_devices,
        vec!["Manual Pattern".to_string(), "Port B".to_string()]
    );
}

#[test]
fn switch_mapping_add_update_remove_produces_expected_preferences() {
    let mut state = SettingsUiState::default();

    state.add_switch_mapping();
    state.set_switch_number(0, SwitchNumberField::Pin, "17".to_string());
    state.set_switch_gesture(0, GestureOption(Gesture::GESTURE_HOLD));
    state.set_switch_action(0, ActionOption(Action::ACTION_NEXT_SONG));

    let saved = state.draft_preferences_for_save().unwrap();
    let mapping = &saved.switch.unwrap().mappings[0];
    assert_eq!(mapping.pin, 17);
    assert_eq!(mapping.gesture, Gesture::GESTURE_HOLD);
    assert_eq!(mapping.action, Action::ACTION_NEXT_SONG);

    state.remove_switch_mapping(0);
    let saved = state.draft_preferences_for_save().unwrap();
    assert!(saved.switch.unwrap().mappings.is_empty());
}

#[test]
fn default_state_shows_default_audio_numbers() {
    let state = SettingsUiState::default();
    assert!(!state.is_open);
    assert_eq!(state.active_tab, SettingsTab::Audio);
    assert_eq!(state.sample_rate, "48000");
    assert_eq!(state.buffer_size, "512");
    assert_eq!(state.main_channel_offset, "0");
    assert_eq!(state.click_channel_offset, "2");
    assert!(state.switch_pin_values.is_empty());
    assert!(!state.has_validation_error());
}

#[test]
fn saving_after_opening_gives_the_draft_back() {
    let mut state = SettingsUiState::default();
    let mut audio = AudioPreferences::default();
    audio.sample_rate = 44_100;
    audio.buffer_size = 256;
    audio.main_channel_offset = 3;
    audio.click_channel_offset = 7;
    audio.output_device = "hw:1".to_string();
    state.open(Some(Preferences {
        audio: Some(audio),
        midi: None,
        switch: Some(SwitchPreferences {
            mappings: vec![SwitchMapping { pin: 4, gesture: Gesture::GESTURE_RELEASE, action: Action::ACTION_TOGGLE_LOOP }],
        }),
        switch_available: true,
    }));
    assert!(state.is_open);
    assert_eq!(state.switch_pin_values, vec!["4".to_string()]);
    let saved = state.draft_preferences_for_save().unwrap();
    let audio = saved.audio.unwrap();
    assert_eq!(audio.sample_rate, 44_100);
    assert_eq!(audio.buffer_size, 256);
    assert_eq!(audio.main_channel_offset, 3);
    assert_eq!(audio.click_channel_offset, 7);
    assert_eq!(audio.output_device, "hw:1");
    assert!(saved.midi.unwrap().enabled_devices.is_empty());
    assert_eq!(saved.switch.unwrap().mappings[0].pin, 4);
    assert!(saved.switch_available);
    state.close();
    assert!(!state.is_open);
}

#[test]
fn invalid_fields_block_saving() {
    let mut state = SettingsUiState::default();
    state.set_audio_number(AudioNumberField::BufferSize, "9000".to_string());
    assert!(state.has_validation_error());
    assert!(state.draft_preferences_for_save().is_none());
    assert!(state.validation_error.is_none());

    let mut state = SettingsUiState::default();
    state.add_switch_mapping();
    state.set_switch_number(0, SwitchNumberField::Pin, "seven".to_string());
    assert!(state.has_validation_error());
    assert!(state.draft_preferences_for_save().is_none());
    assert_eq!(state.validation_error.as_deref(), Some("Switch pin must be a whole number"));
    state.set_switch_number(0, SwitchNumberField::Pin, " 7 ".to_string());
    assert!(state.validation_error.is_none());
    assert_eq!(state.draft_preferences_for_save().unwrap().switch.unwrap().mappings[0].pin, 7);
}

#[test]
fn numbers_are_trimmed_and_bounded() {
    assert_eq!(parse_u32_in_range(" 12 ", 1, 20, "x"), Some(12));
    assert_eq!(parse_u32_in_range("+12", 1, 20, "x"), Some(12));
    assert_eq!(parse_u32_in_range("21", 1, 20, "x"), None);
    assert_eq!(parse_u32_in_range("-1", 0, 20, "x"), None);
    assert_eq!(parse_u32_in_range("4294967296", 0, u32::MAX, "x"), None);
    assert_eq!(parse_u32_in_range("4294967295", 0, u32::MAX, "x"), Some(u32::MAX));
    assert_eq!(parse_u32_in_range("", 0, 20, "x"), None);
    assert_eq!(
        validate_audio_number("x", AudioNumberField::ClickChannelOffset).as_deref(),
        Some("Click channel offset must be a whole number")
    );
    assert_eq!(
        validate_audio_number("0", AudioNumberField::BufferSize).as_deref(),
        Some("Buffer size must be between 1 and 8192")
    );
}

#[test]
fn audio_device_and_rate_choices() {
    let devices = AudioDevices {
        host_name: "ALSA".to_string(),
        devices: vec![
            AudioDevice { id: "a".to_string(), name: "Card A".to_string(), is_default: false, supported_sample_rates: vec![96_000, 44_100], supported_channel_counts: vec![2], min_buffer_size: 64, max_buffer_size: 4096 },
            AudioDevice { id: "b".to_string(), name: "Card B".to_string(), is_default: true, supported_sample_rates: vec![48_000, 44_100], supported_channel_counts: vec![2, 8], min_buffer_size: 32, max_buffer_size: 2048 },
        ],
    };
    let options = audio_device_options(Some(&devices));
    assert_eq!(options.len(), 3);
    assert_eq!(options[0], AudioDeviceOption::Default);
    assert_eq!(options[2].label(), "Card B");

    let mut audio = AudioPreferences::default();
    assert_eq!(selected_device_option(&audio, &options), AudioDeviceOption::Default);
    audio.output_device = "a".to_string();
    assert_eq!(selected_device_option(&audio, &options).label(), "Card A");
    audio.output_device = "z".to_string();
    assert_eq!(
        selected_device_option(&audio, &options),
        AudioDeviceOption::Device { id: "z".to_string(), name: "z".to_string() }
    );

    let mut audio = AudioPreferences::default();
    audio.sample_rate = 22_050;
    let status = AudioStatus {
        current_device_id: String::new(),
        current_device_name: String::new(),
        current_sample_rate: 48_000,
        current_channel_count: 2,
        current_buffer_size: 512,
        engine_status: AudioEngineStatus::AUDIO_ENGINE_RUNNING,
        error: String::new(),
    };
    let rates = sample_rate_options(&audio, Some(&devices), Some(&status));
    assert_eq!(rates, vec![SampleRateOption(22_050), SampleRateOption(44_100), SampleRateOption(48_000)]);
    assert_eq!(rates[0].label(), "22050 Hz");
    audio.output_device = "a".to_string();
    let rates = sample_rate_options(&audio, Some(&devices), None);
    assert_eq!(rates, vec![SampleRateOption(22_050), SampleRateOption(44_100), SampleRateOption(96_000)]);
    assert!(sample_rate_options(&AudioPreferences::default(), None, None).is_empty());
}

#[test]
fn editor_setters_change_the_draft() {
    let mut state = SettingsUiState::default();
    state.set_use_jack(true);
    assert!(state.draft.audio.as_ref().unwrap().use_jack);
    state.set_audio_device(AudioDeviceOption::Device { id: "hw:2".to_string(), name: "Two".to_string() });
    assert_eq!(state.draft.audio.as_ref().unwrap().output_device, "hw:2");
    state.set_audio_device(AudioDeviceOption::Default);
    assert_eq!(state.draft.audio.as_ref().unwrap().output_device, "");
    state.set_sample_rate(SampleRateOption(96_000));
    assert_eq!(state.sample_rate, "96000");
    state.set_midi_port_enabled("Port".to_string(), true);
    state.set_midi_port_enabled("Port".to_string(), true);
    assert_eq!(state.draft.midi.as_ref().unwrap().enabled_devices, vec!["Port".to_string()]);
    state.set_midi_port_enabled("Port".to_string(), false);
    assert!(state.draft.midi.as_ref().unwrap().enabled_devices.is_empty());
    state.set_switch_gesture(3, GestureOption(Gesture::GESTURE_HOLD));
    assert!(state.draft.switch.as_ref().unwrap().mappings.is_empty());
    state.remove_switch_mapping(5);
    assert!(state.draft.switch.as_ref().unwrap().mappings.is_empty());
}

#[test]
fn labels_and_option_lists() {
    assert_eq!(gesture_label(Gesture::GESTURE_RELEASE), "Release");
    assert_eq!(action_label(Action::ACTION_QUEUE_SELECTED), "Queue Selected");
    assert_eq!(GestureOption(Gesture::GESTURE_HOLD).label(), "Hold");
    assert_eq!(ActionOption(Action::ACTION_UNKNOWN).label(), "Unknown");
    assert_eq!(gesture_options().len(), 3);
    assert_eq!(action_options()[6], ActionOption(Action::ACTION_TOGGLE_PLAY));
    assert_eq!(AudioDeviceOption::Default.label(), "System Default");
    let mapping = default_switch_mapping();
    assert_eq!(mapping, SwitchMapping { pin: 0, gesture: Gesture::GESTURE_PRESS, action: Action::ACTION_TOGGLE_PLAY });
}
