use bloop::device_option::AudioDeviceOption;
use bloop::messages::{
    AudioDevice, AudioDevices, AudioEngineStatus, AudioPreferences, AudioStatus, Entity, MidiDevices, MidiPreferences,
    Preferences,
};
use bloop::playback::{PlaybackState, PlayingState, TransportMethod};
use bloop::settings::{AudioNumberField, SampleRateOption, SettingsTab, SettingsUiState};
use bloop::ui::control::{
    select_section_with_offset, select_song_with_offset, transport_buttons, update, Icon, Message, ProjectOutline,
    UiRequest, UiResponse, UiState,
};
use bloop::ui::settings_view::{audio_status_summary, audio_tab, midi_port_rows, settings_panel, switch_mapping_rows};

fn outline() -> ProjectOutline {
    ProjectOutline {
        song_ids: vec![10, 20, 30],
        selected_song_index: Some(1),
        selected_song_sections: Some(vec![200, 201]),
        selected_section: 201,
    }
}

fn state() -> UiState {
    UiState {
        settings: SettingsUiState::default(),
        preferences: Some(Preferences {
            audio: Some(AudioPreferences { sample_rate: 44_100, buffer_size: 256, ..Default::default() }),
            ..Default::default()
        }),
        playback_state: PlaybackState::default(),
        project: outline(),
        audio_devices: None,
        audio_status: None,
        midi_devices: None,
    }
}

fn empty_response() -> UiResponse {
    UiResponse {
        project: None,
        playback_state: None,
        preferences: None,
        audio_devices: None,
        audio_status: None,
        midi_devices: None,
    }
}

fn entities(requests: &[UiRequest]) -> Vec<Entity> {
    requests
        .iter()
        .map(|r| match r {
            UiRequest::Get { entity, .. } => *entity,
            other => panic!("expected a get request, got {other:?}"),
        })
        .collect()
}

#[test]
fn opening_settings_loads_the_draft_and_requests_the_settings_data() {
    let mut state = state();
    let requests = update(&mut state, Message::OpenSettings);
    assert!(state.settings.is_open);
    assert_eq!(state.settings.active_tab, SettingsTab::Audio);
    assert_eq!(state.settings.sample_rate, "44100");
    assert_eq!(state.settings.buffer_size, "256");
    assert_eq!(
        entities(&requests),
        vec![Entity::PREFERENCES, Entity::AUDIO_DEVICES, Entity::AUDIO_STATUS, Entity::MIDI_DEVICES]
    );
}

#[test]
fn saving_valid_settings_sends_them_and_the_answer_closes_the_panel() {
    let mut state = state();
    update(&mut state, Message::OpenSettings);
    update(&mut state, Message::SetSettingsAudioNumber(AudioNumberField::BufferSize, "1024".to_string()));
    let requests = update(&mut state, Message::SaveSettings);
    assert!(state.settings.is_saving);
    match &requests[..] {
        [UiRequest::UpdatePreferences(p)] => assert_eq!(p.audio.as_ref().unwrap().buffer_size, 1024),
        other => panic!("expected one update request, got {other:?}"),
    }
    let mut response = empty_response();
    response.preferences = Some(Preferences::default());
    let requests = update(&mut state, Message::ApiResponse(Box::new(response)));
    assert!(requests.is_empty());
    assert!(!state.settings.is_open);
    assert!(!state.settings.is_saving);
}

#[test]
fn saving_invalid_settings_sends_nothing() {
    let mut state = state();
    update(&mut state, Message::OpenSettings);
    update(&mut state, Message::SetSettingsAudioNumber(AudioNumberField::SampleRate, "0".to_string()));
    let requests = update(&mut state, Message::SaveSettings);
    assert!(requests.is_empty());
    assert!(!state.settings.is_saving);
    assert!(state.settings.validation_error.is_none());
    assert!(state.settings.has_validation_error());
}

#[test]
fn preferences_arriving_while_editing_replace_the_draft() {
    let mut state = state();
    update(&mut state, Message::OpenSettings);
    let mut response = empty_response();
    response.preferences = Some(Preferences {
        audio: Some(AudioPreferences { sample_rate: 96_000, ..Default::default() }),
        ..Default::default()
    });
    update(&mut state, Message::ApiResponse(Box::new(response)));
    assert!(state.settings.is_open);
    assert_eq!(state.settings.sample_rate, "96000");
}

#[test]
fn toggle_playback_plays_when_stopped_and_stops_when_playing() {
    let mut state = state();
    match &update(&mut state, Message::TogglePlayback)[..] {
        [UiRequest::Transport(method)] => assert_eq!(*method, TransportMethod::PLAY),
        other => panic!("unexpected {other:?}"),
    }
    state.playback_state = PlaybackState { playing: PlayingState::PLAYING, looping: false };
    match &update(&mut state, Message::TogglePlayback)[..] {
        [UiRequest::Transport(method)] => assert_eq!(*method, TransportMethod::STOP),
        other => panic!("unexpected {other:?}"),
    }
}

#[test]
fn song_and_section_selection_moves_within_bounds() {
    let project = outline();
    assert_eq!(select_song_with_offset(&project, -1), Some(10));
    assert_eq!(select_song_with_offset(&project, 1), Some(30));
    assert_eq!(select_song_with_offset(&project, 2), None);
    assert_eq!(select_section_with_offset(&project, -1), Some(200));
    assert_eq!(select_section_with_offset(&project, 1), None);

    let mut state = state();
    match &update(&mut state, Message::SelectNextSong)[..] {
        [UiRequest::Select { entity, id }] => assert_eq!((*entity, *id), (Entity::SONG, 30)),
        other => panic!("unexpected {other:?}"),
    }
    assert!(update(&mut state, Message::SelectNextSection).is_empty());
}

#[test]
fn settings_messages_edit_the_draft_without_requests() {
    let mut state = state();
    update(&mut state, Message::OpenSettings);
    assert!(update(&mut state, Message::SetSettingsUseJack(true)).is_empty());
    assert!(state.settings.draft.audio.as_ref().unwrap().use_jack);
    assert!(update(&mut state, Message::SetSettingsSampleRate(SampleRateOption(88_200))).is_empty());
    assert_eq!(state.settings.sample_rate, "88200");
    update(
        &mut state,
        Message::SetSettingsAudioDevice(AudioDeviceOption::Device { id: "usb".to_string(), name: "USB".to_string() }),
    );
    assert_eq!(state.settings.draft.audio.as_ref().unwrap().output_device, "usb");
    update(&mut state, Message::SelectSettingsTab(SettingsTab::Midi));
    assert_eq!(state.settings.active_tab, SettingsTab::Midi);
    update(&mut state, Message::CloseSettings);
    assert!(!state.settings.is_open);
}

#[test]
fn the_panel_offers_switches_as_the_server_says() {
    let settings = SettingsUiState::default();
    let available = Preferences { switch_available: true, ..Default::default() };
    let model = settings_panel(&settings, Some(&available));
    assert!(model.show_switches_tab);
    assert!(!settings_panel(&settings, None).show_switches_tab);
}

#[test]
fn the_audio_tab_lists_devices_and_rates() {
    let mut settings = SettingsUiState::default();
    settings.open(Some(Preferences {
        audio: Some(AudioPreferences { output_device: "b".to_string(), sample_rate: 48_000, ..Default::default() }),
        ..Default::default()
    }));
    let devices = AudioDevices {
        host_name: "ALSA".to_string(),
        devices: vec![AudioDevice {
            id: "b".to_string(),
            name: "Card B".to_string(),
            is_default: false,
            supported_sample_rates: vec![44_100, 96_000],
            supported_channel_counts: vec![2],
            min_buffer_size: 64,
            max_buffer_size: 1024,
        }],
    };
    let model = audio_tab(&settings, Some(&devices), None);
    assert_eq!(model.device_options.len(), 2);
    assert_eq!(model.selected_device, AudioDeviceOption::Device { id: "b".to_string(), name: "Card B".to_string() });
    let rates: Vec<u32> = model.sample_rate_options.iter().map(|o| o.0).collect();
    assert_eq!(rates, vec![44_100, 48_000, 96_000]);
    assert_eq!(model.selected_sample_rate, Some(SampleRateOption(48_000)));
    assert!(model.sample_rate_error.is_none());
}

#[test]
fn the_status_line_names_the_device_and_its_format() {
    let status = AudioStatus {
        current_device_id: String::new(),
        current_device_name: String::new(),
        current_sample_rate: 48_000,
        current_channel_count: 2,
        current_buffer_size: 512,
        engine_status: AudioEngineStatus::AUDIO_ENGINE_FAILED,
        error: "device busy".to_string(),
    };
    let summary = audio_status_summary(Some(&status));
    assert_eq!(summary.label, "Audio engine failed");
    assert_eq!(summary.details.unwrap(), "System Default \u{b7} 48000 Hz \u{b7} 2 channels \u{b7} buffer 512");
    assert_eq!(summary.error.unwrap(), "device busy");
    assert_eq!(audio_status_summary(None).label, "Audio status unavailable");
}

#[test]
fn midi_rows_mark_enabled_ports() {
    let mut settings = SettingsUiState::default();
    settings.open(Some(Preferences {
        midi: Some(MidiPreferences { enabled_devices: vec!["Pedal".to_string()], ..Default::default() }),
        ..Default::default()
    }));
    let devices = MidiDevices { port_names: vec!["Pedal".to_string(), "Keys".to_string()] };
    let rows = midi_port_rows(&settings, Some(&devices));
    assert_eq!(rows.len(), 2);
    assert!(rows[0].enabled);
    assert!(!rows[1].enabled);
    assert!(midi_port_rows(&settings, None).is_empty());
}

#[test]
fn switch_rows_follow_the_draft() {
    let mut settings = SettingsUiState::default();
    settings.open(None);
    settings.add_switch_mapping();
    settings.add_switch_mapping();
    let rows = switch_mapping_rows(&settings);
    assert_eq!(rows.len(), 2);
    assert_eq!(rows[1].title, "Mapping 2");
    assert_eq!(rows[1].index, 1);
}

#[test]
fn transport_buttons_follow_the_playback_state() {
    let playing = transport_buttons(&PlaybackState { playing: PlayingState::PLAYING, looping: true });
    assert_eq!(playing.play_icon, Icon::Stop);
    assert!(matches!(playing.play_message, Message::StopPlayback));
    assert!(matches!(playing.loop_message, Message::ExitLoop));
    assert!(playing.play_highlighted && playing.loop_highlighted);
    let stopped = transport_buttons(&PlaybackState::default());
    assert_eq!(stopped.play_icon, Icon::Play);
    assert!(matches!(stopped.play_message, Message::StartPlayback));
    assert!(matches!(stopped.loop_message, Message::EnterLoop));
    assert!(!stopped.play_highlighted && !stopped.loop_highlighted);
}
