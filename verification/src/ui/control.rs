//! What each message of the interface does to its state, and which requests
//! it sends to the server.

use crate::device_option::{AudioDeviceOption, AudioDeviceOptionView};
use crate::messages::{
    Entity, AudioDevices, AudioDeviceView, AudioStatus, AudioStatusView, MidiDevices, Preferences, PreferencesView,
};
use crate::playback::{PlaybackState, PlayingState, TransportMethod};
use crate::settings::{
    spec_add_switch_mapping, spec_close, spec_open, spec_remove_switch_mapping, spec_save, spec_set_audio_device,
    spec_set_audio_number, spec_set_midi_port_enabled, spec_set_sample_rate, spec_set_switch_action,
    spec_set_switch_gesture, spec_set_switch_number, spec_set_use_jack, spec_with_draft, ActionOption,
    AudioNumberField, GestureOption, SampleRateOption, SettingsTab, SettingsUiState, SettingsView,
    SwitchNumberField, SwitchPickField,
};
use vstd::prelude::*;

verus! {

/// A request the interface sends to the server.
#[derive(Debug)]
pub enum UiRequest {
    UpdatePreferences(Preferences),
    RestartAudio,
    Transport(TransportMethod),
    Select { entity: Entity, id: u64 },
    Get { entity: Entity, id: u64 },
}

pub enum UiRequestView {
    UpdatePreferences(PreferencesView),
    RestartAudio,
    Transport(TransportMethod),
    Select { entity: Entity, id: u64 },
    Get { entity: Entity, id: u64 },
}

impl View for UiRequest {
    type V = UiRequestView;

    open spec fn view(&self) -> UiRequestView {
        match self {
            UiRequest::UpdatePreferences(p) => UiRequestView::UpdatePreferences(p@),
            UiRequest::RestartAudio => UiRequestView::RestartAudio,
            UiRequest::Transport(m) => UiRequestView::Transport(*m),
            UiRequest::Select { entity, id } => UiRequestView::Select { entity: *entity, id: *id },
            UiRequest::Get { entity, id } => UiRequestView::Get { entity: *entity, id: *id },
        }
    }
}

pub open spec fn requests_view(requests: Seq<UiRequest>) -> Seq<UiRequestView> {
    requests.map_values(|r: UiRequest| r@)
}

/// What the selection logic reads of the project: the songs' ids, the
/// selected song's position and its sections' ids, and the selected section.
#[derive(Debug)]
pub struct ProjectOutline {
    pub song_ids: Vec<u64>,
    pub selected_song_index: Option<usize>,
    pub selected_song_sections: Option<Vec<u64>>,
    pub selected_section: u64,
}

pub struct ProjectOutlineView {
    pub song_ids: Seq<u64>,
    pub selected_song_index: Option<usize>,
    pub selected_song_sections: Option<Seq<u64>>,
    pub selected_section: u64,
}

impl View for ProjectOutline {
    type V = ProjectOutlineView;

    open spec fn view(&self) -> ProjectOutlineView {
        ProjectOutlineView {
            song_ids: self.song_ids@,
            selected_song_index: self.selected_song_index,
            selected_song_sections: match self.selected_song_sections {
                Some(s) => Some(s@),
                None => None,
            },
            selected_section: self.selected_section,
        }
    }
}

/// The first position of `x` in `s`, from `i` on.
pub open spec fn index_of(s: Seq<u64>, x: u64, i: int) -> Option<int>
    decreases s.len() - i,
{
    if i < 0 || i >= s.len() {
        None
    } else if s[i] == x {
        Some(i)
    } else {
        index_of(s, x, i + 1)
    }
}

/// The song `offset` places from the selected one, if there is one.
pub open spec fn spec_song_with_offset(project: ProjectOutlineView, offset: int) -> Option<u64> {
    match project.selected_song_index {
        None => None,
        Some(i) => {
            let next = i + offset;
            if next < 0 || next >= project.song_ids.len() {
                None
            } else {
                Some(project.song_ids[next])
            }
        },
    }
}

/// The section `offset` places from the selected one in the selected song,
/// if there is one.
pub open spec fn spec_section_with_offset(project: ProjectOutlineView, offset: int) -> Option<u64> {
    match project.selected_song_sections {
        None => None,
        Some(sections) => match index_of(sections, project.selected_section, 0) {
            None => None,
            Some(i) => {
                let next = i + offset;
                if next < 0 || next >= sections.len() {
                    None
                } else {
                    Some(sections[next])
                }
            },
        },
    }
}

/// The song to select `offset` places from the selected one.
pub fn select_song_with_offset(project: &ProjectOutline, offset: i64) -> (r: Option<u64>)
    ensures
        r == spec_song_with_offset(project@, offset as int),
{
    let current = match project.selected_song_index {
        Some(i) => i,
        None => return None,
    };
    let next: i128 = current as i128 + offset as i128;
    if next < 0 || next >= project.song_ids.len() as i128 {
        return None;
    }
    Some(project.song_ids[next as usize])
}

fn position_of(s: &Vec<u64>, x: u64) -> (r: Option<usize>)
    ensures
        match r {
            Some(i) => index_of(s@, x, 0) == Some(i as int),
            None => index_of(s@, x, 0) is None,
        },
{
    let mut i: usize = 0;
    while i < s.len()
        invariant
            i <= s@.len(),
            index_of(s@, x, 0) == index_of(s@, x, i as int),
        decreases s@.len() - i,
    {
        if s[i] == x {
            return Some(i);
        }
        i = i + 1;
    }
    None
}

/// The section to select `offset` places from the selected one.
pub fn select_section_with_offset(project: &ProjectOutline, offset: i64) -> (r: Option<u64>)
    ensures
        r == spec_section_with_offset(project@, offset as int),
{
    let sections = match &project.selected_song_sections {
        Some(s) => s,
        None => return None,
    };
    let current = match position_of(sections, project.selected_section) {
        Some(i) => i,
        None => return None,
    };
    let next: i128 = current as i128 + offset as i128;
    if next < 0 || next >= sections.len() as i128 {
        return None;
    }
    Some(sections[next as usize])
}

/// What a response from the server brings to the interface (progress, which
/// the interface shows as it comes, is kept apart).
#[derive(Debug)]
pub struct UiResponse {
    pub project: Option<ProjectOutline>,
    pub playback_state: Option<PlaybackState>,
    pub preferences: Option<Preferences>,
    pub audio_devices: Option<AudioDevices>,
    pub audio_status: Option<AudioStatus>,
    pub midi_devices: Option<MidiDevices>,
}

pub struct UiResponseView {
    pub project: Option<ProjectOutlineView>,
    pub playback_state: Option<PlaybackState>,
    pub preferences: Option<PreferencesView>,
    pub audio_devices: Option<(Seq<char>, Seq<AudioDeviceView>)>,
    pub audio_status: Option<AudioStatusView>,
    pub midi_devices: Option<Seq<Seq<char>>>,
}

impl View for UiResponse {
    type V = UiResponseView;

    open spec fn view(&self) -> UiResponseView {
        UiResponseView {
            project: match self.project {
                Some(p) => Some(p@),
                None => None,
            },
            playback_state: self.playback_state,
            preferences: match self.preferences {
                Some(p) => Some(p@),
                None => None,
            },
            audio_devices: match self.audio_devices {
                Some(d) => Some(d@),
                None => None,
            },
            audio_status: match self.audio_status {
                Some(st) => Some(st@),
                None => None,
            },
            midi_devices: match self.midi_devices {
                Some(m) => Some(m@),
                None => None,
            },
        }
    }
}

/// The state of the interface that its messages act on.
#[derive(Debug)]
pub struct UiState {
    pub settings: SettingsUiState,
    pub preferences: Option<Preferences>,
    pub playback_state: PlaybackState,
    pub project: ProjectOutline,
    pub audio_devices: Option<AudioDevices>,
    pub audio_status: Option<AudioStatus>,
    pub midi_devices: Option<MidiDevices>,
}

pub struct UiStateView {
    pub settings: SettingsView,
    pub preferences: Option<PreferencesView>,
    pub playback_state: PlaybackState,
    pub project: ProjectOutlineView,
    pub audio_devices: Option<(Seq<char>, Seq<AudioDeviceView>)>,
    pub audio_status: Option<AudioStatusView>,
    pub midi_devices: Option<Seq<Seq<char>>>,
}

impl View for UiState {
    type V = UiStateView;

    open spec fn view(&self) -> UiStateView {
        UiStateView {
            settings: self.settings@,
            preferences: match self.preferences {
                Some(p) => Some(p@),
                None => None,
            },
            playback_state: self.playback_state,
            project: self.project@,
            audio_devices: match self.audio_devices {
                Some(d) => Some(d@),
                None => None,
            },
            audio_status: match self.audio_status {
                Some(st) => Some(st@),
                None => None,
            },
            midi_devices: match self.midi_devices {
                Some(m) => Some(m@),
                None => None,
            },
        }
    }
}

/// A message of the interface: a response from the server, or what the user did.
#[derive(Debug)]
pub enum Message {
    ApiResponse(Box<UiResponse>),
    StartPlayback,
    StopPlayback,
    TogglePlayback,
    EnterLoop,
    ExitLoop,
    SelectPreviousSong,
    SelectNextSong,
    SelectPreviousSection,
    SelectNextSection,
    SelectSection(u64),
    OpenSettings,
    CloseSettings,
    RefreshSettings,
    SelectSettingsTab(SettingsTab),
    SaveSettings,
    RestartAudio,
    SetSettingsAudioDevice(AudioDeviceOption),
    SetSettingsSampleRate(SampleRateOption),
    SetSettingsAudioNumber(AudioNumberField, String),
    SetSettingsUseJack(bool),
    SetSettingsMidiPortEnabled(String, bool),
    AddSettingsSwitchMapping,
    RemoveSettingsSwitchMapping(usize),
    SetSettingsSwitchNumber(usize, SwitchNumberField, String),
    SetSettingsSwitchPick(usize, SwitchPickField, GestureOption, ActionOption),
}

pub enum MessageView {
    ApiResponse(UiResponseView),
    StartPlayback,
    StopPlayback,
    TogglePlayback,
    EnterLoop,
    ExitLoop,
    SelectPreviousSong,
    SelectNextSong,
    SelectPreviousSection,
    SelectNextSection,
    SelectSection(u64),
    OpenSettings,
    CloseSettings,
    RefreshSettings,
    SelectSettingsTab(SettingsTab),
    SaveSettings,
    RestartAudio,
    SetSettingsAudioDevice(AudioDeviceOptionView),
    SetSettingsSampleRate(u32),
    SetSettingsAudioNumber(AudioNumberField, Seq<char>),
    SetSettingsUseJack(bool),
    SetSettingsMidiPortEnabled(Seq<char>, bool),
    AddSettingsSwitchMapping,
    RemoveSettingsSwitchMapping(usize),
    SetSettingsSwitchNumber(usize, SwitchNumberField, Seq<char>),
    SetSettingsSwitchPick(usize, SwitchPickField, GestureOption, ActionOption),
}

impl View for Message {
    type V = MessageView;

    open spec fn view(&self) -> MessageView {
        match self {
            Message::ApiResponse(r) => MessageView::ApiResponse((**r)@),
            Message::StartPlayback => MessageView::StartPlayback,
            Message::StopPlayback => MessageView::StopPlayback,
            Message::TogglePlayback => MessageView::TogglePlayback,
            Message::EnterLoop => MessageView::EnterLoop,
            Message::ExitLoop => MessageView::ExitLoop,
            Message::SelectPreviousSong => MessageView::SelectPreviousSong,
            Message::SelectNextSong => MessageView::SelectNextSong,
            Message::SelectPreviousSection => MessageView::SelectPreviousSection,
            Message::SelectNextSection => MessageView::SelectNextSection,
            Message::SelectSection(id) => MessageView::SelectSection(*id),
            Message::OpenSettings => MessageView::OpenSettings,
            Message::CloseSettings => MessageView::CloseSettings,
            Message::RefreshSettings => MessageView::RefreshSettings,
            Message::SelectSettingsTab(tab) => MessageView::SelectSettingsTab(*tab),
            Message::SaveSettings => MessageView::SaveSettings,
            Message::RestartAudio => MessageView::RestartAudio,
            Message::SetSettingsAudioDevice(o) => MessageView::SetSettingsAudioDevice(o@),
            Message::SetSettingsSampleRate(o) => MessageView::SetSettingsSampleRate(o.0),
            Message::SetSettingsAudioNumber(f, v) => MessageView::SetSettingsAudioNumber(*f, v@),
            Message::SetSettingsUseJack(b) => MessageView::SetSettingsUseJack(*b),
            Message::SetSettingsMidiPortEnabled(p, e) => MessageView::SetSettingsMidiPortEnabled(p@, *e),
            Message::AddSettingsSwitchMapping => MessageView::AddSettingsSwitchMapping,
            Message::RemoveSettingsSwitchMapping(i) => MessageView::RemoveSettingsSwitchMapping(*i),
            Message::SetSettingsSwitchNumber(i, f, v) => MessageView::SetSettingsSwitchNumber(*i, *f, v@),
            Message::SetSettingsSwitchPick(i, f, g, a) => MessageView::SetSettingsSwitchPick(*i, *f, *g, *a),
        }
    }
}

/// The reads that refresh the settings panel: preferences, audio devices,
/// audio status and MIDI devices, in that order.
pub open spec fn settings_data_requests() -> Seq<UiRequestView> {
    seq![
        UiRequestView::Get { entity: Entity::PREFERENCES, id: 0 },
        UiRequestView::Get { entity: Entity::AUDIO_DEVICES, id: 0 },
        UiRequestView::Get { entity: Entity::AUDIO_STATUS, id: 0 },
        UiRequestView::Get { entity: Entity::MIDI_DEVICES, id: 0 },
    ]
}

pub open spec fn with_settings(s: UiStateView, settings: SettingsView) -> UiStateView {
    UiStateView { settings, ..s }
}

/// A response replaces what it brings; preferences that arrive while the
/// settings panel is open close it after a save, and otherwise become its draft.
pub open spec fn spec_apply_response(s: UiStateView, r: UiResponseView) -> UiStateView {
    let s1 = UiStateView {
        project: match r.project {
            Some(p) => p,
            None => s.project,
        },
        playback_state: match r.playback_state {
            Some(p) => p,
            None => s.playback_state,
        },
        ..s
    };
    let s2 = match r.preferences {
        Some(p) => UiStateView {
            preferences: Some(p),
            settings: if s1.settings.is_open {
                if s1.settings.is_saving {
                    spec_close(s1.settings)
                } else {
                    spec_with_draft(s1.settings, p)
                }
            } else {
                s1.settings
            },
            ..s1
        },
        None => s1,
    };
    UiStateView {
        audio_devices: match r.audio_devices {
            Some(d) => Some(d),
            None => s2.audio_devices,
        },
        audio_status: match r.audio_status {
            Some(st) => Some(st),
            None => s2.audio_status,
        },
        midi_devices: match r.midi_devices {
            Some(m) => Some(m),
            None => s2.midi_devices,
        },
        ..s2
    }
}

pub open spec fn select_request(entity: Entity, id: Option<u64>) -> Seq<UiRequestView> {
    match id {
        Some(id) => seq![UiRequestView::Select { entity, id }],
        None => Seq::empty(),
    }
}

pub open spec fn transport(method: TransportMethod) -> Seq<UiRequestView> {
    seq![UiRequestView::Transport(method)]
}

/// The state after a message, and the requests it sends, in order.
pub open spec fn spec_update(s: UiStateView, m: MessageView) -> (UiStateView, Seq<UiRequestView>) {
    match m {
        MessageView::ApiResponse(r) => (spec_apply_response(s, r), Seq::empty()),
        MessageView::OpenSettings => (with_settings(s, spec_open(s.settings, s.preferences)), settings_data_requests()),
        MessageView::CloseSettings => (with_settings(s, spec_close(s.settings)), Seq::empty()),
        MessageView::RefreshSettings => (s, settings_data_requests()),
        MessageView::SelectSettingsTab(tab) => (
            with_settings(s, SettingsView { active_tab: tab, ..s.settings }),
            Seq::empty(),
        ),
        MessageView::SaveSettings => {
            let (saved, preferences) = spec_save(s.settings);
            match preferences {
                Some(p) => (
                    with_settings(s, SettingsView { is_saving: true, ..saved }),
                    seq![UiRequestView::UpdatePreferences(p)],
                ),
                None => (with_settings(s, saved), Seq::empty()),
            }
        },
        MessageView::RestartAudio => (s, seq![UiRequestView::RestartAudio]),
        MessageView::SetSettingsAudioDevice(o) => (with_settings(s, spec_set_audio_device(s.settings, o)), Seq::empty()),
        MessageView::SetSettingsSampleRate(rate) => (
            with_settings(s, spec_set_sample_rate(s.settings, rate)),
            Seq::empty(),
        ),
        MessageView::SetSettingsAudioNumber(field, value) => (
            with_settings(s, spec_set_audio_number(s.settings, field, value)),
            Seq::empty(),
        ),
        MessageView::SetSettingsUseJack(b) => (with_settings(s, spec_set_use_jack(s.settings, b)), Seq::empty()),
        MessageView::SetSettingsMidiPortEnabled(port, enabled) => (
            with_settings(s, spec_set_midi_port_enabled(s.settings, port, enabled)),
            Seq::empty(),
        ),
        MessageView::AddSettingsSwitchMapping => (with_settings(s, spec_add_switch_mapping(s.settings)), Seq::empty()),
        MessageView::RemoveSettingsSwitchMapping(i) => (
            with_settings(s, spec_remove_switch_mapping(s.settings, i as int)),
            Seq::empty(),
        ),
        MessageView::SetSettingsSwitchNumber(i, _field, value) => (
            with_settings(s, spec_set_switch_number(s.settings, i as int, value)),
            Seq::empty(),
        ),
        MessageView::SetSettingsSwitchPick(i, field, gesture, action) => match field {
            SwitchPickField::Gesture => (
                with_settings(s, spec_set_switch_gesture(s.settings, i as int, gesture.0)),
                Seq::empty(),
            ),
            SwitchPickField::Action => (
                with_settings(s, spec_set_switch_action(s.settings, i as int, action.0)),
                Seq::empty(),
            ),
        },
        MessageView::StartPlayback => (s, transport(TransportMethod::PLAY)),
        MessageView::StopPlayback => (s, transport(TransportMethod::STOP)),
        MessageView::TogglePlayback => (
            s,
            transport(
                if s.playback_state.playing == PlayingState::PLAYING {
                    TransportMethod::STOP
                } else {
                    TransportMethod::PLAY
                },
            ),
        ),
        MessageView::SelectPreviousSong => (s, select_request(Entity::SONG, spec_song_with_offset(s.project, -1))),
        MessageView::SelectNextSong => (s, select_request(Entity::SONG, spec_song_with_offset(s.project, 1))),
        MessageView::SelectPreviousSection => (
            s,
            select_request(Entity::SECTION, spec_section_with_offset(s.project, -1)),
        ),
        MessageView::SelectNextSection => (s, select_request(Entity::SECTION, spec_section_with_offset(s.project, 1))),
        MessageView::SelectSection(id) => (s, seq![UiRequestView::Select { entity: Entity::SECTION, id }]),
        MessageView::EnterLoop => (s, transport(TransportMethod::LOOP)),
        MessageView::ExitLoop => (s, transport(TransportMethod::EXIT_LOOP)),
    }
}

fn settings_requests() -> (r: Vec<UiRequest>)
    ensures
        requests_view(r@) == settings_data_requests(),
{
    let mut r: Vec<UiRequest> = Vec::new();
    r.push(UiRequest::Get { entity: Entity::PREFERENCES, id: 0 });
    r.push(UiRequest::Get { entity: Entity::AUDIO_DEVICES, id: 0 });
    r.push(UiRequest::Get { entity: Entity::AUDIO_STATUS, id: 0 });
    r.push(UiRequest::Get { entity: Entity::MIDI_DEVICES, id: 0 });
    assert(requests_view(r@) =~= settings_data_requests());
    r
}

fn one_request(request: UiRequest) -> (r: Vec<UiRequest>)
    ensures
        requests_view(r@) == seq![request@],
{
    let mut r: Vec<UiRequest> = Vec::new();
    r.push(request);
    assert(requests_view(r@) =~= seq![request@]);
    r
}

fn no_requests() -> (r: Vec<UiRequest>)
    ensures
        requests_view(r@) == Seq::<UiRequestView>::empty(),
{
    let r: Vec<UiRequest> = Vec::new();
    assert(requests_view(r@) =~= Seq::<UiRequestView>::empty());
    r
}

fn select_requests(entity: Entity, id: Option<u64>) -> (r: Vec<UiRequest>)
    ensures
        requests_view(r@) == select_request(entity, id),
{
    match id {
        Some(id) => one_request(UiRequest::Select { entity, id }),
        None => no_requests(),
    }
}

fn apply_response(state: &mut UiState, response: UiResponse)
    ensures
        final(state)@ == spec_apply_response(old(state)@, response@),
{
    let UiResponse { project, playback_state, preferences, audio_devices, audio_status, midi_devices } = response;
    match project {
        Some(p) => state.project = p,
        None => {},
    }
    match playback_state {
        Some(p) => state.playback_state = p,
        None => {},
    }
    match preferences {
        Some(p) => {
            let copy = p.clone();
            state.preferences = Some(p);
            if state.settings.is_open {
                if state.settings.is_saving {
                    state.settings.close();
                } else {
                    state.settings.set_draft(copy);
                }
            }
        },
        None => {},
    }
    match audio_devices {
        Some(d) => state.audio_devices = Some(d),
        None => {},
    }
    match audio_status {
        Some(st) => state.audio_status = Some(st),
        None => {},
    }
    match midi_devices {
        Some(m) => state.midi_devices = Some(m),
        None => {},
    }
}

/// Applies a message to the interface's state; gives the requests to send.
pub fn update(state: &mut UiState, message: Message) -> (r: Vec<UiRequest>)
    ensures
        (final(state)@, requests_view(r@)) == spec_update(old(state)@, message@),
{
    match message {
        Message::ApiResponse(response) => {
            apply_response(state, *response);
            no_requests()
        },
        Message::OpenSettings => {
            let preferences = match &state.preferences {
                Some(p) => Some(p.clone()),
                None => None,
            };
            state.settings.open(preferences);
            settings_requests()
        },
        Message::CloseSettings => {
            state.settings.close();
            no_requests()
        },
        Message::RefreshSettings => settings_requests(),
        Message::SelectSettingsTab(tab) => {
            state.settings.active_tab = tab;
            no_requests()
        },
        Message::SaveSettings => {
            match state.settings.draft_preferences_for_save() {
                Some(preferences) => {
                    state.settings.is_saving = true;
                    one_request(UiRequest::UpdatePreferences(preferences))
                },
                None => no_requests(),
            }
        },
        Message::RestartAudio => one_request(UiRequest::RestartAudio),
        Message::SetSettingsAudioDevice(option) => {
            state.settings.set_audio_device(option);
            no_requests()
        },
        Message::SetSettingsSampleRate(option) => {
            state.settings.set_sample_rate(option);
            no_requests()
        },
        Message::SetSettingsAudioNumber(field, value) => {
            state.settings.set_audio_number(field, value);
            no_requests()
        },
        Message::SetSettingsUseJack(use_jack) => {
            state.settings.set_use_jack(use_jack);
            no_requests()
        },
        Message::SetSettingsMidiPortEnabled(port_name, enabled) => {
            state.settings.set_midi_port_enabled(port_name, enabled);
            no_requests()
        },
        Message::AddSettingsSwitchMapping => {
            state.settings.add_switch_mapping();
            no_requests()
        },
        Message::RemoveSettingsSwitchMapping(index) => {
            state.settings.remove_switch_mapping(index);
            no_requests()
        },
        Message::SetSettingsSwitchNumber(index, field, value) => {
            state.settings.set_switch_number(index, field, value);
            no_requests()
        },
        Message::SetSettingsSwitchPick(index, field, gesture, action) => {
            match field {
                SwitchPickField::Gesture => state.settings.set_switch_gesture(index, gesture),
                SwitchPickField::Action => state.settings.set_switch_action(index, action),
            }
            no_requests()
        },
        Message::StartPlayback => one_request(UiRequest::Transport(TransportMethod::PLAY)),
        Message::StopPlayback => one_request(UiRequest::Transport(TransportMethod::STOP)),
        Message::TogglePlayback => {
            let method = if state.playback_state.is_playing() {
                TransportMethod::STOP
            } else {
                TransportMethod::PLAY
            };
            one_request(UiRequest::Transport(method))
        },
        Message::SelectPreviousSong => select_requests(Entity::SONG, select_song_with_offset(&state.project, -1)),
        Message::SelectNextSong => select_requests(Entity::SONG, select_song_with_offset(&state.project, 1)),
        Message::SelectPreviousSection => select_requests(
            Entity::SECTION,
            select_section_with_offset(&state.project, -1),
        ),
        Message::SelectNextSection => select_requests(Entity::SECTION, select_section_with_offset(&state.project, 1)),
        Message::SelectSection(id) => one_request(UiRequest::Select { entity: Entity::SECTION, id }),
        Message::EnterLoop => one_request(UiRequest::Transport(TransportMethod::LOOP)),
        Message::ExitLoop => one_request(UiRequest::Transport(TransportMethod::EXIT_LOOP)),
    }
}

/// The keys that have a shortcut.
#[derive(Debug, Clone, Copy, PartialEq, Eq, Structural)]
pub enum ShortcutKey {
    Space,
    ArrowUp,
    ArrowDown,
    ArrowLeft,
    ArrowRight,
    Other,
}

/// The message a key press gives: space (not repeated) toggles playback,
/// the arrows move through sections (up, down) and songs (left, right).
pub fn playback_shortcut(key: ShortcutKey, repeat: bool) -> (r: Option<Message>)
    ensures
        match key {
            ShortcutKey::Space => if repeat {
                r is None
            } else {
                r matches Some(Message::TogglePlayback)
            },
            ShortcutKey::ArrowUp => r matches Some(Message::SelectPreviousSection),
            ShortcutKey::ArrowDown => r matches Some(Message::SelectNextSection),
            ShortcutKey::ArrowLeft => r matches Some(Message::SelectPreviousSong),
            ShortcutKey::ArrowRight => r matches Some(Message::SelectNextSong),
            ShortcutKey::Other => r is None,
        },
{
    match key {
        ShortcutKey::Space => if repeat {
            None
        } else {
            Some(Message::TogglePlayback)
        },
        ShortcutKey::ArrowUp => Some(Message::SelectPreviousSection),
        ShortcutKey::ArrowDown => Some(Message::SelectNextSection),
        ShortcutKey::ArrowLeft => Some(Message::SelectPreviousSong),
        ShortcutKey::ArrowRight => Some(Message::SelectNextSong),
        ShortcutKey::Other => None,
    }
}

/// The icons of the interface.
#[derive(Debug, Clone, Copy, PartialEq, Eq, Structural)]
pub enum Icon {
    ArrowLeft,
    ArrowRight,
    Play,
    Stop,
    Loop,
    Metronome,
}

/// The transport buttons: the play button's icon and message, the loop
/// button's message, and whether each is shown highlighted.
#[derive(Debug)]
pub struct TransportButtons {
    pub play_icon: Icon,
    pub play_message: Message,
    pub loop_message: Message,
    pub play_highlighted: bool,
    pub loop_highlighted: bool,
}

/// Playing: a stop button; stopped: a play button. Looping: the loop button
/// leaves the loop; otherwise it enters one.
pub fn transport_buttons(playback_state: &PlaybackState) -> (r: TransportButtons)
    ensures
        playback_state.playing == PlayingState::PLAYING ==> r.play_icon == Icon::Stop && r.play_message
            is StopPlayback,
        playback_state.playing != PlayingState::PLAYING ==> r.play_icon == Icon::Play && r.play_message
            is StartPlayback,
        playback_state.looping ==> r.loop_message is ExitLoop,
        !playback_state.looping ==> r.loop_message is EnterLoop,
        r.play_highlighted == (playback_state.playing == PlayingState::PLAYING),
        r.loop_highlighted == playback_state.looping,
{
    let is_playing = playback_state.is_playing();
    let is_looping = playback_state.looping;
    let (play_icon, play_message) = if is_playing {
        (Icon::Stop, Message::StopPlayback)
    } else {
        (Icon::Play, Message::StartPlayback)
    };
    let loop_message = if is_looping {
        Message::ExitLoop
    } else {
        Message::EnterLoop
    };
    TransportButtons { play_icon, play_message, loop_message, play_highlighted: is_playing, loop_highlighted: is_looping }
}

} // verus!
