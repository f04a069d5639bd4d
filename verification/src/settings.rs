//! The settings editor: a draft of the preferences, the text of its number
//! fields, and what saving it gives.

use crate::messages::{
    empty_midi_preferences, strings_view, Action, AudioPreferencesView, Gesture, MidiPreferences, MidiPreferencesView,
    Preferences, PreferencesView, SwitchMapping, SwitchPreferences,
};
use crate::device_option::{AudioDeviceOption, AudioDeviceOptionView};
use crate::preferences::{
    default_audio_preferences, default_midi_preferences, opt_or, spec_default_audio_preferences,
};
use crate::text::{decimal, parse_u32, spec_parse_u32, trim, u32_to_decimal};
use vstd::prelude::*;
use vstd::string::StringExecFns;

verus! {

#[derive(Debug, Clone, Copy, PartialEq, Eq, Structural)]
pub enum SettingsTab {
    Audio,
    Midi,
    Switches,
}

#[derive(Debug, Clone, Copy, PartialEq, Eq, Structural)]
pub enum AudioNumberField {
    SampleRate,
    BufferSize,
    MainChannelOffset,
    ClickChannelOffset,
}

#[derive(Debug, Clone, Copy, PartialEq, Eq, Structural)]
pub enum SwitchNumberField {
    Pin,
}

#[derive(Debug, Clone, Copy, PartialEq, Eq, Structural)]
pub enum SwitchPickField {
    Gesture,
    Action,
}

#[derive(Debug, Clone, Copy, PartialEq, Eq, Structural)]
pub struct SampleRateOption(pub u32);

#[derive(Debug, Clone, Copy, PartialEq, Eq, Structural)]
pub struct GestureOption(pub Gesture);

#[derive(Debug, Clone, Copy, PartialEq, Eq, Structural)]
pub struct ActionOption(pub Action);

pub open spec fn spec_gesture_label(gesture: Gesture) -> Seq<char> {
    match gesture {
        Gesture::GESTURE_PRESS => "Press"@,
        Gesture::GESTURE_RELEASE => "Release"@,
        Gesture::GESTURE_HOLD => "Hold"@,
        Gesture::GESTURE_UNKNOWN => "Unknown"@,
    }
}

pub open spec fn spec_action_label(action: Action) -> Seq<char> {
    match action {
        Action::ACTION_PREVIOUS_SONG => "Previous Song"@,
        Action::ACTION_NEXT_SONG => "Next Song"@,
        Action::ACTION_PREVIOUS_SECTION => "Previous Section"@,
        Action::ACTION_NEXT_SECTION => "Next Section"@,
        Action::ACTION_QUEUE_SELECTED => "Queue Selected"@,
        Action::ACTION_TOGGLE_LOOP => "Toggle Loop"@,
        Action::ACTION_TOGGLE_PLAY => "Toggle Play"@,
        Action::ACTION_UNKNOWN => "Unknown"@,
    }
}

/// The name the settings editor shows for a gesture.
pub fn gesture_label(gesture: Gesture) -> (r: &'static str)
    ensures
        r@ == spec_gesture_label(gesture),
{
    match gesture {
        Gesture::GESTURE_PRESS => "Press",
        Gesture::GESTURE_RELEASE => "Release",
        Gesture::GESTURE_HOLD => "Hold",
        Gesture::GESTURE_UNKNOWN => "Unknown",
    }
}

/// The name the settings editor shows for an action.
pub fn action_label(action: Action) -> (r: &'static str)
    ensures
        r@ == spec_action_label(action),
{
    match action {
        Action::ACTION_PREVIOUS_SONG => "Previous Song",
        Action::ACTION_NEXT_SONG => "Next Song",
        Action::ACTION_PREVIOUS_SECTION => "Previous Section",
        Action::ACTION_NEXT_SECTION => "Next Section",
        Action::ACTION_QUEUE_SELECTED => "Queue Selected",
        Action::ACTION_TOGGLE_LOOP => "Toggle Loop",
        Action::ACTION_TOGGLE_PLAY => "Toggle Play",
        Action::ACTION_UNKNOWN => "Unknown",
    }
}

impl SampleRateOption {
    /// The text shown for the option: the rate followed by " Hz".
    pub fn label(&self) -> (r: String)
        ensures
            r@ == decimal(self.0 as nat) + " Hz"@,
    {
        let mut r = u32_to_decimal(self.0);
        r.append(" Hz");
        r
    }
}

impl GestureOption {
    pub fn label(&self) -> (r: String)
        ensures
            r@ == spec_gesture_label(self.0),
    {
        String::from_str(gesture_label(self.0))
    }
}

impl ActionOption {
    pub fn label(&self) -> (r: String)
        ensures
            r@ == spec_action_label(self.0),
    {
        String::from_str(action_label(self.0))
    }
}

/// The gestures a switch can be bound to, in the order the editor lists them.
pub fn gesture_options() -> (r: Vec<GestureOption>)
    ensures
        r@ == seq![
            GestureOption(Gesture::GESTURE_PRESS),
            GestureOption(Gesture::GESTURE_RELEASE),
            GestureOption(Gesture::GESTURE_HOLD),
        ],
{
    let mut r: Vec<GestureOption> = Vec::new();
    r.push(GestureOption(Gesture::GESTURE_PRESS));
    r.push(GestureOption(Gesture::GESTURE_RELEASE));
    r.push(GestureOption(Gesture::GESTURE_HOLD));
    assert(r@ =~= seq![
        GestureOption(Gesture::GESTURE_PRESS),
        GestureOption(Gesture::GESTURE_RELEASE),
        GestureOption(Gesture::GESTURE_HOLD),
    ]);
    r
}

/// The actions a switch can be bound to, in the order the editor lists them.
pub fn action_options() -> (r: Vec<ActionOption>)
    ensures
        r@ == seq![
            ActionOption(Action::ACTION_PREVIOUS_SONG),
            ActionOption(Action::ACTION_NEXT_SONG),
            ActionOption(Action::ACTION_PREVIOUS_SECTION),
            ActionOption(Action::ACTION_NEXT_SECTION),
            ActionOption(Action::ACTION_QUEUE_SELECTED),
            ActionOption(Action::ACTION_TOGGLE_LOOP),
            ActionOption(Action::ACTION_TOGGLE_PLAY),
        ],
{
    let mut r: Vec<ActionOption> = Vec::new();
    r.push(ActionOption(Action::ACTION_PREVIOUS_SONG));
    r.push(ActionOption(Action::ACTION_NEXT_SONG));
    r.push(ActionOption(Action::ACTION_PREVIOUS_SECTION));
    r.push(ActionOption(Action::ACTION_NEXT_SECTION));
    r.push(ActionOption(Action::ACTION_QUEUE_SELECTED));
    r.push(ActionOption(Action::ACTION_TOGGLE_LOOP));
    r.push(ActionOption(Action::ACTION_TOGGLE_PLAY));
    assert(r@ =~= seq![
        ActionOption(Action::ACTION_PREVIOUS_SONG),
        ActionOption(Action::ACTION_NEXT_SONG),
        ActionOption(Action::ACTION_PREVIOUS_SECTION),
        ActionOption(Action::ACTION_NEXT_SECTION),
        ActionOption(Action::ACTION_QUEUE_SELECTED),
        ActionOption(Action::ACTION_TOGGLE_LOOP),
        ActionOption(Action::ACTION_TOGGLE_PLAY),
    ]);
    r
}

/// The mapping a new switch starts with: pin 0, press, toggle play.
pub fn default_switch_mapping() -> (r: SwitchMapping)
    ensures
        r == spec_default_switch_mapping(),
{
    SwitchMapping { pin: 0, gesture: Gesture::GESTURE_PRESS, action: Action::ACTION_TOGGLE_PLAY }
}

pub open spec fn spec_default_switch_mapping() -> SwitchMapping {
    SwitchMapping { pin: 0, gesture: Gesture::GESTURE_PRESS, action: Action::ACTION_TOGGLE_PLAY }
}

/// The text read as a whole number, and kept only within `min ..= max`.
pub fn parse_u32_in_range(value: &str, min: u32, max: u32, label: &str) -> (r: Option<u32>)
    ensures
        r == (match spec_parse_u32(trim(value@)) {
            Some(n) => if min <= n <= max {
                Some(n)
            } else {
                None
            },
            None => None,
        }),
{
    let parsed = match parse_u32(value, label) {
        Some(n) => n,
        None => return None,
    };
    if parsed < min || parsed > max {
        return None;
    }
    Some(parsed)
}

pub open spec fn spec_validate_audio_number(value: Seq<char>, field: AudioNumberField) -> Option<Seq<char>> {
    let parsed = spec_parse_u32(trim(value));
    match field {
        AudioNumberField::SampleRate => match parsed {
            Some(n) if 1 <= n <= 192_000 => None,
            _ => Some("Sample rate must be between 1 and 192000"@),
        },
        AudioNumberField::BufferSize => match parsed {
            Some(n) if 1 <= n <= 8192 => None,
            _ => Some("Buffer size must be between 1 and 8192"@),
        },
        AudioNumberField::MainChannelOffset => match parsed {
            Some(_) => None,
            None => Some("Main channel offset must be a whole number"@),
        },
        AudioNumberField::ClickChannelOffset => match parsed {
            Some(_) => None,
            None => Some("Click channel offset must be a whole number"@),
        },
    }
}

/// What is wrong with the text of an audio number field, if anything.
pub fn validate_audio_number(value: &str, field: AudioNumberField) -> (r: Option<String>)
    ensures
        match r {
            Some(m) => spec_validate_audio_number(value@, field) == Some(m@),
            None => spec_validate_audio_number(value@, field) is None,
        },
{
    let parsed = parse_u32(value, "");
    match field {
        AudioNumberField::SampleRate => match parsed {
            Some(number) if 1 <= number && number <= 192_000 => None,
            _ => Some(String::from_str("Sample rate must be between 1 and 192000")),
        },
        AudioNumberField::BufferSize => match parsed {
            Some(number) if 1 <= number && number <= 8192 => None,
            _ => Some(String::from_str("Buffer size must be between 1 and 8192")),
        },
        AudioNumberField::MainChannelOffset => match parsed {
            Some(_) => None,
            None => Some(String::from_str("Main channel offset must be a whole number")),
        },
        AudioNumberField::ClickChannelOffset => match parsed {
            Some(_) => None,
            None => Some(String::from_str("Click channel offset must be a whole number")),
        },
    }
}

/// The enabled ports after `port` is switched on (added once, at the end)
/// or off (every entry equal to it removed, the others kept in order).
pub open spec fn spec_set_midi_enabled(devices: Seq<Seq<char>>, port: Seq<char>, enabled: bool) -> Seq<Seq<char>> {
    if enabled {
        if devices.contains(port) {
            devices
        } else {
            devices.push(port)
        }
    } else {
        devices.filter(|d: Seq<char>| d != port)
    }
}

pub(crate) fn contains_string(v: &Vec<String>, s: &String) -> (r: bool)
    ensures
        r == strings_view(v@).contains(s@),
{
    let mut i: usize = 0;
    while i < v.len()
        invariant
            i <= v@.len(),
            forall|j: int| 0 <= j < i ==> v@[j]@ != s@,
        decreases v@.len() - i,
    {
        if v[i] == *s {
            assert(strings_view(v@)[i as int] == s@);
            return true;
        }
        i = i + 1;
    }
    assert forall|j: int| 0 <= j < strings_view(v@).len() implies strings_view(v@)[j] != s@ by {
        assert(v@[j]@ != s@);
    }
    false
}

/// Switches the MIDI port `port_name` on or off, keeping entries that name other ports.
pub fn set_midi_enabled_device(midi: &mut MidiPreferences, port_name: String, enabled: bool)
    ensures
        final(midi)@ == (MidiPreferencesView {
            enabled_devices: spec_set_midi_enabled(old(midi)@.enabled_devices, port_name@, enabled),
            ..old(midi)@
        }),
{
    if enabled {
        if !contains_string(&midi.enabled_devices, &port_name) {
            midi.enabled_devices.push(port_name);
            assert(midi@.enabled_devices =~= old(midi)@.enabled_devices.push(port_name@));
        }
    } else {
        let ghost old_view = old(midi)@.enabled_devices;
        let ghost keep = |d: Seq<char>| d != port_name@;
        let mut kept: Vec<String> = Vec::new();
        let mut i: usize = 0;
        while i < midi.enabled_devices.len()
            invariant
                i <= midi.enabled_devices@.len(),
                old_view == midi@.enabled_devices,
                midi@ == old(midi)@,
                keep == (|d: Seq<char>| d != port_name@),
                strings_view(kept@) == old_view.take(i as int).filter(keep),
            decreases midi.enabled_devices@.len() - i,
        {
            reveal_with_fuel(Seq::<_>::filter, 1);
            assert(old_view.take(i + 1).drop_last() =~= old_view.take(i as int));
            if !(midi.enabled_devices[i] == port_name) {
                kept.push(midi.enabled_devices[i].clone());
                assert(strings_view(kept@) =~= old_view.take(i as int).filter(keep).push(
                    old_view[i as int],
                ));
            }
            i = i + 1;
        }
        assert(old_view.take(i as int) =~= old_view);
        midi.enabled_devices = kept;
    }
}

/// The draft the editor works on: audio preferences always present (with a
/// zero sample rate or buffer size replaced by 48000 or 512), MIDI and
/// switch preferences always present.
pub open spec fn spec_editable(p: PreferencesView) -> PreferencesView {
    let a = opt_or(p.audio, spec_default_audio_preferences());
    PreferencesView {
        audio: Some(
            AudioPreferencesView {
                sample_rate: if a.sample_rate == 0 {
                    48_000
                } else {
                    a.sample_rate
                },
                buffer_size: if a.buffer_size == 0 {
                    512
                } else {
                    a.buffer_size
                },
                ..a
            },
        ),
        midi: Some(opt_or(p.midi, empty_midi_preferences())),
        switch: Some(opt_or(p.switch, Seq::empty())),
        switch_available: p.switch_available,
    }
}

/// Fills in what the editor needs to show every preference.
pub fn editable_preferences(preferences: Preferences) -> (r: Preferences)
    ensures
        r@ == spec_editable(preferences@),
{
    let mut preferences = preferences;
    let mut audio = match preferences.audio.take() {
        Some(a) => a,
        None => default_audio_preferences(),
    };
    if audio.sample_rate == 0 {
        audio.sample_rate = 48_000;
    }
    if audio.buffer_size == 0 {
        audio.buffer_size = 512;
    }
    preferences.audio = Some(audio);
    if preferences.midi.is_none() {
        preferences.midi = Some(default_midi_preferences());
    }
    if preferences.switch.is_none() {
        preferences.switch = Some(SwitchPreferences::default());
    }
    preferences
}

/// Making a draft editable twice changes nothing more.
pub proof fn lemma_editable_idempotent(p: PreferencesView)
    ensures
        spec_editable(spec_editable(p)) == spec_editable(p),
{
}

/// The settings editor.
#[derive(Debug)]
pub struct SettingsUiState {
    pub is_open: bool,
    pub active_tab: SettingsTab,
    pub draft: Preferences,
    pub sample_rate: String,
    pub buffer_size: String,
    pub main_channel_offset: String,
    pub click_channel_offset: String,
    pub switch_pin_values: Vec<String>,
    pub is_saving: bool,
    pub validation_error: Option<String>,
}

pub struct SettingsView {
    pub is_open: bool,
    pub active_tab: SettingsTab,
    pub draft: PreferencesView,
    pub sample_rate: Seq<char>,
    pub buffer_size: Seq<char>,
    pub main_channel_offset: Seq<char>,
    pub click_channel_offset: Seq<char>,
    pub switch_pin_values: Seq<Seq<char>>,
    pub is_saving: bool,
    pub validation_error: Option<Seq<char>>,
}

impl View for SettingsUiState {
    type V = SettingsView;

    open spec fn view(&self) -> SettingsView {
        SettingsView {
            is_open: self.is_open,
            active_tab: self.active_tab,
            draft: self.draft@,
            sample_rate: self.sample_rate@,
            buffer_size: self.buffer_size@,
            main_channel_offset: self.main_channel_offset@,
            click_channel_offset: self.click_channel_offset@,
            switch_pin_values: strings_view(self.switch_pin_values@),
            is_saving: self.is_saving,
            validation_error: match self.validation_error {
                Some(e) => Some(e@),
                None => None,
            },
        }
    }
}

pub open spec fn draft_audio(d: PreferencesView) -> AudioPreferencesView {
    opt_or(d.audio, spec_default_audio_preferences())
}

pub open spec fn draft_mappings(d: PreferencesView) -> Seq<SwitchMapping> {
    opt_or(d.switch, Seq::empty())
}

/// The text of each switch's pin.
pub open spec fn pin_texts(mappings: Seq<SwitchMapping>) -> Seq<Seq<char>> {
    mappings.map_values(|m: SwitchMapping| decimal(m.pin as nat))
}

/// The editor with its text fields written from its draft.
pub open spec fn spec_sync_fields(s: SettingsView) -> SettingsView {
    let audio = draft_audio(s.draft);
    SettingsView {
        sample_rate: decimal(audio.sample_rate as nat),
        buffer_size: decimal(audio.buffer_size as nat),
        main_channel_offset: decimal(audio.main_channel_offset as nat),
        click_channel_offset: decimal(audio.click_channel_offset as nat),
        switch_pin_values: pin_texts(draft_mappings(s.draft)),
        ..s
    }
}

/// The editor with `p` made editable as its draft, and its fields written from it.
pub open spec fn spec_with_draft(s: SettingsView, p: PreferencesView) -> SettingsView {
    spec_sync_fields(SettingsView { draft: spec_editable(p), ..s })
}

pub open spec fn empty_preferences() -> PreferencesView {
    PreferencesView { audio: None, midi: None, switch: None, switch_available: false }
}

pub open spec fn parse_in_range(text: Seq<char>, min: u32, max: u32) -> Option<u32> {
    match spec_parse_u32(trim(text)) {
        Some(n) => if min <= n <= max {
            Some(n)
        } else {
            None
        },
        None => None,
    }
}

pub open spec fn all_pins_parse(pins: Seq<Seq<char>>) -> bool {
    forall|i: int| 0 <= i < pins.len() ==> #[trigger] spec_parse_u32(trim(pins[i])) is Some
}

/// The switch mappings with each pin read from its text.
pub open spec fn saved_mappings(mappings: Seq<SwitchMapping>, pins: Seq<Seq<char>>) -> Seq<SwitchMapping> {
    Seq::new(
        mappings.len(),
        |i: int| SwitchMapping { pin: spec_parse_u32(trim(pins[i]))->0, ..mappings[i] },
    )
}

/// What saving gives: the editor afterwards, and the preferences to save,
/// or none when a field does not hold a valid number.
pub open spec fn spec_save(s: SettingsView) -> (SettingsView, Option<PreferencesView>) {
    let cleared = SettingsView { validation_error: None, ..s };
    let sample_rate = parse_in_range(s.sample_rate, 1, 192_000);
    let buffer_size = parse_in_range(s.buffer_size, 1, 8192);
    let main = spec_parse_u32(trim(s.main_channel_offset));
    let click = spec_parse_u32(trim(s.click_channel_offset));
    if sample_rate is None || buffer_size is None || main is None || click is None {
        (cleared, None)
    } else {
        let audio = AudioPreferencesView {
            sample_rate: sample_rate->0,
            buffer_size: buffer_size->0,
            main_channel_offset: main->0,
            click_channel_offset: click->0,
            ..draft_audio(s.draft)
        };
        let mappings = draft_mappings(s.draft);
        let pins = if mappings.len() != s.switch_pin_values.len() {
            pin_texts(mappings)
        } else {
            s.switch_pin_values
        };
        let synced = SettingsView { switch_pin_values: pins, ..cleared };
        if all_pins_parse(pins) {
            (
                synced,
                Some(
                    PreferencesView {
                        audio: Some(audio),
                        switch: Some(saved_mappings(mappings, pins)),
                        ..s.draft
                    },
                ),
            )
        } else {
            (SettingsView { validation_error: Some("Switch pin must be a whole number"@), ..synced }, None)
        }
    }
}

pub open spec fn spec_has_validation_error(s: SettingsView) -> bool {
    ||| spec_validate_audio_number(s.sample_rate, AudioNumberField::SampleRate) is Some
    ||| spec_validate_audio_number(s.buffer_size, AudioNumberField::BufferSize) is Some
    ||| spec_validate_audio_number(s.main_channel_offset, AudioNumberField::MainChannelOffset) is Some
    ||| spec_validate_audio_number(s.click_channel_offset, AudioNumberField::ClickChannelOffset) is Some
    ||| !all_pins_parse(s.switch_pin_values)
}

/// The draft with the switch at `index` changed by `f`, when there is one.
pub open spec fn spec_update_mapping(d: PreferencesView, index: int, m: SwitchMapping) -> PreferencesView {
    if 0 <= index < draft_mappings(d).len() {
        PreferencesView { switch: Some(draft_mappings(d).update(index, m)), ..d }
    } else {
        d
    }
}

impl Default for SettingsUiState {
    /// A closed editor on the audio tab, with an editable empty draft.
    fn default() -> (r: Self)
        ensures
            r@ == spec_with_draft(
                SettingsView {
                    is_open: false,
                    active_tab: SettingsTab::Audio,
                    draft: empty_preferences(),
                    sample_rate: Seq::empty(),
                    buffer_size: Seq::empty(),
                    main_channel_offset: Seq::empty(),
                    click_channel_offset: Seq::empty(),
                    switch_pin_values: Seq::empty(),
                    is_saving: false,
                    validation_error: None,
                },
                empty_preferences(),
            ),
    {
        let draft = editable_preferences(Preferences::default());
        let mut state = SettingsUiState {
            is_open: false,
            active_tab: SettingsTab::Audio,
            draft,
            sample_rate: String::new(),
            buffer_size: String::new(),
            main_channel_offset: String::new(),
            click_channel_offset: String::new(),
            switch_pin_values: Vec::new(),
            is_saving: false,
            validation_error: None,
        };
        state.sync_fields_from_draft();
        state
    }
}

/// The editor opened on `preferences`: audio tab, not saving, no error.
pub open spec fn spec_open(s: SettingsView, preferences: Option<PreferencesView>) -> SettingsView {
    spec_with_draft(
        SettingsView { is_open: true, is_saving: false, validation_error: None, active_tab: SettingsTab::Audio, ..s },
        match preferences {
            Some(p) => p,
            None => empty_preferences(),
        },
    )
}

pub open spec fn spec_close(s: SettingsView) -> SettingsView {
    SettingsView { is_open: false, is_saving: false, validation_error: None, ..s }
}

pub open spec fn spec_set_audio_number(s: SettingsView, field: AudioNumberField, value: Seq<char>) -> SettingsView {
    match field {
        AudioNumberField::SampleRate => SettingsView { sample_rate: value, validation_error: None, ..s },
        AudioNumberField::BufferSize => SettingsView { buffer_size: value, validation_error: None, ..s },
        AudioNumberField::MainChannelOffset => SettingsView { main_channel_offset: value, validation_error: None, ..s },
        AudioNumberField::ClickChannelOffset => SettingsView { click_channel_offset: value, validation_error: None, ..s },
    }
}

pub open spec fn spec_set_audio_device(s: SettingsView, option: AudioDeviceOptionView) -> SettingsView {
    SettingsView {
        draft: PreferencesView {
            audio: Some(
                AudioPreferencesView {
                    output_device: match option {
                        AudioDeviceOptionView::Default => Seq::empty(),
                        AudioDeviceOptionView::Device { id, .. } => id,
                    },
                    ..draft_audio(s.draft)
                },
            ),
            ..s.draft
        },
        ..s
    }
}

pub open spec fn spec_set_sample_rate(s: SettingsView, rate: u32) -> SettingsView {
    SettingsView { sample_rate: decimal(rate as nat), ..s }
}

pub open spec fn spec_set_use_jack(s: SettingsView, use_jack: bool) -> SettingsView {
    SettingsView {
        draft: PreferencesView { audio: Some(AudioPreferencesView { use_jack, ..draft_audio(s.draft) }), ..s.draft },
        ..s
    }
}

pub open spec fn spec_set_midi_port_enabled(s: SettingsView, port_name: Seq<char>, enabled: bool) -> SettingsView {
    SettingsView {
        draft: PreferencesView {
            midi: Some(
                MidiPreferencesView {
                    enabled_devices: spec_set_midi_enabled(
                        opt_or(s.draft.midi, empty_midi_preferences()).enabled_devices,
                        port_name,
                        enabled,
                    ),
                    ..opt_or(s.draft.midi, empty_midi_preferences())
                },
            ),
            ..s.draft
        },
        ..s
    }
}

pub open spec fn spec_add_switch_mapping(s: SettingsView) -> SettingsView {
    spec_sync_fields(
        SettingsView {
            draft: PreferencesView {
                switch: Some(draft_mappings(s.draft).push(spec_default_switch_mapping())),
                ..s.draft
            },
            ..s
        },
    )
}

pub open spec fn spec_remove_switch_mapping(s: SettingsView, index: int) -> SettingsView {
    spec_sync_fields(
        SettingsView {
            draft: PreferencesView {
                switch: Some(
                    if 0 <= index < draft_mappings(s.draft).len() {
                        draft_mappings(s.draft).remove(index)
                    } else {
                        draft_mappings(s.draft)
                    },
                ),
                ..s.draft
            },
            ..s
        },
    )
}

pub open spec fn spec_set_switch_number(s: SettingsView, index: int, value: Seq<char>) -> SettingsView {
    SettingsView {
        switch_pin_values: if 0 <= index < s.switch_pin_values.len() {
            s.switch_pin_values.update(index, value)
        } else {
            s.switch_pin_values
        },
        validation_error: None,
        ..s
    }
}

pub open spec fn spec_set_switch_gesture(s: SettingsView, index: int, gesture: Gesture) -> SettingsView {
    SettingsView {
        draft: spec_update_mapping(s.draft, index, SwitchMapping { gesture, ..draft_mappings(s.draft)[index] }),
        ..s
    }
}

pub open spec fn spec_set_switch_action(s: SettingsView, index: int, action: Action) -> SettingsView {
    SettingsView {
        draft: spec_update_mapping(s.draft, index, SwitchMapping { action, ..draft_mappings(s.draft)[index] }),
        ..s
    }
}

impl SettingsUiState {
    /// Opens the editor on the audio tab with `preferences` (or empty ones) as the draft.
    pub fn open(&mut self, preferences: Option<Preferences>)
        ensures
            final(self)@ == spec_open(
                old(self)@,
                match preferences {
                    Some(p) => Some(p@),
                    None => None,
                },
            ),
    {
        self.is_open = true;
        self.is_saving = false;
        self.validation_error = None;
        self.active_tab = SettingsTab::Audio;
        let preferences = match preferences {
            Some(p) => p,
            None => Preferences::default(),
        };
        proof {
            lemma_editable_idempotent(preferences@);
        }
        self.set_draft(editable_preferences(preferences));
    }

    /// Closes the editor.
    pub fn close(&mut self)
        ensures
            final(self)@ == spec_close(old(self)@),
    {
        self.is_open = false;
        self.is_saving = false;
        self.validation_error = None;
    }

    /// Makes `preferences` the draft and rewrites the fields from it.
    pub fn set_draft(&mut self, preferences: Preferences)
        ensures
            final(self)@ == spec_with_draft(old(self)@, preferences@),
    {
        self.draft = editable_preferences(preferences);
        self.sync_fields_from_draft();
    }

    /// Reads the fields; on success gives the draft with them applied.
    #[verifier::loop_isolation(false)]
    pub fn draft_preferences_for_save(&mut self) -> (r: Option<Preferences>)
        ensures
            (final(self)@, match r {
                Some(p) => Some(p@),
                None => None,
            }) == spec_save(old(self)@),
    {
        let ghost s0 = self@;
        self.validation_error = None;
        let sample_rate = match parse_u32_in_range(self.sample_rate.as_str(), 1, 192_000, "Sample rate") {
            Some(n) => n,
            None => return None,
        };
        let buffer_size = match parse_u32_in_range(self.buffer_size.as_str(), 1, 8192, "Buffer size") {
            Some(n) => n,
            None => return None,
        };
        let main_channel_offset = match parse_u32(self.main_channel_offset.as_str(), "Main channel offset") {
            Some(n) => n,
            None => return None,
        };
        let click_channel_offset = match parse_u32(self.click_channel_offset.as_str(), "Click channel offset") {
            Some(n) => n,
            None => return None,
        };
        let mut preferences = self.draft.clone();
        let mut audio = match preferences.audio.take() {
            Some(a) => a,
            None => default_audio_preferences(),
        };
        audio.sample_rate = sample_rate;
        audio.buffer_size = buffer_size;
        audio.main_channel_offset = main_channel_offset;
        audio.click_channel_offset = click_channel_offset;
        preferences.audio = Some(audio);
        let mut switch = match preferences.switch.take() {
            Some(s) => s,
            None => SwitchPreferences::default(),
        };
        if switch.mappings.len() != self.switch_pin_values.len() {
            self.sync_switch_pin_values(&switch);
        }
        let ghost mappings = switch.mappings@;
        let ghost pins = strings_view(self.switch_pin_values@);
        assert(mappings == draft_mappings(s0.draft));
        assert(pins == (if mappings.len() != s0.switch_pin_values.len() {
            pin_texts(mappings)
        } else {
            s0.switch_pin_values
        }));
        let ghost synced = SettingsView { switch_pin_values: pins, validation_error: None, ..s0 };
        assert(self@ == synced);
        let ghost audio_view = AudioPreferencesView {
            sample_rate: sample_rate,
            buffer_size: buffer_size,
            main_channel_offset: main_channel_offset,
            click_channel_offset: click_channel_offset,
            ..draft_audio(s0.draft)
        };
        assert(preferences@ == PreferencesView { audio: Some(audio_view), switch: None, ..s0.draft });
        let mut index: usize = 0;
        while index < self.switch_pin_values.len()
            invariant
                index <= self.switch_pin_values@.len(),
                pins == strings_view(self.switch_pin_values@),
                self@ == synced,
                mappings.len() == pins.len(),
                switch.mappings@.len() == mappings.len(),
                forall|j: int| 0 <= j < index ==> #[trigger] spec_parse_u32(trim(pins[j])) is Some,
                forall|j: int|
                    0 <= j < mappings.len() ==> #[trigger] switch.mappings@[j] == (if j < index {
                        SwitchMapping { pin: spec_parse_u32(trim(pins[j]))->0, ..mappings[j] }
                    } else {
                        mappings[j]
                    }),
            decreases self.switch_pin_values@.len() - index,
        {
            match parse_u32(self.switch_pin_values[index].as_str(), "Switch pin") {
                Some(pin) => {
                    let mut mapping = switch.mappings[index];
                    mapping.pin = pin;
                    switch.mappings.set(index, mapping);
                },
                None => {
                    self.validation_error = Some(String::from_str("Switch pin must be a whole number"));
                    assert(pins[index as int] == self.switch_pin_values@[index as int]@);
                    assert(spec_parse_u32(trim(pins[index as int])) is None);
                    assert(!all_pins_parse(pins));
                    assert(self@ == SettingsView {
                        validation_error: Some("Switch pin must be a whole number"@),
                        ..synced
                    });
                    return None;
                },
            }
            index = index + 1;
        }
        assert(switch.mappings@ =~= saved_mappings(mappings, pins));
        assert(all_pins_parse(pins));
        preferences.switch = Some(switch);
        assert(preferences@ == PreferencesView {
            audio: Some(audio_view),
            switch: Some(saved_mappings(mappings, pins)),
            ..s0.draft
        });
        Some(preferences)
    }

    /// Sets the text of an audio number field and clears the error.
    pub fn set_audio_number(&mut self, field: AudioNumberField, value: String)
        ensures
            final(self)@ == spec_set_audio_number(old(self)@, field, value@),
    {
        match field {
            AudioNumberField::SampleRate => self.sample_rate = value,
            AudioNumberField::BufferSize => self.buffer_size = value,
            AudioNumberField::MainChannelOffset => self.main_channel_offset = value,
            AudioNumberField::ClickChannelOffset => self.click_channel_offset = value,
        }
        self.validation_error = None;
    }

    /// Chooses the output device: none for the system default, else the device's id.
    pub fn set_audio_device(&mut self, option: AudioDeviceOption)
        ensures
            final(self)@ == spec_set_audio_device(old(self)@, option@),
    {
        let mut audio = match self.draft.audio.take() {
            Some(a) => a,
            None => default_audio_preferences(),
        };
        audio.output_device = match option {
            AudioDeviceOption::Default => String::new(),
            AudioDeviceOption::Device { id, .. } => id,
        };
        self.draft.audio = Some(audio);
    }

    /// Writes the chosen rate into the sample rate field.
    pub fn set_sample_rate(&mut self, option: SampleRateOption)
        ensures
            final(self)@ == spec_set_sample_rate(old(self)@, option.0),
    {
        self.sample_rate = u32_to_decimal(option.0);
    }

    pub fn set_use_jack(&mut self, use_jack: bool)
        ensures
            final(self)@ == spec_set_use_jack(old(self)@, use_jack),
    {
        let mut audio = match self.draft.audio.take() {
            Some(a) => a,
            None => default_audio_preferences(),
        };
        audio.use_jack = use_jack;
        self.draft.audio = Some(audio);
    }

    /// Switches a MIDI port on or off in the draft.
    pub fn set_midi_port_enabled(&mut self, port_name: String, enabled: bool)
        ensures
            final(self)@ == spec_set_midi_port_enabled(old(self)@, port_name@, enabled),
    {
        let mut midi = match self.draft.midi.take() {
            Some(m) => m,
            None => default_midi_preferences(),
        };
        set_midi_enabled_device(&mut midi, port_name, enabled);
        self.draft.midi = Some(midi);
    }

    /// Adds a switch with the default mapping and rewrites the fields.
    pub fn add_switch_mapping(&mut self)
        ensures
            final(self)@ == spec_add_switch_mapping(old(self)@),
    {
        let mut switch = match self.draft.switch.take() {
            Some(s) => s,
            None => SwitchPreferences::default(),
        };
        switch.mappings.push(default_switch_mapping());
        self.draft.switch = Some(switch);
        self.sync_fields_from_draft();
    }

    /// Removes the switch at `index`, if there is one, and rewrites the fields.
    pub fn remove_switch_mapping(&mut self, index: usize)
        ensures
            final(self)@ == spec_remove_switch_mapping(old(self)@, index as int),
    {
        let mut switch = match self.draft.switch.take() {
            Some(s) => s,
            None => SwitchPreferences::default(),
        };
        if index < switch.mappings.len() {
            switch.mappings.remove(index);
        }
        self.draft.switch = Some(switch);
        self.sync_fields_from_draft();
    }

    /// Sets the pin text of the switch at `index`, if there is one, and clears the error.
    pub fn set_switch_number(&mut self, index: usize, field: SwitchNumberField, value: String)
        ensures
            final(self)@ == spec_set_switch_number(old(self)@, index as int, value@),
    {
        match field {
            SwitchNumberField::Pin => {
                if index < self.switch_pin_values.len() {
                    let ghost before = self.switch_pin_values@;
                    self.switch_pin_values.set(index, value);
                    assert(strings_view(self.switch_pin_values@) =~= strings_view(before).update(
                        index as int,
                        value@,
                    ));
                }
            },
        }
        self.validation_error = None;
    }

    /// Binds the switch at `index`, if there is one, to `gesture`.
    pub fn set_switch_gesture(&mut self, index: usize, gesture: GestureOption)
        ensures
            final(self)@ == spec_set_switch_gesture(old(self)@, index as int, gesture.0),
    {
        self.update_switch_mapping(index, Some(gesture.0), None);
    }

    /// Binds the switch at `index`, if there is one, to `action`.
    pub fn set_switch_action(&mut self, index: usize, action: ActionOption)
        ensures
            final(self)@ == spec_set_switch_action(old(self)@, index as int, action.0),
    {
        self.update_switch_mapping(index, None, Some(action.0));
    }

    /// Whether a field holds text that cannot be saved.
    pub fn has_validation_error(&self) -> (r: bool)
        ensures
            r == spec_has_validation_error(self@),
    {
        if validate_audio_number(self.sample_rate.as_str(), AudioNumberField::SampleRate).is_some() {
            return true;
        }
        if validate_audio_number(self.buffer_size.as_str(), AudioNumberField::BufferSize).is_some() {
            return true;
        }
        if validate_audio_number(self.main_channel_offset.as_str(), AudioNumberField::MainChannelOffset).is_some() {
            return true;
        }
        if validate_audio_number(self.click_channel_offset.as_str(), AudioNumberField::ClickChannelOffset).is_some() {
            return true;
        }
        let ghost pins = strings_view(self.switch_pin_values@);
        let mut i: usize = 0;
        while i < self.switch_pin_values.len()
            invariant
                i <= self.switch_pin_values@.len(),
                pins == strings_view(self.switch_pin_values@),
                forall|j: int| 0 <= j < i ==> #[trigger] spec_parse_u32(trim(pins[j])) is Some,
            decreases self.switch_pin_values@.len() - i,
        {
            if parse_u32(self.switch_pin_values[i].as_str(), "Switch pin").is_none() {
                assert(spec_parse_u32(trim(pins[i as int])) is None);
                return true;
            }
            i = i + 1;
        }
        false
    }

    /// Changes the gesture or action of the switch at `index`, making the
    /// switch preferences present when it does.
    fn update_switch_mapping(&mut self, index: usize, gesture: Option<Gesture>, action: Option<Action>)
        ensures
            final(self)@ == (SettingsView {
                draft: spec_update_mapping(
                    old(self)@.draft,
                    index as int,
                    SwitchMapping {
                        gesture: opt_or(gesture, draft_mappings(old(self)@.draft)[index as int].gesture),
                        action: opt_or(action, draft_mappings(old(self)@.draft)[index as int].action),
                        ..draft_mappings(old(self)@.draft)[index as int]
                    },
                ),
                ..old(self)@
            }),
    {
        let was_present = self.draft.switch.is_some();
        let mut switch = match self.draft.switch.take() {
            Some(s) => s,
            None => SwitchPreferences::default(),
        };
        if index < switch.mappings.len() {
            let mut mapping = switch.mappings[index];
            match gesture {
                Some(g) => mapping.gesture = g,
                None => {},
            }
            match action {
                Some(a) => mapping.action = a,
                None => {},
            }
            switch.mappings.set(index, mapping);
            self.draft.switch = Some(switch);
        } else if was_present {
            self.draft.switch = Some(switch);
        }
    }

    /// Writes the text fields from the draft.
    fn sync_fields_from_draft(&mut self)
        ensures
            final(self)@ == spec_sync_fields(old(self)@),
    {
        let audio = match &self.draft.audio {
            Some(a) => a.clone(),
            None => default_audio_preferences(),
        };
        self.sample_rate = u32_to_decimal(audio.sample_rate);
        self.buffer_size = u32_to_decimal(audio.buffer_size);
        self.main_channel_offset = u32_to_decimal(audio.main_channel_offset);
        self.click_channel_offset = u32_to_decimal(audio.click_channel_offset);
        let switch = match &self.draft.switch {
            Some(s) => s.clone(),
            None => SwitchPreferences::default(),
        };
        self.sync_switch_pin_values(&switch);
    }

    /// Writes the pin fields from the switch mappings.
    fn sync_switch_pin_values(&mut self, switch: &SwitchPreferences)
        ensures
            final(self)@ == (SettingsView { switch_pin_values: pin_texts(switch@), ..old(self)@ }),
    {
        let mut values: Vec<String> = Vec::new();
        let mut i: usize = 0;
        while i < switch.mappings.len()
            invariant
                i <= switch.mappings@.len(),
                strings_view(values@) == pin_texts(switch@).take(i as int),
            decreases switch.mappings@.len() - i,
        {
            let ghost before = values@;
            values.push(u32_to_decimal(switch.mappings[i].pin));
            assert(strings_view(values@) =~= strings_view(before).push(decimal(switch@[i as int].pin as nat)));
            assert(pin_texts(switch@).take(i + 1) =~= pin_texts(switch@).take(i as int).push(
                decimal(switch@[i as int].pin as nat),
            ));
            i = i + 1;
        }
        assert(pin_texts(switch@).take(i as int) =~= pin_texts(switch@));
        self.switch_pin_values = values;
    }
}

} // verus!
