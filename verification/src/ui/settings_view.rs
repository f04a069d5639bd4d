//! What the settings panel shows: its tabs, the audio controls with their
//! choices and errors, the engine's status line, the MIDI ports and the
//! switch mappings.

use crate::device_option::{
    audio_device_options, device_option, options_view, sample_rate_candidates, sample_rate_options,
    selected_device_option, spec_selected_device_option, strictly_increasing, AudioDeviceOption,
    AudioDeviceOptionView,
};
use crate::messages::{
    devices_view, empty_midi_preferences, strings_view, AudioDevices, AudioDeviceView, AudioEngineStatus,
    AudioStatus, MidiDevices, Preferences,
};
use crate::preferences::{default_audio_preferences, opt_or};
use crate::settings::{
    contains_string, draft_audio, draft_mappings, spec_has_validation_error, spec_validate_audio_number,
    validate_audio_number, ActionOption, AudioNumberField, GestureOption, SampleRateOption, SettingsUiState,
};
use crate::text::{decimal, parse_u32_plain, spec_parse_u32, u32_to_decimal, u64_to_decimal};
use vstd::prelude::*;
use vstd::string::StringExecFns;

verus! {

pub open spec fn opt_text(o: Option<String>) -> Option<Seq<char>> {
    match o {
        Some(s) => Some(s@),
        None => None,
    }
}

/// The frame of the panel: whether the switches tab is offered (as the
/// server says where it has said, else as the draft says), whether saving is
/// possible, and the error to show.
#[derive(Debug)]
pub struct SettingsPanelModel {
    pub show_switches_tab: bool,
    pub save_enabled: bool,
    pub error: Option<String>,
}

pub fn settings_panel(settings: &SettingsUiState, preferences: Option<&Preferences>) -> (r: SettingsPanelModel)
    ensures
        r.show_switches_tab == match preferences {
            Some(p) => p.switch_available,
            None => settings@.draft.switch_available,
        },
        r.save_enabled == !(settings@.is_saving || spec_has_validation_error(settings@)),
        opt_text(r.error) == settings@.validation_error,
{
    let show_switches_tab = match preferences {
        Some(p) => p.switch_available,
        None => settings.draft.switch_available,
    };
    let save_enabled = !(settings.is_saving || settings.has_validation_error());
    let error = match &settings.validation_error {
        Some(e) => Some(e.clone()),
        None => None,
    };
    SettingsPanelModel { show_switches_tab, save_enabled, error }
}

/// The audio tab: the output devices to choose from and the chosen one, the
/// sample rates to choose from and the one the field names, the error of
/// each number field, and whether JACK is used.
#[derive(Debug)]
pub struct AudioTabModel {
    pub device_options: Vec<AudioDeviceOption>,
    pub selected_device: AudioDeviceOption,
    pub sample_rate_options: Vec<SampleRateOption>,
    pub selected_sample_rate: Option<SampleRateOption>,
    pub sample_rate_error: Option<String>,
    pub buffer_size_error: Option<String>,
    pub main_channel_offset_error: Option<String>,
    pub click_channel_offset_error: Option<String>,
    pub use_jack: bool,
}

pub open spec fn device_options_for(audio_devices: Option<Seq<AudioDeviceView>>) -> Seq<AudioDeviceOptionView> {
    seq![AudioDeviceOptionView::Default] + (match audio_devices {
        Some(ds) => ds.map_values(|d: AudioDeviceView| device_option(d)),
        None => Seq::empty(),
    })
}

pub fn audio_tab(
    settings: &SettingsUiState,
    audio_devices: Option<&AudioDevices>,
    audio_status: Option<&AudioStatus>,
) -> (r: AudioTabModel)
    ensures
        ({
            let audio = draft_audio(settings@.draft);
            let devices = match audio_devices {
                Some(ds) => Some(devices_view(ds.devices@)),
                None => None,
            };
            let options = device_options_for(devices);
            let rates = r.sample_rate_options@.map_values(|o: SampleRateOption| o.0);
            let candidates = sample_rate_candidates(
                audio,
                devices,
                match audio_status {
                    Some(st) => Some(st.current_sample_rate),
                    None => None,
                },
            );
            &&& options_view(r.device_options@) == options
            &&& r.selected_device@ == spec_selected_device_option(audio.output_device, options)
            &&& strictly_increasing(rates)
            &&& forall|x: u32| #[trigger] rates.contains(x) <==> candidates.contains(x)
            &&& r.selected_sample_rate == match spec_parse_u32(settings@.sample_rate) {
                Some(n) => Some(SampleRateOption(n)),
                None => None,
            }
            &&& opt_text(r.sample_rate_error) == spec_validate_audio_number(
                settings@.sample_rate,
                AudioNumberField::SampleRate,
            )
            &&& opt_text(r.buffer_size_error) == spec_validate_audio_number(
                settings@.buffer_size,
                AudioNumberField::BufferSize,
            )
            &&& opt_text(r.main_channel_offset_error) == spec_validate_audio_number(
                settings@.main_channel_offset,
                AudioNumberField::MainChannelOffset,
            )
            &&& opt_text(r.click_channel_offset_error) == spec_validate_audio_number(
                settings@.click_channel_offset,
                AudioNumberField::ClickChannelOffset,
            )
            &&& r.use_jack == audio.use_jack
        }),
{
    let audio = match &settings.draft.audio {
        Some(a) => a.clone(),
        None => default_audio_preferences(),
    };
    let device_options = audio_device_options(audio_devices);
    let selected_device = selected_device_option(&audio, device_options.as_slice());
    let rate_options = sample_rate_options(&audio, audio_devices, audio_status);
    let selected_sample_rate = match parse_u32_plain(settings.sample_rate.as_str()) {
        Some(n) => Some(SampleRateOption(n)),
        None => None,
    };
    AudioTabModel {
        device_options,
        selected_device,
        sample_rate_options: rate_options,
        selected_sample_rate,
        sample_rate_error: validate_audio_number(settings.sample_rate.as_str(), AudioNumberField::SampleRate),
        buffer_size_error: validate_audio_number(settings.buffer_size.as_str(), AudioNumberField::BufferSize),
        main_channel_offset_error: validate_audio_number(
            settings.main_channel_offset.as_str(),
            AudioNumberField::MainChannelOffset,
        ),
        click_channel_offset_error: validate_audio_number(
            settings.click_channel_offset.as_str(),
            AudioNumberField::ClickChannelOffset,
        ),
        use_jack: audio.use_jack,
    }
}

/// The engine's status as the audio tab shows it: a headline, a line of
/// details, and the failure's reason where there is one.
#[derive(Debug)]
pub struct AudioStatusSummary {
    pub label: String,
    pub details: Option<String>,
    pub error: Option<String>,
}

pub open spec fn engine_label(status: AudioEngineStatus) -> Seq<char> {
    match status {
        AudioEngineStatus::AUDIO_ENGINE_RUNNING => "Audio engine running"@,
        AudioEngineStatus::AUDIO_ENGINE_STOPPED => "Audio engine stopped"@,
        AudioEngineStatus::AUDIO_ENGINE_FAILED => "Audio engine failed"@,
    }
}

/// "device · rate Hz · count channels · buffer size", the device being the
/// system default where the status names none.
pub open spec fn status_details(status: AudioStatus) -> Seq<char> {
    (if status.current_device_name@.len() == 0 {
        "System Default"@
    } else {
        status.current_device_name@
    }) + " \u{b7} "@ + decimal(status.current_sample_rate as nat) + " Hz \u{b7} "@ + decimal(
        status.current_channel_count as nat,
    ) + " channels \u{b7} buffer "@ + decimal(status.current_buffer_size as nat)
}

pub fn audio_status_summary(status: Option<&AudioStatus>) -> (r: AudioStatusSummary)
    ensures
        match status {
            None => r.label@ == "Audio status unavailable"@ && r.details is None && r.error is None,
            Some(st) => {
                &&& r.label@ == engine_label(st.engine_status)
                &&& opt_text(r.details) == Some(status_details(*st))
                &&& opt_text(r.error) == if st.error@.len() == 0 {
                    None
                } else {
                    Some(st.error@)
                }
            },
        },
{
    let status = match status {
        Some(st) => st,
        None => {
            return AudioStatusSummary {
                label: String::from_str("Audio status unavailable"),
                details: None,
                error: None,
            }
        },
    };
    let label = match status.engine_status {
        AudioEngineStatus::AUDIO_ENGINE_RUNNING => String::from_str("Audio engine running"),
        AudioEngineStatus::AUDIO_ENGINE_STOPPED => String::from_str("Audio engine stopped"),
        AudioEngineStatus::AUDIO_ENGINE_FAILED => String::from_str("Audio engine failed"),
    };
    let mut details = if status.current_device_name.unicode_len() == 0 {
        String::from_str("System Default")
    } else {
        status.current_device_name.clone()
    };
    details.append(" \u{b7} ");
    details.append(u32_to_decimal(status.current_sample_rate).as_str());
    details.append(" Hz \u{b7} ");
    details.append(u32_to_decimal(status.current_channel_count).as_str());
    details.append(" channels \u{b7} buffer ");
    details.append(u32_to_decimal(status.current_buffer_size).as_str());
    let error = if status.error.unicode_len() == 0 {
        None
    } else {
        Some(status.error.clone())
    };
    AudioStatusSummary { label, details: Some(details), error }
}

/// One MIDI port of the MIDI tab, checked when the draft enables it.
#[derive(Debug)]
pub struct MidiPortRow {
    pub port_name: String,
    pub enabled: bool,
}

/// The MIDI tab's rows, one per port, in port order (none: "No MIDI
/// devices found").
pub fn midi_port_rows(settings: &SettingsUiState, midi_devices: Option<&MidiDevices>) -> (r: Vec<MidiPortRow>)
    ensures
        ({
            let ports = match midi_devices {
                Some(m) => m@,
                None => Seq::empty(),
            };
            let enabled = opt_or(settings@.draft.midi, empty_midi_preferences()).enabled_devices;
            &&& r@.len() == ports.len()
            &&& forall|k: int|
                0 <= k < ports.len() ==> (#[trigger] r@[k]).port_name@ == ports[k] && r@[k].enabled
                    == enabled.contains(ports[k])
        }),
{
    let mut rows: Vec<MidiPortRow> = Vec::new();
    let empty: Vec<String> = Vec::new();
    let enabled_devices = match &settings.draft.midi {
        Some(m) => &m.enabled_devices,
        None => &empty,
    };
    assert(strings_view(enabled_devices@) == opt_or(settings@.draft.midi, empty_midi_preferences()).enabled_devices)
        by {
        if settings@.draft.midi is None {
            assert(strings_view(empty@) =~= Seq::<Seq<char>>::empty());
        }
    }
    match midi_devices {
        Some(devices) => {
            let mut i: usize = 0;
            while i < devices.port_names.len()
                invariant
                    i <= devices.port_names@.len(),
                    rows@.len() == i,
                    strings_view(enabled_devices@) == opt_or(settings@.draft.midi, empty_midi_preferences()).enabled_devices,
                    forall|k: int|
                        0 <= k < i ==> (#[trigger] rows@[k]).port_name@ == devices@[k] && rows@[k].enabled
                            == strings_view(enabled_devices@).contains(devices@[k]),
                decreases devices.port_names@.len() - i,
            {
                let name = devices.port_names[i].clone();
                let enabled = contains_string(enabled_devices, &name);
                rows.push(MidiPortRow { port_name: name, enabled });
                i = i + 1;
            }
        },
        None => {},
    }
    rows
}

/// One switch mapping of the switches tab: its title, the text of its pin
/// field, and its gesture and action.
#[derive(Debug)]
pub struct SwitchMappingRow {
    pub index: usize,
    pub title: String,
    pub pin: String,
    pub gesture: GestureOption,
    pub action: ActionOption,
}

/// The switches tab's rows, one per mapping of the draft (none: "No switch
/// mappings configured").
pub fn switch_mapping_rows(settings: &SettingsUiState) -> (r: Vec<SwitchMappingRow>)
    ensures
        ({
            let mappings = draft_mappings(settings@.draft);
            let pins = settings@.switch_pin_values;
            &&& r@.len() == mappings.len()
            &&& forall|k: int|
                0 <= k < mappings.len() ==> {
                    &&& (#[trigger] r@[k]).index == k
                    &&& r@[k].title@ == "Mapping "@ + decimal((k + 1) as nat)
                    &&& r@[k].pin@ == if k < pins.len() {
                        pins[k]
                    } else {
                        Seq::empty()
                    }
                    &&& r@[k].gesture == GestureOption(mappings[k].gesture)
                    &&& r@[k].action == ActionOption(mappings[k].action)
                }
        }),
{
    let mut rows: Vec<SwitchMappingRow> = Vec::new();
    match &settings.draft.switch {
        Some(switch) => {
            let mut i: usize = 0;
            while i < switch.mappings.len()
                invariant
                    i <= switch.mappings@.len(),
                    settings@.draft.switch == Some(switch@),
                    rows@.len() == i,
                    forall|k: int|
                        0 <= k < i ==> {
                            &&& (#[trigger] rows@[k]).index == k
                            &&& rows@[k].title@ == "Mapping "@ + decimal((k + 1) as nat)
                            &&& rows@[k].pin@ == if k < settings@.switch_pin_values.len() {
                                settings@.switch_pin_values[k]
                            } else {
                                Seq::empty()
                            }
                            &&& rows@[k].gesture == GestureOption(switch@[k].gesture)
                            &&& rows@[k].action == ActionOption(switch@[k].action)
                        },
                decreases switch.mappings@.len() - i,
            {
                let mapping = switch.mappings[i];
                let mut title = String::from_str("Mapping ");
                title.append(u64_to_decimal(i as u64 + 1).as_str());
                let pin = if i < settings.switch_pin_values.len() {
                    settings.switch_pin_values[i].clone()
                } else {
                    String::new()
                };
                rows.push(
                    SwitchMappingRow {
                        index: i,
                        title,
                        pin,
                        gesture: GestureOption(mapping.gesture),
                        action: ActionOption(mapping.action),
                    },
                );
                i = i + 1;
            }
        },
        None => {},
    }
    rows
}

} // verus!
