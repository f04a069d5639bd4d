//! The messages the server and its clients exchange, and the preferences
//! they carry, as plain values.

use vstd::prelude::*;

verus! {

/// What a request reads or selects.
#[allow(non_camel_case_types)]
#[derive(Debug, Clone, Copy, PartialEq, Eq, Structural)]
pub enum Entity {
    ALL,
    PROJECT,
    PROJECTS,
    SONG,
    SECTION,
    WAVEFORM,
    PREFERENCES,
    AUDIO_DEVICES,
    AUDIO_STATUS,
    MIDI_DEVICES,
}

/// A switch or MIDI gesture.
#[allow(non_camel_case_types)]
#[derive(Debug, Clone, Copy, PartialEq, Eq, Structural)]
pub enum Gesture {
    GESTURE_UNKNOWN,
    GESTURE_PRESS,
    GESTURE_RELEASE,
    GESTURE_HOLD,
}

impl Default for Gesture {
    fn default() -> (r: Self)
        ensures
            r == Gesture::GESTURE_UNKNOWN,
    {
        Gesture::GESTURE_UNKNOWN
    }
}

/// What a switch or a MIDI control does.
#[allow(non_camel_case_types)]
#[derive(Debug, Clone, Copy, PartialEq, Eq, Structural)]
pub enum Action {
    ACTION_UNKNOWN,
    ACTION_PREVIOUS_SONG,
    ACTION_NEXT_SONG,
    ACTION_PREVIOUS_SECTION,
    ACTION_NEXT_SECTION,
    ACTION_QUEUE_SELECTED,
    ACTION_TOGGLE_LOOP,
    ACTION_TOGGLE_PLAY,
}

impl Default for Action {
    fn default() -> (r: Self)
        ensures
            r == Action::ACTION_UNKNOWN,
    {
        Action::ACTION_UNKNOWN
    }
}

/// Audio output preferences.
#[derive(Debug)]
pub struct AudioPreferences {
    pub output_device: String,
    pub sample_rate: u32,
    pub buffer_size: u32,
    pub output_channel_count: u32,
    pub use_jack: bool,
    pub main_channel_offset: u32,
    pub click_channel_offset: u32,
}

pub struct AudioPreferencesView {
    pub output_device: Seq<char>,
    pub sample_rate: u32,
    pub buffer_size: u32,
    pub output_channel_count: u32,
    pub use_jack: bool,
    pub main_channel_offset: u32,
    pub click_channel_offset: u32,
}

impl View for AudioPreferences {
    type V = AudioPreferencesView;

    open spec fn view(&self) -> AudioPreferencesView {
        AudioPreferencesView {
            output_device: self.output_device@,
            sample_rate: self.sample_rate,
            buffer_size: self.buffer_size,
            output_channel_count: self.output_channel_count,
            use_jack: self.use_jack,
            main_channel_offset: self.main_channel_offset,
            click_channel_offset: self.click_channel_offset,
        }
    }
}

impl Clone for AudioPreferences {
    fn clone(&self) -> (r: Self)
        ensures
            r@ == self@,
    {
        AudioPreferences {
            output_device: self.output_device.clone(),
            sample_rate: self.sample_rate,
            buffer_size: self.buffer_size,
            output_channel_count: self.output_channel_count,
            use_jack: self.use_jack,
            main_channel_offset: self.main_channel_offset,
            click_channel_offset: self.click_channel_offset,
        }
    }
}

impl Default for AudioPreferences {
    /// Every field empty, zero or false.
    fn default() -> (r: Self)
        ensures
            r@ == (AudioPreferencesView {
                output_device: Seq::empty(),
                sample_rate: 0,
                buffer_size: 0,
                output_channel_count: 0,
                use_jack: false,
                main_channel_offset: 0,
                click_channel_offset: 0,
            }),
    {
        AudioPreferences {
            output_device: String::new(),
            sample_rate: 0,
            buffer_size: 0,
            output_channel_count: 0,
            use_jack: false,
            main_channel_offset: 0,
            click_channel_offset: 0,
        }
    }
}

pub open spec fn strings_view(v: Seq<String>) -> Seq<Seq<char>> {
    v.map_values(|s: String| s@)
}

/// A copy of a list of strings.
pub fn clone_strings(v: &Vec<String>) -> (r: Vec<String>)
    ensures
        strings_view(r@) == strings_view(v@),
{
    let mut r: Vec<String> = Vec::new();
    let mut i: usize = 0;
    while i < v.len()
        invariant
            i <= v@.len(),
            r@.len() == i,
            forall|j: int| 0 <= j < i ==> #[trigger] r@[j]@ == v@[j]@,
        decreases v@.len() - i,
    {
        r.push(v[i].clone());
        i = i + 1;
    }
    assert(strings_view(r@) =~= strings_view(v@));
    r
}

/// The MIDI ports that are enabled, by name or pattern, and the input
/// device to connect to (empty for the built-in default).
#[derive(Debug)]
pub struct MidiPreferences {
    pub enabled_devices: Vec<String>,
    pub input_device: String,
}

pub struct MidiPreferencesView {
    pub enabled_devices: Seq<Seq<char>>,
    pub input_device: Seq<char>,
}

pub open spec fn empty_midi_preferences() -> MidiPreferencesView {
    MidiPreferencesView { enabled_devices: Seq::empty(), input_device: Seq::empty() }
}

impl View for MidiPreferences {
    type V = MidiPreferencesView;

    open spec fn view(&self) -> MidiPreferencesView {
        MidiPreferencesView { enabled_devices: strings_view(self.enabled_devices@), input_device: self.input_device@ }
    }
}

impl Clone for MidiPreferences {
    fn clone(&self) -> (r: Self)
        ensures
            r@ == self@,
    {
        MidiPreferences {
            enabled_devices: clone_strings(&self.enabled_devices),
            input_device: self.input_device.clone(),
        }
    }
}

impl Default for MidiPreferences {
    fn default() -> (r: Self)
        ensures
            r@ == empty_midi_preferences(),
    {
        let r = MidiPreferences { enabled_devices: Vec::new(), input_device: String::new() };
        assert(r@.enabled_devices =~= Seq::<Seq<char>>::empty());
        r
    }
}

/// A foot switch on a GPIO pin, bound to an action for a gesture.
#[derive(Debug, Clone, Copy, PartialEq, Eq, Structural)]
pub struct SwitchMapping {
    pub pin: u32,
    pub gesture: Gesture,
    pub action: Action,
}

impl Default for SwitchMapping {
    fn default() -> (r: Self)
        ensures
            r == (SwitchMapping { pin: 0, gesture: Gesture::GESTURE_UNKNOWN, action: Action::ACTION_UNKNOWN }),
    {
        SwitchMapping { pin: 0, gesture: Gesture::GESTURE_UNKNOWN, action: Action::ACTION_UNKNOWN }
    }
}

#[derive(Debug)]
pub struct SwitchPreferences {
    pub mappings: Vec<SwitchMapping>,
}

impl View for SwitchPreferences {
    type V = Seq<SwitchMapping>;

    open spec fn view(&self) -> Seq<SwitchMapping> {
        self.mappings@
    }
}

impl Clone for SwitchPreferences {
    fn clone(&self) -> (r: Self)
        ensures
            r@ == self@,
    {
        let mut mappings: Vec<SwitchMapping> = Vec::new();
        let mut i: usize = 0;
        while i < self.mappings.len()
            invariant
                i <= self.mappings@.len(),
                mappings@ == self.mappings@.subrange(0, i as int),
            decreases self.mappings@.len() - i,
        {
            mappings.push(self.mappings[i]);
            assert(mappings@ =~= self.mappings@.subrange(0, i + 1));
            i = i + 1;
        }
        assert(mappings@ =~= self.mappings@);
        SwitchPreferences { mappings }
    }
}

impl Default for SwitchPreferences {
    fn default() -> (r: Self)
        ensures
            r@ == Seq::<SwitchMapping>::empty(),
    {
        SwitchPreferences { mappings: Vec::new() }
    }
}

/// Everything the user can set.
#[derive(Debug)]
pub struct Preferences {
    pub audio: Option<AudioPreferences>,
    pub midi: Option<MidiPreferences>,
    pub switch: Option<SwitchPreferences>,
    pub switch_available: bool,
}

pub struct PreferencesView {
    pub audio: Option<AudioPreferencesView>,
    pub midi: Option<MidiPreferencesView>,
    pub switch: Option<Seq<SwitchMapping>>,
    pub switch_available: bool,
}

impl View for Preferences {
    type V = PreferencesView;

    open spec fn view(&self) -> PreferencesView {
        PreferencesView {
            audio: match self.audio {
                Some(a) => Some(a@),
                None => None,
            },
            midi: match self.midi {
                Some(m) => Some(m@),
                None => None,
            },
            switch: match self.switch {
                Some(s) => Some(s@),
                None => None,
            },
            switch_available: self.switch_available,
        }
    }
}

impl Clone for Preferences {
    fn clone(&self) -> (r: Self)
        ensures
            r@ == self@,
    {
        Preferences {
            audio: match &self.audio {
                Some(a) => Some(a.clone()),
                None => None,
            },
            midi: match &self.midi {
                Some(m) => Some(m.clone()),
                None => None,
            },
            switch: match &self.switch {
                Some(s) => Some(s.clone()),
                None => None,
            },
            switch_available: self.switch_available,
        }
    }
}

impl Default for Preferences {
    /// Nothing set.
    fn default() -> (r: Self)
        ensures
            r@ == (PreferencesView { audio: None, midi: None, switch: None, switch_available: false }),
    {
        Preferences { audio: None, midi: None, switch: None, switch_available: false }
    }
}

/// One audio output device.
#[derive(Debug)]
pub struct AudioDevice {
    pub id: String,
    pub name: String,
    pub is_default: bool,
    pub supported_sample_rates: Vec<u32>,
    pub supported_channel_counts: Vec<u32>,
    pub min_buffer_size: u32,
    pub max_buffer_size: u32,
}

pub struct AudioDeviceView {
    pub id: Seq<char>,
    pub name: Seq<char>,
    pub is_default: bool,
    pub supported_sample_rates: Seq<u32>,
    pub supported_channel_counts: Seq<u32>,
    pub min_buffer_size: u32,
    pub max_buffer_size: u32,
}

impl View for AudioDevice {
    type V = AudioDeviceView;

    open spec fn view(&self) -> AudioDeviceView {
        AudioDeviceView {
            id: self.id@,
            name: self.name@,
            is_default: self.is_default,
            supported_sample_rates: self.supported_sample_rates@,
            supported_channel_counts: self.supported_channel_counts@,
            min_buffer_size: self.min_buffer_size,
            max_buffer_size: self.max_buffer_size,
        }
    }
}

pub open spec fn devices_view(devices: Seq<AudioDevice>) -> Seq<AudioDeviceView> {
    devices.map_values(|d: AudioDevice| d@)
}

/// The output devices of the audio host.
#[derive(Debug)]
pub struct AudioDevices {
    pub host_name: String,
    pub devices: Vec<AudioDevice>,
}

impl View for AudioDevices {
    type V = (Seq<char>, Seq<AudioDeviceView>);

    open spec fn view(&self) -> (Seq<char>, Seq<AudioDeviceView>) {
        (self.host_name@, devices_view(self.devices@))
    }
}

#[allow(non_camel_case_types)]
#[derive(Debug, Clone, Copy, PartialEq, Eq, Structural)]
pub enum AudioEngineStatus {
    AUDIO_ENGINE_RUNNING,
    AUDIO_ENGINE_STOPPED,
    AUDIO_ENGINE_FAILED,
}

/// What the audio engine reports of itself.
#[derive(Debug)]
pub struct AudioStatus {
    pub current_device_id: String,
    pub current_device_name: String,
    pub current_sample_rate: u32,
    pub current_channel_count: u32,
    pub current_buffer_size: u32,
    pub engine_status: AudioEngineStatus,
    pub error: String,
}

pub struct AudioStatusView {
    pub current_device_id: Seq<char>,
    pub current_device_name: Seq<char>,
    pub current_sample_rate: u32,
    pub current_channel_count: u32,
    pub current_buffer_size: u32,
    pub engine_status: AudioEngineStatus,
    pub error: Seq<char>,
}

impl View for AudioStatus {
    type V = AudioStatusView;

    open spec fn view(&self) -> AudioStatusView {
        AudioStatusView {
            current_device_id: self.current_device_id@,
            current_device_name: self.current_device_name@,
            current_sample_rate: self.current_sample_rate,
            current_channel_count: self.current_channel_count,
            current_buffer_size: self.current_buffer_size,
            engine_status: self.engine_status,
            error: self.error@,
        }
    }
}

/// The names of the MIDI input ports.
#[derive(Debug)]
pub struct MidiDevices {
    pub port_names: Vec<String>,
}

impl View for MidiDevices {
    type V = Seq<Seq<char>>;

    open spec fn view(&self) -> Seq<Seq<char>> {
        strings_view(self.port_names@)
    }
}

impl Default for MidiDevices {
    fn default() -> (r: Self)
        ensures
            r.port_names@.len() == 0,
    {
        MidiDevices { port_names: Vec::new() }
    }
}

} // verus!
