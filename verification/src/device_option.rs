//! The audio output choices of the settings editor.

use crate::messages::{
    devices_view, AudioDevice, AudioDeviceView, AudioDevices, AudioPreferences, AudioPreferencesView, AudioStatus,
};
use crate::settings::SampleRateOption;
use vstd::prelude::*;
use vstd::std_specs::cmp::PartialEqSpecImpl;
use vstd::string::StringExecFns;

verus! {

/// The system default output, or one device by id and name.
#[derive(Debug)]
pub enum AudioDeviceOption {
    Default,
    Device { id: String, name: String },
}

pub enum AudioDeviceOptionView {
    Default,
    Device { id: Seq<char>, name: Seq<char> },
}

impl View for AudioDeviceOption {
    type V = AudioDeviceOptionView;

    open spec fn view(&self) -> AudioDeviceOptionView {
        match self {
            AudioDeviceOption::Default => AudioDeviceOptionView::Default,
            AudioDeviceOption::Device { id, name } => AudioDeviceOptionView::Device { id: id@, name: name@ },
        }
    }
}

impl Clone for AudioDeviceOption {
    fn clone(&self) -> (r: Self)
        ensures
            r@ == self@,
    {
        match self {
            AudioDeviceOption::Default => AudioDeviceOption::Default,
            AudioDeviceOption::Device { id, name } => AudioDeviceOption::Device { id: id.clone(), name: name.clone() },
        }
    }
}

impl PartialEq for AudioDeviceOption {
    fn eq(&self, other: &Self) -> (r: bool) {
        match (self, other) {
            (AudioDeviceOption::Default, AudioDeviceOption::Default) => true,
            (AudioDeviceOption::Device { id: a, name: b }, AudioDeviceOption::Device { id: c, name: d }) => {
                *a == *c && *b == *d
            },
            _ => false,
        }
    }
}

impl PartialEqSpecImpl for AudioDeviceOption {
    open spec fn obeys_eq_spec() -> bool {
        true
    }

    open spec fn eq_spec(&self, other: &Self) -> bool {
        self@ == other@
    }
}

impl Eq for AudioDeviceOption {
}

impl AudioDeviceOption {
    /// The text shown for the option: "System Default" or the device's name.
    pub fn label(&self) -> (r: String)
        ensures
            r@ == (match self@ {
                AudioDeviceOptionView::Default => "System Default"@,
                AudioDeviceOptionView::Device { name, .. } => name,
            }),
    {
        match self {
            AudioDeviceOption::Default => String::from_str("System Default"),
            AudioDeviceOption::Device { name, .. } => name.clone(),
        }
    }
}

pub open spec fn options_view(options: Seq<AudioDeviceOption>) -> Seq<AudioDeviceOptionView> {
    options.map_values(|o: AudioDeviceOption| o@)
}

pub open spec fn device_option(d: AudioDeviceView) -> AudioDeviceOptionView {
    AudioDeviceOptionView::Device { id: d.id, name: d.name }
}

/// The system default, then each device of the host in order.
pub fn audio_device_options(audio_devices: Option<&AudioDevices>) -> (r: Vec<AudioDeviceOption>)
    ensures
        options_view(r@) == seq![AudioDeviceOptionView::Default] + (match audio_devices {
            Some(ds) => devices_view(ds.devices@).map_values(|d: AudioDeviceView| device_option(d)),
            None => Seq::empty(),
        }),
{
    let mut options: Vec<AudioDeviceOption> = Vec::new();
    options.push(AudioDeviceOption::Default);
    match audio_devices {
        Some(audio_devices) => {
            let ghost devs = devices_view(audio_devices.devices@);
            let mut i: usize = 0;
            while i < audio_devices.devices.len()
                invariant
                    i <= audio_devices.devices@.len(),
                    devs == devices_view(audio_devices.devices@),
                    options_view(options@) == seq![AudioDeviceOptionView::Default] + devs.take(
                        i as int,
                    ).map_values(|d: AudioDeviceView| device_option(d)),
                decreases audio_devices.devices@.len() - i,
            {
                let device = &audio_devices.devices[i];
                let option = AudioDeviceOption::Device { id: device.id.clone(), name: device.name.clone() };
                assert(devs[i as int] == device@);
                assert(option@ == device_option(devs[i as int]));
                let ghost before = options@;
                options.push(option);
                assert(options_view(options@) =~= options_view(before).push(device_option(devs[i as int])));
                assert(options_view(options@) =~= seq![AudioDeviceOptionView::Default] + devs.take(
                    i + 1,
                ).map_values(|d: AudioDeviceView| device_option(d)));
                i = i + 1;
            }
            assert(devs.take(i as int) =~= devs);
        },
        None => {
            assert(options_view(options@) =~= seq![AudioDeviceOptionView::Default] + Seq::empty());
        },
    }
    options
}

/// The first option that names the device `id`, from position `i` on.
pub open spec fn find_device_option(options: Seq<AudioDeviceOptionView>, id: Seq<char>, i: int) -> Option<
    AudioDeviceOptionView,
>
    decreases options.len() - i,
{
    if i < 0 || i >= options.len() {
        None
    } else if options[i] matches AudioDeviceOptionView::Device { id: d, .. } && d == id {
        Some(options[i])
    } else {
        find_device_option(options, id, i + 1)
    }
}

/// The option that shows the preferred output device `output_device`: the
/// default for none, else the first option with that id, else one named by it.
pub open spec fn spec_selected_device_option(output_device: Seq<char>, options: Seq<AudioDeviceOptionView>) -> AudioDeviceOptionView {
    if output_device.len() == 0 {
        AudioDeviceOptionView::Default
    } else {
        match find_device_option(options, output_device, 0) {
            Some(o) => o,
            None => AudioDeviceOptionView::Device { id: output_device, name: output_device },
        }
    }
}

pub fn selected_device_option(audio: &AudioPreferences, options: &[AudioDeviceOption]) -> (r: AudioDeviceOption)
    ensures
        r@ == spec_selected_device_option(audio.output_device@, options_view(options@)),
{
    let output_device = &audio.output_device;
    if output_device.as_str().unicode_len() == 0 {
        return AudioDeviceOption::Default;
    }
    let ghost opts = options_view(options@);
    let mut i: usize = 0;
    while i < options.len()
        invariant
            i <= options@.len(),
            opts == options_view(options@),
            output_device@.len() > 0,
            output_device@ == audio.output_device@,
            find_device_option(opts, output_device@, 0) == find_device_option(opts, output_device@, i as int),
        decreases options@.len() - i,
    {
        match &options[i] {
            AudioDeviceOption::Device { id, .. } => {
                if *id == *output_device {
                    assert(opts[i as int] == options@[i as int]@);
                    assert(find_device_option(opts, output_device@, i as int) == Some(opts[i as int]));
                    return options[i].clone();
                }
            },
            AudioDeviceOption::Default => {},
        }
        i = i + 1;
    }
    AudioDeviceOption::Device { id: output_device.clone(), name: output_device.clone() }
}

/// The first device marked as the default, from position `i` on.
pub open spec fn first_default_from(devices: Seq<AudioDeviceView>, i: int) -> Option<int>
    decreases devices.len() - i,
{
    if i < 0 || i >= devices.len() {
        None
    } else if devices[i].is_default {
        Some(i)
    } else {
        first_default_from(devices, i + 1)
    }
}

/// The first device with id `id`, from position `i` on.
pub open spec fn first_with_id_from(devices: Seq<AudioDeviceView>, id: Seq<char>, i: int) -> Option<int>
    decreases devices.len() - i,
{
    if i < 0 || i >= devices.len() {
        None
    } else if devices[i].id == id {
        Some(i)
    } else {
        first_with_id_from(devices, id, i + 1)
    }
}

/// Which device the preferred output names: for none, the first default
/// device, else the first device; otherwise the first device with that id.
pub open spec fn spec_selected_device_index(output_device: Seq<char>, devices: Seq<AudioDeviceView>) -> Option<int> {
    if output_device.len() == 0 {
        match first_default_from(devices, 0) {
            Some(i) => Some(i),
            None => if devices.len() > 0 {
                Some(0)
            } else {
                None
            },
        }
    } else {
        first_with_id_from(devices, output_device, 0)
    }
}

/// The device that the preferred output names, among the host's devices.
#[verifier::loop_isolation(false)]
pub fn selected_audio_device<'a>(audio: &AudioPreferences, audio_devices: Option<&'a AudioDevices>) -> (r: Option<
    &'a AudioDevice,
>)
    ensures
        match audio_devices {
            None => r is None,
            Some(ds) => match spec_selected_device_index(audio.output_device@, devices_view(ds.devices@)) {
                Some(i) => r is Some && r->0@ == devices_view(ds.devices@)[i],
                None => r is None,
            },
        },
{
    let audio_devices = match audio_devices {
        Some(ds) => ds,
        None => return None,
    };
    let devices = &audio_devices.devices;
    let ghost devs = devices_view(devices@);
    let mut i: usize = 0;
    if audio.output_device.as_str().unicode_len() == 0 {
        while i < devices.len()
            invariant
                i <= devices@.len(),
                devs == devices_view(devices@),
                first_default_from(devs, 0) == first_default_from(devs, i as int),
            decreases devices@.len() - i,
        {
            if devices[i].is_default {
                return Some(&devices[i]);
            }
            i = i + 1;
        }
        if devices.len() > 0 {
            return Some(&devices[0]);
        }
        return None;
    }
    while i < devices.len()
        invariant
            i <= devices@.len(),
            devs == devices_view(devices@),
            audio.output_device@.len() > 0,
            first_with_id_from(devs, audio.output_device@, 0) == first_with_id_from(
                devs,
                audio.output_device@,
                i as int,
            ),
        decreases devices@.len() - i,
    {
        if devices[i].id == audio.output_device {
            return Some(&devices[i]);
        }
        i = i + 1;
    }
    None
}

/// The rates to offer: those the selected device supports, the preferred
/// rate and the engine's current rate (each when set).
pub open spec fn sample_rate_candidates(
    audio: AudioPreferencesView,
    devices: Option<Seq<AudioDeviceView>>,
    status_rate: Option<u32>,
) -> Seq<u32> {
    let supported = match devices {
        Some(ds) => match spec_selected_device_index(audio.output_device, ds) {
            Some(i) => ds[i].supported_sample_rates,
            None => Seq::empty(),
        },
        None => Seq::empty(),
    };
    let preferred = if audio.sample_rate > 0 {
        seq![audio.sample_rate]
    } else {
        Seq::empty()
    };
    let current = match status_rate {
        Some(r) => if r > 0 {
            seq![r]
        } else {
            Seq::empty()
        },
        None => Seq::empty(),
    };
    supported + preferred + current
}

pub open spec fn strictly_increasing(s: Seq<u32>) -> bool {
    forall|i: int, j: int| 0 <= i < j < s.len() ==> s[i] < s[j]
}

/// Adds `x` to a strictly increasing list, keeping it so.
pub(crate) fn insert_sorted_unique(v: &mut Vec<u32>, x: u32)
    requires
        strictly_increasing(old(v)@),
    ensures
        strictly_increasing(final(v)@),
        forall|y: u32| #[trigger] final(v)@.contains(y) <==> (old(v)@.contains(y) || y == x),
{
    let mut pos: usize = 0;
    while pos < v.len() && v[pos] < x
        invariant
            pos <= v@.len(),
            forall|j: int| 0 <= j < pos ==> v@[j] < x,
        decreases v@.len() - pos,
    {
        pos = pos + 1;
    }
    if pos < v.len() && v[pos] == x {
        return;
    }
    let ghost before = v@;
    v.insert(pos, x);
    assert(v@ =~= before.subrange(0, pos as int).push(x) + before.subrange(pos as int, before.len() as int));
    assert forall|y: u32| #[trigger] v@.contains(y) <==> (before.contains(y) || y == x) by {
        if v@.contains(y) {
            let k = choose|k: int| 0 <= k < v@.len() && #[trigger] v@[k] == y;
            if k < pos {
                assert(before[k] == y);
            } else if k > pos {
                assert(before[k - 1] == y);
            }
        }
        if before.contains(y) {
            let k = choose|k: int| 0 <= k < before.len() && #[trigger] before[k] == y;
            if k < pos {
                assert(v@[k] == y);
            } else {
                assert(v@[k + 1] == y);
            }
        }
        if y == x {
            assert(v@[pos as int] == y);
        }
    }
}

/// The sample rates the editor offers, each once, lowest first.
pub fn sample_rate_options(
    audio: &AudioPreferences,
    audio_devices: Option<&AudioDevices>,
    audio_status: Option<&AudioStatus>,
) -> (r: Vec<SampleRateOption>)
    ensures
        ({
            let rates = r@.map_values(|o: SampleRateOption| o.0);
            let candidates = sample_rate_candidates(
                audio@,
                match audio_devices {
                    Some(ds) => Some(devices_view(ds.devices@)),
                    None => None,
                },
                match audio_status {
                    Some(st) => Some(st.current_sample_rate),
                    None => None,
                },
            );
            &&& strictly_increasing(rates)
            &&& forall|x: u32| #[trigger] rates.contains(x) <==> candidates.contains(x)
        }),
{
    let ghost candidates = sample_rate_candidates(
        audio@,
        match audio_devices {
            Some(ds) => Some(devices_view(ds.devices@)),
            None => None,
        },
        match audio_status {
            Some(st) => Some(st.current_sample_rate),
            None => None,
        },
    );
    let mut candidate_list: Vec<u32> = Vec::new();
    match selected_audio_device(audio, audio_devices) {
        Some(device) => {
            let rates = &device.supported_sample_rates;
            let mut i: usize = 0;
            while i < rates.len()
                invariant
                    i <= rates@.len(),
                    candidate_list@ == rates@.take(i as int),
                decreases rates@.len() - i,
            {
                candidate_list.push(rates[i]);
                assert(candidate_list@ =~= rates@.take(i + 1));
                i = i + 1;
            }
            assert(rates@.take(i as int) =~= rates@);
        },
        None => {},
    }
    if audio.sample_rate > 0 {
        candidate_list.push(audio.sample_rate);
    }
    match audio_status {
        Some(status) => {
            if status.current_sample_rate > 0 {
                candidate_list.push(status.current_sample_rate);
            }
        },
        None => {},
    }
    assert(candidate_list@ =~= candidates);
    let mut sorted: Vec<u32> = Vec::new();
    let mut k: usize = 0;
    while k < candidate_list.len()
        invariant
            k <= candidate_list@.len(),
            strictly_increasing(sorted@),
            forall|y: u32| #[trigger] sorted@.contains(y) <==> candidate_list@.take(k as int).contains(y),
        decreases candidate_list@.len() - k,
    {
        let ghost old_sorted = sorted@;
        let c = candidate_list[k];
        insert_sorted_unique(&mut sorted, c);
        let ghost prev = candidate_list@.take(k as int);
        let ghost next = candidate_list@.take(k + 1);
        assert(next =~= prev.push(c));
        assert forall|y: u32| #[trigger] sorted@.contains(y) <==> next.contains(y) by {
            assert(sorted@.contains(y) <==> (old_sorted.contains(y) || y == c));
            assert(old_sorted.contains(y) <==> prev.contains(y));
            if prev.contains(y) {
                let j = choose|j: int| 0 <= j < prev.len() && #[trigger] prev[j] == y;
                assert(next[j] == y);
            }
            if y == c {
                assert(next[k as int] == y);
            }
            if next.contains(y) {
                let j = choose|j: int| 0 <= j < next.len() && #[trigger] next[j] == y;
                if j < k {
                    assert(prev[j] == y);
                }
            }
        }
        k = k + 1;
    }
    assert(candidate_list@.take(k as int) =~= candidate_list@);
    let mut options: Vec<SampleRateOption> = Vec::new();
    let mut m: usize = 0;
    while m < sorted.len()
        invariant
            m <= sorted@.len(),
            options@.map_values(|o: SampleRateOption| o.0) == sorted@.take(m as int),
        decreases sorted@.len() - m,
    {
        let ghost before = options@;
        options.push(SampleRateOption(sorted[m]));
        assert(options@ == before.push(SampleRateOption(sorted@[m as int])));
        assert(options@.map_values(|o: SampleRateOption| o.0) =~= before.map_values(
            |o: SampleRateOption| o.0,
        ).push(sorted@[m as int]));
        assert(sorted@.take(m + 1) =~= sorted@.take(m as int).push(sorted@[m as int]));
        m = m + 1;
    }
    assert(sorted@.take(m as int) =~= sorted@);
    options
}

} // verus!
