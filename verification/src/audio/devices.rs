//! Choices made about output devices from what they report of themselves:
//! which device, how many channels, which stream configuration, and the
//! summary of each device that the clients are sent.

use crate::device_option::{insert_sorted_unique, strictly_increasing};
use crate::messages::{AudioDevice, AudioDeviceView, AudioDevices, AudioPreferences};
use crate::midi::{first_port_with, select_input_port};
use vstd::prelude::*;
use vstd::string::StringExecFns;

verus! {

/// The sample formats a stream can be built in; `Other` stands for every
/// format that no stream of this engine is built in.
#[derive(Debug, Clone, Copy, PartialEq, Eq, Structural)]
pub enum SampleFormatKind {
    F32,
    I16,
    U16,
    Other,
}

/// A range of buffer sizes, in frames.
#[derive(Debug, Clone, Copy, PartialEq, Eq, Structural)]
pub struct BufferSizeRange {
    pub min: u32,
    pub max: u32,
}

/// One range of output configurations that a device supports; the buffer
/// size is `None` where the device does not report it.
#[derive(Debug, Clone, Copy, PartialEq, Eq, Structural)]
pub struct OutputConfigRange {
    pub channels: u16,
    pub min_sample_rate: u32,
    pub max_sample_rate: u32,
    pub buffer_size: Option<BufferSizeRange>,
    pub sample_format: SampleFormatKind,
}

/// The configuration a device would open with by default.
#[derive(Debug, Clone, Copy, PartialEq, Eq, Structural)]
pub struct DefaultOutputConfig {
    pub channels: u16,
    pub sample_rate: u32,
    pub sample_format: SampleFormatKind,
}

/// The buffer size a stream asks for.
#[derive(Debug, Clone, Copy, PartialEq, Eq, Structural)]
pub enum BufferSizeRequest {
    Default,
    Fixed(u32),
}

/// The configuration an output stream is opened with.
#[derive(Debug, Clone, Copy, PartialEq, Eq, Structural)]
pub struct OutputConfig {
    pub channels: u16,
    pub sample_rate: u32,
    pub buffer_size: BufferSizeRequest,
    pub sample_format: SampleFormatKind,
}

/// What an output device reports: its configuration ranges and, where it
/// has one, its default configuration.
#[derive(Debug)]
pub struct OutputDevice {
    pub configs: Vec<OutputConfigRange>,
    pub default_config: Option<DefaultOutputConfig>,
}

pub open spec fn supports_rate(c: OutputConfigRange, rate: u32) -> bool {
    c.min_sample_rate <= rate && c.max_sample_rate >= rate
}

/// The channel counts of the ranges that support `rate`.
pub open spec fn supported_counts(configs: Seq<OutputConfigRange>, rate: u32) -> Set<u32> {
    Set::new(
        |n: u32|
            exists|i: int| 0 <= i < configs.len() && supports_rate(configs[i], rate) && configs[i].channels as u32 == n,
    )
}

/// The fewest channels that the routing needs: room for the main stereo
/// pair and for the click's stereo pair at their offsets.
pub open spec fn spec_min_required_channels(main_channel_offset: u32, click_channel_offset: u32) -> int {
    if main_channel_offset >= click_channel_offset {
        main_channel_offset + 2
    } else {
        click_channel_offset + 2
    }
}

/// `r` is the channel count to open a device with: the smallest supported
/// count that meets `min_required`; else 2 where supported; else the smallest
/// supported count. Where no range supports the rate: the default
/// configuration's count, or 2 without one.
pub open spec fn is_preferred_channel_count(
    counts: Set<u32>,
    default_channels: Option<u16>,
    min_required: int,
    r: int,
) -> bool {
    if forall|n: u32| !#[trigger] counts.contains(n) {
        r == match default_channels {
            Some(c) => c as int,
            None => 2,
        }
    } else if exists|n: u32| #[trigger] counts.contains(n) && n >= min_required {
        &&& 0 <= r <= u16::MAX
        &&& counts.contains(r as u32)
        &&& r >= min_required
        &&& forall|n: u32| #[trigger] counts.contains(n) && n >= min_required ==> r <= n
    } else if counts.contains(2) {
        r == 2
    } else {
        &&& 0 <= r <= u16::MAX
        &&& counts.contains(r as u32)
        &&& forall|n: u32| #[trigger] counts.contains(n) ==> r <= n
    }
}

/// The fewest channels that the routing of `preferences` needs.
pub fn min_required_channels(preferences: &AudioPreferences) -> (r: u64)
    ensures
        r == spec_min_required_channels(preferences.main_channel_offset, preferences.click_channel_offset),
{
    let main = preferences.main_channel_offset as u64 + 2;
    let click = preferences.click_channel_offset as u64 + 2;
    if main >= click {
        main
    } else {
        click
    }
}

/// The channel count to open a device with at `sample_rate`, given its
/// configuration ranges and the channel count of its default configuration.
#[verifier::loop_isolation(false)]
pub fn preferred_channel_count(
    configs: &[OutputConfigRange],
    default_channels: Option<u16>,
    sample_rate: u32,
    min_required: u64,
) -> (r: usize)
    ensures
        is_preferred_channel_count(supported_counts(configs@, sample_rate), default_channels, min_required as int, r as int),
        r <= u16::MAX,
{
    let ghost counts_set = supported_counts(configs@, sample_rate);
    let mut counts: Vec<u32> = Vec::new();
    let mut i: usize = 0;
    while i < configs.len()
        invariant
            i <= configs@.len(),
            strictly_increasing(counts@),
            forall|n: u32|
                #[trigger] counts@.contains(n) <==> exists|j: int|
                    0 <= j < i && supports_rate(configs@[j], sample_rate) && configs@[j].channels as u32 == n,
        decreases configs@.len() - i,
    {
        let c = configs[i];
        if c.min_sample_rate <= sample_rate && c.max_sample_rate >= sample_rate {
            insert_sorted_unique(&mut counts, c.channels as u32);
        }
        proof {
            assert forall|n: u32|
                #[trigger] counts@.contains(n) <==> exists|j: int|
                    0 <= j < i + 1 && supports_rate(configs@[j], sample_rate) && configs@[j].channels as u32 == n by {
                if exists|j: int|
                    0 <= j < i + 1 && supports_rate(configs@[j], sample_rate) && configs@[j].channels as u32 == n {
                    let j = choose|j: int|
                        0 <= j < i + 1 && supports_rate(configs@[j], sample_rate) && configs@[j].channels as u32 == n;
                    if j < i {
                        assert(exists|j2: int|
                            0 <= j2 < i && supports_rate(configs@[j2], sample_rate) && configs@[j2].channels as u32 == n);
                    }
                }
            }
        }
        i = i + 1;
    }
    assert forall|n: u32| #[trigger] counts@.contains(n) <==> counts_set.contains(n) by {}
    assert forall|k: int| 0 <= k < counts@.len() implies #[trigger] counts@[k] <= u16::MAX by {
        assert(counts@.contains(counts@[k]));
        assert(counts_set.contains(counts@[k]));
    }
    if counts.len() == 0 {
        assert forall|n: u32| !#[trigger] counts_set.contains(n) by {
            assert(!counts@.contains(n));
        }
        return match default_channels {
            Some(c) => c as usize,
            None => 2,
        };
    }
    assert(counts@.contains(counts@[0]));
    assert(counts_set.contains(counts@[0]));
    let mut k: usize = 0;
    while k < counts.len()
        invariant
            k <= counts@.len(),
            strictly_increasing(counts@),
            forall|j: int| 0 <= j < k ==> (counts@[j] as int) < min_required,
        decreases counts@.len() - k,
    {
        if counts[k] as u64 >= min_required {
            proof {
                assert(counts@.contains(counts@[k as int]));
                assert(counts_set.contains(counts@[k as int]));
                assert forall|n: u32| #[trigger] counts_set.contains(n) && n >= min_required implies counts@[k as int]
                    <= n by {
                    assert(counts@.contains(n));
                    let j = choose|j: int| 0 <= j < counts@.len() && counts@[j] == n;
                    if j < k {
                    }
                }
            }
            return counts[k] as usize;
        }
        k = k + 1;
    }
    assert forall|n: u32| #[trigger] counts_set.contains(n) implies n < min_required by {
        assert(counts@.contains(n));
        let j = choose|j: int| 0 <= j < counts@.len() && counts@[j] == n;
        assert(counts@[j] < min_required);
    }
    let mut k: usize = 0;
    while k < counts.len()
        invariant
            k <= counts@.len(),
            forall|j: int| 0 <= j < k ==> counts@[j] != 2,
        decreases counts@.len() - k,
    {
        if counts[k] == 2 {
            assert(counts@.contains(2));
            assert(counts_set.contains(2));
            return 2;
        }
        k = k + 1;
    }
    assert(!counts_set.contains(2)) by {
        if counts_set.contains(2) {
            assert(counts@.contains(2));
        }
    }
    assert forall|n: u32| #[trigger] counts_set.contains(n) implies counts@[0] <= n by {
        assert(counts@.contains(n));
        let j = choose|j: int| 0 <= j < counts@.len() && counts@[j] == n;
        if j > 0 {
        }
    }
    counts[0] as usize
}

/// How well a range serves a stream at `rate` with `channel_count` channels:
/// 0 it has the channel count and is `F32`, 1 it has the channel count,
/// 2 it is `F32`, 3 it supports the rate only, 4 it does not support it.
pub open spec fn config_rank(c: OutputConfigRange, rate: u32, channel_count: usize) -> int {
    if !supports_rate(c, rate) {
        4
    } else if c.channels as int == channel_count as int && c.sample_format == SampleFormatKind::F32 {
        0
    } else if c.channels as int == channel_count as int {
        1
    } else if c.sample_format == SampleFormatKind::F32 {
        2
    } else {
        3
    }
}

pub open spec fn has_rank(configs: Seq<OutputConfigRange>, rank: int, rate: u32, channel_count: usize) -> bool {
    exists|i: int| 0 <= i < configs.len() && #[trigger] config_rank(configs[i], rate, channel_count) == rank
}

pub open spec fn is_first_of_rank(
    configs: Seq<OutputConfigRange>,
    rank: int,
    rate: u32,
    channel_count: usize,
    i: int,
) -> bool {
    &&& 0 <= i < configs.len()
    &&& config_rank(configs[i], rate, channel_count) == rank
    &&& forall|j: int| 0 <= j < i ==> #[trigger] config_rank(configs[j], rate, channel_count) != rank
}

/// The first range of a rank (meaningful where there is one).
pub open spec fn first_of_rank(configs: Seq<OutputConfigRange>, rank: int, rate: u32, channel_count: usize) -> int {
    choose|i: int| is_first_of_rank(configs, rank, rate, channel_count, i)
}

/// A range opened at `rate`, with the buffer size left to the device.
pub open spec fn config_at_rate(c: OutputConfigRange, rate: u32) -> OutputConfig {
    OutputConfig {
        channels: c.channels,
        sample_rate: rate,
        buffer_size: BufferSizeRequest::Default,
        sample_format: c.sample_format,
    }
}

pub open spec fn default_as_config(d: DefaultOutputConfig) -> OutputConfig {
    OutputConfig {
        channels: d.channels,
        sample_rate: d.sample_rate,
        buffer_size: BufferSizeRequest::Default,
        sample_format: d.sample_format,
    }
}

/// The configuration to open: the first range of the best rank present, at
/// `rate`; without any range that supports the rate, the default one.
pub open spec fn spec_select_stream_config(
    configs: Seq<OutputConfigRange>,
    default_config: Option<DefaultOutputConfig>,
    rate: u32,
    channel_count: usize,
) -> Option<OutputConfig> {
    if has_rank(configs, 0, rate, channel_count) {
        Some(config_at_rate(configs[first_of_rank(configs, 0, rate, channel_count)], rate))
    } else if has_rank(configs, 1, rate, channel_count) {
        Some(config_at_rate(configs[first_of_rank(configs, 1, rate, channel_count)], rate))
    } else if has_rank(configs, 2, rate, channel_count) {
        Some(config_at_rate(configs[first_of_rank(configs, 2, rate, channel_count)], rate))
    } else if has_rank(configs, 3, rate, channel_count) {
        Some(config_at_rate(configs[first_of_rank(configs, 3, rate, channel_count)], rate))
    } else {
        match default_config {
            Some(d) => Some(default_as_config(d)),
            None => None,
        }
    }
}

proof fn lemma_first_of_rank(configs: Seq<OutputConfigRange>, rank: int, rate: u32, channel_count: usize, i: int)
    requires
        is_first_of_rank(configs, rank, rate, channel_count, i),
    ensures
        has_rank(configs, rank, rate, channel_count),
        first_of_rank(configs, rank, rate, channel_count) == i,
{
    let k = first_of_rank(configs, rank, rate, channel_count);
    assert(is_first_of_rank(configs, rank, rate, channel_count, k));
    if k < i {
        assert(config_rank(configs[k], rate, channel_count) != rank);
    } else if k > i {
        assert(config_rank(configs[i], rate, channel_count) != rank);
    }
}

fn open_at_rate(c: OutputConfigRange, rate: u32) -> (r: OutputConfig)
    ensures
        r == config_at_rate(c, rate),
{
    OutputConfig { channels: c.channels, sample_rate: rate, buffer_size: BufferSizeRequest::Default, sample_format: c.sample_format }
}

/// The stream configuration for `channel_count` channels at the preferred
/// sample rate: a range with that many channels in `F32`, else one with that
/// many channels, else one in `F32`, else any range that supports the rate
/// (the first of each kind); else the device's default configuration.
#[verifier::loop_isolation(false)]
pub fn select_stream_config_for_channel_count(
    preferences: &AudioPreferences,
    configs: &[OutputConfigRange],
    default_config: Option<DefaultOutputConfig>,
    channel_count: usize,
) -> (r: Option<OutputConfig>)
    ensures
        r == spec_select_stream_config(configs@, default_config, preferences.sample_rate, channel_count),
{
    let rate = preferences.sample_rate;
    let ghost cs = configs@;
    let mut channel_match: Option<usize> = None;
    let mut f32_rate_match: Option<usize> = None;
    let mut rate_match: Option<usize> = None;
    let mut i: usize = 0;
    while i < configs.len()
        invariant
            i <= cs.len(),
            forall|j: int| 0 <= j < i ==> #[trigger] config_rank(cs[j], rate, channel_count) != 0,
            match channel_match {
                Some(m) => m < i && is_first_of_rank(cs, 1, rate, channel_count, m as int),
                None => forall|j: int| 0 <= j < i ==> #[trigger] config_rank(cs[j], rate, channel_count) != 1,
            },
            match f32_rate_match {
                Some(m) => m < i && is_first_of_rank(cs, 2, rate, channel_count, m as int),
                None => forall|j: int| 0 <= j < i ==> #[trigger] config_rank(cs[j], rate, channel_count) != 2,
            },
            channel_match is None && f32_rate_match is None ==> match rate_match {
                Some(m) => is_first_of_rank(cs, 3, rate, channel_count, m as int),
                None => forall|j: int| 0 <= j < i ==> #[trigger] config_rank(cs[j], rate, channel_count) != 3,
            },
            match rate_match {
                Some(m) => m < i,
                None => true,
            },
        decreases cs.len() - i,
    {
        let config = configs[i];
        if config.min_sample_rate > rate || config.max_sample_rate < rate {
            i = i + 1;
            continue;
        }
        let is_channel_match = config.channels as usize == channel_count;
        let is_f32 = match config.sample_format {
            SampleFormatKind::F32 => true,
            _ => false,
        };
        if is_channel_match && is_f32 {
            proof {
                lemma_first_of_rank(cs, 0, rate, channel_count, i as int);
            }
            return Some(open_at_rate(config, rate));
        }
        if is_channel_match && channel_match.is_none() {
            channel_match = Some(i);
        } else if is_f32 && f32_rate_match.is_none() {
            f32_rate_match = Some(i);
        } else if rate_match.is_none() {
            rate_match = Some(i);
        }
        i = i + 1;
    }
    assert(!has_rank(cs, 0, rate, channel_count));
    match channel_match {
        Some(m) => {
            proof {
                lemma_first_of_rank(cs, 1, rate, channel_count, m as int);
            }
            return Some(open_at_rate(configs[m], rate));
        },
        None => {},
    }
    assert(!has_rank(cs, 1, rate, channel_count));
    match f32_rate_match {
        Some(m) => {
            proof {
                lemma_first_of_rank(cs, 2, rate, channel_count, m as int);
            }
            return Some(open_at_rate(configs[m], rate));
        },
        None => {},
    }
    assert(!has_rank(cs, 2, rate, channel_count));
    match rate_match {
        Some(m) => {
            proof {
                lemma_first_of_rank(cs, 3, rate, channel_count, m as int);
            }
            return Some(open_at_rate(configs[m], rate));
        },
        None => {},
    }
    assert(!has_rank(cs, 3, rate, channel_count));
    match default_config {
        Some(d) => Some(OutputConfig {
            channels: d.channels,
            sample_rate: d.sample_rate,
            buffer_size: BufferSizeRequest::Default,
            sample_format: d.sample_format,
        }),
        None => None,
    }
}

/// The stream configuration where the host takes any configuration (JACK
/// and ALSA on Linux): the preferred rate and buffer size, in `F32`.
pub open spec fn spec_fixed_stream_config(preferences: AudioPreferences, channel_count: usize) -> OutputConfig {
    OutputConfig {
        channels: channel_count as u16,
        sample_rate: preferences.sample_rate,
        buffer_size: BufferSizeRequest::Fixed(preferences.buffer_size),
        sample_format: SampleFormatKind::F32,
    }
}

/// The stream configuration where the host takes any configuration.
pub fn fixed_stream_config(preferences: &AudioPreferences, channel_count: usize) -> (r: OutputConfig)
    requires
        channel_count <= u16::MAX,
    ensures
        r == spec_fixed_stream_config(*preferences, channel_count),
{
    OutputConfig {
        channels: channel_count as u16,
        sample_rate: preferences.sample_rate,
        buffer_size: BufferSizeRequest::Fixed(preferences.buffer_size),
        sample_format: SampleFormatKind::F32,
    }
}

pub open spec fn default_channels_of(device: &OutputDevice) -> Option<u16> {
    match device.default_config {
        Some(d) => Some(d.channels),
        None => None,
    }
}

/// The configuration an output stream opens with on the selected device, or
/// why there is none: no device was found, or (where the host does not take
/// any configuration, `fixed_config` false) no range and no default fits.
pub fn plan_output_stream(preferences: &AudioPreferences, device: Option<&OutputDevice>, fixed_config: bool) -> (r: Result<
    OutputConfig,
    String,
>)
    ensures
        device is None ==> (r matches Err(e) && e@ == "Couldn't connect to output audio device"@),
        device matches Some(d) ==> exists|channel_count: usize|
            {
                &&& is_preferred_channel_count(
                    supported_counts(d.configs@, preferences.sample_rate),
                    default_channels_of(d),
                    spec_min_required_channels(preferences.main_channel_offset, preferences.click_channel_offset),
                    channel_count as int,
                )
                &&& if fixed_config {
                    r == Ok::<OutputConfig, String>(spec_fixed_stream_config(*preferences, channel_count))
                } else {
                    match spec_select_stream_config(d.configs@, d.default_config, preferences.sample_rate, channel_count) {
                        Some(c) => r == Ok::<OutputConfig, String>(c),
                        None => (r matches Err(e) && e@ == "Unable to select a usable output stream config"@),
                    }
                }
            },
{
    let device = match device {
        Some(d) => d,
        None => return Err(String::from_str("Couldn't connect to output audio device")),
    };
    let min_required = min_required_channels(preferences);
    let default_channels = match device.default_config {
        Some(d) => Some(d.channels),
        None => None,
    };
    let channel_count = preferred_channel_count(device.configs.as_slice(), default_channels, preferences.sample_rate, min_required);
    if fixed_config {
        return Ok(fixed_stream_config(preferences, channel_count));
    }
    match select_stream_config_for_channel_count(preferences, device.configs.as_slice(), device.default_config, channel_count) {
        Some(config) => Ok(config),
        None => Err(String::from_str("Unable to select a usable output stream config")),
    }
}

/// The channel count to open the selected device with: 2 where no device
/// was found, else the preferred count for the routing of `preferences`.
pub fn query_native_channel_count(preferences: &AudioPreferences, device: Option<&OutputDevice>) -> (r: usize)
    ensures
        match device {
            None => r == 2,
            Some(d) => is_preferred_channel_count(
                supported_counts(d.configs@, preferences.sample_rate),
                default_channels_of(d),
                spec_min_required_channels(preferences.main_channel_offset, preferences.click_channel_offset),
                r as int,
            ),
        },
{
    let device = match device {
        Some(d) => d,
        None => return 2,
    };
    let min_required = min_required_channels(preferences);
    let default_channels = match device.default_config {
        Some(d) => Some(d.channels),
        None => None,
    };
    preferred_channel_count(device.configs.as_slice(), default_channels, preferences.sample_rate, min_required)
}

/// The output device to open: where a name is preferred and the devices
/// could be listed, the first whose name holds it; otherwise (`None`) the
/// host's default device.
pub fn select_output_device(device_names: Option<&[Option<String>]>, device_name: &str) -> (r: Option<usize>)
    ensures
        device_name@.len() == 0 ==> r is None,
        device_name@.len() > 0 ==> match device_names {
            None => r is None,
            Some(names) => match first_port_with(names@, device_name@, 0) {
                Some(i) => r == Some(i as usize),
                None => r is None,
            },
        },
{
    if device_name.unicode_len() == 0 {
        return None;
    }
    match device_names {
        None => None,
        Some(names) => select_input_port(names, device_name),
    }
}

/// A sample rate at an edge of a range of `configs`.
pub open spec fn is_rate_boundary(configs: Seq<OutputConfigRange>, x: u32) -> bool {
    exists|i: int| 0 <= i < configs.len() && (configs[i].min_sample_rate == x || configs[i].max_sample_rate == x)
}

/// The rates commonly used in practice.
pub open spec fn spec_common_rates() -> Seq<u32> {
    seq![44100u32, 48000u32, 88200u32, 96000u32, 176400u32, 192000u32]
}

/// A rate offered for a device: an edge of one of its ranges, or a common
/// rate between the lowest and the highest edge where those differ.
pub open spec fn is_offered_rate(configs: Seq<OutputConfigRange>, x: u32) -> bool {
    ||| is_rate_boundary(configs, x)
    ||| {
        &&& spec_common_rates().contains(x)
        &&& exists|a: u32, b: u32| is_rate_boundary(configs, a) && is_rate_boundary(configs, b) && a < b
        &&& exists|a: u32| is_rate_boundary(configs, a) && a <= x
        &&& exists|b: u32| is_rate_boundary(configs, b) && x <= b
    }
}

pub open spec fn has_channel_count(configs: Seq<OutputConfigRange>, n: u32) -> bool {
    exists|i: int| 0 <= i < configs.len() && configs[i].channels as u32 == n
}

/// The smallest and largest buffer size over the ranges that report one,
/// 0 where none does.
pub open spec fn buffer_bounds(configs: Seq<OutputConfigRange>) -> (u32, u32)
    decreases configs.len(),
{
    if configs.len() == 0 {
        (0, 0)
    } else {
        let (lo, hi) = buffer_bounds(configs.drop_last());
        match configs.last().buffer_size {
            Some(b) => (
                if lo == 0 || b.min < lo {
                    b.min
                } else {
                    lo
                },
                if b.max > hi {
                    b.max
                } else {
                    hi
                },
            ),
            None => (lo, hi),
        }
    }
}

/// `d` is the summary of the device `name` with the ranges `configs`: its
/// offered rates and its channel counts, each once and in increasing order,
/// and its buffer size bounds.
pub open spec fn is_device_summary(
    d: AudioDeviceView,
    name: Seq<char>,
    is_default: bool,
    configs: Seq<OutputConfigRange>,
) -> bool {
    &&& d.id == name
    &&& d.name == name
    &&& d.is_default == is_default
    &&& strictly_increasing(d.supported_sample_rates)
    &&& forall|x: u32| #[trigger] d.supported_sample_rates.contains(x) <==> is_offered_rate(configs, x)
    &&& strictly_increasing(d.supported_channel_counts)
    &&& forall|n: u32| #[trigger] d.supported_channel_counts.contains(n) <==> has_channel_count(configs, n)
    &&& (d.min_buffer_size, d.max_buffer_size) == buffer_bounds(configs)
}

fn common_rates() -> (r: Vec<u32>)
    ensures
        r@ == spec_common_rates(),
{
    let mut r: Vec<u32> = Vec::new();
    r.push(44100);
    r.push(48000);
    r.push(88200);
    r.push(96000);
    r.push(176400);
    r.push(192000);
    assert(r@ =~= spec_common_rates());
    r
}

/// The summary the clients are sent of one output device.
#[verifier::loop_isolation(false)]
pub fn device_summary(name: String, is_default: bool, configs: &[OutputConfigRange]) -> (r: AudioDevice)
    ensures
        is_device_summary(r@, name@, is_default, configs@),
{
    let ghost cs = configs@;
    let mut rates: Vec<u32> = Vec::new();
    let mut counts: Vec<u32> = Vec::new();
    let mut min_buffer_size: u32 = 0;
    let mut max_buffer_size: u32 = 0;
    let mut i: usize = 0;
    while i < configs.len()
        invariant
            i <= cs.len(),
            strictly_increasing(rates@),
            strictly_increasing(counts@),
            forall|x: u32| #[trigger] rates@.contains(x) <==> is_rate_boundary(cs.take(i as int), x),
            forall|n: u32| #[trigger] counts@.contains(n) <==> has_channel_count(cs.take(i as int), n),
            (min_buffer_size, max_buffer_size) == buffer_bounds(cs.take(i as int)),
        decreases cs.len() - i,
    {
        let c = configs[i];
        insert_sorted_unique(&mut rates, c.min_sample_rate);
        insert_sorted_unique(&mut rates, c.max_sample_rate);
        insert_sorted_unique(&mut counts, c.channels as u32);
        match c.buffer_size {
            Some(b) => {
                if min_buffer_size == 0 || b.min < min_buffer_size {
                    min_buffer_size = b.min;
                }
                if b.max > max_buffer_size {
                    max_buffer_size = b.max;
                }
            },
            None => {},
        }
        proof {
            let prev = cs.take(i as int);
            let next = cs.take(i + 1);
            assert(next.drop_last() =~= prev);
            assert(next.last() == c);
            assert forall|x: u32| #[trigger] rates@.contains(x) <==> is_rate_boundary(next, x) by {
                if is_rate_boundary(next, x) {
                    let j = choose|j: int|
                        0 <= j < next.len() && (next[j].min_sample_rate == x || next[j].max_sample_rate == x);
                    if j < i {
                        assert(prev[j] == next[j]);
                        assert(is_rate_boundary(prev, x));
                    }
                }
                if is_rate_boundary(prev, x) {
                    let j = choose|j: int|
                        0 <= j < prev.len() && (prev[j].min_sample_rate == x || prev[j].max_sample_rate == x);
                    assert(prev[j] == next[j]);
                }
                if x == c.min_sample_rate || x == c.max_sample_rate {
                    assert(next[i as int] == c);
                }
            }
            assert forall|n: u32| #[trigger] counts@.contains(n) <==> has_channel_count(next, n) by {
                if has_channel_count(next, n) {
                    let j = choose|j: int| 0 <= j < next.len() && next[j].channels as u32 == n;
                    if j < i {
                        assert(prev[j] == next[j]);
                        assert(has_channel_count(prev, n));
                    }
                }
                if has_channel_count(prev, n) {
                    let j = choose|j: int| 0 <= j < prev.len() && prev[j].channels as u32 == n;
                    assert(prev[j] == next[j]);
                }
                if n == c.channels as u32 {
                    assert(next[i as int] == c);
                }
            }
        }
        i = i + 1;
    }
    assert(cs.take(i as int) =~= cs);
    let ghost boundaries = rates@;
    if rates.len() >= 2 {
        let lo = rates[0];
        let hi = rates[rates.len() - 1];
        assert(boundaries.contains(lo));
        assert(boundaries.contains(hi));
        let common = common_rates();
        let mut k: usize = 0;
        while k < common.len()
            invariant
                k <= common@.len(),
                common@ == spec_common_rates(),
                strictly_increasing(rates@),
                forall|x: u32|
                    #[trigger] rates@.contains(x) <==> (boundaries.contains(x) || (common@.take(k as int).contains(x)
                        && lo <= x <= hi)),
            decreases common@.len() - k,
        {
            let rate = common[k];
            if rate >= lo && rate <= hi {
                insert_sorted_unique(&mut rates, rate);
            }
            proof {
                let t0 = common@.take(k as int);
                let t1 = common@.take(k + 1);
                assert(t1 =~= t0.push(rate));
                assert forall|x: u32|
                    #[trigger] rates@.contains(x) <==> (boundaries.contains(x) || (t1.contains(x) && lo <= x <= hi)) by {
                    if t1.contains(x) && x != rate {
                        let j = choose|j: int| 0 <= j < t1.len() && #[trigger] t1[j] == x;
                        assert(t0[j] == x);
                    }
                    if t0.contains(x) {
                        let j = choose|j: int| 0 <= j < t0.len() && #[trigger] t0[j] == x;
                        assert(t1[j] == x);
                    }
                    if x == rate {
                        assert(t1[k as int] == x);
                    }
                }
            }
            k = k + 1;
        }
        assert(common@.take(k as int) =~= spec_common_rates());
        assert forall|x: u32| #[trigger] rates@.contains(x) <==> is_offered_rate(cs, x) by {
            assert(is_rate_boundary(cs, lo));
            assert(is_rate_boundary(cs, hi));
            assert(lo < hi);
            if lo <= x {
                assert(exists|a: u32| is_rate_boundary(cs, a) && a <= x);
            }
            if x <= hi {
                assert(exists|b: u32| is_rate_boundary(cs, b) && x <= b);
            }
            if exists|a: u32| is_rate_boundary(cs, a) && a <= x {
                let a = choose|a: u32| is_rate_boundary(cs, a) && a <= x;
                assert(boundaries.contains(a));
                let j = choose|j: int| 0 <= j < boundaries.len() && boundaries[j] == a;
                if j > 0 {
                    assert(boundaries[0] < boundaries[j]);
                }
            }
            if exists|b: u32| is_rate_boundary(cs, b) && x <= b {
                let b = choose|b: u32| is_rate_boundary(cs, b) && x <= b;
                assert(boundaries.contains(b));
                let j = choose|j: int| 0 <= j < boundaries.len() && boundaries[j] == b;
                if j < boundaries.len() - 1 {
                    assert(boundaries[j] < boundaries[boundaries.len() - 1]);
                }
            }
        }
    } else {
        assert forall|x: u32| #[trigger] rates@.contains(x) <==> is_offered_rate(cs, x) by {
            if exists|a: u32, b: u32| is_rate_boundary(cs, a) && is_rate_boundary(cs, b) && a < b {
                let (a, b) = choose|a: u32, b: u32| is_rate_boundary(cs, a) && is_rate_boundary(cs, b) && a < b;
                assert(boundaries.contains(a));
                assert(boundaries.contains(b));
                let ja = choose|j: int| 0 <= j < boundaries.len() && boundaries[j] == a;
                let jb = choose|j: int| 0 <= j < boundaries.len() && boundaries[j] == b;
                assert(ja != jb);
            }
        }
    }
    AudioDevice {
        id: name.clone(),
        name,
        is_default,
        supported_sample_rates: rates,
        supported_channel_counts: counts,
        min_buffer_size,
        max_buffer_size,
    }
}

/// An output device as the host lists it: its name, where it could be read,
/// and its configuration ranges (none where they could not be read).
#[derive(Debug)]
pub struct ListedDevice {
    pub name: Option<String>,
    pub configs: Vec<OutputConfigRange>,
}

/// The devices whose names could be read, with their ranges, in order.
pub open spec fn named_devices(devices: Seq<ListedDevice>) -> Seq<(Seq<char>, Seq<OutputConfigRange>)>
    decreases devices.len(),
{
    if devices.len() == 0 {
        Seq::empty()
    } else {
        let rest = named_devices(devices.drop_last());
        match devices.last().name {
            Some(n) => rest.push((n@, devices.last().configs@)),
            None => rest,
        }
    }
}

/// Whether a device is the host's default one, by name.
pub open spec fn is_default_name(default_device_name: Option<String>, name: Seq<char>) -> bool {
    default_device_name matches Some(d) && d@ == name
}

/// The output devices of a host, as the clients are sent them: the summary of
/// each listed device whose name could be read, in order; none where the
/// devices could not be listed.
pub fn enumerate_output_devices(
    host_name: String,
    default_device_name: Option<String>,
    devices: Option<Vec<ListedDevice>>,
) -> (r: AudioDevices)
    ensures
        r.host_name@ == host_name@,
        match devices {
            None => r.devices@.len() == 0,
            Some(ds) => {
                let named = named_devices(ds@);
                &&& r.devices@.len() == named.len()
                &&& forall|k: int|
                    0 <= k < named.len() ==> is_device_summary(
                        #[trigger] r.devices@[k]@,
                        named[k].0,
                        is_default_name(default_device_name, named[k].0),
                        named[k].1,
                    )
            },
        },
{
    let listed = match devices {
        Some(ds) => ds,
        None => return AudioDevices { host_name, devices: Vec::new() },
    };
    let ghost ls = listed@;
    let mut summaries: Vec<AudioDevice> = Vec::new();
    let mut i: usize = 0;
    while i < listed.len()
        invariant
            i <= ls.len(),
            ls == listed@,
            summaries@.len() == named_devices(ls.take(i as int)).len(),
            forall|k: int|
                0 <= k < summaries@.len() ==> is_device_summary(
                    #[trigger] summaries@[k]@,
                    named_devices(ls.take(i as int))[k].0,
                    is_default_name(default_device_name, named_devices(ls.take(i as int))[k].0),
                    named_devices(ls.take(i as int))[k].1,
                ),
        decreases ls.len() - i,
    {
        let ghost prev = named_devices(ls.take(i as int));
        assert(ls.take(i + 1).drop_last() =~= ls.take(i as int));
        assert(ls.take(i + 1).last() == ls[i as int]);
        match &listed[i].name {
            Some(name) => {
                let is_default = match &default_device_name {
                    Some(d) => crate::midi::str_equals(d.as_str(), name.as_str()),
                    None => false,
                };
                let summary = device_summary(name.clone(), is_default, listed[i].configs.as_slice());
                summaries.push(summary);
                assert(named_devices(ls.take(i + 1)) == prev.push((name@, ls[i as int].configs@)));
                assert forall|k: int| 0 <= k < summaries@.len() implies is_device_summary(
                    #[trigger] summaries@[k]@,
                    named_devices(ls.take(i + 1))[k].0,
                    is_default_name(default_device_name, named_devices(ls.take(i + 1))[k].0),
                    named_devices(ls.take(i + 1))[k].1,
                ) by {
                    if k < prev.len() {
                        assert(named_devices(ls.take(i + 1))[k] == prev[k]);
                    }
                }
            },
            None => {
                assert(named_devices(ls.take(i + 1)) == prev);
            },
        }
        i = i + 1;
    }
    assert(ls.take(i as int) =~= ls);
    AudioDevices { host_name, devices: summaries }
}

} // verus!
