//! Audio preferences as the configuration file writes them, with the
//! default of each field that the file leaves out.

use vstd::prelude::*;

verus! {

/// Audio preferences as read from the configuration file.
#[derive(Debug)]
pub struct AudioPreferences {
    pub output_device: Option<String>,
    pub sample_rate: usize,
    pub buffer_size: usize,
    pub output_channel_count: usize,
    pub use_jack: bool,
    pub main_channel_offset: usize,
    pub click_channel_offset: usize,
}

pub fn default_sample_rate() -> (r: usize)
    ensures
        r == 48_000,
{
    48_000
}

pub fn default_buffer_size() -> (r: usize)
    ensures
        r == 512,
{
    512
}

pub fn default_output_channel_count() -> (r: usize)
    ensures
        r == 2,
{
    2
}

pub fn default_main_channel_offset() -> (r: usize)
    ensures
        r == 0,
{
    0
}

pub fn default_click_channel_offset() -> (r: usize)
    ensures
        r == 2,
{
    2
}

impl Default for AudioPreferences {
    /// No output device; every other field at its default.
    fn default() -> (r: Self)
        ensures
            r.output_device is None,
            r.sample_rate == 48_000,
            r.buffer_size == 512,
            r.output_channel_count == 2,
            !r.use_jack,
            r.main_channel_offset == 0,
            r.click_channel_offset == 2,
    {
        Self {
            output_device: None,
            sample_rate: default_sample_rate(),
            buffer_size: default_buffer_size(),
            output_channel_count: default_output_channel_count(),
            use_jack: false,
            main_channel_offset: default_main_channel_offset(),
            click_channel_offset: default_click_channel_offset(),
        }
    }
}

} // verus!
