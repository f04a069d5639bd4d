use bloop::audio::devices::{query_native_channel_count, OutputConfigRange, OutputDevice, SampleFormatKind};
use bloop::audio::samples::{samplers_to_remove, ConversionTracker, SongSample};
use bloop::messages::AudioPreferences;
use bloop::project_store::{copy_plan, load_plan, CachedSample};
use bloop::ui::control::{playback_shortcut, Message, ShortcutKey};
use bloop::waveform_store::{waveform_lengths, WaveformJobs};

fn sample(id: u64, has_sampler: bool, cached: bool) -> Option<SongSample> {
    Some(SongSample { id, has_sampler, in_cache: true, cached })
}

#[test]
fn a_waveform_is_generated_once_at_a_time() {
    let mut jobs = WaveformJobs::new();
    assert_eq!(jobs.request(5, true, true), Ok(true));
    assert_eq!(jobs.request(5, true, true), Ok(false));
    jobs.complete(5);
    assert_eq!(jobs.request(5, true, true), Ok(true));
    assert_eq!(jobs.request(6, false, true), Err("Couldn't find sample with ID: 6".to_string()));
    assert_eq!(jobs.request(7, true, false), Err("Sample is not cached: 7".to_string()));
    assert_eq!(waveform_lengths(), vec![512, 8192]);
}

#[test]
fn samples_are_converted_once_and_only_when_cached() {
    let mut tracker = ConversionTracker::new();
    let songs = [sample(1, false, true), None, sample(2, true, true), sample(3, false, false), sample(1, false, true)];
    assert_eq!(tracker.samples_to_convert(&songs), vec![1]);
    assert!(tracker.is_converting(1));
    assert!(tracker.samples_to_convert(&songs).is_empty());
    tracker.finished(1);
    assert!(!tracker.is_converting(1));
    tracker.samples_to_convert(&songs);
    tracker.clear();
    assert!(!tracker.is_converting(1));
}

#[test]
fn samplers_of_unused_samples_are_dropped() {
    assert_eq!(samplers_to_remove(&[1, 2, 3], &vec![2]), vec![1, 3]);
    assert!(samplers_to_remove(&[2], &vec![2]).is_empty());
}

#[test]
fn saving_copies_missing_samples_until_one_is_not_cached() {
    let songs = [
        Some(CachedSample { id: 1, in_cache: true, cached: true }),
        Some(CachedSample { id: 2, in_cache: true, cached: true }),
        Some(CachedSample { id: 3, in_cache: true, cached: false }),
        Some(CachedSample { id: 4, in_cache: true, cached: true }),
    ];
    let (copies, error) = copy_plan(&songs, &["2".to_string()]);
    assert_eq!(copies, vec![1]);
    assert_eq!(error.unwrap(), "Sample isn't cached: 3");
    let (copies, error) = copy_plan(&[Some(CachedSample { id: 9, in_cache: false, cached: false })], &[]);
    assert!(copies.is_empty());
    assert_eq!(error.unwrap(), "Missing sample in cache: 9");
    assert_eq!(copy_plan(&[None], &[]), (vec![], None));
}

#[test]
fn loading_fetches_referenced_samples_the_cache_lacks() {
    let names = ["1".to_string(), "2".to_string()];
    assert_eq!(load_plan(&[1, 2], &[true, false], &names), (vec![2], None));
    let (fetches, error) = load_plan(&[2, 5, 1], &[false, false, false], &names);
    assert_eq!(fetches, vec![2]);
    assert_eq!(error.unwrap(), "Project is missing referenced audio: 5");
}

#[test]
fn shortcuts_map_keys_to_messages() {
    assert!(matches!(playback_shortcut(ShortcutKey::Space, false), Some(Message::TogglePlayback)));
    assert!(playback_shortcut(ShortcutKey::Space, true).is_none());
    assert!(matches!(playback_shortcut(ShortcutKey::ArrowUp, true), Some(Message::SelectPreviousSection)));
    assert!(matches!(playback_shortcut(ShortcutKey::ArrowRight, false), Some(Message::SelectNextSong)));
    assert!(playback_shortcut(ShortcutKey::Other, false).is_none());
}

#[test]
fn the_native_channel_count_needs_a_device() {
    let prefs = AudioPreferences { sample_rate: 48_000, main_channel_offset: 2, click_channel_offset: 0, ..Default::default() };
    assert_eq!(query_native_channel_count(&prefs, None), 2);
    let device = OutputDevice {
        configs: vec![
            OutputConfigRange { channels: 2, min_sample_rate: 48_000, max_sample_rate: 48_000, buffer_size: None, sample_format: SampleFormatKind::F32 },
            OutputConfigRange { channels: 6, min_sample_rate: 48_000, max_sample_rate: 48_000, buffer_size: None, sample_format: SampleFormatKind::F32 },
        ],
        default_config: None,
    };
    assert_eq!(query_native_channel_count(&prefs, Some(&device)), 6);
}
