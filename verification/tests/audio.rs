use bloop::audio::devices::{
    device_summary, enumerate_output_devices, fixed_stream_config, min_required_channels, plan_output_stream,
    preferred_channel_count, select_output_device, select_stream_config_for_channel_count, BufferSizeRange,
    BufferSizeRequest, DefaultOutputConfig, ListedDevice, OutputConfig, OutputConfigRange, OutputDevice,
    SampleFormatKind,
};
use bloop::audio::{click_is_routed, engine_state_after_start, get_audio_status, AudioEngineState};
use bloop::messages::{AudioEngineStatus, AudioPreferences};

fn range(channels: u16, min: u32, max: u32, format: SampleFormatKind) -> OutputConfigRange {
    OutputConfigRange {
        channels,
        min_sample_rate: min,
        max_sample_rate: max,
        buffer_size: Some(BufferSizeRange { min: 64, max: 4096 }),
        sample_format: format,
    }
}

fn preferences() -> AudioPreferences {
    AudioPreferences {
        output_device: "Card".to_string(),
        sample_rate: 48_000,
        buffer_size: 256,
        output_channel_count: 4,
        use_jack: false,
        main_channel_offset: 0,
        click_channel_offset: 2,
    }
}

#[test]
fn enumerate_output_devices_reports_at_least_one_device() {
    let devices = enumerate_output_devices(
        "ALSA".to_string(),
        Some("default".to_string()),
        Some(vec![ListedDevice {
            name: Some("default".to_string()),
            configs: vec![range(2, 44_100, 48_000, SampleFormatKind::F32)],
        }]),
    );
    assert!(!devices.devices.is_empty(), "Expected at least one output device but found none");
    assert!(devices.devices[0].is_default);
}

#[test]
fn enumerate_output_devices_does_not_panic() {
    let devices = enumerate_output_devices("ALSA".to_string(), None, None);
    assert_eq!(devices.host_name, "ALSA");
    assert!(devices.devices.is_empty());
}

#[test]
fn devices_without_a_readable_name_are_skipped() {
    let devices = enumerate_output_devices(
        "CoreAudio".to_string(),
        Some("B".to_string()),
        Some(vec![
            ListedDevice { name: Some("A".to_string()), configs: vec![] },
            ListedDevice { name: None, configs: vec![] },
            ListedDevice { name: Some("B".to_string()), configs: vec![] },
        ]),
    );
    let names: Vec<&str> = devices.devices.iter().map(|d| d.name.as_str()).collect();
    assert_eq!(names, vec!["A", "B"]);
    assert!(!devices.devices[0].is_default);
    assert!(devices.devices[1].is_default);
    assert_eq!(devices.devices[1].id, "B");
}

#[test]
fn a_wide_rate_range_offers_the_common_rates_inside_it() {
    let device = device_summary(
        "Card".to_string(),
        false,
        &[range(2, 8_000, 96_000, SampleFormatKind::F32), range(8, 44_100, 44_100, SampleFormatKind::I16)],
    );
    assert_eq!(device.supported_sample_rates, vec![8_000, 44_100, 48_000, 88_200, 96_000]);
    assert_eq!(device.supported_channel_counts, vec![2, 8]);
    assert_eq!(device.min_buffer_size, 64);
    assert_eq!(device.max_buffer_size, 4096);
}

#[test]
fn a_single_rate_offers_only_that_rate() {
    let device = device_summary("Card".to_string(), true, &[range(2, 48_000, 48_000, SampleFormatKind::F32)]);
    assert_eq!(device.supported_sample_rates, vec![48_000]);
    let empty = device_summary("None".to_string(), false, &[]);
    assert!(empty.supported_sample_rates.is_empty());
    assert!(empty.supported_channel_counts.is_empty());
    assert_eq!((empty.min_buffer_size, empty.max_buffer_size), (0, 0));
}

#[test]
fn buffer_bounds_skip_unknown_sizes() {
    let mut unknown = range(2, 48_000, 48_000, SampleFormatKind::F32);
    unknown.buffer_size = None;
    let mut small = range(2, 48_000, 48_000, SampleFormatKind::F32);
    small.buffer_size = Some(BufferSizeRange { min: 32, max: 1024 });
    let device = device_summary("Card".to_string(), false, &[unknown, small, range(4, 1, 2, SampleFormatKind::U16)]);
    assert_eq!(device.min_buffer_size, 32);
    assert_eq!(device.max_buffer_size, 4096);
}

#[test]
fn routing_needs_room_for_both_stereo_pairs() {
    assert_eq!(min_required_channels(&preferences()), 4);
    let mut prefs = preferences();
    prefs.main_channel_offset = 6;
    assert_eq!(min_required_channels(&prefs), 8);
}

#[test]
fn the_smallest_count_that_fits_the_routing_is_preferred() {
    let configs = [
        range(8, 44_100, 48_000, SampleFormatKind::F32),
        range(2, 44_100, 48_000, SampleFormatKind::F32),
        range(4, 44_100, 48_000, SampleFormatKind::I16),
        range(6, 96_000, 96_000, SampleFormatKind::F32),
    ];
    assert_eq!(preferred_channel_count(&configs, Some(2), 48_000, 4), 4);
    assert_eq!(preferred_channel_count(&configs, Some(2), 48_000, 3), 4);
    assert_eq!(preferred_channel_count(&configs, Some(2), 48_000, 10), 2);
    assert_eq!(preferred_channel_count(&configs, Some(6), 22_050, 4), 6);
    assert_eq!(preferred_channel_count(&configs, None, 22_050, 4), 2);
    assert_eq!(preferred_channel_count(&[range(6, 1, 100_000, SampleFormatKind::F32), range(10, 1, 100_000, SampleFormatKind::F32)], None, 48_000, 12), 6);
}

#[test]
fn stream_config_prefers_channel_match_in_f32() {
    let prefs = preferences();
    let configs = [
        range(2, 44_100, 48_000, SampleFormatKind::I16),
        range(4, 44_100, 48_000, SampleFormatKind::I16),
        range(2, 44_100, 48_000, SampleFormatKind::F32),
        range(4, 44_100, 48_000, SampleFormatKind::F32),
    ];
    let chosen = select_stream_config_for_channel_count(&prefs, &configs, None, 4).unwrap();
    assert_eq!(chosen.channels, 4);
    assert_eq!(chosen.sample_format, SampleFormatKind::F32);
    assert_eq!(chosen.sample_rate, 48_000);
    assert_eq!(chosen.buffer_size, BufferSizeRequest::Default);

    let chosen = select_stream_config_for_channel_count(&prefs, &configs[..3], None, 4).unwrap();
    assert_eq!((chosen.channels, chosen.sample_format), (4, SampleFormatKind::I16));

    let chosen = select_stream_config_for_channel_count(&prefs, &configs[..3], None, 6).unwrap();
    assert_eq!((chosen.channels, chosen.sample_format), (2, SampleFormatKind::F32));

    let chosen = select_stream_config_for_channel_count(&prefs, &configs[..2], None, 6).unwrap();
    assert_eq!((chosen.channels, chosen.sample_format), (2, SampleFormatKind::I16));
}

#[test]
fn stream_config_falls_back_to_the_default_config() {
    let prefs = preferences();
    let configs = [range(2, 8_000, 16_000, SampleFormatKind::F32)];
    let default = DefaultOutputConfig { channels: 2, sample_rate: 44_100, sample_format: SampleFormatKind::I16 };
    let chosen = select_stream_config_for_channel_count(&prefs, &configs, Some(default), 2).unwrap();
    assert_eq!(
        chosen,
        OutputConfig {
            channels: 2,
            sample_rate: 44_100,
            buffer_size: BufferSizeRequest::Default,
            sample_format: SampleFormatKind::I16
        }
    );
    assert!(select_stream_config_for_channel_count(&prefs, &configs, None, 2).is_none());
}

#[test]
fn plan_reports_a_missing_device_and_an_unusable_one() {
    let prefs = preferences();
    assert_eq!(plan_output_stream(&prefs, None, false).unwrap_err(), "Couldn't connect to output audio device");
    let device = OutputDevice { configs: vec![range(2, 8_000, 16_000, SampleFormatKind::F32)], default_config: None };
    assert_eq!(
        plan_output_stream(&prefs, Some(&device), false).unwrap_err(),
        "Unable to select a usable output stream config"
    );
    let fixed = plan_output_stream(&prefs, Some(&device), true).unwrap();
    assert_eq!(fixed, fixed_stream_config(&prefs, 2));
    assert_eq!(fixed.buffer_size, BufferSizeRequest::Fixed(256));
    assert_eq!(fixed.sample_format, SampleFormatKind::F32);
}

#[test]
fn plan_opens_the_preferred_count() {
    let prefs = preferences();
    let device = OutputDevice {
        configs: vec![range(2, 44_100, 48_000, SampleFormatKind::F32), range(4, 44_100, 48_000, SampleFormatKind::F32)],
        default_config: None,
    };
    let plan = plan_output_stream(&prefs, Some(&device), false).unwrap();
    assert_eq!(plan.channels, 4);
}

#[test]
fn the_named_device_is_found_by_part_of_its_name() {
    let names = vec![Some("Built-in Output".to_string()), None, Some("USB Audio CODEC".to_string())];
    assert_eq!(select_output_device(Some(&names), "USB"), Some(2));
    assert_eq!(select_output_device(Some(&names), "Missing"), None);
    assert_eq!(select_output_device(Some(&names), ""), None);
    assert_eq!(select_output_device(None, "USB"), None);
}

#[test]
fn get_audio_status_reflects_running_engine() {
    let status = get_audio_status(&AudioEngineState::Running, &preferences());
    assert_eq!(status.engine_status, AudioEngineStatus::AUDIO_ENGINE_RUNNING);
    assert_eq!(status.current_device_id, "Card");
    assert_eq!(status.current_device_name, "Card");
    assert_eq!(status.current_sample_rate, 48_000);
    assert_eq!(status.current_channel_count, 4);
    assert_eq!(status.current_buffer_size, 256);
    assert!(status.error.is_empty());
}

#[test]
fn a_failed_engine_reports_its_reason() {
    let state = engine_state_after_start(false, Err("no device".to_string()));
    assert_eq!(state, AudioEngineState::Failed { reason: "no device".to_string() });
    let status = get_audio_status(&state, &preferences());
    assert_eq!(status.engine_status, AudioEngineStatus::AUDIO_ENGINE_FAILED);
    assert_eq!(status.error, "no device");
    assert_eq!(engine_state_after_start(true, Err("ignored".to_string())), AudioEngineState::Running);
    assert_eq!(engine_state_after_start(false, Ok(())), AudioEngineState::Running);
    let stopped = get_audio_status(&AudioEngineState::Stopped, &preferences());
    assert_eq!(stopped.engine_status, AudioEngineStatus::AUDIO_ENGINE_STOPPED);
}

#[test]
fn the_click_is_routed_only_where_it_fits() {
    assert!(click_is_routed(4, 2));
    assert!(!click_is_routed(3, 2));
    assert!(!click_is_routed(2, u32::MAX));
}
