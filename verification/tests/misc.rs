use bloop::ids::{random_id, random_project_id, INVALID_ID, PROJECT_ID_LENGTH};
use bloop::logger::LogOptions;
use bloop::playback::{
    extension_for_format, toggle_loop_method, toggle_play_method, AudioFileFormat, PlaybackState, PlayingState,
    TransportMethod,
};
use bloop::text::{parse_u32, parse_u32_plain, u32_to_decimal, u64_to_decimal};
use bloop::waveform::{WaveformAlgorithm, WaveformData, WaveformProperties};
use std::path::PathBuf;

fn props(length: i32, channel: i32, algorithm: WaveformAlgorithm) -> WaveformProperties {
    WaveformProperties { length, channel, algorithm }
}

#[test]
fn project_ids_are_fifteen_lower_case_letters_or_digits() {
    for _ in 0..20 {
        let id = random_project_id();
        assert_eq!(id.chars().count(), PROJECT_ID_LENGTH);
        assert!(id.chars().all(|c| c.is_ascii_lowercase() || c.is_ascii_digit()));
    }
    let _ = random_id();
    assert_eq!(INVALID_ID, 0);
}

#[test]
fn playback_state_reports_playing_and_stopped() {
    let stopped = PlaybackState::default();
    assert!(stopped.is_stopped());
    assert!(!stopped.is_playing());
    let playing = PlaybackState { playing: PlayingState::PLAYING, looping: true };
    assert!(playing.is_playing());
    assert_eq!(toggle_play_method(&playing), TransportMethod::STOP);
    assert_eq!(toggle_play_method(&stopped), TransportMethod::PLAY);
    assert_eq!(toggle_loop_method(&playing), TransportMethod::EXIT_LOOP);
    assert_eq!(toggle_loop_method(&stopped), TransportMethod::LOOP);
    assert_eq!(extension_for_format(AudioFileFormat::WAV), "wav");
}

#[test]
fn log_options_build_up() {
    let options = LogOptions::default();
    assert!(options.console_enabled());
    assert!(options.file_path().is_none());
    let options = options
        .log_to_console(false)
        .log_to_file(PathBuf::from("/tmp/bloop.log"))
        .log_dependencies_to_file(PathBuf::from("/tmp/deps.log"));
    assert!(!options.console_enabled());
    assert_eq!(options.file_path().as_deref(), Some(PathBuf::from("/tmp/bloop.log").as_path()));
    assert_eq!(options.dependencies_file_path().as_deref(), Some(PathBuf::from("/tmp/deps.log").as_path()));
}

#[test]
fn numbers_are_read_and_written_in_decimal() {
    assert_eq!(parse_u32(" 48000 ", ""), Some(48_000));
    assert_eq!(parse_u32("+7", ""), Some(7));
    assert_eq!(parse_u32("4294967296", ""), None);
    assert_eq!(parse_u32_plain(" 48000"), None);
    assert_eq!(parse_u32_plain("48000"), Some(48_000));
    assert_eq!(u32_to_decimal(0), "0");
    assert_eq!(u32_to_decimal(4_294_967_295), "4294967295");
    assert_eq!(u64_to_decimal(18_446_744_073_709_551_615), "18446744073709551615");
}

#[test]
fn waveform_groups_are_sorted_stably_by_length_then_channel() {
    let mut data = WaveformData::empty(44_100);
    data.push(&props(8192, 0, WaveformAlgorithm::MIN), 1);
    data.push(&props(512, 1, WaveformAlgorithm::MAX), 2);
    data.push(&props(512, 0, WaveformAlgorithm::MIN), 3);
    data.push(&props(512, 0, WaveformAlgorithm::MAX), 4);
    data.push(&props(512, 1, WaveformAlgorithm::MAX), 5);
    data.sort();
    let order: Vec<(i32, i32, WaveformAlgorithm)> = data
        .peaks
        .iter()
        .map(|g| {
            let p = g.properties.unwrap();
            (p.length, p.channel, p.algorithm)
        })
        .collect();
    assert_eq!(
        order,
        vec![
            (512, 0, WaveformAlgorithm::MIN),
            (512, 0, WaveformAlgorithm::MAX),
            (512, 1, WaveformAlgorithm::MAX),
            (8192, 0, WaveformAlgorithm::MIN),
        ]
    );
    assert_eq!(data.peaks[2].value_bits, vec![2, 5]);
}

#[test]
fn waveforms_are_added_only_at_the_same_rate() {
    let mut data = WaveformData::empty(44_100);
    data.push(&props(512, 0, WaveformAlgorithm::MIN), 1);
    let mut other = WaveformData::empty(44_100);
    other.push(&props(8192, 0, WaveformAlgorithm::MIN), 2);
    data.add(other);
    assert_eq!(data.peaks.len(), 2);

    let mut same = WaveformData::empty(44_100);
    same.push(&props(512, 0, WaveformAlgorithm::MIN), 1);
    same.push(&props(8192, 0, WaveformAlgorithm::MIN), 2);
    data.add(same);
    assert_eq!(data.peaks.len(), 2);

    let mut other_rate = WaveformData::empty(48_000);
    other_rate.push(&props(512, 0, WaveformAlgorithm::MIN), 9);
    data.add(other_rate);
    assert_eq!(data.peaks.len(), 2);
}
