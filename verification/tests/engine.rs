use bloop::audio::{get_audio_status, Announcement, AudioEngineState, EngineLifecycle};
use bloop::messages::{AudioEngineStatus, AudioPreferences};

fn preferences() -> AudioPreferences {
    AudioPreferences { sample_rate: 48_000, buffer_size: 512, output_channel_count: 2, ..Default::default() }
}

#[test]
fn new_with_dummy_audio_has_running_state() {
    let engine = EngineLifecycle::new(true, Ok(()));
    assert!(engine.is_running());
    assert_eq!(*engine.engine_state(), AudioEngineState::Running);
}

#[test]
fn stop_audio_sets_stopped_state() {
    let mut engine = EngineLifecycle::new(true, Ok(()));
    let sent = engine.stop();
    assert_eq!(sent, vec![Announcement::StoppedPlayback, Announcement::ZeroProgress, Announcement::AudioStatus]);
    assert!(!engine.is_running());
    assert_eq!(*engine.engine_state(), AudioEngineState::Stopped);
    assert!(engine.stop().is_empty());
}

#[test]
fn start_stop_start_sets_running_state() {
    let mut engine = EngineLifecycle::new(true, Ok(()));
    assert_eq!(*engine.engine_state(), AudioEngineState::Running);
    engine.stop();
    assert_eq!(*engine.engine_state(), AudioEngineState::Stopped);
    let sent = engine.started(true, Ok(()));
    assert_eq!(sent, vec![Announcement::AudioStatus]);
    assert_eq!(*engine.engine_state(), AudioEngineState::Running);
}

#[test]
fn a_start_that_cannot_open_the_device_reports_failure() {
    let mut engine = EngineLifecycle::new(false, Err("busy".to_string()));
    assert_eq!(*engine.engine_state(), AudioEngineState::Failed { reason: "busy".to_string() });
    engine.stop();
    let sent = engine.started(false, Err("still busy".to_string()));
    assert_eq!(sent, vec![Announcement::StoppedPlayback, Announcement::ZeroProgress, Announcement::AudioStatus]);
    let status = get_audio_status(engine.engine_state(), &preferences());
    assert_eq!(status.engine_status, AudioEngineStatus::AUDIO_ENGINE_FAILED);
    assert_eq!(status.error, "still busy");
}

#[test]
fn stop_start_stop_produces_correct_status_sequence() {
    let mut engine = EngineLifecycle::new(true, Ok(()));
    let mut statuses = Vec::new();
    if !engine.stop().is_empty() {
        statuses.push(get_audio_status(engine.engine_state(), &preferences()).engine_status);
    }
    engine.started(true, Ok(()));
    statuses.push(get_audio_status(engine.engine_state(), &preferences()).engine_status);
    if !engine.stop().is_empty() {
        statuses.push(get_audio_status(engine.engine_state(), &preferences()).engine_status);
    }
    assert_eq!(
        statuses,
        vec![
            AudioEngineStatus::AUDIO_ENGINE_STOPPED,
            AudioEngineStatus::AUDIO_ENGINE_RUNNING,
            AudioEngineStatus::AUDIO_ENGINE_STOPPED
        ]
    );
}

#[test]
fn starting_a_running_engine_does_nothing() {
    let mut engine = EngineLifecycle::new(true, Ok(()));
    let sent = engine.started(false, Err("not looked at".to_string()));
    assert!(sent.is_empty());
    assert!(engine.is_running());
    assert_eq!(*engine.engine_state(), AudioEngineState::Running);
}
