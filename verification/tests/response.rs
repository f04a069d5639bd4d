use bloop::playback::{PlaybackState, PlayingState};
use bloop::response::{Response, UserStatusResponse};

type TestResponse = Response<String, String, Vec<f32>, f64, u32, String, bool>;

#[test]
fn a_default_response_carries_nothing() {
    let r = TestResponse::default();
    assert!(r.error.is_empty());
    assert!(r.project.is_none() && r.projects.is_empty() && r.cloud_projects.is_empty());
    assert!(r.playback_state.is_none() && r.waveform.is_none() && r.progress.is_none());
    assert!(r.upload.is_none() && r.user_status.is_none() && r.project_info.is_none() && r.project_sync.is_none());
}

#[test]
fn builders_fill_in_their_field_and_keep_the_others() {
    let playing = PlaybackState { playing: PlayingState::PLAYING, looping: true };
    let r = TestResponse::default()
        .with_error("Unable to load project")
        .with_project(&"p1".to_string())
        .with_projects(&["a".to_string(), "b".to_string()])
        .with_cloud_projects(&["c".to_string()])
        .with_playback_state(&playing)
        .with_waveform(&vec![0.5, -0.5])
        .with_progress(&0.25)
        .with_upload_ack(&7)
        .with_project_info(&"info".to_string())
        .with_project_sync(&true);
    assert_eq!(r.error, "Unable to load project");
    assert_eq!(r.project.as_deref(), Some("p1"));
    assert_eq!(r.projects, vec!["a".to_string(), "b".to_string()]);
    assert_eq!(r.cloud_projects, vec!["c".to_string()]);
    assert_eq!(r.playback_state, Some(playing));
    assert_eq!(r.waveform, Some(vec![0.5, -0.5]));
    assert_eq!(r.progress, Some(0.25));
    assert_eq!(r.upload, Some(7));
    assert_eq!(r.project_info.as_deref(), Some("info"));
    assert_eq!(r.project_sync, Some(true));
    assert!(r.user_status.is_none());
}

#[test]
fn the_user_builders_set_the_user_status() {
    let r = TestResponse::default().with_user(Some("ana".to_string()));
    assert_eq!(r.user_status.unwrap().user.as_deref(), Some("ana"));
    let r = TestResponse::default().with_user(None);
    assert!(r.user_status.unwrap().user.is_none());
    let status = UserStatusResponse { user: Some("bo".to_string()) };
    let r = TestResponse::default().with_user_status(&status);
    assert_eq!(r.user_status.unwrap().user.as_deref(), Some("bo"));
}
