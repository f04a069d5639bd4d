use bloop::controller::{
    action_command, add_edit, get_plan, remove_edit, request_steps, select_edit, start_project_sync, sync_status,
    transport_command, ActionCommand, EngineCommand, GetPlan, ProjectEdit, RequestParts, RequestStep, SaveTracker,
    SyncDirection, SyncMethod, SyncStart, SyncStatus, request_after, request_start, RequestNext,
};
use bloop::messages::{Action, Entity};
use bloop::playback::TransportMethod;

fn no_parts() -> RequestParts {
    RequestParts {
        add: false,
        get: false,
        load: false,
        remove: false,
        remove_sample: false,
        save: false,
        select: false,
        transport: false,
        update: false,
        begin_upload: false,
        upload: false,
        complete_upload: false,
        add_sample: false,
        add_section: false,
        remove_project: false,
        duplicate_project: false,
        rename_project: false,
        login: false,
        logout: false,
        project_sync: false,
    }
}

#[test]
fn request_parts_are_handled_in_a_fixed_order() {
    let parts = RequestParts { project_sync: true, add: true, save: true, login: true, ..no_parts() };
    assert_eq!(
        request_steps(&parts),
        vec![RequestStep::Add, RequestStep::Save, RequestStep::Login, RequestStep::ProjectSync]
    );
    assert!(request_steps(&no_parts()).is_empty());
}

#[test]
fn get_requests_dispatch_on_the_entity() {
    assert!(matches!(get_plan(Ok(Entity::ALL), 0), GetPlan::SendAll));
    assert!(matches!(get_plan(Ok(Entity::PROJECTS), 0), GetPlan::SendProjects));
    assert!(matches!(get_plan(Ok(Entity::WAVEFORM), 7), GetPlan::Waveform(7)));
    assert!(matches!(get_plan(Ok(Entity::SONG), 7), GetPlan::Nothing));
    match get_plan(Err(99), 0) {
        GetPlan::InvalidEntity(message) => assert_eq!(message, "Invalid entity type: 99"),
        other => panic!("unexpected {other:?}"),
    }
}

#[test]
fn adding_a_section_needs_its_song() {
    assert_eq!(add_edit(Entity::SECTION, 0).unwrap_err(), "Missing parent ID");
    assert_eq!(add_edit(Entity::SECTION, 5).unwrap(), ProjectEdit::AddSection { parent: 5 });
    assert_eq!(add_edit(Entity::SONG, 0).unwrap(), ProjectEdit::AddSong);
    assert_eq!(add_edit(Entity::PROJECT, 0).unwrap(), ProjectEdit::NewProject);
    assert_eq!(add_edit(Entity::WAVEFORM, 0).unwrap(), ProjectEdit::Keep);
    assert_eq!(select_edit(Entity::SONG, 3), ProjectEdit::SelectSong(3));
    assert_eq!(remove_edit(Entity::SECTION, 4), ProjectEdit::RemoveSection(4));
    assert_eq!(remove_edit(Entity::ALL, 4), ProjectEdit::Keep);
}

#[test]
fn transport_requests_become_engine_commands() {
    assert_eq!(transport_command(Ok(TransportMethod::PLAY), 0, 0).unwrap(), EngineCommand::Play);
    assert_eq!(
        transport_command(Ok(TransportMethod::QUEUE), 1, 2).unwrap(),
        EngineCommand::Queue { song_id: 1, section_id: 2 }
    );
    assert_eq!(transport_command(Err(12), 0, 0).unwrap_err(), "Invalid transport method: 12");
}

#[test]
fn queueing_the_selection_needs_a_song_and_a_section() {
    assert_eq!(
        action_command(Action::ACTION_QUEUE_SELECTED, 1, 2),
        ActionCommand::Engine(EngineCommand::Queue { song_id: 1, section_id: 2 })
    );
    assert_eq!(action_command(Action::ACTION_QUEUE_SELECTED, 0, 2), ActionCommand::Nothing);
    assert_eq!(action_command(Action::ACTION_TOGGLE_PLAY, 0, 0), ActionCommand::Engine(EngineCommand::TogglePlay));
    assert_eq!(action_command(Action::ACTION_UNKNOWN, 1, 1), ActionCommand::Nothing);
}

#[test]
fn project_sync_needs_a_user_and_a_method() {
    match start_project_sync(false, SyncMethod::SYNC_METHOD_PUSH) {
        SyncStart::NotLoggedIn(message) => assert_eq!(message, "User not logged in, cannot sync project"),
        other => panic!("unexpected {other:?}"),
    }
    match start_project_sync(true, SyncMethod::SYNC_METHOD_UNDEFINED) {
        SyncStart::UndefinedMethod(message) => assert_eq!(message, "Undefined sync method"),
        other => panic!("unexpected {other:?}"),
    }
    assert!(matches!(
        start_project_sync(true, SyncMethod::SYNC_METHOD_PULL),
        SyncStart::Copy(SyncDirection::RemoteToLocal)
    ));
    assert_eq!(sync_status(true), SyncStatus::SYNC_STATUS_COMPLETE);
    assert_eq!(sync_status(false), SyncStatus::SYNC_STATUS_ERROR);
}

#[test]
fn changed_songs_are_saved_until_a_save_succeeds() {
    let mut tracker = SaveTracker::new();
    assert!(!tracker.save_due());
    tracker.note_project(false);
    assert!(!tracker.save_due());
    tracker.note_project(true);
    tracker.note_save(false);
    assert!(tracker.save_due());
    tracker.note_save(true);
    assert!(!tracker.save_due());
}

#[test]
fn an_unknown_negative_raw_value_is_named_with_its_sign() {
    match get_plan(Err(-3), 0) {
        GetPlan::InvalidEntity(m) => assert_eq!(m, "Invalid entity type: -3"),
        _ => panic!("expected an invalid entity"),
    }
    assert_eq!(transport_command(Err(i32::MIN), 0, 0).unwrap_err(), "Invalid transport method: -2147483648");
}

#[test]
fn a_request_commits_only_when_every_part_succeeds() {
    let steps = [RequestStep::Add, RequestStep::Save, RequestStep::Select];
    assert_eq!(request_start(&steps), RequestNext::Perform(RequestStep::Add));
    assert_eq!(request_after(&steps, 0, true), RequestNext::Perform(RequestStep::Save));
    assert_eq!(request_after(&steps, 1, false), RequestNext::Abort);
    assert_eq!(request_after(&steps, 1, true), RequestNext::Perform(RequestStep::Select));
    assert_eq!(request_after(&steps, 2, true), RequestNext::Commit);
    assert_eq!(request_start(&[]), RequestNext::Commit);
}
