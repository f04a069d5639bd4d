use bloop::project_store::{
    ops_after_install, ops_before_install, DirectoryOp,
    classify_project_entry, cloud_mirror_is_current, ends_with_text, missing_audio_error, missing_referenced_sample,
    referenced_sample_ids, removal_steps, starts_with_text, CloudRefresh, ProjectDirectoryEntry,
    ProjectRemovalTarget, RemovalStep, backup_action, refresh_after, refresh_start, removal_after, removal_start,
    BackupAction, RefreshNext, RefreshStep, RemovalNext,
};

#[test]
fn remove_project_local_target_only_removes_local_project() {
    let steps = removal_steps(&[ProjectRemovalTarget::PROJECT_REMOVAL_TARGET_LOCAL]).unwrap();
    assert_eq!(steps, vec![RemovalStep::Local]);
}

#[test]
fn remove_project_remote_target_only_removes_remote_project() {
    let steps = removal_steps(&[ProjectRemovalTarget::PROJECT_REMOVAL_TARGET_REMOTE]).unwrap();
    assert_eq!(steps, vec![RemovalStep::Remote]);
}

#[test]
fn remove_project_local_and_remote_targets_remove_local_and_remote_projects() {
    let steps = removal_steps(&[
        ProjectRemovalTarget::PROJECT_REMOVAL_TARGET_LOCAL,
        ProjectRemovalTarget::PROJECT_REMOVAL_TARGET_REMOTE,
    ])
    .unwrap();
    assert_eq!(steps, vec![RemovalStep::Remote, RemovalStep::Local]);
}

#[test]
fn remove_project_empty_targets_remove_local_and_remote_projects_for_compatibility() {
    assert_eq!(removal_steps(&[]).unwrap(), vec![RemovalStep::Remote, RemovalStep::Local]);
}

#[test]
fn failed_remote_removal_preserves_local_project() {
    let steps = removal_steps(&[
        ProjectRemovalTarget::PROJECT_REMOVAL_TARGET_LOCAL,
        ProjectRemovalTarget::PROJECT_REMOVAL_TARGET_REMOTE,
    ])
    .unwrap();
    assert_eq!(steps.first(), Some(&RemovalStep::Remote));
}

#[test]
fn a_removal_without_a_known_target_is_refused() {
    assert_eq!(
        removal_steps(&[ProjectRemovalTarget::PROJECT_REMOVAL_TARGET_UNSPECIFIED]).unwrap_err(),
        "No project removal targets specified"
    );
}

#[test]
fn project_store_recovers_interrupted_refresh_backup() {
    match classify_project_entry(".project-id.backup") {
        ProjectDirectoryEntry::Backup { project_id } => assert_eq!(project_id, "project-id"),
        other => panic!("expected a backup, got {other:?}"),
    }
    assert!(matches!(classify_project_entry(".cloud-project-abc123"), ProjectDirectoryEntry::Staging));
    assert!(matches!(classify_project_entry("project-id"), ProjectDirectoryEntry::Other));
    assert!(matches!(classify_project_entry(".backup"), ProjectDirectoryEntry::Other));
    assert!(matches!(classify_project_entry("last_project"), ProjectDirectoryEntry::Other));
    match classify_project_entry("..backup") {
        ProjectDirectoryEntry::Backup { project_id } => assert_eq!(project_id, ""),
        other => panic!("expected a backup, got {other:?}"),
    }
}

#[test]
fn unchanged_cloud_revision_uses_existing_local_mirror() {
    let revision = "2024-01-01T00:00:00+00:00";
    assert!(cloud_mirror_is_current(Some(revision), revision, true));
    assert!(!cloud_mirror_is_current(Some(revision), revision, false));
    assert!(!cloud_mirror_is_current(Some("2023-01-01T00:00:00+00:00"), revision, true));
    assert!(!cloud_mirror_is_current(None, revision, true));
    assert_ne!(CloudRefresh::Current, CloudRefresh::Updated);
}

#[test]
fn cloud_refresh_is_transactional_and_only_copies_referenced_audio() {
    let referenced = referenced_sample_ids(&[Some(42), None, Some(42)]);
    assert_eq!(referenced, vec![42]);
    let available = vec!["42".to_string(), "77".to_string()];
    assert_eq!(missing_referenced_sample(&referenced, &available), None);

    let broken = referenced_sample_ids(&[Some(99)]);
    assert_eq!(missing_referenced_sample(&broken, &available), Some(99));
    assert_eq!(missing_audio_error(99), "Cloud project is missing referenced audio: 99");
}

#[test]
fn prefixes_and_suffixes_are_matched_by_character() {
    assert!(starts_with_text(".cloud-project-x", ".cloud-project-"));
    assert!(!starts_with_text(".cloud", ".cloud-project-"));
    assert!(ends_with_text("a.backup", ".backup"));
    assert!(!ends_with_text("backup", ".backup"));
}

#[test]
fn referenced_samples_keep_song_order() {
    assert_eq!(referenced_sample_ids(&[Some(3), Some(1), Some(3), None, Some(2)]), vec![3, 1, 2]);
    assert_eq!(missing_referenced_sample(&[3, 1, 2], &["3".to_string()]), Some(1));
    assert_eq!(missing_referenced_sample(&[18_446_744_073_709_551_615], &["18446744073709551615".to_string()]), None);
}

#[test]
fn a_refresh_backs_up_the_project_and_settles_the_backup_afterwards() {
    assert_eq!(ops_before_install(true, true), vec![DirectoryOp::RemoveBackup, DirectoryOp::BackupProject]);
    assert_eq!(ops_before_install(true, false), vec![DirectoryOp::RestoreBackup, DirectoryOp::BackupProject]);
    assert_eq!(ops_before_install(false, true), vec![DirectoryOp::BackupProject]);
    assert!(ops_before_install(false, false).is_empty());
    assert_eq!(ops_after_install(true, true), vec![DirectoryOp::RemoveBackup]);
    assert_eq!(ops_after_install(false, true), vec![DirectoryOp::RestoreBackup]);
    assert!(ops_after_install(false, false).is_empty());
}

#[test]
fn a_backup_is_removed_where_the_project_exists_and_restored_otherwise() {
    assert_eq!(backup_action(true), BackupAction::Remove);
    assert_eq!(backup_action(false), BackupAction::Restore);
}

#[test]
fn a_failed_remote_removal_stops_before_the_local_one() {
    let steps = removal_steps(&[]).unwrap();
    assert_eq!(removal_start(&steps), RemovalNext::Perform(RemovalStep::Remote));
    assert_eq!(removal_after(&steps, 0, false), RemovalNext::Stopped(RemovalStep::Remote));
    assert_eq!(removal_after(&steps, 0, true), RemovalNext::Perform(RemovalStep::Local));
    assert_eq!(removal_after(&steps, 1, true), RemovalNext::Finished);
    assert_eq!(removal_start(&[]), RemovalNext::Finished);
}

#[test]
fn a_refresh_runs_its_stages_in_order_and_aborts_on_failure() {
    assert_eq!(refresh_start(), RefreshNext::Run(RefreshStep::ReadCloudMetadata));
    assert_eq!(refresh_after(RefreshStep::ReadCloudMetadata, true, false), RefreshNext::Run(RefreshStep::CheckLocalMirror));
    assert_eq!(refresh_after(RefreshStep::CheckLocalMirror, true, true), RefreshNext::Finished(CloudRefresh::Current));
    assert_eq!(refresh_after(RefreshStep::CheckLocalMirror, true, false), RefreshNext::Run(RefreshStep::DownloadProject));
    assert_eq!(refresh_after(RefreshStep::DownloadProject, true, false), RefreshNext::Run(RefreshStep::ListCloudAudio));
    assert_eq!(refresh_after(RefreshStep::ListCloudAudio, true, false), RefreshNext::Run(RefreshStep::StageProject));
    assert_eq!(refresh_after(RefreshStep::StageProject, true, false), RefreshNext::Run(RefreshStep::InstallProject));
    assert_eq!(refresh_after(RefreshStep::InstallProject, true, false), RefreshNext::Finished(CloudRefresh::Updated));
    assert_eq!(refresh_after(RefreshStep::DownloadProject, false, false), RefreshNext::Abort);
    assert_eq!(refresh_after(RefreshStep::StageProject, false, true), RefreshNext::Abort);
}
