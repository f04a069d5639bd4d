use bloop::messages::Action;
use bloop::midi::footctrl_bluetooth;
use bloop::midi::{
    collect_device_mappings, mapping_action, mapping_file_name, mapping_from_file, parse_action, FileMapping,
    FileMidiMapping, MappingError,
};

fn file(regex: &str, action: &str) -> FileMidiMapping {
    FileMidiMapping {
        device_regex: regex.to_string(),
        mappings: vec![FileMapping { message: vec![176, 10, 127], action: action.to_string() }],
    }
}

#[test]
fn load_mappings_returns_defaults_when_dir_missing() {
    let mappings = collect_device_mappings(vec![]);
    assert_eq!(mappings.len(), 1);
}

#[test]
fn load_mappings_skips_malformed_file() {
    let mappings = collect_device_mappings(vec![file("Test Device", "ACTION_TOGGLE_PLAY")]);
    assert_eq!(mappings.len(), 2);
    assert!(mappings[1].device_regex.is_match("Test Device 2"));
    assert!(mappings[1].mappings[0].matches(&[176, 10, 127]));
    assert_eq!(mappings[1].mappings[0].action, Action::ACTION_TOGGLE_PLAY);
}

#[test]
fn load_mappings_skips_non_json_files() {
    assert!(mapping_file_name("custom.json"));
    assert!(mapping_file_name("a.b.json"));
    assert!(!mapping_file_name("ignore.txt"));
    assert!(!mapping_file_name(".json"));
    assert!(!mapping_file_name("json"));
    assert!(!mapping_file_name("custom.json.bak"));
}

#[test]
fn load_mappings_skips_unknown_action_file() {
    let mappings = collect_device_mappings(vec![file("Test Device", "ACTION_NOT_REAL")]);
    assert_eq!(mappings.len(), 1);
    match mapping_from_file(file("Test Device", "ACTION_NOT_REAL")) {
        Err(MappingError::UnknownAction(action)) => assert_eq!(action, "ACTION_NOT_REAL"),
        other => panic!("unexpected {:?}", other.map(|m| m.mappings.len())),
    }
}

#[test]
fn load_mappings_skips_invalid_regex_file() {
    let mappings = collect_device_mappings(vec![file("(", "ACTION_TOGGLE_PLAY")]);
    assert_eq!(mappings.len(), 1);
    match mapping_from_file(file("(", "ACTION_TOGGLE_PLAY")) {
        Err(MappingError::InvalidRegex(pattern)) => assert_eq!(pattern, "("),
        other => panic!("unexpected {:?}", other.map(|m| m.mappings.len())),
    }
}

#[test]
fn footctrl_has_four_mappings() {
    let dm = footctrl_bluetooth::device_mapping();
    assert_eq!(dm.mappings.len(), 4);
    assert!(dm.device_regex.is_match("FootCtrl Bluetooth"));
    assert!(dm.mappings[3].matches(&[0xB0, 0x2F, 0x7F]));
    assert_eq!(dm.mappings[3].action, Action::ACTION_TOGGLE_PLAY);
}

#[test]
fn a_mapping_file_may_not_bind_the_unknown_action() {
    assert_eq!(parse_action("ACTION_UNKNOWN"), Some(Action::ACTION_UNKNOWN));
    assert_eq!(mapping_action("ACTION_UNKNOWN"), None);
    assert_eq!(mapping_action("ACTION_NEXT_SONG"), Some(Action::ACTION_NEXT_SONG));
    assert_eq!(mapping_action(""), None);
    let mappings = collect_device_mappings(vec![file("Test Device", "ACTION_UNKNOWN")]);
    assert_eq!(mappings.len(), 1);
    match mapping_from_file(file("Test Device", "ACTION_UNKNOWN")) {
        Err(MappingError::UnknownAction(action)) => assert_eq!(action, "ACTION_UNKNOWN"),
        other => panic!("unexpected {:?}", other.map(|m| m.mappings.len())),
    }
}
