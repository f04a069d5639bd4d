use bloop::messages::{Action, MidiPreferences};
use bloop::midi::icon_g_boar::{device_mapping, DEVICE_REGEX};
use bloop::midi::{
    actions_for_message, desired_input_device_name, get_midi_devices, join_selected_mappings, mappings_for_port,
    midi_devices_from_port_names, select_input_port, text_contains, Mapping, PortPattern,
};

#[test]
fn get_midi_devices_returns_midi_devices() {
    let devices = get_midi_devices();
    assert!(devices.port_names.iter().all(|n| !n.is_empty()));
}

#[test]
fn icon_g_boar_has_seven_mappings() {
    let dm = device_mapping();
    assert_eq!(dm.mappings.len(), 7);
}

#[test]
fn regex_matches_full_device_name() {
    let dm = device_mapping();
    assert!(dm.device_regex.is_match("iCON G_Boar V1.03"));
}

#[test]
fn regex_does_not_match_generic_device() {
    let dm = device_mapping();
    assert!(!dm.device_regex.is_match("Generic MIDI"));
}

#[test]
fn icon_g_boar_binds_its_buttons_in_order() {
    let dm = device_mapping();
    assert_eq!(DEVICE_REGEX, "iCON G_Boar");
    assert!(dm.mappings[0].matches(&[176, 40, 127]));
    assert_eq!(dm.mappings[0].action, Action::ACTION_PREVIOUS_SONG);
    assert!(dm.mappings[6].matches(&[176, 47, 127]));
    assert_eq!(dm.mappings[6].action, Action::ACTION_TOGGLE_PLAY);
    assert!(!dm.mappings[0].matches(&[176, 40, 0]));
}

#[test]
fn a_message_triggers_every_binding_it_matches() {
    let mappings = vec![
        Mapping::new(&[1, 2], Action::ACTION_NEXT_SONG),
        Mapping::new(&[3], Action::ACTION_TOGGLE_PLAY),
        Mapping::new(&[1, 2], Action::ACTION_TOGGLE_LOOP),
    ];
    assert_eq!(
        actions_for_message(&mappings, &[1, 2]),
        vec![Action::ACTION_NEXT_SONG, Action::ACTION_TOGGLE_LOOP]
    );
    assert!(actions_for_message(&mappings, &[1]).is_empty());
}

#[test]
fn the_first_port_that_holds_the_name_is_chosen() {
    let ports = vec![None, Some("Other".to_string()), Some("iCON G_Boar V1.03".to_string()), Some("iCON G_Boar 2".to_string())];
    assert_eq!(select_input_port(&ports, "iCON G_Boar"), Some(2));
    assert_eq!(select_input_port(&ports, "Missing"), None);
    assert!(text_contains("abcdef", "cde"));
    assert!(!text_contains("abc", "abcd"));
}

#[test]
fn a_port_gets_the_bindings_of_the_mappings_whose_pattern_matches_it() {
    let all = vec![device_mapping(), bloop::midi::footctrl_bluetooth::device_mapping()];
    let bindings = mappings_for_port(all, "iCON G_Boar V1.03");
    assert_eq!(bindings.len(), 7);
    let all = vec![device_mapping(), bloop::midi::footctrl_bluetooth::device_mapping()];
    assert_eq!(mappings_for_port(all, "FootCtrl Bluetooth").len(), 4);
    let all = vec![device_mapping(), bloop::midi::footctrl_bluetooth::device_mapping()];
    assert!(mappings_for_port(all, "Generic MIDI").is_empty());
    let all = vec![device_mapping(), bloop::midi::footctrl_bluetooth::device_mapping()];
    assert_eq!(join_selected_mappings(all, &[true, true]).len(), 11);
}

#[test]
fn the_default_input_is_the_g_boar() {
    assert_eq!(desired_input_device_name(&MidiPreferences::default()), "iCON G_Boar V1.03");
    let preferences = MidiPreferences { input_device: "Pedal".to_string(), ..Default::default() };
    assert_eq!(desired_input_device_name(&preferences), "Pedal");
    let devices = midi_devices_from_port_names(vec![Some("A".to_string()), None, Some("B".to_string())]);
    assert_eq!(devices.port_names, vec!["A".to_string(), "B".to_string()]);
}

#[test]
fn a_port_pattern_is_a_regex_over_the_port_name() {
    let anchored = PortPattern::new("^iCON.*V1").unwrap();
    assert_eq!(anchored.as_str(), "^iCON.*V1");
    assert!(anchored.is_match("iCON G_Boar V1.03"));
    assert!(!anchored.is_match("My iCON G_Boar V1.03"));
    assert!(PortPattern::new("(unclosed").is_none());
}
