use bloop::network::{is_blank, replace_text, safe_fallback_name, service_instance_name, should_respond_on_interface};

#[test]
fn replacement_goes_left_to_right_without_overlaps() {
    assert_eq!(replace_text("aaa", "aa", "b"), "ba");
    assert_eq!(replace_text("studio.local.lan", ".local", ""), "studio.lan");
    assert_eq!(replace_text("no match", "xyz", "-"), "no match");
    assert_eq!(replace_text("", ".", "-"), "");
    assert_eq!(replace_text("ab", "", "-"), "ab".replace("", "-"));
    assert_eq!(replace_text("", "", "x"), "x");
}

#[test]
fn the_fallback_name_dashes_the_address() {
    assert_eq!(safe_fallback_name("192.168.1.20"), "bloop-192-168-1-20");
}

#[test]
fn the_instance_name_is_the_cleaned_host_name() {
    assert_eq!(service_instance_name(Some("studio.local"), "10.0.0.2"), "studio");
    assert_eq!(service_instance_name(Some("pi.lan"), "10.0.0.2"), "pi");
    assert_eq!(service_instance_name(Some(".local"), "10.0.0.2"), "bloop-10-0-0-2");
    assert_eq!(service_instance_name(Some(" .lan"), "10.0.0.2"), "bloop-10-0-0-2");
    assert_eq!(service_instance_name(None, "10.0.0.2"), "bloop-10-0-0-2");
}

#[test]
fn virtual_and_tunnel_interfaces_are_ignored() {
    assert!(should_respond_on_interface(true, "eth0"));
    assert!(should_respond_on_interface(true, "wlan0"));
    assert!(!should_respond_on_interface(false, "eth0"));
    assert!(!should_respond_on_interface(true, "docker0"));
    assert!(!should_respond_on_interface(true, "utun3"));
    assert!(!should_respond_on_interface(true, "br-1234"));
    assert!(!should_respond_on_interface(true, "wg0"));
}

#[test]
fn blank_text_is_only_whitespace() {
    assert!(is_blank(""));
    assert!(is_blank(" \t\n"));
    assert!(!is_blank(" a "));
}
