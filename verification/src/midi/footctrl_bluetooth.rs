//! The built-in bindings of the FootCtrl Bluetooth pedal.

use crate::messages::Action;
use crate::midi::{is_plain_literal, mappings_view, Mapping, MidiDeviceMapping, PortPattern};
use vstd::prelude::*;

verus! {

pub const DEVICE_REGEX: &'static str = "FootCtrl Bluetooth";

/// The four bindings of the pedal, each a control change with value 127.
pub open spec fn spec_footctrl_mappings() -> Seq<(Seq<u8>, Action)> {
    seq![
        (seq![0xB0u8, 0x28u8, 0x7Fu8], Action::ACTION_PREVIOUS_SONG),
        (seq![0xB0u8, 0x29u8, 0x7Fu8], Action::ACTION_NEXT_SONG),
        (seq![0xB0u8, 0x2Eu8, 0x7Fu8], Action::ACTION_TOGGLE_LOOP),
        (seq![0xB0u8, 0x2Fu8, 0x7Fu8], Action::ACTION_TOGGLE_PLAY),
    ]
}

fn control(number: u8, action: Action) -> (r: Mapping)
    ensures
        r.message() == seq![0xB0u8, number, 0x7Fu8],
        r.action == action,
{
    let bytes = [0xB0u8, number, 0x7Fu8];
    let r = Mapping::new(&bytes, action);
    assert(bytes@ =~= seq![0xB0u8, number, 0x7Fu8]);
    r
}

/// The device mapping of the pedal: its port name pattern and bindings.
pub fn device_mapping() -> (r: MidiDeviceMapping)
    ensures
        r.device_regex@ == DEVICE_REGEX@,
        mappings_view(r.mappings@) == spec_footctrl_mappings(),
{
    proof {
        reveal_strlit("FootCtrl Bluetooth");
        assert(is_plain_literal(DEVICE_REGEX@));
    }
    let device_regex = PortPattern::new(DEVICE_REGEX).unwrap();
    let mut mappings: Vec<Mapping> = Vec::new();
    mappings.push(control(0x28, Action::ACTION_PREVIOUS_SONG));
    mappings.push(control(0x29, Action::ACTION_NEXT_SONG));
    mappings.push(control(0x2E, Action::ACTION_TOGGLE_LOOP));
    mappings.push(control(0x2F, Action::ACTION_TOGGLE_PLAY));
    assert(mappings_view(mappings@) =~= spec_footctrl_mappings());
    MidiDeviceMapping { device_regex, mappings }
}

} // verus!
