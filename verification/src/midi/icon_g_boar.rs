//! The built-in bindings of the iCON G_Boar foot controller.

use crate::messages::Action;
use crate::midi::{is_plain_literal, mappings_view, Mapping, MidiDeviceMapping, PortPattern};
use vstd::prelude::*;

verus! {

pub const DEVICE_REGEX: &'static str = "iCON G_Boar";

/// The seven bindings of the controller, each a control change with value 127.
pub open spec fn spec_icon_g_boar_mappings() -> Seq<(Seq<u8>, Action)> {
    seq![
        (seq![176u8, 40u8, 127u8], Action::ACTION_PREVIOUS_SONG),
        (seq![176u8, 41u8, 127u8], Action::ACTION_NEXT_SONG),
        (seq![176u8, 42u8, 127u8], Action::ACTION_QUEUE_SELECTED),
        (seq![176u8, 44u8, 127u8], Action::ACTION_PREVIOUS_SECTION),
        (seq![176u8, 45u8, 127u8], Action::ACTION_NEXT_SECTION),
        (seq![176u8, 46u8, 127u8], Action::ACTION_TOGGLE_LOOP),
        (seq![176u8, 47u8, 127u8], Action::ACTION_TOGGLE_PLAY),
    ]
}

fn control(number: u8, action: Action) -> (r: Mapping)
    ensures
        r.message() == seq![176u8, number, 127u8],
        r.action == action,
{
    let bytes = [176u8, number, 127u8];
    let r = Mapping::new(&bytes, action);
    assert(bytes@ =~= seq![176u8, number, 127u8]);
    r
}

/// The device mapping of the controller: its port name pattern and bindings.
pub fn device_mapping() -> (r: MidiDeviceMapping)
    ensures
        r.device_regex@ == DEVICE_REGEX@,
        mappings_view(r.mappings@) == spec_icon_g_boar_mappings(),
{
    proof {
        reveal_strlit("iCON G_Boar");
        assert(is_plain_literal(DEVICE_REGEX@));
    }
    let device_regex = PortPattern::new(DEVICE_REGEX).unwrap();
    let mut mappings: Vec<Mapping> = Vec::new();
    mappings.push(control(40, Action::ACTION_PREVIOUS_SONG));
    mappings.push(control(41, Action::ACTION_NEXT_SONG));
    mappings.push(control(42, Action::ACTION_QUEUE_SELECTED));
    mappings.push(control(44, Action::ACTION_PREVIOUS_SECTION));
    mappings.push(control(45, Action::ACTION_NEXT_SECTION));
    mappings.push(control(46, Action::ACTION_TOGGLE_LOOP));
    mappings.push(control(47, Action::ACTION_TOGGLE_PLAY));
    assert(mappings_view(mappings@) =~= spec_icon_g_boar_mappings());
    MidiDeviceMapping { device_regex, mappings }
}

} // verus!
