//! MIDI controls: which messages trigger which actions, which mappings
//! apply to a port, and which port to connect to.

pub mod footctrl_bluetooth;
pub mod icon_g_boar;

use crate::messages::{strings_view, Action, MidiDevices, MidiPreferences};
use regex::Regex;
use vstd::prelude::*;
use vstd::string::{StrSliceExecFns, StringExecFns};

verus! {

#[verifier::external_type_specification]
#[verifier::external_body]
pub struct ExRegex(Regex);

/// Whether `regex::Regex::new` accepts `pattern`.
pub uninterp spec fn regex_compiles(pattern: Seq<char>) -> bool;

/// A pattern of at most 64 ASCII letters, digits, spaces and underscores:
/// every such character is a literal in the regex syntax.
pub open spec fn is_plain_literal(pattern: Seq<char>) -> bool {
    &&& 0 < pattern.len() <= 64
    &&& forall|i: int|
        0 <= i < pattern.len() ==> {
            let c = #[trigger] pattern[i];
            ('a' <= c <= 'z') || ('A' <= c <= 'Z') || ('0' <= c <= '9') || c == ' ' || c == '_'
        }
}

/// Compiles `pattern` (`regex::Regex::new`). It succeeds exactly when the
/// pattern compiles, which a plain literal always does: such a pattern is
/// valid syntax and far below the default size limit.
#[verifier::external_body]
fn compile_regex(pattern: &str) -> (r: Option<Regex>)
    ensures
        r is Some <==> regex_compiles(pattern@),
        is_plain_literal(pattern@) ==> r is Some,
{
    Regex::new(pattern).ok()
}

/// Whether the regex `pattern` matches somewhere in `haystack`, as
/// `regex::Regex::is_match` answers for a regex compiled from `pattern`.
pub uninterp spec fn regex_matches(pattern: Seq<char>, haystack: Seq<char>) -> bool;

/// A port name pattern, compiled, beside the text it was compiled from.
/// `PortPattern::new` is the one place that makes one, so the regex is
/// always the compilation of the text.
pub struct PortPattern {
    source: String,
    regex: Regex,
}

impl View for PortPattern {
    type V = Seq<char>;

    closed spec fn view(&self) -> Seq<char> {
        self.source@
    }
}

/// `regex::Regex::is_match` on the compiled regex of `p`. Its result is named
/// by `regex_matches` over the pattern text and `haystack`; for a plain
/// literal pattern the regex matches exactly where the text occurs.
#[verifier::external_body]
fn regex_is_match(p: &PortPattern, haystack: &str) -> (r: bool)
    ensures
        r == regex_matches(p@, haystack@),
        is_plain_literal(p@) ==> (r == contains_text(haystack@, p@)),
{
    p.regex.is_match(haystack)
}

impl PortPattern {
    /// Compiles `pattern`: `None` exactly where the regex syntax refuses it.
    pub fn new(pattern: &str) -> (r: Option<PortPattern>)
        ensures
            r is Some <==> regex_compiles(pattern@),
            is_plain_literal(pattern@) ==> r is Some,
            r matches Some(p) ==> p@ == pattern@,
    {
        match compile_regex(pattern) {
            Some(regex) => Some(PortPattern { source: pattern.to_owned(), regex }),
            None => None,
        }
    }

    /// Whether the pattern matches somewhere in `haystack`.
    pub fn is_match(&self, haystack: &str) -> (r: bool)
        ensures
            r == regex_matches(self@, haystack@),
            is_plain_literal(self@) ==> (r == contains_text(haystack@, self@)),
    {
        regex_is_match(self, haystack)
    }

    /// The text the pattern was compiled from.
    pub fn as_str(&self) -> (r: &str)
        ensures
            r@ == self@,
    {
        self.source.as_str()
    }
}

/// `a@ == b@`, compared character by character.
pub fn str_equals(a: &str, b: &str) -> (r: bool)
    ensures
        r == (a@ == b@),
{
    let n = a.unicode_len();
    if n != b.unicode_len() {
        return false;
    }
    let mut i: usize = 0;
    while i < n
        invariant
            n == a@.len(),
            n == b@.len(),
            i <= n,
            forall|j: int| 0 <= j < i ==> a@[j] == b@[j],
        decreases n - i,
    {
        if a.get_char(i) != b.get_char(i) {
            return false;
        }
        i = i + 1;
    }
    assert(a@ =~= b@);
    true
}

/// A single MIDI message-to-action binding: a message equal to `message`
/// triggers `action`.
#[derive(Debug)]
pub struct Mapping {
    pub message: Vec<u8>,
    pub action: Action,
}

impl Mapping {
    pub fn new(message: &[u8], action: Action) -> (r: Mapping)
        ensures
            r.message() == message@,
            r.action == action,
    {
        let mut bytes: Vec<u8> = Vec::new();
        bytes.extend_from_slice(message);
        assert(bytes@ =~= message@);
        Mapping { message: bytes, action }
    }

    /// The message this binding answers.
    pub closed spec fn message(&self) -> Seq<u8> {
        self.message@
    }

    /// Whether `message` is exactly the bound message.
    pub fn matches(&self, message: &[u8]) -> (r: bool)
        ensures
            r == (message@ == self.message()),
    {
        if message.len() != self.message.len() {
            return false;
        }
        let mut i: usize = 0;
        while i < message.len()
            invariant
                message@.len() == self.message@.len(),
                i <= message@.len(),
                forall|j: int| 0 <= j < i ==> message@[j] == self.message@[j],
            decreases message@.len() - i,
        {
            if message[i] != self.message[i] {
                return false;
            }
            i = i + 1;
        }
        assert(message@ =~= self.message@);
        true
    }
}

pub open spec fn mappings_view(mappings: Seq<Mapping>) -> Seq<(Seq<u8>, Action)> {
    mappings.map_values(|m: Mapping| (m.message(), m.action))
}

/// The actions of the bindings that `message` triggers, in binding order.
pub open spec fn spec_actions_for_message(mappings: Seq<(Seq<u8>, Action)>, message: Seq<u8>) -> Seq<Action> {
    mappings.filter(|m: (Seq<u8>, Action)| m.0 == message).map_values(|m: (Seq<u8>, Action)| m.1)
}

/// The actions that an incoming MIDI message triggers.
pub fn actions_for_message(mappings: &[Mapping], message: &[u8]) -> (r: Vec<Action>)
    ensures
        r@ == spec_actions_for_message(mappings_view(mappings@), message@),
{
    let ghost view = mappings_view(mappings@);
    let ghost pred = |m: (Seq<u8>, Action)| m.0 == message@;
    let mut actions: Vec<Action> = Vec::new();
    let mut i: usize = 0;
    while i < mappings.len()
        invariant
            i <= mappings@.len(),
            view == mappings_view(mappings@),
            pred == (|m: (Seq<u8>, Action)| m.0 == message@),
            actions@ == view.take(i as int).filter(pred).map_values(|m: (Seq<u8>, Action)| m.1),
        decreases mappings@.len() - i,
    {
        reveal_with_fuel(Seq::<_>::filter, 1);
        assert(view.take(i + 1).drop_last() =~= view.take(i as int));
        if mappings[i].matches(message) {
            actions.push(mappings[i].action);
            assert(actions@ =~= view.take(i + 1).filter(pred).map_values(|m: (Seq<u8>, Action)| m.1));
        } else {
            assert(view.take(i + 1).filter(pred) == view.take(i as int).filter(pred));
        }
        i = i + 1;
    }
    assert(view.take(i as int) =~= view);
    actions
}

/// The bindings of the MIDI ports whose names match `device_regex`.
pub struct MidiDeviceMapping {
    pub device_regex: PortPattern,
    pub mappings: Vec<Mapping>,
}

/// The bindings of the device mappings that `selected` marks, joined in order.
pub open spec fn selected_mappings(devices: Seq<Seq<(Seq<u8>, Action)>>, selected: Seq<bool>) -> Seq<(Seq<u8>, Action)>
    decreases devices.len(),
{
    if devices.len() == 0 || selected.len() == 0 {
        Seq::empty()
    } else {
        let rest = selected_mappings(devices.drop_last(), selected.drop_last());
        if selected.last() {
            rest + devices.last()
        } else {
            rest
        }
    }
}

/// A device mapping as its pattern text and its bindings.
pub open spec fn device_view(d: MidiDeviceMapping) -> (Seq<char>, Seq<(Seq<u8>, Action)>) {
    (d.device_regex@, mappings_view(d.mappings@))
}

pub open spec fn device_mappings_view(devices: Seq<MidiDeviceMapping>) -> Seq<Seq<(Seq<u8>, Action)>> {
    devices.map_values(|d: MidiDeviceMapping| mappings_view(d.mappings@))
}

/// For each device mapping, whether its pattern matches `port_name`.
pub open spec fn matching_devices(devices: Seq<MidiDeviceMapping>, port_name: Seq<char>) -> Seq<bool> {
    devices.map_values(|d: MidiDeviceMapping| regex_matches(d.device_regex@, port_name))
}

/// The bindings that apply to the port `port_name`: those of each device
/// mapping whose regex matches the name, in order.
pub fn mappings_for_port(device_mappings: Vec<MidiDeviceMapping>, port_name: &str) -> (r: Vec<Mapping>)
    ensures
        mappings_view(r@) == selected_mappings(
            device_mappings_view(device_mappings@),
            matching_devices(device_mappings@, port_name@),
        ),
{
    let mut selected: Vec<bool> = Vec::new();
    let mut i: usize = 0;
    while i < device_mappings.len()
        invariant
            i <= device_mappings@.len(),
            selected@ == matching_devices(device_mappings@.take(i as int), port_name@),
        decreases device_mappings@.len() - i,
    {
        let m = device_mappings[i].device_regex.is_match(port_name);
        proof {
            assert(matching_devices(device_mappings@.take(i + 1), port_name@) =~= matching_devices(
                device_mappings@.take(i as int),
                port_name@,
            ).push(m));
        }
        selected.push(m);
        i = i + 1;
    }
    assert(device_mappings@.take(i as int) =~= device_mappings@);
    join_selected_mappings(device_mappings, &selected)
}

/// The bindings of the device mappings that `selected` marks, in order.
pub fn join_selected_mappings(device_mappings: Vec<MidiDeviceMapping>, selected: &[bool]) -> (r: Vec<Mapping>)
    requires
        selected@.len() == device_mappings@.len(),
    ensures
        mappings_view(r@) == selected_mappings(device_mappings_view(device_mappings@), selected@),
{
    let ghost devices = device_mappings_view(device_mappings@);
    let ghost n = device_mappings@.len();
    let mut result: Vec<Mapping> = Vec::new();
    let mut remaining = device_mappings;
    let mut k: usize = 0;
    assert(device_mappings_view(remaining@) =~= devices.skip(0));
    assert(devices.take(0) =~= Seq::<Seq<(Seq<u8>, Action)>>::empty());
    while remaining.len() > 0
        invariant
            k <= n,
            n == devices.len(),
            selected@.len() == n,
            remaining@.len() == n - k,
            device_mappings_view(remaining@) == devices.skip(k as int),
            mappings_view(result@) == selected_mappings(devices.take(k as int), selected@.take(k as int)),
        decreases remaining@.len(),
    {
        let ghost before = remaining@;
        let mut device = remaining.remove(0);
        assert(remaining@ =~= before.subrange(1, before.len() as int));
        assert forall|j: int| 0 <= j < remaining@.len() implies #[trigger] device_mappings_view(remaining@)[j]
            == devices.skip(k + 1)[j] by {
            assert(remaining@[j] == before[j + 1]);
            assert(device_mappings_view(before)[j + 1] == devices.skip(k as int)[j + 1]);
        }
        assert(device_mappings_view(remaining@) =~= devices.skip(k + 1));
        assert(device_mappings_view(before)[0] == devices.skip(k as int)[0]);
        assert(mappings_view(device.mappings@) == devices[k as int]);
        assert(devices.take(k + 1).drop_last() =~= devices.take(k as int));
        assert(devices.take(k + 1).last() == devices[k as int]);
        assert(selected@.take(k + 1).drop_last() =~= selected@.take(k as int));
        assert(selected@.take(k + 1).last() == selected@[k as int]);
        let ghost old_result = result@;
        if selected[k] {
            result.append(&mut device.mappings);
            assert(mappings_view(result@) =~= mappings_view(old_result) + devices[k as int]);
        }
        k = k + 1;
    }
    assert(devices.take(k as int) =~= devices);
    assert(selected@.take(k as int) =~= selected@);
    result
}

pub open spec fn spec_parse_action(s: Seq<char>) -> Option<Action> {
    if s == "ACTION_UNKNOWN"@ {
        Some(Action::ACTION_UNKNOWN)
    } else if s == "ACTION_PREVIOUS_SONG"@ {
        Some(Action::ACTION_PREVIOUS_SONG)
    } else if s == "ACTION_NEXT_SONG"@ {
        Some(Action::ACTION_NEXT_SONG)
    } else if s == "ACTION_PREVIOUS_SECTION"@ {
        Some(Action::ACTION_PREVIOUS_SECTION)
    } else if s == "ACTION_NEXT_SECTION"@ {
        Some(Action::ACTION_NEXT_SECTION)
    } else if s == "ACTION_QUEUE_SELECTED"@ {
        Some(Action::ACTION_QUEUE_SELECTED)
    } else if s == "ACTION_TOGGLE_LOOP"@ {
        Some(Action::ACTION_TOGGLE_LOOP)
    } else if s == "ACTION_TOGGLE_PLAY"@ {
        Some(Action::ACTION_TOGGLE_PLAY)
    } else {
        None
    }
}

/// The action of the given name, as the message schema names it
/// (`ACTION_UNKNOWN` included); mapping files go through `mapping_action`.
pub fn parse_action(s: &str) -> (r: Option<Action>)
    ensures
        r == spec_parse_action(s@),
{
    if str_equals(s, "ACTION_UNKNOWN") {
        Some(Action::ACTION_UNKNOWN)
    } else if str_equals(s, "ACTION_PREVIOUS_SONG") {
        Some(Action::ACTION_PREVIOUS_SONG)
    } else if str_equals(s, "ACTION_NEXT_SONG") {
        Some(Action::ACTION_NEXT_SONG)
    } else if str_equals(s, "ACTION_PREVIOUS_SECTION") {
        Some(Action::ACTION_PREVIOUS_SECTION)
    } else if str_equals(s, "ACTION_NEXT_SECTION") {
        Some(Action::ACTION_NEXT_SECTION)
    } else if str_equals(s, "ACTION_QUEUE_SELECTED") {
        Some(Action::ACTION_QUEUE_SELECTED)
    } else if str_equals(s, "ACTION_TOGGLE_LOOP") {
        Some(Action::ACTION_TOGGLE_LOOP)
    } else if str_equals(s, "ACTION_TOGGLE_PLAY") {
        Some(Action::ACTION_TOGGLE_PLAY)
    } else {
        None
    }
}

/// The action a mapping file may bind, by its documented name: one of the
/// seven named actions. `ACTION_UNKNOWN` names no action and is refused.
pub open spec fn spec_mapping_action(s: Seq<char>) -> Option<Action> {
    match spec_parse_action(s) {
        Some(Action::ACTION_UNKNOWN) => None,
        other => other,
    }
}

/// The action that a binding of a mapping file names, where its name is one
/// of the seven documented action names.
pub fn mapping_action(s: &str) -> (r: Option<Action>)
    ensures
        r == spec_mapping_action(s@),
{
    match parse_action(s) {
        Some(Action::ACTION_UNKNOWN) => None,
        other => other,
    }
}

/// One binding as a mapping file writes it.
#[derive(Debug)]
pub struct FileMapping {
    pub message: Vec<u8>,
    pub action: String,
}

/// A device mapping as a mapping file writes it.
#[derive(Debug)]
pub struct FileMidiMapping {
    pub device_regex: String,
    pub mappings: Vec<FileMapping>,
}

/// Why a mapping file is skipped.
#[derive(Debug)]
pub enum MappingError {
    /// The device pattern is not a valid regex.
    InvalidRegex(String),
    /// A binding names no known action.
    UnknownAction(String),
}

/// The first binding, from position `i` on, whose action is unknown.
pub open spec fn first_unknown_action(entries: Seq<FileMapping>, i: int) -> Option<int>
    decreases entries.len() - i,
{
    if i < 0 || i >= entries.len() {
        None
    } else if spec_mapping_action(entries[i].action@) is None {
        Some(i)
    } else {
        first_unknown_action(entries, i + 1)
    }
}

/// The bindings of a file whose actions are all known.
pub open spec fn file_mappings_view(entries: Seq<FileMapping>) -> Seq<(Seq<u8>, Action)> {
    entries.map_values(|e: FileMapping| (e.message@, spec_mapping_action(e.action@)->0))
}

/// The device mapping a mapping file describes: refused when its pattern
/// does not compile, then when a binding names an unknown action (the first one).
#[verifier::loop_isolation(false)]
pub fn mapping_from_file(file: FileMidiMapping) -> (r: Result<MidiDeviceMapping, MappingError>)
    ensures
        !regex_compiles(file.device_regex@) ==> (r matches Err(MappingError::InvalidRegex(p))
            && p@ == file.device_regex@),
        regex_compiles(file.device_regex@) ==> match first_unknown_action(file.mappings@, 0) {
            Some(i) => r matches Err(MappingError::UnknownAction(a)) && a@ == file.mappings@[i].action@,
            None => r matches Ok(m) && device_view(m) == (file.device_regex@, file_mappings_view(file.mappings@)),
        },
{
    let device_regex = match PortPattern::new(file.device_regex.as_str()) {
        Some(re) => re,
        None => return Err(MappingError::InvalidRegex(file.device_regex)),
    };
    let ghost entries = file.mappings@;
    let mut mappings: Vec<Mapping> = Vec::new();
    let mut i: usize = 0;
    while i < file.mappings.len()
        invariant
            i <= file.mappings@.len(),
            entries == file.mappings@,
            first_unknown_action(entries, 0) == first_unknown_action(entries, i as int),
            mappings_view(mappings@) == file_mappings_view(entries.take(i as int)),
        decreases file.mappings@.len() - i,
    {
        let entry = &file.mappings[i];
        match mapping_action(entry.action.as_str()) {
            Some(action) => {
                let ghost before = mappings@;
                let mapping = Mapping::new(entry.message.as_slice(), action);
                assert(entries[i as int] == *entry);
                assert((mapping.message(), mapping.action) == (entry.message@, spec_mapping_action(
                    entry.action@,
                )->0));
                mappings.push(mapping);
                assert(mappings_view(mappings@) =~= mappings_view(before).push(
                    (mapping.message(), mapping.action),
                ));
                assert(file_mappings_view(entries.take(i + 1)) =~= file_mappings_view(
                    entries.take(i as int),
                ).push((entry.message@, spec_mapping_action(entry.action@)->0)));
            },
            None => {
                return Err(MappingError::UnknownAction(entry.action.clone()));
            },
        }
        i = i + 1;
    }
    assert(entries.take(i as int) =~= entries);
    Ok(MidiDeviceMapping { device_regex, mappings })
}

/// Whether a file name has the extension `json` (`Path::extension`: the text
/// after the last dot, where that dot does not begin the name).
pub open spec fn is_mapping_file_name(name: Seq<char>) -> bool {
    exists|i: int|
        0 < i < name.len() && name[i] == '.' && name.subrange(i + 1, name.len() as int) == "json"@ && forall|j: int|
            i < j < name.len() ==> name[j] != '.'
}

/// Whether a file in the mappings directory is read as a mapping file.
pub fn mapping_file_name(name: &str) -> (r: bool)
    ensures
        r == is_mapping_file_name(name@),
{
    let n = name.unicode_len();
    let mut i = n;
    while i > 0
        invariant
            i <= n,
            n == name@.len(),
            forall|j: int| i <= j < n ==> name@[j] != '.',
        decreases i,
    {
        if name.get_char(i - 1) == '.' {
            let dot = i - 1;
            if dot == 0 {
                assert(!is_mapping_file_name(name@)) by {
                    if is_mapping_file_name(name@) {
                        let k = choose|k: int|
                            0 < k < name@.len() && name@[k] == '.' && name@.subrange(k + 1, name@.len() as int)
                                == "json"@ && forall|j: int| k < j < name@.len() ==> name@[j] != '.';
                        assert(name@[k] != '.');
                    }
                }
                return false;
            }
            let r = crate::midi::str_equals(name.substring_char(i, n), "json");
            proof {
                if is_mapping_file_name(name@) {
                    let k = choose|k: int|
                        0 < k < name@.len() && name@[k] == '.' && name@.subrange(k + 1, name@.len() as int)
                            == "json"@ && forall|j: int| k < j < name@.len() ==> name@[j] != '.';
                    if k < dot {
                        assert(name@[dot as int] == '.');
                    } else if k > dot {
                    }
                }
            }
            return r;
        }
        i = i - 1;
    }
    assert(!is_mapping_file_name(name@)) by {
        if is_mapping_file_name(name@) {
            let k = choose|k: int|
                0 < k < name@.len() && name@[k] == '.' && name@.subrange(k + 1, name@.len() as int) == "json"@
                    && forall|j: int| k < j < name@.len() ==> name@[j] != '.';
            assert(name@[k] != '.');
        }
    }
    false
}

/// Whether a mapping file is taken: its pattern compiles and it names no
/// unknown action.
pub open spec fn file_is_accepted(file: FileMidiMapping) -> bool {
    regex_compiles(file.device_regex@) && first_unknown_action(file.mappings@, 0) is None
}

/// The bindings of the accepted mapping files, in order.
pub open spec fn accepted_files(files: Seq<FileMidiMapping>) -> Seq<(Seq<char>, Seq<(Seq<u8>, Action)>)>
    decreases files.len(),
{
    if files.len() == 0 {
        Seq::empty()
    } else {
        let rest = accepted_files(files.drop_last());
        if file_is_accepted(files.last()) {
            rest.push((files.last().device_regex@, file_mappings_view(files.last().mappings@)))
        } else {
            rest
        }
    }
}

/// The device mappings in use: the built-in one first, then those of the
/// accepted mapping files, in order (a refused file is left out).
pub fn collect_device_mappings(files: Vec<FileMidiMapping>) -> (r: Vec<MidiDeviceMapping>)
    ensures
        r@.len() == 1 + accepted_files(files@).len(),
        device_view(r@[0]) == (
            crate::midi::icon_g_boar::DEVICE_REGEX@,
            crate::midi::icon_g_boar::spec_icon_g_boar_mappings(),
        ),
        forall|k: int|
            0 <= k < accepted_files(files@).len() ==> device_view(#[trigger] r@[k + 1])
                == accepted_files(files@)[k],
{
    let ghost given = files@;
    let mut result: Vec<MidiDeviceMapping> = Vec::new();
    result.push(crate::midi::icon_g_boar::device_mapping());
    let mut files = files;
    let total: usize = files.len();
    let mut taken: usize = 0;
    assert(given.take(0) =~= Seq::<FileMidiMapping>::empty());
    while files.len() > 0
        invariant
            taken + files@.len() == total,
            total == given.len(),
            files@ == given.skip(taken as int),
            result@.len() == 1 + accepted_files(given.take(taken as int)).len(),
            device_view(result@[0]) == (
                crate::midi::icon_g_boar::DEVICE_REGEX@,
                crate::midi::icon_g_boar::spec_icon_g_boar_mappings(),
            ),
            forall|k: int|
                0 <= k < accepted_files(given.take(taken as int)).len() ==> device_view(
                    #[trigger] result@[k + 1],
                ) == accepted_files(given.take(taken as int))[k],
        decreases files@.len(),
    {
        let ghost before = files@;
        let ghost prev = accepted_files(given.take(taken as int));
        let file = files.remove(0);
        assert(file == given[taken as int]);
        assert(files@ =~= given.skip(taken + 1));
        assert(given.take(taken + 1).drop_last() =~= given.take(taken as int));
        assert(given.take(taken + 1).last() == file);
        let ghost accepted = file_is_accepted(file);
        let ghost view = (file.device_regex@, file_mappings_view(file.mappings@));
        match mapping_from_file(file) {
            Ok(mapping) => {
                assert(accepted);
                result.push(mapping);
                assert(accepted_files(given.take(taken + 1)) == prev.push(view));
            },
            Err(_) => {
                assert(!accepted);
                assert(accepted_files(given.take(taken + 1)) == prev);
            },
        }
        taken = taken + 1;
    }
    assert(given.take(taken as int) =~= given);
    result
}

/// The MIDI input to connect to when the preferences name none.
pub const DEFAULT_DEVICE_NAME: &'static str = "iCON G_Boar V1.03";

/// The input device name to look for: the preferred one, or the default.
pub fn desired_input_device_name(preferences: &MidiPreferences) -> (r: String)
    ensures
        r@ == if preferences.input_device@.len() == 0 {
            DEFAULT_DEVICE_NAME@
        } else {
            preferences.input_device@
        },
{
    if preferences.input_device.as_str().unicode_len() == 0 {
        String::from_str(DEFAULT_DEVICE_NAME)
    } else {
        preferences.input_device.clone()
    }
}

/// Whether `needle` occurs in `haystack` (`str::contains`).
pub open spec fn contains_text(haystack: Seq<char>, needle: Seq<char>) -> bool {
    exists|i: int| 0 <= i <= haystack.len() - needle.len() && #[trigger] haystack.subrange(i, i + needle.len()) == needle
}

/// Whether `needle` occurs in `haystack`.
pub fn text_contains(haystack: &str, needle: &str) -> (r: bool)
    ensures
        r == contains_text(haystack@, needle@),
{
    let n = haystack.unicode_len();
    let m = needle.unicode_len();
    if m > n {
        return false;
    }
    let mut i: usize = 0;
    while i <= n - m
        invariant
            n == haystack@.len(),
            m == needle@.len(),
            m <= n,
            i <= n - m + 1,
            forall|k: int| 0 <= k < i ==> #[trigger] haystack@.subrange(k, k + m) != needle@,
        decreases n - m + 1 - i,
    {
        let mut j: usize = 0;
        while j < m && haystack.get_char(i + j) == needle.get_char(j)
            invariant
                n == haystack@.len(),
                m == needle@.len(),
                i + m <= n,
                j <= m,
                forall|t: int| 0 <= t < j ==> haystack@[i + t] == needle@[t],
            decreases m - j,
        {
            j = j + 1;
        }
        if j == m {
            assert(haystack@.subrange(i as int, i + m) =~= needle@);
            return true;
        }
        assert(haystack@.subrange(i as int, i + m)[j as int] != needle@[j as int]);
        i = i + 1;
    }
    false
}

/// The first port, from position `i` on, whose name is known and holds `desired`.
pub open spec fn first_port_with(names: Seq<Option<String>>, desired: Seq<char>, i: int) -> Option<int>
    decreases names.len() - i,
{
    if i < 0 || i >= names.len() {
        None
    } else if names[i] matches Some(n) && contains_text(n@, desired) {
        Some(i)
    } else {
        first_port_with(names, desired, i + 1)
    }
}

/// The input port to connect to: the first whose name holds the desired name.
pub fn select_input_port(port_names: &[Option<String>], desired: &str) -> (r: Option<usize>)
    ensures
        match first_port_with(port_names@, desired@, 0) {
            Some(i) => r == Some(i as usize),
            None => r is None,
        },
{
    let mut i: usize = 0;
    while i < port_names.len()
        invariant
            i <= port_names@.len(),
            first_port_with(port_names@, desired@, 0) == first_port_with(port_names@, desired@, i as int),
        decreases port_names@.len() - i,
    {
        match &port_names[i] {
            Some(name) => {
                if text_contains(name.as_str(), desired) {
                    return Some(i);
                }
            },
            None => {},
        }
        i = i + 1;
    }
    None
}

/// The names of the MIDI ports whose names could be read, in port order.
pub open spec fn known_names(names: Seq<Option<String>>) -> Seq<Seq<char>>
    decreases names.len(),
{
    if names.len() == 0 {
        Seq::empty()
    } else {
        let rest = known_names(names.drop_last());
        match names.last() {
            Some(n) => rest.push(n@),
            None => rest,
        }
    }
}

/// The MIDI devices to report from the names read of each port.
pub fn midi_devices_from_port_names(port_names: Vec<Option<String>>) -> (r: MidiDevices)
    ensures
        strings_view(r.port_names@) == known_names(port_names@),
{
    let mut names: Vec<String> = Vec::new();
    let mut i: usize = 0;
    while i < port_names.len()
        invariant
            i <= port_names@.len(),
            strings_view(names@) == known_names(port_names@.take(i as int)),
        decreases port_names@.len() - i,
    {
        assert(port_names@.take(i + 1).drop_last() =~= port_names@.take(i as int));
        match &port_names[i] {
            Some(name) => {
                let ghost before = names@;
                names.push(name.clone());
                assert(strings_view(names@) =~= strings_view(before).push(name@));
            },
            None => {},
        }
        i = i + 1;
    }
    assert(port_names@.take(i as int) =~= port_names@);
    MidiDevices { port_names: names }
}

/// The MIDI devices when MIDI support is not built in: none.
pub fn get_midi_devices() -> (r: MidiDevices)
    ensures
        r.port_names@.len() == 0,
{
    MidiDevices::default()
}

} // verus!
