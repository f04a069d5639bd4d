//! Properties of the library that span several operations.

use crate::messages::{Action, AudioPreferencesView, Entity, Gesture, PreferencesView, SwitchMapping};
use crate::preferences::{spec_validate_audio, spec_validate_preferences};
use crate::project_store::{
    spec_refresh_after, spec_removal_after, spec_removal_steps, CloudRefresh, ProjectRemovalTarget, RefreshNext,
    RefreshStep, RemovalNext, RemovalStep,
};
use crate::switch::{hold_actions, is_held, lists_presses, not_held};
use crate::ui::control::{spec_apply_response, UiResponseView, UiStateView};
use crate::waveform::{key_le, stable_sort, insert_position, all_have_properties};
use crate::audio::devices::{
    config_rank, first_of_rank, has_rank, is_first_of_rank, spec_select_stream_config, supports_rate,
    BufferSizeRequest, DefaultOutputConfig, OutputConfigRange,
};
use crate::midi::{spec_mapping_action, spec_parse_action};
use crate::preferences::{spec_default_audio_preferences, spec_gesture_from_name, spec_read_preferences, PreferencesPatch};
use crate::settings::{
    draft_mappings, spec_add_switch_mapping, spec_remove_switch_mapping, spec_set_switch_action, spec_set_switch_gesture,
    SettingsView,
};
use crate::text::decimal;
use crate::ui::control::{index_of, spec_update, MessageView, UiRequestView};
use vstd::prelude::*;

verus! {

/// Preferences that arrive while a save is in flight close the settings
/// panel; while editing without a save they become the draft.
pub proof fn lemma_saved_preferences_close_the_panel(s: UiStateView, r: UiResponseView)
    requires
        s.settings.is_open,
        s.settings.is_saving,
        r.preferences is Some,
    ensures
        !spec_apply_response(s, r).settings.is_open,
        !spec_apply_response(s, r).settings.is_saving,
        spec_apply_response(s, r).preferences == r.preferences,
{
}

/// After a tick at `now`, no switch left down is held at `now`: a second
/// tick at the same time fires nothing, in whatever order it takes the
/// switches (a hold fires once).
pub proof fn lemma_hold_fires_once(
    presses: Map<u8, u64>,
    order: Seq<(u8, u64)>,
    mappings: Seq<SwitchMapping>,
    now: u64,
)
    requires
        lists_presses(order, not_held(presses, now)),
    ensures
        hold_actions(order, mappings, now) == Seq::<crate::messages::Action>::empty(),
{
    assert forall|i: int| 0 <= i < order.len() implies !is_held(#[trigger] order[i], now) by {
        assert(not_held(presses, now).contains_key(order[i].0));
    }
    lemma_no_held_no_actions(order, mappings, now);
}

proof fn lemma_no_held_no_actions(presses: Seq<(u8, u64)>, mappings: Seq<SwitchMapping>, now: u64)
    requires
        forall|i: int| 0 <= i < presses.len() ==> !is_held(#[trigger] presses[i], now),
    ensures
        hold_actions(presses, mappings, now) == Seq::<crate::messages::Action>::empty(),
    decreases presses.len(),
{
    if presses.len() > 0 {
        assert forall|i: int| 0 <= i < presses.drop_last().len() implies !is_held(
            #[trigger] presses.drop_last()[i],
            now,
        ) by {
            assert(presses.drop_last()[i] == presses[i]);
        }
        lemma_no_held_no_actions(presses.drop_last(), mappings, now);
        assert(!is_held(presses[presses.len() - 1], now));
    }
}

/// A removal from both places removes the remote project first, so that a
/// failed remote removal leaves the local project.
pub proof fn lemma_remote_removal_comes_first(targets: Seq<ProjectRemovalTarget>)
    requires
        targets.len() == 0 || (targets.contains(ProjectRemovalTarget::PROJECT_REMOVAL_TARGET_LOCAL)
            && targets.contains(ProjectRemovalTarget::PROJECT_REMOVAL_TARGET_REMOTE)),
    ensures
        spec_removal_steps(targets) == Some(seq![RemovalStep::Remote, RemovalStep::Local]),
{
    assert(seq![RemovalStep::Remote] + seq![RemovalStep::Local] =~= seq![RemovalStep::Remote, RemovalStep::Local]);
}

/// A removal from both places whose remote removal fails stops there: the
/// local project is not removed.
pub proof fn lemma_failed_remote_removal_keeps_local(targets: Seq<ProjectRemovalTarget>)
    requires
        targets.len() == 0 || (targets.contains(ProjectRemovalTarget::PROJECT_REMOVAL_TARGET_LOCAL)
            && targets.contains(ProjectRemovalTarget::PROJECT_REMOVAL_TARGET_REMOTE)),
    ensures
        spec_removal_after(spec_removal_steps(targets)->0, 0, false) == RemovalNext::Stopped(RemovalStep::Remote),
        spec_removal_after(spec_removal_steps(targets)->0, 0, true) == RemovalNext::Perform(RemovalStep::Local),
{
    lemma_remote_removal_comes_first(targets);
}

/// A refresh reaches the stage that touches the local project only when
/// building the staged project succeeded, and every failure before it
/// aborts the refresh.
pub proof fn lemma_refresh_touches_local_last(step: RefreshStep, succeeded: bool, mirror_current: bool)
    ensures
        spec_refresh_after(step, succeeded, mirror_current) == RefreshNext::Run(RefreshStep::InstallProject)
            <==> (step == RefreshStep::StageProject && succeeded),
        !succeeded ==> spec_refresh_after(step, succeeded, mirror_current) == RefreshNext::Abort,
        step == RefreshStep::CheckLocalMirror && succeeded && mirror_current ==> spec_refresh_after(
            step,
            succeeded,
            mirror_current,
        ) == RefreshNext::Finished(CloudRefresh::Current),
{
}

/// Validated audio preferences are in range, and validating them again
/// changes nothing.
pub proof fn lemma_validated_audio_is_in_range(a: AudioPreferencesView)
    ensures
        1 <= spec_validate_audio(a).sample_rate <= 192_000,
        1 <= spec_validate_audio(a).buffer_size <= 8192,
        1 <= spec_validate_audio(a).output_channel_count <= 64,
        spec_validate_audio(spec_validate_audio(a)) == spec_validate_audio(a),
{
}

/// Validating preferences twice is validating them once.
pub proof fn lemma_validation_is_idempotent(p: PreferencesView)
    ensures
        spec_validate_preferences(spec_validate_preferences(p)) == spec_validate_preferences(p),
{
}

pub open spec fn sorted_by_key(groups: Seq<(Option<crate::waveform::WaveformProperties>, Seq<u32>)>) -> bool {
    forall|i: int, j: int| 0 <= i < j < groups.len() ==> key_le(groups[i].0->0, groups[j].0->0)
}

proof fn lemma_key_total(a: crate::waveform::WaveformProperties, b: crate::waveform::WaveformProperties)
    ensures
        key_le(a, b) || key_le(b, a),
        key_le(a, b) && key_le(b, a) ==> a.length == b.length && a.channel == b.channel,
{
}

proof fn lemma_insert_position_splits(
    sorted: Seq<(Option<crate::waveform::WaveformProperties>, Seq<u32>)>,
    p: crate::waveform::WaveformProperties,
    i: int,
)
    requires
        0 <= i <= sorted.len(),
        all_have_properties(sorted),
        sorted_by_key(sorted),
        forall|k: int| 0 <= k < i ==> key_le(#[trigger] sorted[k].0->0, p),
    ensures
        i <= insert_position(sorted, p, i) <= sorted.len(),
        forall|k: int| 0 <= k < insert_position(sorted, p, i) ==> key_le(#[trigger] sorted[k].0->0, p),
        forall|k: int|
            insert_position(sorted, p, i) <= k < sorted.len() ==> key_le(p, #[trigger] sorted[k].0->0),
    decreases sorted.len() - i,
{
    if i < sorted.len() {
        if key_le(sorted[i].0->0, p) {
            lemma_insert_position_splits(sorted, p, i + 1);
        } else {
            assert forall|k: int| i <= k < sorted.len() implies key_le(p, #[trigger] sorted[k].0->0) by {
                lemma_key_total(sorted[i].0->0, p);
                assert(key_le(sorted[i].0->0, sorted[k].0->0) || k == i);
            }
        }
    }
}

/// Sorting orders the groups by window length, then channel.
pub proof fn lemma_sort_orders_groups(groups: Seq<(Option<crate::waveform::WaveformProperties>, Seq<u32>)>)
    requires
        all_have_properties(groups),
    ensures
        sorted_by_key(stable_sort(groups)),
        stable_sort(groups).len() == groups.len(),
        all_have_properties(stable_sort(groups)),
    decreases groups.len(),
{
    if groups.len() > 0 {
        let rest = groups.drop_last();
        assert(all_have_properties(rest)) by {
            assert forall|i: int| 0 <= i < rest.len() implies (#[trigger] rest[i]).0 is Some by {
                assert(rest[i] == groups[i]);
            }
        }
        lemma_sort_orders_groups(rest);
        let sorted = stable_sort(rest);
        let g = groups.last();
        assert(g == groups[groups.len() - 1]);
        let p = g.0->0;
        lemma_insert_position_splits(sorted, p, 0);
        let pos = insert_position(sorted, p, 0);
        let result = sorted.insert(pos, g);
        assert(result == stable_sort(groups));
        assert forall|i: int| 0 <= i < result.len() implies (#[trigger] result[i]).0 is Some by {
            if i < pos {
                assert(result[i] == sorted[i]);
            } else if i > pos {
                assert(result[i] == sorted[i - 1]);
            }
        }
        assert forall|i: int, j: int| 0 <= i < j < result.len() implies key_le(result[i].0->0, result[j].0->0) by {
            if j < pos {
                assert(result[i] == sorted[i] && result[j] == sorted[j]);
            } else if j == pos {
                assert(result[i] == sorted[i]);
            } else if i < pos {
                assert(result[i] == sorted[i] && result[j] == sorted[j - 1]);
                assert(key_le(sorted[i].0->0, p));
                assert(key_le(p, sorted[j - 1].0->0));
            } else if i == pos {
                assert(result[j] == sorted[j - 1]);
            } else {
                assert(result[i] == sorted[i - 1] && result[j] == sorted[j - 1]);
            }
        }
    }
}

/// Some range of position at most `i` has rank `rank`, so there is a first one.
proof fn lemma_first_of_rank_exists(
    configs: Seq<OutputConfigRange>,
    rank: int,
    rate: u32,
    channel_count: usize,
    i: int,
)
    requires
        0 <= i < configs.len(),
        config_rank(configs[i], rate, channel_count) == rank,
    ensures
        is_first_of_rank(configs, rank, rate, channel_count, first_of_rank(configs, rank, rate, channel_count)),
    decreases i,
{
    if exists|j: int| 0 <= j < i && #[trigger] config_rank(configs[j], rate, channel_count) == rank {
        let j = choose|j: int| 0 <= j < i && #[trigger] config_rank(configs[j], rate, channel_count) == rank;
        lemma_first_of_rank_exists(configs, rank, rate, channel_count, j);
    } else {
        assert(is_first_of_rank(configs, rank, rate, channel_count, i));
    }
}

/// Where some range supports the preferred rate, the stream is opened at
/// exactly that rate, with the channel count and sample format of a range
/// that supports it, and with the requested channel count where a range
/// that supports the rate has it.
pub proof fn lemma_stream_opens_at_preferred_rate(
    configs: Seq<OutputConfigRange>,
    default_config: Option<DefaultOutputConfig>,
    rate: u32,
    channel_count: usize,
    k: int,
)
    requires
        0 <= k < configs.len(),
        supports_rate(configs[k], rate),
    ensures
        spec_select_stream_config(configs, default_config, rate, channel_count) matches Some(c) && {
            &&& c.sample_rate == rate
            &&& c.buffer_size == BufferSizeRequest::Default
            &&& exists|i: int|
                0 <= i < configs.len() && supports_rate(configs[i], rate) && c.channels == configs[i].channels
                    && c.sample_format == configs[i].sample_format
            &&& (exists|i: int|
                0 <= i < configs.len() && supports_rate(configs[i], rate) && configs[i].channels as int
                    == channel_count as int) ==> c.channels as int == channel_count as int
        },
{
    let r = config_rank(configs[k], rate, channel_count);
    assert(0 <= r <= 3);
    let mut best: int = 4;
    if has_rank(configs, 0, rate, channel_count) {
        best = 0;
    } else if has_rank(configs, 1, rate, channel_count) {
        best = 1;
    } else if has_rank(configs, 2, rate, channel_count) {
        best = 2;
    } else if has_rank(configs, 3, rate, channel_count) {
        best = 3;
    } else {
        assert(has_rank(configs, r, rate, channel_count));
    }
    assert(has_rank(configs, best, rate, channel_count));
    let w = choose|w: int| 0 <= w < configs.len() && #[trigger] config_rank(configs[w], rate, channel_count) == best;
    lemma_first_of_rank_exists(configs, best, rate, channel_count, w);
    let f = first_of_rank(configs, best, rate, channel_count);
    assert(supports_rate(configs[f], rate));
    if exists|i: int|
        0 <= i < configs.len() && supports_rate(configs[i], rate) && configs[i].channels as int == channel_count as int {
        let i = choose|i: int|
            0 <= i < configs.len() && supports_rate(configs[i], rate) && configs[i].channels as int
                == channel_count as int;
        assert(config_rank(configs[i], rate, channel_count) <= 1);
        assert(best <= 1);
    }
}

/// The schema name of each action.
pub open spec fn action_name(a: Action) -> Seq<char> {
    match a {
        Action::ACTION_UNKNOWN => "ACTION_UNKNOWN"@,
        Action::ACTION_PREVIOUS_SONG => "ACTION_PREVIOUS_SONG"@,
        Action::ACTION_NEXT_SONG => "ACTION_NEXT_SONG"@,
        Action::ACTION_PREVIOUS_SECTION => "ACTION_PREVIOUS_SECTION"@,
        Action::ACTION_NEXT_SECTION => "ACTION_NEXT_SECTION"@,
        Action::ACTION_QUEUE_SELECTED => "ACTION_QUEUE_SELECTED"@,
        Action::ACTION_TOGGLE_LOOP => "ACTION_TOGGLE_LOOP"@,
        Action::ACTION_TOGGLE_PLAY => "ACTION_TOGGLE_PLAY"@,
    }
}

/// An action's name reads back as that action, and a name reads as an
/// action only where it is that action's name. A mapping file may name every
/// action but `ACTION_UNKNOWN`, each by its own name.
pub proof fn lemma_action_names_read_back(a: Action, s: Seq<char>)
    ensures
        spec_parse_action(action_name(a)) == Some(a),
        spec_parse_action(s) matches Some(b) ==> s == action_name(b),
        spec_mapping_action(action_name(a)) == if a == Action::ACTION_UNKNOWN {
            None
        } else {
            Some(a)
        },
        spec_mapping_action(s) matches Some(b) ==> s == action_name(b) && b != Action::ACTION_UNKNOWN,
{
    reveal_strlit("ACTION_UNKNOWN");
    reveal_strlit("ACTION_PREVIOUS_SONG");
    reveal_strlit("ACTION_NEXT_SONG");
    reveal_strlit("ACTION_PREVIOUS_SECTION");
    reveal_strlit("ACTION_NEXT_SECTION");
    reveal_strlit("ACTION_QUEUE_SELECTED");
    reveal_strlit("ACTION_TOGGLE_LOOP");
    reveal_strlit("ACTION_TOGGLE_PLAY");
    assert("ACTION_UNKNOWN"@.len() == 14);
    assert("ACTION_PREVIOUS_SONG"@.len() == 20);
    assert("ACTION_NEXT_SONG"@.len() == 16);
    assert("ACTION_PREVIOUS_SECTION"@.len() == 23);
    assert("ACTION_NEXT_SECTION"@.len() == 19);
    assert("ACTION_QUEUE_SELECTED"@.len() == 21);
    assert("ACTION_TOGGLE_LOOP"@.len() == 18);
    assert("ACTION_TOGGLE_PLAY"@.len() == 18);
    assert("ACTION_TOGGLE_LOOP"@[14] != "ACTION_TOGGLE_PLAY"@[14]);
}

/// Removing the switch mapping at `index` (where there is one) leaves the
/// other mappings in order and their pin fields with them; past the end it
/// leaves the mappings as they were.
pub proof fn lemma_remove_switch_mapping_removes_that_one(s: SettingsView, index: int)
    ensures
        ({
            let before = draft_mappings(s.draft);
            let t = spec_remove_switch_mapping(s, index);
            let after = draft_mappings(t.draft);
            &&& 0 <= index < before.len() ==> {
                &&& after.len() == before.len() - 1
                &&& forall|j: int| 0 <= j < index ==> #[trigger] after[j] == before[j]
                &&& forall|j: int| index <= j < after.len() ==> #[trigger] after[j] == before[j + 1]
            }
            &&& !(0 <= index < before.len()) ==> after == before
            &&& t.switch_pin_values.len() == after.len()
            &&& forall|j: int| 0 <= j < after.len() ==> #[trigger] t.switch_pin_values[j] == decimal(after[j].pin as nat)
        }),
{
}

/// Each audio value that a preferences file sets is read as set where it is
/// in range (the sample rate within `1 ..= 192000`, the buffer size within
/// `1 ..= 8192`, the channel count within `1 ..= 64`; the device, the jack
/// switch and the channel offsets always); a value it leaves out is the
/// default.
pub proof fn lemma_file_audio_values_are_read(patch: PreferencesPatch)
    requires
        patch.audio is Some,
    ensures
        ({
            let a = patch.audio->0;
            let read = spec_read_preferences(patch).audio->0;
            let d = spec_default_audio_preferences();
            &&& spec_read_preferences(patch).audio is Some
            &&& a.sample_rate matches Some(v) ==> (1 <= v && v <= 192_000 ==> read.sample_rate == v)
            &&& a.sample_rate is None ==> read.sample_rate == d.sample_rate
            &&& a.buffer_size matches Some(v) ==> (1 <= v && v <= 8192 ==> read.buffer_size == v)
            &&& a.buffer_size is None ==> read.buffer_size == d.buffer_size
            &&& a.output_channel_count matches Some(v) ==> (1 <= v && v <= 64 ==> read.output_channel_count == v)
            &&& a.output_channel_count is None ==> read.output_channel_count == d.output_channel_count
            &&& a.use_jack matches Some(v) ==> read.use_jack == v
            &&& a.main_channel_offset matches Some(v) ==> read.main_channel_offset == v
            &&& a.click_channel_offset matches Some(v) ==> read.click_channel_offset == v
            &&& a.output_device matches Some(v) ==> read.output_device == v@
            &&& a.output_device is None ==> read.output_device == d.output_device
        }),
{
}

/// With song `i` selected, "previous song" asks to select song `i - 1` and
/// "next song" song `i + 1`, where there is one (and nothing otherwise);
/// neither changes the interface state.
pub proof fn lemma_song_navigation(s: UiStateView, i: usize)
    requires
        s.project.selected_song_index == Some(i),
    ensures
        spec_update(s, MessageView::SelectPreviousSong) == (s, if 1 <= i && i - 1 < s.project.song_ids.len() {
            seq![UiRequestView::Select { entity: Entity::SONG, id: s.project.song_ids[i - 1] }]
        } else {
            Seq::<UiRequestView>::empty()
        }),
        spec_update(s, MessageView::SelectNextSong) == (s, if i + 1 < s.project.song_ids.len() {
            seq![UiRequestView::Select { entity: Entity::SONG, id: s.project.song_ids[i + 1] }]
        } else {
            Seq::<UiRequestView>::empty()
        }),
{
}

/// Adding a switch mapping appends one for pin 0 whose press toggles
/// playback, after the others, and writes its pin field.
pub proof fn lemma_add_switch_mapping_appends(s: SettingsView)
    ensures
        ({
            let before = draft_mappings(s.draft);
            let t = spec_add_switch_mapping(s);
            let after = draft_mappings(t.draft);
            &&& after.len() == before.len() + 1
            &&& forall|j: int| 0 <= j < before.len() ==> #[trigger] after[j] == before[j]
            &&& after[before.len() as int] == SwitchMapping {
                pin: 0,
                gesture: Gesture::GESTURE_PRESS,
                action: Action::ACTION_TOGGLE_PLAY,
            }
            &&& t.switch_pin_values.len() == after.len()
            &&& forall|j: int| 0 <= j < after.len() ==> #[trigger] t.switch_pin_values[j] == decimal(after[j].pin as nat)
        }),
{
}

/// Picking the gesture or the action of the switch mapping at `index`
/// changes that one field of that mapping and nothing else of the draft.
pub proof fn lemma_switch_picks_change_one_field(s: SettingsView, index: int, gesture: Gesture, action: Action)
    requires
        0 <= index < draft_mappings(s.draft).len(),
    ensures
        ({
            let before = draft_mappings(s.draft);
            let g = draft_mappings(spec_set_switch_gesture(s, index, gesture).draft);
            let a = draft_mappings(spec_set_switch_action(s, index, action).draft);
            &&& g.len() == before.len() && a.len() == before.len()
            &&& g[index].gesture == gesture && g[index].pin == before[index].pin && g[index].action == before[index].action
            &&& a[index].action == action && a[index].pin == before[index].pin && a[index].gesture == before[index].gesture
            &&& forall|j: int| 0 <= j < before.len() && j != index ==> #[trigger] g[j] == before[j] && a[j] == before[j]
        }),
{
}

/// Where `x` is first found at `i` in `s`, looking it up from the start finds `i`.
proof fn lemma_index_of_first(s: Seq<u64>, x: u64, i: int, from: int)
    requires
        0 <= from <= i < s.len(),
        s[i] == x,
        forall|j: int| from <= j < i ==> s[j] != x,
    ensures
        index_of(s, x, from) == Some(i),
    decreases i - from,
{
    if from < i {
        lemma_index_of_first(s, x, i, from + 1);
    }
}

/// With the section at position `i` of the selected song selected,
/// "previous section" asks to select the section at `i - 1` and "next
/// section" the one at `i + 1`, where there is one (and nothing otherwise);
/// neither changes the interface state.
pub proof fn lemma_section_navigation(s: UiStateView, sections: Seq<u64>, i: int)
    requires
        s.project.selected_song_sections == Some(sections),
        0 <= i < sections.len(),
        sections[i] == s.project.selected_section,
        forall|j: int| 0 <= j < i ==> sections[j] != s.project.selected_section,
    ensures
        spec_update(s, MessageView::SelectPreviousSection) == (s, if 1 <= i {
            seq![UiRequestView::Select { entity: Entity::SECTION, id: sections[i - 1] }]
        } else {
            Seq::<UiRequestView>::empty()
        }),
        spec_update(s, MessageView::SelectNextSection) == (s, if i + 1 < sections.len() {
            seq![UiRequestView::Select { entity: Entity::SECTION, id: sections[i + 1] }]
        } else {
            Seq::<UiRequestView>::empty()
        }),
{
    lemma_index_of_first(sections, s.project.selected_section, i, 0);
}

/// Each gesture's schema name reads back as that gesture, and nothing else
/// reads as one.
pub proof fn lemma_gesture_names_read_back(g: Gesture, s: Seq<char>)
    ensures
        spec_gesture_from_name(gesture_name(g)) == Some(g),
        spec_gesture_from_name(s) matches Some(h) ==> s == gesture_name(h),
{
    reveal_strlit("GESTURE_UNKNOWN");
    reveal_strlit("GESTURE_PRESS");
    reveal_strlit("GESTURE_RELEASE");
    reveal_strlit("GESTURE_HOLD");
    assert("GESTURE_UNKNOWN"@.len() == 15);
    assert("GESTURE_PRESS"@.len() == 13);
    assert("GESTURE_RELEASE"@.len() == 15);
    assert("GESTURE_HOLD"@.len() == 12);
    assert("GESTURE_UNKNOWN"@[8] != "GESTURE_RELEASE"@[8]);
}

/// The schema name of each gesture.
pub open spec fn gesture_name(g: Gesture) -> Seq<char> {
    match g {
        Gesture::GESTURE_UNKNOWN => "GESTURE_UNKNOWN"@,
        Gesture::GESTURE_PRESS => "GESTURE_PRESS"@,
        Gesture::GESTURE_RELEASE => "GESTURE_RELEASE"@,
        Gesture::GESTURE_HOLD => "GESTURE_HOLD"@,
    }
}

} // verus!
