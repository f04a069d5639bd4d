//! What the settings editor promises across its operations.

use crate::messages::{AudioPreferencesView, PreferencesView, SwitchMapping};
use crate::settings::{
    all_pins_parse, draft_audio, draft_mappings, parse_in_range, pin_texts, saved_mappings,
    spec_has_validation_error, spec_save, spec_sync_fields, spec_validate_audio_number, AudioNumberField,
    SettingsView,
};
use crate::text::{lemma_parse_decimal_round_trip, spec_parse_u32, trim};
use vstd::prelude::*;

verus! {

proof fn lemma_pin_texts_parse(mappings: Seq<SwitchMapping>)
    ensures
        all_pins_parse(pin_texts(mappings)),
        saved_mappings(mappings, pin_texts(mappings)) == mappings,
{
    assert forall|i: int| 0 <= i < pin_texts(mappings).len() implies #[trigger] spec_parse_u32(
        trim(pin_texts(mappings)[i]),
    ) is Some by {
        lemma_parse_decimal_round_trip(mappings[i].pin);
    }
    assert forall|i: int| 0 <= i < mappings.len() implies #[trigger] saved_mappings(
        mappings,
        pin_texts(mappings),
    )[i] == mappings[i] by {
        lemma_parse_decimal_round_trip(mappings[i].pin);
    }
    assert(saved_mappings(mappings, pin_texts(mappings)) =~= mappings);
}

/// An editor whose fields were just written from a draft with audio and
/// switch preferences, and valid sample rate and buffer size, saves that
/// draft unchanged.
pub proof fn lemma_save_after_sync_gives_draft(s: SettingsView)
    requires
        s.draft.audio is Some,
        s.draft.switch is Some,
        1 <= s.draft.audio->0.sample_rate <= 192_000,
        1 <= s.draft.audio->0.buffer_size <= 8192,
    ensures
        spec_save(spec_sync_fields(s)) == (
            SettingsView { validation_error: None, ..spec_sync_fields(s) },
            Some(s.draft),
        ),
{
    let t = spec_sync_fields(s);
    let a = draft_audio(s.draft);
    lemma_parse_decimal_round_trip(a.sample_rate);
    lemma_parse_decimal_round_trip(a.buffer_size);
    lemma_parse_decimal_round_trip(a.main_channel_offset);
    lemma_parse_decimal_round_trip(a.click_channel_offset);
    lemma_pin_texts_parse(draft_mappings(s.draft));
    assert(parse_in_range(t.sample_rate, 1, 192_000) == Some(a.sample_rate));
    assert(parse_in_range(t.buffer_size, 1, 8192) == Some(a.buffer_size));
    let audio = AudioPreferencesView {
        sample_rate: a.sample_rate,
        buffer_size: a.buffer_size,
        main_channel_offset: a.main_channel_offset,
        click_channel_offset: a.click_channel_offset,
        ..a
    };
    assert(audio == a);
    assert(PreferencesView {
        audio: Some(audio),
        switch: Some(saved_mappings(draft_mappings(s.draft), pin_texts(draft_mappings(s.draft)))),
        ..s.draft
    } == s.draft);
}

/// When the editor shows no validation error, saving succeeds.
pub proof fn lemma_no_validation_error_saves(s: SettingsView)
    requires
        !spec_has_validation_error(s),
    ensures
        spec_save(s).1 is Some,
{
    assert(spec_validate_audio_number(s.sample_rate, AudioNumberField::SampleRate) is None);
    assert(spec_validate_audio_number(s.buffer_size, AudioNumberField::BufferSize) is None);
    lemma_pin_texts_parse(draft_mappings(s.draft));
}

} // verus!
