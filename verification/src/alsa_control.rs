//! Operations on a card that is given by its name, which is resolved
//! anew for each of them, beside those on the card of the session.

pub use crate::audio_control::{change_buffer_size, get_initial_states, get_volume, set_volume};

use crate::alsa::general::{
    card_listing, card_listing_command, card_number_by_name, card_number_from, controls_listing,
    listing_view, mixer_get, mixer_set, soundcard_controls,
};
use crate::alsa::switches::{selector_set, sensitivity_reading, switch_reading, switch_word};
use crate::audio_control::{
    initialize_sound_card, not_initialized, session_card, sound_card_after, sound_card_step,
};
use crate::cache::CardCache;
use crate::command::{
    later, launch_views, single_step, text_step, value_step, write_step, Launch, LaunchView,
    Step, StepView,
};
use crate::decimal::decimal_text;
use crate::name_map::NameMap;
use vstd::prelude::*;

verus! {

/// What an operation on a card that is given by its name answers: it
/// lists the playback devices and reads the number of the card; where
/// that went well it goes on as `next` says, with the number and with
/// what came of the commands that were run after the listing.
pub open spec fn named_card_step<V>(
    card_name: Seq<char>,
    outcomes: Seq<LaunchView>,
    next: spec_fn(Seq<char>, Seq<LaunchView>) -> StepView<V>,
) -> StepView<V> {
    if outcomes.len() == 0 {
        StepView::Run(card_listing())
    } else {
        match card_number_by_name(card_name, outcomes[0]) {
            Err(e) => StepView::Done(Err(e)),
            Ok(index) => next(index, outcomes.skip(1)),
        }
    }
}

/// The number that the mixer gives the card `card_name`.
pub fn find_card_index(card_name: &str, outcomes: &[Launch]) -> (r: Step<String>)
    ensures
        text_step(r) == single_step(
            card_listing(),
            launch_views(outcomes@),
            |listing: LaunchView| card_number_by_name(card_name@, listing),
        ),
        r matches Step::Done(Ok(number)) ==> crate::decimal::is_numeral(number@),
{
    crate::alsa::general::get_card_number_by_name(card_name, outcomes)
}

/// The controls of the card `card_name`.
pub fn get_soundcard_controls(card_name: &str, outcomes: &[Launch]) -> (r: Step<
    NameMap<Vec<String>>,
>)
    ensures
        match r {
            Step::Run(c) => StepView::<Map<Seq<char>, Seq<Seq<char>>>>::Run(c@),
            Step::Done(Ok(controls)) => StepView::Done(Ok(listing_view(controls))),
            Step::Done(Err(e)) => StepView::Done(Err(e@)),
        } == named_card_step(
            card_name@,
            launch_views(outcomes@),
            |index: Seq<char>, rest: Seq<LaunchView>|
                single_step(
                    controls_listing(index),
                    rest,
                    |listing: LaunchView| soundcard_controls(listing),
                ),
        ),
{
    if outcomes.len() == 0 {
        return Step::Run(card_listing_command());
    }
    match card_number_from(card_name, &outcomes[0]) {
        Err(e) => Step::Done(Err(e)),
        Ok(index) => crate::alsa::general::get_soundcard_controls(
            index.as_str(),
            later(outcomes),
        ),
    }
}

/// Resolves the card `sound_card_name` and keeps its number for the
/// session.
pub fn find_sound_card_number(card: &mut CardCache, sound_card_name: &str, outcomes: &[Launch])
    -> (r: Step<u32>)
    ensures
        value_step(r) == sound_card_step(sound_card_name@, launch_views(outcomes@)),
        final(card).number == sound_card_after(
            old(card).number,
            sound_card_name@,
            launch_views(outcomes@),
        ),
{
    initialize_sound_card(card, sound_card_name, outcomes)
}

/// What `set_phantom_power` answers.
pub open spec fn set_phantom_power_step(
    card: Option<u32>,
    mic: Seq<char>,
    new_state: bool,
    outcomes: Seq<LaunchView>,
) -> StepView<()> {
    match card {
        None => StepView::Done(Err(not_initialized())),
        Some(number) => write_step(
            mixer_set(decimal_text(number as nat), mic, switch_word(new_state)),
            outcomes,
            ""@,
        ),
    }
}

/// Switches the phantom power of the input `mic` of the card of the
/// session on or off.
pub fn set_phantom_power(card: &CardCache, mic: &str, new_state: bool, outcomes: &[Launch]) -> (r:
    Step<()>)
    ensures
        value_step(r) == set_phantom_power_step(
            card.number,
            mic@,
            new_state,
            launch_views(outcomes@),
        ),
{
    match session_card(card) {
        Err(e) => Step::Done(Err(e)),
        Ok(index) => crate::alsa::switches::set_phantom_power(
            index.as_str(),
            mic,
            new_state,
            outcomes,
        ),
    }
}

/// Whether the phantom power of the input `mic_name` of the card
/// `sound_card_name` is on.
pub fn get_phantom_power_state(sound_card_name: &str, mic_name: &str, outcomes: &[Launch]) -> (r:
    Step<bool>)
    ensures
        value_step(r) == named_card_step(
            sound_card_name@,
            launch_views(outcomes@),
            |index: Seq<char>, rest: Seq<LaunchView>|
                single_step(
                    mixer_get(index, mic_name@),
                    rest,
                    |answer: LaunchView|
                        switch_reading(
                            mic_name@,
                            Some("48V"@),
                            "Microphone "@,
                            " not found"@,
                            answer,
                        ),
                ),
        ),
{
    if outcomes.len() == 0 {
        return Step::Run(card_listing_command());
    }
    match card_number_from(sound_card_name, &outcomes[0]) {
        Err(e) => Step::Done(Err(e)),
        Ok(index) => crate::alsa::switches::get_phantom_power_state(
            index.as_str(),
            mic_name,
            later(outcomes),
        ),
    }
}

/// What the sensitivity selector `line_input_name` of the card
/// `sound_card_name` is set to.
pub fn get_line_input_sensitivity(
    sound_card_name: &str,
    line_input_name: &str,
    outcomes: &[Launch],
) -> (r: Step<String>)
    ensures
        text_step(r) == named_card_step(
            sound_card_name@,
            launch_views(outcomes@),
            |index: Seq<char>, rest: Seq<LaunchView>|
                single_step(
                    mixer_get(index, line_input_name@),
                    rest,
                    |answer: LaunchView| sensitivity_reading(line_input_name@, answer),
                ),
        ),
{
    if outcomes.len() == 0 {
        return Step::Run(card_listing_command());
    }
    match card_number_from(sound_card_name, &outcomes[0]) {
        Err(e) => Step::Done(Err(e)),
        Ok(index) => crate::alsa::switches::get_line_input_sensitivity(
            index.as_str(),
            line_input_name,
            later(outcomes),
        ),
    }
}

/// Sets the sensitivity selector `line_input_name` of the card
/// `sound_card_name` to `sensitivity`.
pub fn set_line_input_sensitivity(
    sound_card_name: &str,
    line_input_name: &str,
    sensitivity: &str,
    outcomes: &[Launch],
) -> (r: Step<()>)
    ensures
        value_step(r) == named_card_step(
            sound_card_name@,
            launch_views(outcomes@),
            |index: Seq<char>, rest: Seq<LaunchView>|
                write_step(selector_set(index, line_input_name@, sensitivity@), rest, ""@),
        ),
{
    if outcomes.len() == 0 {
        return Step::Run(card_listing_command());
    }
    match card_number_from(sound_card_name, &outcomes[0]) {
        Err(e) => Step::Done(Err(e)),
        Ok(index) => crate::alsa::switches::set_line_input_sensitivity(
            index.as_str(),
            line_input_name,
            sensitivity,
            later(outcomes),
        ),
    }
}

} // verus!
