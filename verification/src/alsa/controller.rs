//! The operations of the mixer on the card of the running application.

use crate::alsa::general::{
    controls_listing, listing_view, mixer_get, mixer_set, soundcard_controls, value_reading,
};
use crate::alsa::switches::{selector_set, sensitivity_reading, switch_reading, switch_word};
use crate::alsa::volume::{clamped_volume, percent_text, volume_reading};
use crate::alsa::{general, input_gain, switches, volume};
use crate::command::{
    launch_views, single_step, text_step, value_step, write_step, Launch, LaunchView, Step,
};
use crate::decimal::int_text;
use crate::error::Failure;
use crate::name_map::NameMap;
use crate::state::AppState;
use vstd::prelude::*;

verus! {

/// The controls of the card.
pub fn get_soundcard_controls(state: &AppState, outcomes: &[Launch]) -> (r: Step<
    NameMap<Vec<String>>,
>)
    ensures
        match r {
            Step::Run(c) => outcomes@.len() == 0 && c@ == controls_listing(
                state.alsa_card_number@,
            ),
            Step::Done(Ok(controls)) => outcomes@.len() > 0 && soundcard_controls(outcomes@[0]@)
                == Ok::<Map<Seq<char>, Seq<Seq<char>>>, Failure>(listing_view(controls)),
            Step::Done(Err(e)) => outcomes@.len() > 0 && soundcard_controls(outcomes@[0]@) == Err::<
                Map<Seq<char>, Seq<Seq<char>>>,
                Failure,
            >(e@),
        },
{
    general::get_soundcard_controls(state.alsa_card_number.as_str(), outcomes)
}

/// The gain of the control `control_name` of the card.
pub fn get_input_gain(state: &AppState, control_name: String, outcomes: &[Launch]) -> (r: Step<
    i32,
>)
    ensures
        value_step(r) == single_step(
            mixer_get(state.alsa_card_number@, control_name@),
            launch_views(outcomes@),
            |answer: LaunchView| value_reading(answer),
        ),
{
    input_gain::get_input_gain(state.alsa_card_number.as_str(), control_name.as_str(), outcomes)
}

/// Sets the gain control `control_name` of the card to `gain`.
pub fn set_input_gain(state: &AppState, control_name: String, gain: i32, outcomes: &[Launch])
    -> (r: Step<()>)
    ensures
        value_step(r) == write_step(
            mixer_set(state.alsa_card_number@, control_name@, int_text(gain as int)),
            launch_views(outcomes@),
            ""@,
        ),
{
    input_gain::set_input_gain(
        state.alsa_card_number.as_str(),
        control_name.as_str(),
        gain,
        outcomes,
    )
}

/// Whether the pad of the input `control_name` of the card is on.
pub fn get_pad_state(state: &AppState, control_name: String, outcomes: &[Launch]) -> (r: Step<
    bool,
>)
    ensures
        value_step(r) == single_step(
            mixer_get(state.alsa_card_number@, control_name@),
            launch_views(outcomes@),
            |answer: LaunchView|
                switch_reading(control_name@, None, "Switch "@, " not found"@, answer),
        ),
{
    switches::get_pad_state(state.alsa_card_number.as_str(), control_name.as_str(), outcomes)
}

/// Switches the pad of the input `control_name` of the card on or off.
pub fn set_pad_state(state: &AppState, control_name: String, new_state: bool, outcomes: &[Launch])
    -> (r: Step<()>)
    ensures
        value_step(r) == write_step(
            mixer_set(state.alsa_card_number@, control_name@, switch_word(new_state)),
            launch_views(outcomes@),
            ""@,
        ),
{
    switches::set_pad_state(
        state.alsa_card_number.as_str(),
        control_name.as_str(),
        new_state,
        outcomes,
    )
}

/// Whether the phantom power of the input `control_name` of the card is
/// on.
pub fn get_phantom_power_state(state: &AppState, control_name: String, outcomes: &[Launch]) -> (r:
    Step<bool>)
    ensures
        value_step(r) == single_step(
            mixer_get(state.alsa_card_number@, control_name@),
            launch_views(outcomes@),
            |answer: LaunchView|
                switch_reading(
                    control_name@,
                    Some("48V"@),
                    "Microphone "@,
                    " not found"@,
                    answer,
                ),
        ),
{
    switches::get_phantom_power_state(
        state.alsa_card_number.as_str(),
        control_name.as_str(),
        outcomes,
    )
}

/// Switches the phantom power of the input `control_name` of the card on
/// or off.
pub fn set_phantom_power(
    state: &AppState,
    control_name: String,
    new_state: bool,
    outcomes: &[Launch],
) -> (r: Step<()>)
    ensures
        value_step(r) == write_step(
            mixer_set(state.alsa_card_number@, control_name@, switch_word(new_state)),
            launch_views(outcomes@),
            ""@,
        ),
{
    switches::set_phantom_power(
        state.alsa_card_number.as_str(),
        control_name.as_str(),
        new_state,
        outcomes,
    )
}

/// What the sensitivity selector `line_input_name` of the card is set to.
pub fn get_line_input_sensitivity(state: &AppState, line_input_name: String, outcomes: &[Launch])
    -> (r: Step<String>)
    ensures
        text_step(r) == single_step(
            mixer_get(state.alsa_card_number@, line_input_name@),
            launch_views(outcomes@),
            |answer: LaunchView| sensitivity_reading(line_input_name@, answer),
        ),
{
    switches::get_line_input_sensitivity(
        state.alsa_card_number.as_str(),
        line_input_name.as_str(),
        outcomes,
    )
}

/// Sets the sensitivity selector `line_input_name` of the card to
/// `sensitivity`.
pub fn set_line_input_sensitivity(
    state: &AppState,
    line_input_name: String,
    sensitivity: String,
    outcomes: &[Launch],
) -> (r: Step<()>)
    ensures
        value_step(r) == write_step(
            selector_set(state.alsa_card_number@, line_input_name@, sensitivity@),
            launch_views(outcomes@),
            ""@,
        ),
{
    switches::set_line_input_sensitivity(
        state.alsa_card_number.as_str(),
        line_input_name.as_str(),
        sensitivity.as_str(),
        outcomes,
    )
}

/// The volume of the control `control_name` of the card, in percent.
pub fn get_alsa_volume(state: &AppState, control_name: String, outcomes: &[Launch]) -> (r: Step<
    i32,
>)
    ensures
        value_step(r) == single_step(
            mixer_get(state.alsa_card_number@, control_name@),
            launch_views(outcomes@),
            |answer: LaunchView| volume_reading(answer),
        ),
{
    volume::get_volume(state.alsa_card_number.as_str(), control_name.as_str(), outcomes)
}

/// Sets the control `control_name` of the card to `volume` percent,
/// brought into the range from 0 to 100 first.
pub fn set_alsa_volume(state: &AppState, control_name: String, volume: i32, outcomes: &[Launch])
    -> (r: Step<()>)
    ensures
        value_step(r) == write_step(
            mixer_set(
                state.alsa_card_number@,
                control_name@,
                percent_text(clamped_volume(volume as int)),
            ),
            launch_views(outcomes@),
            ""@,
        ),
{
    volume::set_volume(state.alsa_card_number.as_str(), control_name.as_str(), volume, outcomes)
}

} // verus!
