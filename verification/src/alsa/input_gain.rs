//! The gain of the inputs, in the mixer's own units.

use crate::alsa::general::{
    mixer_get, mixer_get_command, mixer_set, mixer_set_command, read_value, value_reading,
};
use crate::command::{
    answer_write, launch_views, single_step, value_step, write_step, Launch, LaunchView, Step,
};
use crate::decimal::{format_i32, int_text};
use crate::text::string_of;
use vstd::prelude::*;

verus! {

/// Sets the gain control `control_name` of the card `card_index` to
/// `gain`.
pub fn set_input_gain(card_index: &str, control_name: &str, gain: i32, outcomes: &[Launch]) -> (r:
    Step<()>)
    ensures
        value_step(r) == write_step(
            mixer_set(card_index@, control_name@, int_text(gain as int)),
            launch_views(outcomes@),
            ""@,
        ),
{
    let value = string_of(&format_i32(gain));
    answer_write(mixer_set_command(card_index, control_name, value.as_str()), outcomes, "")
}

/// The gain of the control `control_name` of the card `card_index`.
pub fn get_input_gain(card_index: &str, control_name: &str, outcomes: &[Launch]) -> (r: Step<i32>)
    ensures
        value_step(r) == single_step(
            mixer_get(card_index@, control_name@),
            launch_views(outcomes@),
            |answer: LaunchView| value_reading(answer),
        ),
{
    if outcomes.len() == 0 {
        Step::Run(mixer_get_command(card_index, control_name))
    } else {
        Step::Done(read_value(&outcomes[0]))
    }
}

} // verus!
