//! The cells of the routing matrix.

use crate::alsa::general::{
    mixer_get, mixer_get_command, mixer_set, mixer_set_command, read_value, route_control,
    route_name, value_reading,
};
use crate::alsa::volume::{clamp_volume, clamped_volume, format_percent, percent_text};
use crate::command::{
    answer_write, launch_views, single_step, value_step, write_step, Launch, LaunchView, Step,
};
use vstd::prelude::*;

verus! {

/// Sets how much of `source` goes to `destination` on the card
/// `card_index`: `percent` hundredths of the full level, brought into the
/// range from 0 to 100 first.
pub fn set_routing_volume(
    card_index: &str,
    source: &str,
    destination: &str,
    percent: i32,
    outcomes: &[Launch],
) -> (r: Step<()>)
    ensures
        value_step(r) == write_step(
            mixer_set(
                card_index@,
                route_name(source@, destination@),
                percent_text(clamped_volume(percent as int)),
            ),
            launch_views(outcomes@),
            ""@,
        ),
{
    let control_name = route_control(source, destination);
    let value = format_percent(clamp_volume(percent));
    answer_write(
        mixer_set_command(card_index, control_name.as_str(), value.as_str()),
        outcomes,
        "",
    )
}

/// How much of `source` goes to `destination` on the card `card_index`,
/// in the mixer's own units.
pub fn get_routing_volume(card_index: &str, source: &str, destination: &str, outcomes: &[Launch])
    -> (r: Step<i32>)
    ensures
        value_step(r) == single_step(
            mixer_get(card_index@, route_name(source@, destination@)),
            launch_views(outcomes@),
            |answer: LaunchView| value_reading(answer),
        ),
{
    if outcomes.len() == 0 {
        let control_name = route_control(source, destination);
        Step::Run(mixer_get_command(card_index, control_name.as_str()))
    } else {
        Step::Done(read_value(&outcomes[0]))
    }
}

} // verus!
