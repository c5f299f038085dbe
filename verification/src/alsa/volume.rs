//! Volumes in percent.

use crate::alsa::general::{
    captured_number, mixer_get, mixer_get_command, mixer_set, mixer_set_command,
    number_of_capture,
};
use crate::command::{
    answer_write, checked_output_of, launch_views, single_step, value_step, write_step, Launch,
    LaunchView, Step,
};
use crate::decimal::{
    all_digits, format_i32, int_text, lemma_decimal_text, lemma_int_text_round_trip,
};
use crate::error::{value_result, ControlError, Failure};
use crate::pattern::{captures, captures_view, group_at, group_text, regex_captures};
use crate::text::string_of;
use vstd::prelude::*;

verus! {

/// `volume`, brought into the range from 0 to 100.
pub open spec fn clamped_volume(volume: int) -> int {
    if volume < 0 {
        0
    } else if volume > 100 {
        100
    } else {
        volume
    }
}

/// Brings `volume` into the range from 0 to 100.
pub fn clamp_volume(volume: i32) -> (r: i32)
    ensures
        r == clamped_volume(volume as int),
        0 <= r <= 100,
{
    if volume < 0 {
        0
    } else if volume > 100 {
        100
    } else {
        volume
    }
}

/// A clamped volume lies between 0 and 100, and clamping it once more
/// changes nothing.
pub proof fn lemma_clamp_volume_idempotent(volume: int)
    ensures
        0 <= clamped_volume(volume) <= 100,
        clamped_volume(clamped_volume(volume)) == clamped_volume(volume),
{
}

/// A percentage as the mixer takes it: the number, then the percent sign.
pub open spec fn percent_text(percent: int) -> Seq<char> {
    int_text(percent).push('%')
}

/// Writes a percentage as the mixer takes it.
pub fn format_percent(percent: i32) -> (r: String)
    ensures
        r@ == percent_text(percent as int),
{
    let mut text = format_i32(percent);
    text.push('%');
    string_of(&text)
}

/// The pattern of a percentage in the mixer's answer.
pub open spec fn percent_pattern() -> Seq<char> {
    "(\\d+)%"@
}

/// The percentage, from what the percent pattern captured in the mixer's
/// answer: the number in the first group.
pub fn volume_of_captures(found: &Option<Vec<Option<String>>>) -> (r: Result<i32, ControlError>)
    ensures
        value_result(r) == captured_number(group_at(captures_view(*found), 1)),
{
    number_of_capture(group_text(found, 1))
}

/// The first percentage in the mixer's answer.
pub fn parse_volume_from_amixer_output(output: &str) -> (r: Result<i32, ControlError>)
    ensures
        value_result(r) == captured_number(
            group_at(regex_captures(percent_pattern(), output@), 1),
        ),
{
    let found = captures("(\\d+)%", output);
    volume_of_captures(&found)
}

/// What `format_percent` writes for a percentage from 0 to 100 are the
/// digits of the number, then the percent sign, and the digits read back
/// as the number. What the percent pattern captures in that text is the
/// regex crate's to say; where it captures the digits, the parser of
/// the mixer's answer gives back the number that was written.
pub proof fn lemma_percent_digits_read_back(percent: int)
    requires
        0 <= percent <= 100,
    ensures
        percent_text(percent).drop_last() == int_text(percent),
        percent_text(percent).last() == '%',
        all_digits(int_text(percent)),
        captured_number(Some(int_text(percent))) == Ok::<i32, Failure>(percent as i32),
        group_at(regex_captures(percent_pattern(), percent_text(percent)), 1) == Some(
            percent_text(percent).drop_last(),
        ) ==> captured_number(
            group_at(regex_captures(percent_pattern(), percent_text(percent)), 1),
        ) == Ok::<i32, Failure>(percent as i32),
{
    lemma_decimal_text(percent as nat);
    lemma_int_text_round_trip(percent);
    assert(percent_text(percent).drop_last() == int_text(percent));
}

/// The percentage of a control, read off what came of asking the mixer
/// for it.
pub open spec fn volume_reading(answer: LaunchView) -> Result<i32, Failure> {
    match checked_output_of(answer, ""@) {
        Err(e) => Err(e),
        Ok(text) => captured_number(group_at(regex_captures(percent_pattern(), text), 1)),
    }
}

/// The percentage of a control, read off what came of asking the mixer
/// for it.
pub fn read_volume(answer: &Launch) -> (r: Result<i32, ControlError>)
    ensures
        value_result(r) == volume_reading(answer@),
{
    match answer.checked_output("") {
        Err(e) => Err(e),
        Ok(text) => parse_volume_from_amixer_output(text),
    }
}

/// Sets the control `control_name` of the card `card_index` to `volume`
/// percent, brought into the range from 0 to 100 first.
pub fn set_volume(card_index: &str, control_name: &str, volume: i32, outcomes: &[Launch]) -> (r:
    Step<()>)
    ensures
        value_step(r) == write_step(
            mixer_set(
                card_index@,
                control_name@,
                percent_text(clamped_volume(volume as int)),
            ),
            launch_views(outcomes@),
            ""@,
        ),
{
    let percent = format_percent(clamp_volume(volume));
    answer_write(mixer_set_command(card_index, control_name, percent.as_str()), outcomes, "")
}

/// The volume of the control `control_name` of the card `card_index`, in
/// percent.
pub fn get_volume(card_index: &str, control_name: &str, outcomes: &[Launch]) -> (r: Step<i32>)
    ensures
        value_step(r) == single_step(
            mixer_get(card_index@, control_name@),
            launch_views(outcomes@),
            |answer: LaunchView| volume_reading(answer),
        ),
{
    if outcomes.len() == 0 {
        Step::Run(mixer_get_command(card_index, control_name))
    } else {
        Step::Done(read_volume(&outcomes[0]))
    }
}

} // verus!
