//! Operations on the card of the session: the card is resolved once, and
//! its number is kept for all that follows.

use crate::alsa::general::{card_listing, card_listing_command, mixer_get, mixer_get_command, mixer_set};
use crate::alsa::volume::{clamped_volume, percent_text, read_volume, volume_reading};
use crate::cache::CardCache;
use crate::command::{
    answer_write, launch_views, output_of, single_step, value_step, write_step, Launch,
    LaunchView, Step, StepView,
};
use crate::decimal::{decimal_text, format_u32, parse_u32, u32_of_text};
use crate::error::{not_found, value_result, ControlError, ErrorKind, Failure};
use crate::pipewire::buffer_size::{quantum_command, quantum_setting};
use crate::text::{
    chars_of, contains, first_where, includes, lemma_first_where_unique, lines, split_lines,
    split_words, string_of, strip_end, strip_leading, strip_prefixes, strip_trailing, tokens,
    views,
};
use vstd::prelude::*;

verus! {

/// The number that a line of the device listing gives its card: the
/// second word, without `card` before it and the colons behind it, read
/// as a number.
pub open spec fn sound_card_number_of(line: Seq<char>) -> Option<u32> {
    let words = tokens(line);
    if words.len() >= 2 {
        u32_of_text(strip_end(strip_prefixes(words[1], "card"@), ':'))
    } else {
        None
    }
}

/// Whether a line of the device listing names the card `name` and gives
/// it a number.
pub open spec fn numbers_sound_card(line: Seq<char>, name: Seq<char>) -> bool {
    contains(line, name) && sound_card_number_of(line) is Some
}

/// The number of the card `name` in a device listing: that of the first
/// line that names the card and gives it one.
pub open spec fn sound_card_number_in(listing: Seq<char>, name: Seq<char>) -> Option<u32> {
    let ls = lines(listing);
    let i = first_where(ls, |line: Seq<char>| numbers_sound_card(line, name)) as int;
    if i < ls.len() {
        sound_card_number_of(ls[i])
    } else {
        None
    }
}

/// The number of the card `name`, read off what came of listing the
/// playback devices. The exit status of the listing is not looked at.
pub open spec fn sound_card_number_reading(name: Seq<char>, listing: LaunchView) -> Result<
    u32,
    Failure,
> {
    match output_of(listing, ""@) {
        Err(e) => Err(e),
        Ok(text) => match sound_card_number_in(text, name) {
            Some(number) => Ok(number),
            None => Err(not_found("Sound card '"@ + name + "' not found"@)),
        },
    }
}

fn number_of_line(line: &Vec<char>, prefix: &Vec<char>) -> (r: Option<u32>)
    requires
        prefix@ == "card"@,
    ensures
        r == sound_card_number_of(line@),
{
    let words = split_words(line);
    if words.len() >= 2 {
        assert(words[1]@ == tokens(line@)[1]);
        let bare = strip_leading(&words[1], prefix);
        parse_u32(&strip_trailing(&bare, ':'))
    } else {
        None
    }
}

/// The number of the card `name` in a device listing.
pub fn find_number(listing: &str, name: &str) -> (r: Option<u32>)
    ensures
        r == sound_card_number_in(listing@, name@),
{
    let text = chars_of(listing);
    let wanted = chars_of(name);
    let prefix = chars_of("card");
    let ls = split_lines(&text);
    let ghost p = |line: Seq<char>| numbers_sound_card(line, name@);
    let mut i: usize = 0;
    while i < ls.len()
        invariant
            i <= ls.len(),
            views(ls@) == lines(listing@),
            wanted@ == name@,
            prefix@ == "card"@,
            p == |line: Seq<char>| numbers_sound_card(line, name@),
            forall|k: int| 0 <= k < i ==> !p(#[trigger] lines(listing@)[k]),
        decreases ls.len() - i,
    {
        let line = &ls[i];
        assert(line@ == lines(listing@)[i as int]);
        if includes(line, &wanted) {
            if let Some(number) = number_of_line(line, &prefix) {
                proof {
                    assert(p(lines(listing@)[i as int]));
                    lemma_first_where_unique(lines(listing@), p, i as int);
                }
                return Some(number);
            }
        }
        assert(!p(lines(listing@)[i as int]));
        i += 1;
    }
    proof {
        lemma_first_where_unique(lines(listing@), p, i as int);
    }
    None
}

/// The number of the card `name`, read off what came of listing the
/// playback devices.
pub fn read_sound_card_number(name: &str, listing: &Launch) -> (r: Result<u32, ControlError>)
    ensures
        value_result(r) == sound_card_number_reading(name@, listing@),
{
    match listing.output("") {
        Err(e) => Err(e),
        Ok(text) => match find_number(text, name) {
            Some(number) => Ok(number),
            None => Err(
                ControlError::describe(ErrorKind::NotFound, "Sound card '", name, "' not found"),
            ),
        },
    }
}

/// What the resolution of the card of the session answers.
pub open spec fn sound_card_step(name: Seq<char>, outcomes: Seq<LaunchView>) -> StepView<u32> {
    single_step(
        card_listing(),
        outcomes,
        |listing: LaunchView| sound_card_number_reading(name, listing),
    )
}

/// The card of the session after its resolution: the number that was
/// found, else what it was.
pub open spec fn sound_card_after(
    before: Option<u32>,
    name: Seq<char>,
    outcomes: Seq<LaunchView>,
) -> Option<u32> {
    match sound_card_step(name, outcomes) {
        StepView::Done(Ok(number)) => Some(number),
        _ => before,
    }
}

/// Resolves the card `sound_card_name` and keeps its number for the
/// session.
pub fn initialize_sound_card(card: &mut CardCache, sound_card_name: &str, outcomes: &[Launch])
    -> (r: Step<u32>)
    ensures
        value_step(r) == sound_card_step(sound_card_name@, launch_views(outcomes@)),
        final(card).number == sound_card_after(
            old(card).number,
            sound_card_name@,
            launch_views(outcomes@),
        ),
{
    if outcomes.len() == 0 {
        return Step::Run(card_listing_command());
    }
    match read_sound_card_number(sound_card_name, &outcomes[0]) {
        Ok(number) => {
            card.initialize(number);
            Step::Done(Ok(number))
        },
        Err(e) => Step::Done(Err(e)),
    }
}

/// The failure of an operation on the card of the session before the
/// card is resolved.
pub open spec fn not_initialized() -> Failure {
    not_found("Sound card number not initialized"@)
}

/// The number of the card of the session, as the mixer takes it.
pub fn session_card(card: &CardCache) -> (r: Result<String, ControlError>)
    ensures
        match r {
            Ok(index) => card.number is Some && index@ == decimal_text(card.number.unwrap() as nat),
            Err(e) => card.number is None && e@ == not_initialized(),
        },
{
    match card.number {
        Some(number) => Ok(string_of(&format_u32(number))),
        None => Err(
            ControlError::new(
                ErrorKind::NotFound,
                "Sound card number not initialized".to_string(),
            ),
        ),
    }
}

/// What `set_volume` answers.
pub open spec fn set_volume_step(
    card: Option<u32>,
    control_name: Seq<char>,
    volume: int,
    outcomes: Seq<LaunchView>,
) -> StepView<()> {
    match card {
        None => StepView::Done(Err(not_initialized())),
        Some(number) => write_step(
            mixer_set(decimal_text(number as nat), control_name, percent_text(clamped_volume(volume))),
            outcomes,
            ""@,
        ),
    }
}

/// Sets the control `control_name` of the card of the session to `volume`
/// percent, brought into the range from 0 to 100 first.
pub fn set_volume(card: &CardCache, control_name: &str, volume: i32, outcomes: &[Launch]) -> (r:
    Step<()>)
    ensures
        value_step(r) == set_volume_step(
            card.number,
            control_name@,
            volume as int,
            launch_views(outcomes@),
        ),
{
    match session_card(card) {
        Err(e) => Step::Done(Err(e)),
        Ok(index) => crate::alsa::volume::set_volume(
            index.as_str(),
            control_name,
            volume,
            outcomes,
        ),
    }
}

/// What `change_buffer_size` answers: the size is handed to the audio
/// server as it is.
pub open spec fn change_buffer_size_step(value: nat, outcomes: Seq<LaunchView>) -> StepView<()> {
    write_step(quantum_setting(value), outcomes, ""@)
}

/// Sets the buffer size of the audio server to `value` frames.
pub fn change_buffer_size(value: u32, outcomes: &[Launch]) -> (r: Step<()>)
    ensures
        value_step(r) == change_buffer_size_step(value as nat, launch_views(outcomes@)),
{
    answer_write(quantum_command(value), outcomes, "")
}

/// What `get_volume` answers.
pub open spec fn get_volume_step(
    card: Option<u32>,
    control_name: Seq<char>,
    outcomes: Seq<LaunchView>,
) -> StepView<i32> {
    match card {
        None => StepView::Done(Err(not_initialized())),
        Some(number) => single_step(
            mixer_get(decimal_text(number as nat), control_name),
            outcomes,
            |answer: LaunchView| volume_reading(answer),
        ),
    }
}

/// The volume of the control `control_name` of the card of the session,
/// in percent.
pub fn get_volume(card: &CardCache, control_name: &str, outcomes: &[Launch]) -> (r: Step<i32>)
    ensures
        value_step(r) == get_volume_step(card.number, control_name@, launch_views(outcomes@)),
{
    match session_card(card) {
        Err(e) => Step::Done(Err(e)),
        Ok(index) => crate::alsa::volume::get_volume(index.as_str(), control_name, outcomes),
    }
}

/// What `get_initial_states` answers: the volume of the headphones, then
/// that of the monitors; the second is not asked for where the first
/// could not be had.
pub open spec fn initial_states_step(card: Option<u32>, outcomes: Seq<LaunchView>) -> StepView<
    (i32, i32),
> {
    match card {
        None => StepView::Done(Err(not_initialized())),
        Some(number) => if outcomes.len() == 0 {
            StepView::Run(mixer_get(decimal_text(number as nat), "PCM-AN1-PH3"@))
        } else {
            match volume_reading(outcomes[0]) {
                Err(e) => StepView::Done(Err(e)),
                Ok(headphones) => if outcomes.len() == 1 {
                    StepView::Run(mixer_get(decimal_text(number as nat), "PCM-AN1-AN1"@))
                } else {
                    match volume_reading(outcomes[1]) {
                        Err(e) => StepView::Done(Err(e)),
                        Ok(monitors) => StepView::Done(Ok((headphones, monitors))),
                    }
                },
            }
        },
    }
}

/// The volumes of the headphones and of the monitors, in percent.
pub fn get_initial_states(card: &CardCache, outcomes: &[Launch]) -> (r: Step<(i32, i32)>)
    ensures
        value_step(r) == initial_states_step(card.number, launch_views(outcomes@)),
{
    let index = match session_card(card) {
        Err(e) => {
            return Step::Done(Err(e));
        },
        Ok(index) => index,
    };
    if outcomes.len() == 0 {
        return Step::Run(mixer_get_command(index.as_str(), "PCM-AN1-PH3"));
    }
    let headphones = match read_volume(&outcomes[0]) {
        Err(e) => {
            return Step::Done(Err(e));
        },
        Ok(v) => v,
    };
    if outcomes.len() == 1 {
        return Step::Run(mixer_get_command(index.as_str(), "PCM-AN1-AN1"));
    }
    match read_volume(&outcomes[1]) {
        Err(e) => Step::Done(Err(e)),
        Ok(monitors) => Step::Done(Ok((headphones, monitors))),
    }
}

} // verus!
