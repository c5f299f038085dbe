//! Switches and selectors: phantom power, pad, input sensitivity.

use crate::alsa::general::{
    is_control_header, mixer_get, mixer_get_command, mixer_set, mixer_set_command,
};
use crate::command::{
    answer_write, checked_output_of, invocation, launch_views, single_step, text_step, value_step,
    write_step, Invocation, InvocationView, Launch, LaunchView, Step,
};
use crate::error::{not_found, text_result, value_result, ControlError, ErrorKind, Failure};
use crate::text::{
    begins_with, chars_of, contains, first_where, includes, lemma_first_where_unique, lines, split,
    split_chars, split_lines, string_of, strip_around, strip_both, trim, trimmed, views,
};
use vstd::prelude::*;

verus! {

/// The word that the mixer takes for the state of a switch.
pub open spec fn switch_word(on: bool) -> Seq<char> {
    if on {
        "on"@
    } else {
        "off"@
    }
}

/// Whether `line` is the header of the control `name`: a header that
/// holds the name and, where a marker is asked for, the marker too.
pub open spec fn is_switch_header(line: Seq<char>, name: Seq<char>, marker: Option<Seq<char>>)
    -> bool {
    &&& is_control_header(line)
    &&& contains(line, name)
    &&& marker matches Some(m) ==> contains(line, m)
}

/// Whether `line`, found behind the header of the control `name`, tells
/// what the control is set to: it holds `token` and is no header of that
/// control itself.
pub open spec fn is_state_line(
    line: Seq<char>,
    name: Seq<char>,
    marker: Option<Seq<char>>,
    token: Seq<char>,
) -> bool {
    !is_switch_header(line, name, marker) && contains(line, token)
}

/// The line that tells what the control `name` is set to: the first state
/// line behind the first header of the control. The outer `None` where
/// `text` has no such header, the inner one where no state line follows
/// it. Where several headers hold the name, the first one counts.
pub open spec fn state_line_in(
    text: Seq<char>,
    name: Seq<char>,
    marker: Option<Seq<char>>,
    token: Seq<char>,
) -> Option<Option<Seq<char>>> {
    let ls = lines(text);
    let h = first_where(ls, |line: Seq<char>| is_switch_header(line, name, marker)) as int;
    if h >= ls.len() {
        None
    } else {
        let rest = ls.skip(h + 1);
        let j = first_where(rest, |line: Seq<char>| is_state_line(line, name, marker, token)) as int;
        if j < rest.len() {
            Some(Some(rest[j]))
        } else {
            Some(None)
        }
    }
}

/// Whether the switch `name` is on, in the mixer's answer `text`: whether
/// its state line holds `[on]`. Off where it has no state line; `None`
/// where `text` has no header of the switch.
pub open spec fn switch_state_in(text: Seq<char>, name: Seq<char>, marker: Option<Seq<char>>)
    -> Option<bool> {
    match state_line_in(text, name, marker, "Mono: Playback"@) {
        None => None,
        Some(None) => Some(false),
        Some(Some(line)) => Some(contains(line, "[on]"@)),
    }
}

/// What a state line selects: what stands between its first and its
/// second colon, without the whitespace and then the apostrophes around
/// it.
pub open spec fn selected_item(line: Seq<char>) -> Seq<char> {
    let parts = split(line, ':');
    if parts.len() >= 2 {
        strip_both(trim(parts[1]), '\'')
    } else {
        Seq::empty()
    }
}

/// What the selector `name` is set to, in the mixer's answer `text`.
/// Empty where it has no state line; `None` where `text` has no header of
/// the selector.
pub open spec fn sensitivity_in(text: Seq<char>, name: Seq<char>) -> Option<Seq<char>> {
    match state_line_in(text, name, None, "Item0:"@) {
        None => None,
        Some(None) => Some(Seq::empty()),
        Some(Some(line)) => Some(selected_item(line)),
    }
}

fn is_header_of(line: &Vec<char>, header: &Vec<char>, name: &Vec<char>, marker: &Option<Vec<char>>)
    -> (b: bool)
    requires
        header@ == "Simple mixer control"@,
    ensures
        b == is_switch_header(
            line@,
            name@,
            match marker {
                Some(m) => Some(m@),
                None => None,
            },
        ),
{
    if !begins_with(line, header) || !includes(line, name) {
        return false;
    }
    match marker {
        Some(m) => includes(line, m),
        None => true,
    }
}

/// Finds the line that tells what the control `name` is set to.
fn find_state_line(text: &str, name: &str, marker: Option<&str>, token: &str) -> (r: Option<
    Option<Vec<char>>,
>)
    ensures
        match r {
            None => state_line_in(
                text@,
                name@,
                match marker {
                    Some(m) => Some(m@),
                    None => None,
                },
                token@,
            ) is None,
            Some(None) => state_line_in(
                text@,
                name@,
                match marker {
                    Some(m) => Some(m@),
                    None => None,
                },
                token@,
            ) == Some(None::<Seq<char>>),
            Some(Some(line)) => state_line_in(
                text@,
                name@,
                match marker {
                    Some(m) => Some(m@),
                    None => None,
                },
                token@,
            ) == Some(Some(line@)),
        },
{
    let chars = chars_of(text);
    let ls = split_lines(&chars);
    let header = chars_of("Simple mixer control");
    let wanted = chars_of(name);
    let state = chars_of(token);
    let mark: Option<Vec<char>> = match marker {
        Some(m) => Some(chars_of(m)),
        None => None,
    };
    let ghost m: Option<Seq<char>> = match marker {
        Some(m) => Some(m@),
        None => None,
    };
    let ghost all = lines(text@);
    let ghost p = |line: Seq<char>| is_switch_header(line, name@, m);
    let ghost q = |line: Seq<char>| is_state_line(line, name@, m, token@);
    let mut h: usize = 0;
    while h < ls.len() && !is_header_of(&ls[h], &header, &wanted, &mark)
        invariant
            h <= ls.len(),
            views(ls@) == all,
            header@ == "Simple mixer control"@,
            wanted@ == name@,
            m == match mark {
                Some(v) => Some(v@),
                None => None,
            },
            p == |line: Seq<char>| is_switch_header(line, name@, m),
            forall|k: int| 0 <= k < h ==> !p(#[trigger] all[k]),
        decreases ls.len() - h,
    {
        assert(ls@[h as int]@ == all[h as int]);
        h += 1;
    }
    proof {
        if h < ls.len() {
            assert(ls@[h as int]@ == all[h as int]);
        }
        lemma_first_where_unique(all, p, h as int);
    }
    if h >= ls.len() {
        return None;
    }
    let ghost rest = all.skip(h + 1);
    let mut j: usize = h + 1;
    while j < ls.len()
        invariant
            h < j <= ls.len(),
            views(ls@) == all,
            all == lines(text@),
            first_where(all, |line: Seq<char>| is_switch_header(line, name@, m)) == h,
            m == match marker {
                Some(m) => Some(m@),
                None => None,
            },
            rest == all.skip(h + 1),
            header@ == "Simple mixer control"@,
            wanted@ == name@,
            state@ == token@,
            m == match mark {
                Some(v) => Some(v@),
                None => None,
            },
            q == |line: Seq<char>| is_state_line(line, name@, m, token@),
            forall|k: int| 0 <= k < j - h - 1 ==> !q(#[trigger] rest[k]),
        decreases ls.len() - j,
    {
        let line = &ls[j];
        assert(line@ == all[j as int]);
        assert(rest[j - h - 1] == all[j as int]);
        if !is_header_of(line, &header, &wanted, &mark) && includes(line, &state) {
            proof {
                lemma_first_where_unique(rest, q, j - h - 1);
            }
            return Some(Some(line.clone()));
        }
        j += 1;
    }
    proof {
        lemma_first_where_unique(rest, q, j - h - 1);
    }
    Some(None)
}

/// Whether the switch `name` is on, in the mixer's answer `text`.
pub fn find_switch_state(text: &str, name: &str, marker: Option<&str>) -> (r: Option<bool>)
    ensures
        r == switch_state_in(
            text@,
            name@,
            match marker {
                Some(m) => Some(m@),
                None => None,
            },
        ),
{
    match find_state_line(text, name, marker, "Mono: Playback") {
        None => None,
        Some(None) => Some(false),
        Some(Some(line)) => {
            let on = chars_of("[on]");
            Some(includes(&line, &on))
        },
    }
}

/// What the selector `name` is set to, in the mixer's answer `text`.
pub fn find_sensitivity(text: &str, name: &str) -> (r: Option<String>)
    ensures
        match r {
            Some(s) => sensitivity_in(text@, name@) == Some(s@),
            None => sensitivity_in(text@, name@) is None,
        },
{
    match find_state_line(text, name, None, "Item0:") {
        None => None,
        Some(None) => Some(String::new()),
        Some(Some(line)) => {
            let parts = split_chars(&line, ':');
            if parts.len() >= 2 {
                assert(parts[1]@ == split(line@, ':')[1]);
                let item = trimmed(&parts[1]);
                Some(string_of(&strip_around(&item, '\'')))
            } else {
                Some(String::new())
            }
        },
    }
}

/// The state of a switch, read off what came of asking the mixer for it.
/// A mixer that ran and failed is a `CommandRejected` with its standard
/// error, unchanged, whatever it printed. `prefix` and `suffix` stand
/// around the name in the message of the error for a switch that the
/// answer of a mixer that succeeded does not hold.
pub open spec fn switch_reading(
    name: Seq<char>,
    marker: Option<Seq<char>>,
    prefix: Seq<char>,
    suffix: Seq<char>,
    answer: LaunchView,
) -> Result<bool, Failure> {
    match checked_output_of(answer, "Failed to execute amixer: "@) {
        Err(e) => Err(e),
        Ok(text) => match switch_state_in(text, name, marker) {
            Some(on) => Ok(on),
            None => Err(not_found(prefix + name + suffix)),
        },
    }
}

/// The state of a switch, read off what came of asking the mixer for it.
pub fn read_switch(
    name: &str,
    marker: Option<&str>,
    prefix: &str,
    suffix: &str,
    answer: &Launch,
) -> (r: Result<bool, ControlError>)
    ensures
        value_result(r) == switch_reading(
            name@,
            match marker {
                Some(m) => Some(m@),
                None => None,
            },
            prefix@,
            suffix@,
            answer@,
        ),
{
    match answer.checked_output("Failed to execute amixer: ") {
        Err(e) => Err(e),
        Ok(text) => match find_switch_state(text, name, marker) {
            Some(on) => Ok(on),
            None => Err(ControlError::describe(ErrorKind::NotFound, prefix, name, suffix)),
        },
    }
}

/// What a selector is set to, read off what came of asking the mixer for
/// it. A mixer that ran and failed is a `CommandRejected` with its
/// standard error, unchanged, whatever it printed.
pub open spec fn sensitivity_reading(name: Seq<char>, answer: LaunchView) -> Result<
    Seq<char>,
    Failure,
> {
    match checked_output_of(answer, "Failed to execute amixer: "@) {
        Err(e) => Err(e),
        Ok(text) => match sensitivity_in(text, name) {
            Some(item) => Ok(item),
            None => Err(not_found("Line input "@ + name + " not found"@)),
        },
    }
}

/// What a selector is set to, read off what came of asking the mixer for
/// it.
pub fn read_sensitivity(name: &str, answer: &Launch) -> (r: Result<String, ControlError>)
    ensures
        text_result(r) == sensitivity_reading(name@, answer@),
{
    match answer.checked_output("Failed to execute amixer: ") {
        Err(e) => Err(e),
        Ok(text) => match find_sensitivity(text, name) {
            Some(item) => Ok(item),
            None => Err(
                ControlError::describe(ErrorKind::NotFound, "Line input ", name, " not found"),
            ),
        },
    }
}

/// A mixer that ran and failed gives neither the state of a switch nor
/// the setting of a selector, whatever it printed: the answer is its
/// standard error, as a `CommandRejected`.
pub proof fn lemma_failed_mixer_is_rejected(
    name: Seq<char>,
    marker: Option<Seq<char>>,
    prefix: Seq<char>,
    suffix: Seq<char>,
    stdout: Seq<char>,
    stderr: Seq<char>,
)
    ensures
        switch_reading(
            name,
            marker,
            prefix,
            suffix,
            LaunchView::Finished { success: false, stdout, stderr },
        ) == Err::<bool, Failure>(crate::error::command_rejected(stderr)),
        sensitivity_reading(name, LaunchView::Finished { success: false, stdout, stderr })
            == Err::<Seq<char>, Failure>(crate::error::command_rejected(stderr)),
{
}

/// Switches the phantom power of the input `mic` of the card `card_index`
/// on or off.
pub fn set_phantom_power(card_index: &str, mic: &str, new_state: bool, outcomes: &[Launch]) -> (r:
    Step<()>)
    ensures
        value_step(r) == write_step(
            mixer_set(card_index@, mic@, switch_word(new_state)),
            launch_views(outcomes@),
            ""@,
        ),
{
    let state = if new_state {
        "on"
    } else {
        "off"
    };
    answer_write(mixer_set_command(card_index, mic, state), outcomes, "")
}

/// Whether the phantom power of the input `mic_name` of the card
/// `card_index` is on. Only a control whose header holds `48V` counts.
pub fn get_phantom_power_state(card_index: &str, mic_name: &str, outcomes: &[Launch]) -> (r: Step<
    bool,
>)
    ensures
        value_step(r) == single_step(
            mixer_get(card_index@, mic_name@),
            launch_views(outcomes@),
            |answer: LaunchView|
                switch_reading(mic_name@, Some("48V"@), "Microphone "@, " not found"@, answer),
        ),
{
    if outcomes.len() == 0 {
        Step::Run(mixer_get_command(card_index, mic_name))
    } else {
        Step::Done(read_switch(mic_name, Some("48V"), "Microphone ", " not found", &outcomes[0]))
    }
}

/// Switches the pad of the input `control_name` of the card `card_index`
/// on or off.
pub fn set_pad_state(card_index: &str, control_name: &str, new_state: bool, outcomes: &[Launch])
    -> (r: Step<()>)
    ensures
        value_step(r) == write_step(
            mixer_set(card_index@, control_name@, switch_word(new_state)),
            launch_views(outcomes@),
            ""@,
        ),
{
    let state = if new_state {
        "on"
    } else {
        "off"
    };
    answer_write(mixer_set_command(card_index, control_name, state), outcomes, "")
}

/// Whether the pad of the input `control_name` of the card `card_index`
/// is on.
pub fn get_pad_state(card_index: &str, control_name: &str, outcomes: &[Launch]) -> (r: Step<bool>)
    ensures
        value_step(r) == single_step(
            mixer_get(card_index@, control_name@),
            launch_views(outcomes@),
            |answer: LaunchView|
                switch_reading(control_name@, None, "Switch "@, " not found"@, answer),
        ),
{
    if outcomes.len() == 0 {
        Step::Run(mixer_get_command(card_index, control_name))
    } else {
        Step::Done(read_switch(control_name, None, "Switch ", " not found", &outcomes[0]))
    }
}

/// What the sensitivity selector `line_input_name` of the card
/// `card_index` is set to.
pub fn get_line_input_sensitivity(card_index: &str, line_input_name: &str, outcomes: &[Launch])
    -> (r: Step<String>)
    ensures
        text_step(r) == single_step(
            mixer_get(card_index@, line_input_name@),
            launch_views(outcomes@),
            |answer: LaunchView| sensitivity_reading(line_input_name@, answer),
        ),
{
    if outcomes.len() == 0 {
        Step::Run(mixer_get_command(card_index, line_input_name))
    } else {
        Step::Done(read_sensitivity(line_input_name, &outcomes[0]))
    }
}

/// The command that sets a selector of the mixer to `item`. What follows
/// the two hyphens is no option, whatever it begins with.
pub open spec fn selector_set(
    card_index: Seq<char>,
    name: Seq<char>,
    item: Seq<char>,
) -> InvocationView {
    invocation("amixer"@, seq!["-c"@, card_index, "sset"@, name, "--"@, item])
}

/// Sets the sensitivity selector `line_input_name` of the card
/// `card_index` to `sensitivity`.
pub fn set_line_input_sensitivity(
    card_index: &str,
    line_input_name: &str,
    sensitivity: &str,
    outcomes: &[Launch],
) -> (r: Step<()>)
    ensures
        value_step(r) == write_step(
            selector_set(card_index@, line_input_name@, sensitivity@),
            launch_views(outcomes@),
            ""@,
        ),
{
    let c = Invocation::new("amixer").arg("-c").arg(card_index).arg("sset").arg(
        line_input_name,
    ).arg("--").arg(sensitivity);
    assert(c@.args =~= seq!["-c"@, card_index@, "sset"@, line_input_name@, "--"@, sensitivity@]);
    answer_write(c, outcomes, "")
}

} // verus!
