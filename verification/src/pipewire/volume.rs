//! The volume of the nodes of the graph.
//!
//! A volume is a fraction of the full level. The audio server takes and
//! gives it in decimal notation, and as such a text it passes through
//! here.

use crate::command::{
    checked_output_of, invocation, launch_views, single_step, text_step, value_step,
    Invocation, InvocationView, Launch, LaunchView, Step, StepView,
};
use crate::error::{
    command_rejected, execution_failure, parse_failure, text_result, value_result, ControlError,
    ErrorKind, Failure,
};
use crate::pattern::{captures, captures_view, group_at, group_text, regex_captures};
use crate::pipewire::general::{get_pipewire_info, graph_dump, node_id_by_port_name, node_id_from};
use vstd::prelude::*;

verus! {

/// The pattern of the volume among the parameters of a node.
pub open spec fn volume_pattern() -> Seq<char> {
    "Prop:\\s+key\\s+Spa:Pod:Object:Param:Props:volume\\s+\\(\\d+\\),\\s+flags\\s+\\d+\\s+Float\\s+([0-9.]+)"@
}

/// The volume that a captured text is. Nothing captured is a
/// `ParseFailure`.
pub open spec fn captured_volume(text: Option<Seq<char>>) -> Result<Seq<char>, Failure> {
    match text {
        Some(t) => Ok(t),
        None => Err(parse_failure("Could not parse volume from pw-cli output"@)),
    }
}

/// The volume, from what the volume pattern captured in the parameters of
/// a node: the text of the first group.
pub fn volume_of_captures(found: &Option<Vec<Option<String>>>) -> (r: Result<String, ControlError>)
    ensures
        text_result(r) == captured_volume(group_at(captures_view(*found), 1)),
{
    match group_text(found, 1) {
        Some(t) => Ok(t.clone()),
        None => Err(
            ControlError::new(
                ErrorKind::ParseFailure,
                "Could not parse volume from pw-cli output".to_string(),
            ),
        ),
    }
}

/// The volume among the parameters of a node, as the audio server wrote
/// it.
pub fn parse_volume_from_pw_cli_output(output: &str) -> (r: Result<String, ControlError>)
    ensures
        text_result(r) == captured_volume(group_at(regex_captures(volume_pattern(), output@), 1)),
{
    let found = captures(
        "Prop:\\s+key\\s+Spa:Pod:Object:Param:Props:volume\\s+\\(\\d+\\),\\s+flags\\s+\\d+\\s+Float\\s+([0-9.]+)",
        output,
    );
    volume_of_captures(&found)
}

/// The properties that set the volume to `gain`.
pub open spec fn volume_props(gain: Seq<char>) -> Seq<char> {
    "{\"volume\": "@ + gain + "}"@
}

/// The command that sets the volume of the node `node_id` to `gain`.
pub open spec fn volume_setting(node_id: Seq<char>, gain: Seq<char>) -> InvocationView {
    invocation("pw-cli"@, seq!["set-param"@, node_id, "Props"@, volume_props(gain)])
}

/// The command that lists the parameters of the node `node_id`.
pub open spec fn params_listing(node_id: Seq<char>) -> InvocationView {
    invocation("pw-cli"@, seq!["enum-params"@, node_id, "2"@])
}

/// The command that sets the volume of the node `node_id` to `gain`.
pub fn volume_setting_command(node_id: &str, gain: &str) -> (c: Invocation)
    ensures
        c@ == volume_setting(node_id@, gain@),
{
    let mut props = "{\"volume\": ".to_string();
    props.append(gain);
    props.append("}");
    let c = Invocation::new("pw-cli").arg("set-param").arg(node_id).arg("Props").arg(
        props.as_str(),
    );
    assert(c@.args =~= seq!["set-param"@, node_id@, "Props"@, volume_props(gain@)]);
    c
}

/// The command that lists the parameters of the node `node_id`.
pub fn params_listing_command(node_id: &str) -> (c: Invocation)
    ensures
        c@ == params_listing(node_id@),
{
    let c = Invocation::new("pw-cli").arg("enum-params").arg(node_id).arg("2");
    assert(c@.args =~= seq!["enum-params"@, node_id@, "2"@]);
    c
}

/// Whether setting a volume went through. A tool that ran and failed is
/// a `CommandRejected`, whatever it wrote.
pub open spec fn volume_set(launch: LaunchView) -> Result<(), Failure> {
    match launch {
        LaunchView::Failed(e) => Err(execution_failure(""@ + e)),
        LaunchView::Finished { success, .. } => if success {
            Ok(())
        } else {
            Err(command_rejected("Failed to set input gain"@))
        },
    }
}

/// The volume of a node, read off what came of listing its parameters.
pub open spec fn volume_reading(launch: LaunchView) -> Result<Seq<char>, Failure> {
    match checked_output_of(launch, ""@) {
        Err(e) => Err(e),
        Ok(text) => captured_volume(group_at(regex_captures(volume_pattern(), text), 1)),
    }
}

/// Whether setting a volume went through.
pub fn confirm_volume_set(launch: &Launch) -> (r: Result<(), ControlError>)
    ensures
        value_result(r) == volume_set(launch@),
{
    match launch {
        Launch::Failed(e) => Err(
            ControlError::prefixed(ErrorKind::ExecutionFailure, "", e.as_str()),
        ),
        Launch::Finished(out) => if out.success {
            Ok(())
        } else {
            Err(
                ControlError::new(
                    ErrorKind::CommandRejected,
                    "Failed to set input gain".to_string(),
                ),
            )
        },
    }
}

/// The volume of a node, read off what came of listing its parameters.
pub fn read_volume(launch: &Launch) -> (r: Result<String, ControlError>)
    ensures
        text_result(r) == volume_reading(launch@),
{
    match launch.checked_output("") {
        Err(e) => Err(e),
        Ok(text) => parse_volume_from_pw_cli_output(text),
    }
}

/// Sets the volume of the node `node_id` to `gain`.
pub fn set_input_volume(node_id: &str, gain: &str, outcomes: &[Launch]) -> (r: Step<()>)
    ensures
        value_step(r) == single_step(
            volume_setting(node_id@, gain@),
            launch_views(outcomes@),
            |launch: LaunchView| volume_set(launch),
        ),
{
    if outcomes.len() == 0 {
        Step::Run(volume_setting_command(node_id, gain))
    } else {
        Step::Done(confirm_volume_set(&outcomes[0]))
    }
}

/// The volume of the node `node_id`.
pub fn get_input_volume(node_id: &str, outcomes: &[Launch]) -> (r: Step<String>)
    ensures
        text_step(r) == single_step(
            params_listing(node_id@),
            launch_views(outcomes@),
            |launch: LaunchView| volume_reading(launch),
        ),
{
    if outcomes.len() == 0 {
        Step::Run(params_listing_command(node_id))
    } else {
        Step::Done(read_volume(&outcomes[0]))
    }
}

/// What an operation on the node of a port answers: it dumps the graph,
/// resolves the port to its node, runs `command` on that node, and reads
/// its result off what came of it.
pub open spec fn node_step<V>(
    target: Seq<char>,
    outcomes: Seq<LaunchView>,
    command: spec_fn(Seq<char>) -> InvocationView,
    result: spec_fn(LaunchView) -> Result<V, Failure>,
) -> StepView<V> {
    if outcomes.len() == 0 {
        StepView::Run(graph_dump())
    } else {
        match node_id_by_port_name(target, outcomes[0]) {
            Err(e) => StepView::Done(Err(e)),
            Ok(node) => if outcomes.len() == 1 {
                StepView::Run(command(node))
            } else {
                StepView::Done(result(outcomes[1]))
            },
        }
    }
}

/// The volume of the node that carries the port `target_port_name`.
pub fn get_volume(target_port_name: &str, outcomes: &[Launch]) -> (r: Step<String>)
    ensures
        text_step(r) == node_step(
            target_port_name@,
            launch_views(outcomes@),
            |node: Seq<char>| params_listing(node),
            |launch: LaunchView| volume_reading(launch),
        ),
{
    if outcomes.len() == 0 {
        return Step::Run(get_pipewire_info());
    }
    match node_id_from(target_port_name, &outcomes[0]) {
        Err(e) => Step::Done(Err(e)),
        Ok(node) => if outcomes.len() == 1 {
            Step::Run(params_listing_command(node.as_str()))
        } else {
            Step::Done(read_volume(&outcomes[1]))
        },
    }
}

/// Sets the volume of the node that carries the port `target_port_name`
/// to `gain`.
pub fn set_volume(target_port_name: &str, gain: &str, outcomes: &[Launch]) -> (r: Step<()>)
    ensures
        value_step(r) == node_step(
            target_port_name@,
            launch_views(outcomes@),
            |node: Seq<char>| volume_setting(node, gain@),
            |launch: LaunchView| volume_set(launch),
        ),
{
    if outcomes.len() == 0 {
        return Step::Run(get_pipewire_info());
    }
    match node_id_from(target_port_name, &outcomes[0]) {
        Err(e) => Step::Done(Err(e)),
        Ok(node) => if outcomes.len() == 1 {
            Step::Run(volume_setting_command(node.as_str(), gain))
        } else {
            Step::Done(confirm_volume_set(&outcomes[1]))
        },
    }
}

} // verus!
