//! The gain of a port of the graph, set by every way that the audio
//! server may take.

pub use crate::pipewire::buffer_size::set_buffer_size;

use crate::command::{
    invocation, later, launch_views, output_of, single_step, text_step, value_step, Invocation,
    InvocationView, Launch, LaunchView, Step, StepView,
};
use crate::error::{command_rejected, execution_failure, not_found, ControlError, ErrorKind, Failure};
use crate::pipewire::general::{
    find_port, get_pipewire_info, graph_dump, resolve_port, PortIds, PortIdsView,
};
use crate::pipewire::volume::{
    params_listing, volume_reading, volume_setting, volume_setting_command,
};
use vstd::prelude::*;

verus! {

/// The node identifier and the object identifier of the port `target`,
/// read off what came of dumping the graph. The exit status of the dump
/// is not looked at.
pub open spec fn pipewire_ids(target: Seq<char>, info: LaunchView) -> Result<
    (Seq<char>, Seq<char>),
    Failure,
> {
    match output_of(info, "Failed to execute pw-cli: "@) {
        Err(e) => Err(e),
        Ok(text) => match resolve_port(text, target, true) {
            Some(PortIdsView { object_id, node_id: Some(node) }) => Ok((node, object_id)),
            _ => Err(not_found("Could not find IDs for port name: "@ + target)),
        },
    }
}

/// The node identifier and the object identifier of the port `target`,
/// read off what came of dumping the graph.
pub fn read_pipewire_ids(target: &str, info: &Launch) -> (r: Result<(String, String), ControlError>)
    ensures
        match r {
            Ok((node, object)) => pipewire_ids(target@, info@) == Ok::<
                (Seq<char>, Seq<char>),
                Failure,
            >((node@, object@)),
            Err(e) => pipewire_ids(target@, info@) == Err::<(Seq<char>, Seq<char>), Failure>(e@),
        },
{
    match info.output("Failed to execute pw-cli: ") {
        Err(e) => Err(e),
        Ok(text) => match find_port(text, target, true) {
            Some(PortIds { object_id, node_id: Some(node) }) => Ok((node, object_id)),
            _ => Err(
                ControlError::prefixed(
                    ErrorKind::NotFound,
                    "Could not find IDs for port name: ",
                    target,
                ),
            ),
        },
    }
}

/// An answer that carries two texts.
pub open spec fn pair_step(step: Step<(String, String)>) -> StepView<(Seq<char>, Seq<char>)> {
    match step {
        Step::Run(c) => StepView::Run(c@),
        Step::Done(Ok((a, b))) => StepView::Done(Ok((a@, b@))),
        Step::Done(Err(e)) => StepView::Done(Err(e@)),
    }
}

/// The node identifier and the object identifier of the port
/// `target_port_name`, in this order.
pub fn find_pipewire_ids(target_port_name: &str, outcomes: &[Launch]) -> (r: Step<
    (String, String),
>)
    ensures
        pair_step(r) == single_step(
            graph_dump(),
            launch_views(outcomes@),
            |info: LaunchView| pipewire_ids(target_port_name@, info),
        ),
{
    if outcomes.len() == 0 {
        Step::Run(get_pipewire_info())
    } else {
        Step::Done(read_pipewire_ids(target_port_name, &outcomes[0]))
    }
}

/// The properties that set the volume of the port `port_name` to `gain`.
pub open spec fn port_volume_props(port_name: Seq<char>, gain: Seq<char>) -> Seq<char> {
    "{\""@ + port_name + ":volume\": "@ + gain + "}"@
}

/// The command that sets the volume of the port `port_name` of the node
/// `node_id` to `gain`.
pub open spec fn port_volume_setting(
    node_id: Seq<char>,
    port_name: Seq<char>,
    gain: Seq<char>,
) -> InvocationView {
    invocation("pw-cli"@, seq!["set-param"@, node_id, "Props"@, port_volume_props(port_name, gain)])
}

/// The command that sets the volume of the port `port_name` of the node
/// `node_id` to `gain`.
pub fn port_volume_command(node_id: &str, port_name: &str, gain: &str) -> (c: Invocation)
    ensures
        c@ == port_volume_setting(node_id@, port_name@, gain@),
{
    let mut props = "{\"".to_string();
    props.append(port_name);
    props.append(":volume\": ");
    props.append(gain);
    props.append("}");
    let c = Invocation::new("pw-cli").arg("set-param").arg(node_id).arg("Props").arg(
        props.as_str(),
    );
    assert(c@.args =~= seq![
        "set-param"@,
        node_id@,
        "Props"@,
        port_volume_props(port_name@, gain@),
    ]);
    c
}

/// Whether a tool ran and succeeded.
pub open spec fn succeeded(launch: LaunchView) -> bool {
    launch matches LaunchView::Finished { success, .. } && success
}

/// The failure of a tool that could not be started.
pub open spec fn launch_failure(launch: LaunchView) -> Option<Failure> {
    match launch {
        LaunchView::Failed(e) => Some(execution_failure(""@ + e)),
        LaunchView::Finished { .. } => None,
    }
}

/// What `set_input_gain` answers. It sets the volume in three ways, one
/// after the other: on the node, on the object, on the port of the node.
/// A command that cannot be started ends the operation with an
/// `ExecutionFailure`. Once all three have run, the gain is set where one
/// of them succeeded.
pub open spec fn input_gain_step(
    node_id: Seq<char>,
    object_id: Seq<char>,
    port_name: Seq<char>,
    gain: Seq<char>,
    outcomes: Seq<LaunchView>,
) -> StepView<()> {
    if outcomes.len() == 0 {
        StepView::Run(volume_setting(node_id, gain))
    } else if launch_failure(outcomes[0]) is Some {
        StepView::Done(Err(launch_failure(outcomes[0]).unwrap()))
    } else if outcomes.len() == 1 {
        StepView::Run(volume_setting(object_id, gain))
    } else if launch_failure(outcomes[1]) is Some {
        StepView::Done(Err(launch_failure(outcomes[1]).unwrap()))
    } else if outcomes.len() == 2 {
        StepView::Run(port_volume_setting(node_id, port_name, gain))
    } else if launch_failure(outcomes[2]) is Some {
        StepView::Done(Err(launch_failure(outcomes[2]).unwrap()))
    } else if succeeded(outcomes[0]) || succeeded(outcomes[1]) || succeeded(outcomes[2]) {
        StepView::Done(Ok(()))
    } else {
        StepView::Done(Err(command_rejected("Failed to set input gain"@)))
    }
}

/// Whether the tool ran, and then whether it succeeded.
fn ran(launch: &Launch) -> (r: Result<bool, ControlError>)
    ensures
        match r {
            Ok(success) => launch_failure(launch@) is None && success == succeeded(launch@),
            Err(e) => launch_failure(launch@) == Some(e@),
        },
{
    match launch {
        Launch::Failed(e) => Err(
            ControlError::prefixed(ErrorKind::ExecutionFailure, "", e.as_str()),
        ),
        Launch::Finished(out) => Ok(out.success),
    }
}

/// Sets the gain of the port `port_name`, which the node `node_id`
/// carries and the object `object_id` stands for, to `gain`.
pub fn set_input_gain(
    node_id: &str,
    object_id: &str,
    port_name: &str,
    gain: &str,
    outcomes: &[Launch],
) -> (r: Step<()>)
    ensures
        value_step(r) == input_gain_step(
            node_id@,
            object_id@,
            port_name@,
            gain@,
            launch_views(outcomes@),
        ),
{
    if outcomes.len() == 0 {
        return Step::Run(volume_setting_command(node_id, gain));
    }
    let first = match ran(&outcomes[0]) {
        Err(e) => {
            return Step::Done(Err(e));
        },
        Ok(success) => success,
    };
    if outcomes.len() == 1 {
        return Step::Run(volume_setting_command(object_id, gain));
    }
    let second = match ran(&outcomes[1]) {
        Err(e) => {
            return Step::Done(Err(e));
        },
        Ok(success) => success,
    };
    if outcomes.len() == 2 {
        return Step::Run(port_volume_command(node_id, port_name, gain));
    }
    let third = match ran(&outcomes[2]) {
        Err(e) => {
            return Step::Done(Err(e));
        },
        Ok(success) => success,
    };
    if first || second || third {
        Step::Done(Ok(()))
    } else {
        Step::Done(
            Err(
                ControlError::new(
                    ErrorKind::CommandRejected,
                    "Failed to set input gain".to_string(),
                ),
            ),
        )
    }
}

/// The gain of the node `node_id`.
pub fn get_input_gain(node_id: &str, outcomes: &[Launch]) -> (r: Step<String>)
    ensures
        text_step(r) == single_step(
            params_listing(node_id@),
            launch_views(outcomes@),
            |launch: LaunchView| volume_reading(launch),
        ),
{
    crate::pipewire::volume::get_input_volume(node_id, outcomes)
}

/// What an operation on a port that is given by its name answers: it
/// dumps the graph and resolves the port; where that went well it goes
/// on as `next` says, with the node identifier, the object identifier
/// and what came of the commands that were run after the dump.
pub open spec fn port_step<V>(
    target: Seq<char>,
    outcomes: Seq<LaunchView>,
    next: spec_fn(Seq<char>, Seq<char>, Seq<LaunchView>) -> StepView<V>,
) -> StepView<V> {
    if outcomes.len() == 0 {
        StepView::Run(graph_dump())
    } else {
        match pipewire_ids(target, outcomes[0]) {
            Err(e) => StepView::Done(Err(e)),
            Ok((node, object)) => next(node, object, outcomes.skip(1)),
        }
    }
}

/// The gain of the port `target_port_name`.
pub fn get_gain(target_port_name: &str, outcomes: &[Launch]) -> (r: Step<String>)
    ensures
        text_step(r) == port_step(
            target_port_name@,
            launch_views(outcomes@),
            |node: Seq<char>, object: Seq<char>, rest: Seq<LaunchView>|
                single_step(
                    params_listing(node),
                    rest,
                    |launch: LaunchView| volume_reading(launch),
                ),
        ),
{
    if outcomes.len() == 0 {
        return Step::Run(get_pipewire_info());
    }
    match read_pipewire_ids(target_port_name, &outcomes[0]) {
        Err(e) => Step::Done(Err(e)),
        Ok((node, _)) => get_input_gain(node.as_str(), later(outcomes)),
    }
}

/// Sets the gain of the port `target_port_name` to `gain`.
pub fn set_gain(target_port_name: &str, gain: &str, outcomes: &[Launch]) -> (r: Step<()>)
    ensures
        value_step(r) == port_step(
            target_port_name@,
            launch_views(outcomes@),
            |node: Seq<char>, object: Seq<char>, rest: Seq<LaunchView>|
                input_gain_step(node, object, target_port_name@, gain@, rest),
        ),
{
    if outcomes.len() == 0 {
        return Step::Run(get_pipewire_info());
    }
    match read_pipewire_ids(target_port_name, &outcomes[0]) {
        Err(e) => Step::Done(Err(e)),
        Ok((node, object)) => set_input_gain(
            node.as_str(),
            object.as_str(),
            target_port_name,
            gain,
            later(outcomes),
        ),
    }
}

} // verus!
