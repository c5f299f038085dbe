//! An external tool as this crate sees it: the command line to run, and
//! what came of running it.
//!
//! No function of this crate starts a tool. An operation is a function of
//! its arguments and of what came of the commands that were run for it so
//! far. It answers with the next command to run, or with its result.

use crate::error::{
    command_rejected, execution_failure, value_result, ControlError, ErrorKind, Failure,
};
use vstd::prelude::*;

verus! {

/// A command line: the program and its arguments.
#[derive(Clone, Debug, PartialEq, Eq)]
pub struct Invocation {
    pub program: String,
    pub args: Vec<String>,
}

/// A command line, its words as sequences of characters.
pub struct InvocationView {
    pub program: Seq<char>,
    pub args: Seq<Seq<char>>,
}

impl View for Invocation {
    type V = InvocationView;

    open spec fn view(&self) -> InvocationView {
        InvocationView {
            program: self.program@,
            args: self.args@.map_values(|a: String| a@),
        }
    }
}

/// What a tool that ran left behind.
#[derive(Clone, Debug, PartialEq, Eq)]
pub struct ProcessOutput {
    /// Whether the exit status was zero.
    pub success: bool,
    pub stdout: String,
    pub stderr: String,
}

/// What came of running a command line.
#[derive(Clone, Debug, PartialEq, Eq)]
pub enum Launch {
    /// The tool could not be started; the operating system's description
    /// of the failure.
    Failed(String),
    /// The tool ran to its end.
    Finished(ProcessOutput),
}

/// What came of running a command line, the texts as sequences of
/// characters.
pub enum LaunchView {
    Failed(Seq<char>),
    Finished { success: bool, stdout: Seq<char>, stderr: Seq<char> },
}

impl View for Launch {
    type V = LaunchView;

    open spec fn view(&self) -> LaunchView {
        match self {
            Launch::Failed(e) => LaunchView::Failed(e@),
            Launch::Finished(out) => LaunchView::Finished {
                success: out.success,
                stdout: out.stdout@,
                stderr: out.stderr@,
            },
        }
    }
}

/// The standard output of a tool whose exit status is not looked at. A
/// tool that could not be started is an `ExecutionFailure`, the
/// description behind `prefix`.
pub open spec fn output_of(launch: LaunchView, prefix: Seq<char>) -> Result<Seq<char>, Failure> {
    match launch {
        LaunchView::Failed(e) => Err(execution_failure(prefix + e)),
        LaunchView::Finished { stdout, .. } => Ok(stdout),
    }
}

/// The standard output of a tool that has to succeed. A tool that could
/// not be started is an `ExecutionFailure`, the description behind
/// `prefix`; one that ran and failed is a `CommandRejected` with its
/// standard error, unchanged.
pub open spec fn checked_output_of(launch: LaunchView, prefix: Seq<char>) -> Result<
    Seq<char>,
    Failure,
> {
    match launch {
        LaunchView::Failed(e) => Err(execution_failure(prefix + e)),
        LaunchView::Finished { success, stdout, stderr } => if success {
            Ok(stdout)
        } else {
            Err(command_rejected(stderr))
        },
    }
}

/// What a write operation reports: nothing on success, else as
/// `checked_output_of`.
pub open spec fn completion_of(launch: LaunchView, prefix: Seq<char>) -> Result<(), Failure> {
    match checked_output_of(launch, prefix) {
        Ok(_) => Ok(()),
        Err(e) => Err(e),
    }
}

/// What an operation answers: the next command to run for it, or its
/// result.
#[derive(Debug, PartialEq, Eq)]
pub enum Step<T> {
    Run(Invocation),
    Done(Result<T, ControlError>),
}

/// The answer of an operation, command and error taken by their views.
pub enum StepView<V> {
    Run(InvocationView),
    Done(Result<V, Failure>),
}

/// An answer that carries a text.
pub open spec fn text_step(step: Step<String>) -> StepView<Seq<char>> {
    match step {
        Step::Run(c) => StepView::Run(c@),
        Step::Done(Ok(s)) => StepView::Done(Ok(s@)),
        Step::Done(Err(e)) => StepView::Done(Err(e@)),
    }
}

/// An answer that carries a plain value.
pub open spec fn value_step<T>(step: Step<T>) -> StepView<T> {
    match step {
        Step::Run(c) => StepView::Run(c@),
        Step::Done(Ok(v)) => StepView::Done(Ok(v)),
        Step::Done(Err(e)) => StepView::Done(Err(e@)),
    }
}

/// What came of the commands that were run, each taken by its view.
pub open spec fn launch_views(outcomes: Seq<Launch>) -> Seq<LaunchView> {
    outcomes.map_values(|l: Launch| l@)
}

/// The command line of `program` with the arguments `args`.
pub open spec fn invocation(program: Seq<char>, args: Seq<Seq<char>>) -> InvocationView {
    InvocationView { program, args }
}

/// The answer of an operation that runs `command` once and reads its
/// result off what came of it.
pub open spec fn single_step<V>(
    command: InvocationView,
    outcomes: Seq<LaunchView>,
    result: spec_fn(LaunchView) -> Result<V, Failure>,
) -> StepView<V> {
    if outcomes.len() == 0 {
        StepView::Run(command)
    } else {
        StepView::Done(result(outcomes[0]))
    }
}

impl Invocation {
    /// The command line of `program` without arguments.
    pub fn new(program: &str) -> (c: Invocation)
        ensures
            c@ == invocation(program@, Seq::empty()),
    {
        let c = Invocation { program: program.to_string(), args: Vec::new() };
        assert(c@.args =~= Seq::<Seq<char>>::empty());
        c
    }

    /// This command line with one more argument.
    pub fn arg(self, argument: &str) -> (c: Invocation)
        ensures
            c@ == invocation(self@.program, self@.args.push(argument@)),
    {
        let mut args = self.args;
        args.push(argument.to_string());
        let c = Invocation { program: self.program, args };
        assert(c@.args =~= self@.args.push(argument@));
        c
    }
}

impl Launch {
    /// The standard output, whatever the exit status.
    pub fn output<'a>(&'a self, prefix: &str) -> (r: Result<&'a str, ControlError>)
        ensures
            match r {
                Ok(s) => output_of(self@, prefix@) == Ok::<Seq<char>, Failure>(s@),
                Err(e) => output_of(self@, prefix@) == Err::<Seq<char>, Failure>(e@),
            },
    {
        match self {
            Launch::Failed(e) => Err(
                ControlError::prefixed(ErrorKind::ExecutionFailure, prefix, e.as_str()),
            ),
            Launch::Finished(out) => Ok(out.stdout.as_str()),
        }
    }

    /// The standard output of a tool that succeeded.
    pub fn checked_output<'a>(&'a self, prefix: &str) -> (r: Result<&'a str, ControlError>)
        ensures
            match r {
                Ok(s) => checked_output_of(self@, prefix@) == Ok::<Seq<char>, Failure>(s@),
                Err(e) => checked_output_of(self@, prefix@) == Err::<Seq<char>, Failure>(e@),
            },
    {
        match self {
            Launch::Failed(e) => Err(
                ControlError::prefixed(ErrorKind::ExecutionFailure, prefix, e.as_str()),
            ),
            Launch::Finished(out) => if out.success {
                Ok(out.stdout.as_str())
            } else {
                Err(ControlError::new(ErrorKind::CommandRejected, out.stderr.clone()))
            },
        }
    }

    /// Whether a write operation went through.
    pub fn completion(&self, prefix: &str) -> (r: Result<(), ControlError>)
        ensures
            value_result(r) == completion_of(self@, prefix@),
    {
        match self.checked_output(prefix) {
            Ok(_) => Ok(()),
            Err(e) => Err(e),
        }
    }
}

/// The answer of a write operation: it runs `command` once, and is done
/// when the command has run. A tool that could not be started is an
/// `ExecutionFailure`, the description behind `prefix`; one that ran and
/// failed is a `CommandRejected` with its standard error.
pub open spec fn write_step(
    command: InvocationView,
    outcomes: Seq<LaunchView>,
    prefix: Seq<char>,
) -> StepView<()> {
    single_step(command, outcomes, |launch: LaunchView| completion_of(launch, prefix))
}

/// The answer of a write operation that runs `command`.
pub fn answer_write(command: Invocation, outcomes: &[Launch], prefix: &str) -> (r: Step<()>)
    ensures
        value_step(r) == write_step(command@, launch_views(outcomes@), prefix@),
{
    if outcomes.len() == 0 {
        Step::Run(command)
    } else {
        Step::Done(outcomes[0].completion(prefix))
    }
}

/// What came of the commands that were run after the first one.
pub(crate) fn later(outcomes: &[Launch]) -> (r: &[Launch])
    requires
        outcomes@.len() > 0,
    ensures
        r@ == outcomes@.skip(1),
        launch_views(r@) == launch_views(outcomes@).skip(1),
{
    let r = vstd::slice::slice_subrange(outcomes, 1, outcomes.len());
    proof {
        assert(r@ == outcomes@.skip(1));
        assert(launch_views(r@) =~= launch_views(outcomes@).skip(1));
    }
    r
}

} // verus!
