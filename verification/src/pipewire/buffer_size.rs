//! The buffer size: how many frames the audio server handles in a cycle.

use crate::command::{
    answer_write, invocation, launch_views, value_step, write_step, Invocation, InvocationView,
    Launch, Step, StepView,
};
use crate::decimal::{decimal_text, format_u32};
use crate::error::{ControlError, ErrorKind, Failure};
use crate::text::string_of;
use vstd::arithmetic::power2::{lemma2_to64, lemma_pow2_strictly_increases, pow2};
use vstd::prelude::*;

verus! {

/// Whether `n` is a power of two.
pub open spec fn is_power_of_two(n: nat) -> bool {
    exists|k: nat| n == pow2(k)
}

/// Whether the audio server can be asked for a buffer of `n` frames: a
/// power of two from 32 to 2048.
pub open spec fn valid_buffer_size(n: nat) -> bool {
    32 <= n <= 2048 && is_power_of_two(n)
}

/// The powers of two from 32 to 2048 are these seven.
pub proof fn lemma_valid_buffer_sizes(n: nat)
    ensures
        valid_buffer_size(n) <==> (n == 32 || n == 64 || n == 128 || n == 256 || n == 512 || n
            == 1024 || n == 2048),
{
    lemma2_to64();
    if valid_buffer_size(n) {
        let k = choose|k: nat| n == pow2(k);
        if k < 5 {
            lemma_pow2_strictly_increases(k, 5);
        } else if k > 11 {
            lemma_pow2_strictly_increases(11, k);
        }
    }
    if n == 32 {
        assert(n == pow2(5));
    } else if n == 64 {
        assert(n == pow2(6));
    } else if n == 128 {
        assert(n == pow2(7));
    } else if n == 256 {
        assert(n == pow2(8));
    } else if n == 512 {
        assert(n == pow2(9));
    } else if n == 1024 {
        assert(n == pow2(10));
    } else if n == 2048 {
        assert(n == pow2(11));
    }
}

/// Whether the audio server can be asked for a buffer of `buffer_size`
/// frames.
pub fn is_valid_buffer_size(buffer_size: u32) -> (b: bool)
    ensures
        b == valid_buffer_size(buffer_size as nat),
{
    proof {
        lemma_valid_buffer_sizes(buffer_size as nat);
    }
    if buffer_size < 32 || buffer_size > 2048 {
        return false;
    }
    let rest: u32 = buffer_size & (buffer_size - 1);
    assert(rest == 0 <==> (buffer_size == 32 || buffer_size == 64 || buffer_size == 128
        || buffer_size == 256 || buffer_size == 512 || buffer_size == 1024 || buffer_size
        == 2048)) by (bit_vector)
        requires
            32 <= buffer_size <= 2048,
            rest == buffer_size & ((buffer_size - 1) as u32),
    ;
    rest == 0
}

/// The command that sets the buffer size to `frames`.
pub open spec fn quantum_setting(frames: nat) -> InvocationView {
    invocation(
        "pw-metadata"@,
        seq!["-n"@, "settings"@, "0"@, "clock.force-quantum"@, decimal_text(frames)],
    )
}

/// The command that sets the buffer size to `frames`.
pub fn quantum_command(frames: u32) -> (c: Invocation)
    ensures
        c@ == quantum_setting(frames as nat),
{
    let value = string_of(&format_u32(frames));
    let c = Invocation::new("pw-metadata").arg("-n").arg("settings").arg("0").arg(
        "clock.force-quantum",
    ).arg(value.as_str());
    assert(c@.args =~= seq![
        "-n"@,
        "settings"@,
        "0"@,
        "clock.force-quantum"@,
        decimal_text(frames as nat),
    ]);
    c
}

/// The failure that a buffer size out of the rule meets.
pub open spec fn invalid_buffer_size() -> Failure {
    Failure {
        kind: ErrorKind::InvalidValue,
        message: "The buffer size must be a power of two between 32 and 8192"@,
    }
}

/// What `set_buffer_size` answers. A size that is no power of two from 32
/// to 2048 is refused at once, whatever has been run: no command is ever
/// asked for. Any other size is handed to the audio server.
pub open spec fn buffer_size_step(buffer_size: nat, outcomes: Seq<crate::command::LaunchView>)
    -> StepView<()> {
    if !valid_buffer_size(buffer_size) {
        StepView::Done(Err(invalid_buffer_size()))
    } else {
        write_step(quantum_setting(buffer_size), outcomes, "Failed to execute pw-metadata: "@)
    }
}

/// A buffer size that breaks the rule is refused without a command,
/// whatever has been run.
pub proof fn lemma_invalid_buffer_size_runs_nothing(
    buffer_size: nat,
    outcomes: Seq<crate::command::LaunchView>,
)
    requires
        !valid_buffer_size(buffer_size),
    ensures
        buffer_size_step(buffer_size, outcomes) == StepView::<()>::Done(
            Err(invalid_buffer_size()),
        ),
        !(buffer_size_step(buffer_size, outcomes) is Run),
{
}

/// Sets the buffer size of the audio server to `buffer_size` frames.
pub fn set_buffer_size(buffer_size: u32, outcomes: &[Launch]) -> (r: Step<()>)
    ensures
        value_step(r) == buffer_size_step(buffer_size as nat, launch_views(outcomes@)),
{
    if !is_valid_buffer_size(buffer_size) {
        return Step::Done(
            Err(
                ControlError::new(
                    ErrorKind::InvalidValue,
                    "The buffer size must be a power of two between 32 and 8192".to_string(),
                ),
            ),
        );
    }
    answer_write(quantum_command(buffer_size), outcomes, "Failed to execute pw-metadata: ")
}

} // verus!
