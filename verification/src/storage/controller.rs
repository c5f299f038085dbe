//! Saving and loading the configuration of single channels.

use crate::storage::config::{ChannelView, InputChannelConfig, SoundCardConfig};
use vstd::prelude::*;

verus! {

/// Saves how the channel of the control `control_name` is shown, in place
/// of what was saved for it before.
pub fn save_channel_config(
    config: &mut SoundCardConfig,
    control_name: String,
    display_name: String,
    display_name_stereo: String,
    stereo_coupled: bool,
)
    ensures
        final(config)@ == old(config)@.insert(
            control_name@,
            ChannelView {
                control_name: control_name@,
                display_name: display_name@,
                display_name_stereo: display_name_stereo@,
                stereo_coupled,
            },
        ),
{
    let key = control_name.clone();
    let channel = InputChannelConfig {
        control_name,
        display_name,
        display_name_stereo,
        stereo_coupled,
    };
    config.channels.insert(key, channel);
    assert(final(config)@ =~= old(config)@.insert(control_name@, channel@));
}

/// What was saved for the channel of the control `control_name`.
pub fn load_channel_config(config: &SoundCardConfig, control_name: &str) -> (r: Option<
    InputChannelConfig,
>)
    ensures
        match r {
            Some(channel) => config@.contains_key(control_name@) && config@[control_name@]
                == channel@,
            None => !config@.contains_key(control_name@),
        },
{
    match config.channels.get(control_name) {
        Some(channel) => Some(channel.duplicate()),
        None => None,
    }
}

/// All that was saved, one entry for each control, in the order in which
/// the controls were first saved.
pub fn load_all_channels(config: &SoundCardConfig) -> (r: Vec<InputChannelConfig>)
    ensures
        r@.len() == config.channels.listed().len(),
        forall|i: int| 0 <= i < r@.len() ==> (#[trigger] r@[i])@ == config.channels.listed()[i].1@,
{
    let entries = config.channels.entries();
    let mut r: Vec<InputChannelConfig> = Vec::new();
    let mut i: usize = 0;
    while i < entries.len()
        invariant
            i <= entries.len(),
            entries@ == config.channels.listed(),
            r@.len() == i,
            forall|k: int| 0 <= k < i ==> (#[trigger] r@[k])@ == entries@[k].1@,
        decreases entries.len() - i,
    {
        r.push(entries[i].1.duplicate());
        i += 1;
    }
    r
}

} // verus!
