//! The configuration of the input channels.

use crate::name_map::NameMap;
use vstd::prelude::*;

verus! {

/// How one input channel is shown.
#[derive(Debug, Clone, PartialEq, Eq)]
pub struct InputChannelConfig {
    pub control_name: String,
    pub display_name: String,
    pub display_name_stereo: String,
    pub stereo_coupled: bool,
}

/// How one input channel is shown, the texts as sequences of characters.
pub struct ChannelView {
    pub control_name: Seq<char>,
    pub display_name: Seq<char>,
    pub display_name_stereo: Seq<char>,
    pub stereo_coupled: bool,
}

impl View for InputChannelConfig {
    type V = ChannelView;

    open spec fn view(&self) -> ChannelView {
        ChannelView {
            control_name: self.control_name@,
            display_name: self.display_name@,
            display_name_stereo: self.display_name_stereo@,
            stereo_coupled: self.stereo_coupled,
        }
    }
}

impl InputChannelConfig {
    /// A copy of this configuration.
    pub fn duplicate(&self) -> (r: InputChannelConfig)
        ensures
            r@ == self@,
    {
        InputChannelConfig {
            control_name: self.control_name.clone(),
            display_name: self.display_name.clone(),
            display_name_stereo: self.display_name_stereo.clone(),
            stereo_coupled: self.stereo_coupled,
        }
    }
}

/// The configured channels of a card, by the name of their control.
pub struct SoundCardConfig {
    pub channels: NameMap<InputChannelConfig>,
}

impl View for SoundCardConfig {
    type V = Map<Seq<char>, ChannelView>;

    open spec fn view(&self) -> Map<Seq<char>, ChannelView> {
        self.channels@.map_values(|c: InputChannelConfig| c@)
    }
}

impl SoundCardConfig {
    /// The configuration of a card of which nothing was saved yet.
    pub fn new() -> (config: SoundCardConfig)
        ensures
            config@ == Map::<Seq<char>, ChannelView>::empty(),
    {
        let config = SoundCardConfig { channels: NameMap::new() };
        assert(config@ =~= Map::<Seq<char>, ChannelView>::empty());
        config
    }
}

} // verus!
