//! The operations of the audio server on the card of the running
//! application.

use crate::command::{
    launch_views, single_step, text_step, value_step, write_step, Launch, LaunchView, Step,
};
use crate::error::Failure;
use crate::pipewire::buffer_size::buffer_size_step;
use crate::pipewire::profile::{
    active_profile_reading, full_card_listing, profile_setting, profiles_reading,
};
use crate::pipewire::{buffer_size, profile};
use crate::state::AppState;
use crate::text::string_views;
use vstd::prelude::*;

verus! {

/// Sets the buffer size of the audio server to `buffer_size` frames.
pub fn set_buffer_size(_state: &AppState, buffer_size: u32, outcomes: &[Launch]) -> (r: Step<()>)
    ensures
        value_step(r) == buffer_size_step(buffer_size as nat, launch_views(outcomes@)),
{
    buffer_size::set_buffer_size(buffer_size, outcomes)
}

/// The active profile of the card.
pub fn get_pipewire_active_profile(state: &AppState, outcomes: &[Launch]) -> (r: Step<String>)
    ensures
        text_step(r) == single_step(
            full_card_listing(),
            launch_views(outcomes@),
            |listing: LaunchView| active_profile_reading(state.pipewire_card_id@, listing),
        ),
{
    profile::get_active_profile(state.pipewire_card_id.as_str(), outcomes)
}

/// Makes `profile` the active profile of the card.
pub fn set_pipewire_profile(state: &AppState, profile: String, outcomes: &[Launch]) -> (r: Step<
    (),
>)
    ensures
        value_step(r) == write_step(
            profile_setting(state.pipewire_card_id@, profile@),
            launch_views(outcomes@),
            "Failed to execute pactl: "@,
        ),
{
    profile::set_profile(state.pipewire_card_id.as_str(), profile.as_str(), outcomes)
}

/// The profiles of the card, in the order of the listing.
pub fn get_pipewire_profiles(state: &AppState, outcomes: &[Launch]) -> (r: Step<Vec<String>>)
    ensures
        match r {
            Step::Run(c) => outcomes@.len() == 0 && c@ == full_card_listing(),
            Step::Done(Ok(profiles)) => outcomes@.len() > 0 && profiles_reading(
                state.pipewire_card_id@,
                outcomes@[0]@,
            ) == Ok::<Seq<Seq<char>>, Failure>(string_views(profiles@)),
            Step::Done(Err(e)) => outcomes@.len() > 0 && profiles_reading(
                state.pipewire_card_id@,
                outcomes@[0]@,
            ) == Err::<Seq<Seq<char>>, Failure>(e@),
        },
{
    profile::get_profiles(state.pipewire_card_id.as_str(), outcomes)
}

} // verus!
