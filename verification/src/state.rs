//! What the application knows of the hardware once it has started.

use crate::alsa::general::{card_number_by_name, card_number_from};
use crate::command::{launch_views, Launch, LaunchView, Step, StepView};
use crate::decimal::is_numeral;
use crate::pipewire::general::{card_id_by_name, card_id_from};
use vstd::prelude::*;

verus! {

/// The card in use, as the mixer and as the audio server know it.
#[derive(Debug, Clone, PartialEq, Eq)]
pub struct AppState {
    pub alsa_card_number: String,
    pub pipewire_card_id: String,
}

/// The state, the identifiers as sequences of characters.
pub struct AppStateView {
    pub alsa_card_number: Seq<char>,
    pub pipewire_card_id: Seq<char>,
}

impl View for AppState {
    type V = AppStateView;

    open spec fn view(&self) -> AppStateView {
        AppStateView {
            alsa_card_number: self.alsa_card_number@,
            pipewire_card_id: self.pipewire_card_id@,
        }
    }
}

/// What `AppState::new` answers. It lists the playback devices of the
/// mixer and reads the number of the card; where that went well it lists
/// the cards of the audio server and reads the identifier.
pub open spec fn initial_state(
    card_name_alsa: Seq<char>,
    card_name_pipewire: Seq<char>,
    outcomes: Seq<LaunchView>,
) -> StepView<AppStateView> {
    if outcomes.len() == 0 {
        StepView::Run(crate::alsa::general::card_listing())
    } else {
        match card_number_by_name(card_name_alsa, outcomes[0]) {
            Err(e) => StepView::Done(Err(e)),
            Ok(alsa_card_number) => if outcomes.len() == 1 {
                StepView::Run(crate::pipewire::general::card_listing())
            } else {
                match card_id_by_name(card_name_pipewire, outcomes[1]) {
                    Err(e) => StepView::Done(Err(e)),
                    Ok(pipewire_card_id) => StepView::Done(
                        Ok(AppStateView { alsa_card_number, pipewire_card_id }),
                    ),
                }
            },
        }
    }
}

/// An answer that carries a state.
pub open spec fn state_step(step: Step<AppState>) -> StepView<AppStateView> {
    match step {
        Step::Run(c) => StepView::Run(c@),
        Step::Done(Ok(state)) => StepView::Done(Ok(state@)),
        Step::Done(Err(e)) => StepView::Done(Err(e@)),
    }
}

impl AppState {
    /// Resolves the card under the name that the mixer has for it and
    /// under the one that the audio server has.
    pub fn new(card_name_alsa: &str, card_name_pipewire: &str, outcomes: &[Launch]) -> (r: Step<
        AppState,
    >)
        ensures
            state_step(r) == initial_state(
                card_name_alsa@,
                card_name_pipewire@,
                launch_views(outcomes@),
            ),
            r matches Step::Done(Ok(state)) ==> is_numeral(state.alsa_card_number@) && is_numeral(
                state.pipewire_card_id@,
            ),
    {
        if outcomes.len() == 0 {
            return Step::Run(crate::alsa::general::card_listing_command());
        }
        let alsa_card_number = match card_number_from(card_name_alsa, &outcomes[0]) {
            Ok(number) => number,
            Err(e) => {
                return Step::Done(Err(e));
            },
        };
        if outcomes.len() == 1 {
            return Step::Run(crate::pipewire::general::card_listing_command());
        }
        match card_id_from(card_name_pipewire, &outcomes[1]) {
            Ok(pipewire_card_id) => Step::Done(Ok(AppState { alsa_card_number, pipewire_card_id })),
            Err(e) => Step::Done(Err(e)),
        }
    }
}

} // verus!
