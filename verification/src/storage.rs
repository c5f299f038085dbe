//! What the user has configured of the channels of a card.

pub mod config;
pub mod controller;
