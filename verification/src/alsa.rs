//! The mixer: its cards and their controls, through `aplay` and `amixer`.

pub mod controller;
pub mod general;
pub mod input_gain;
pub mod routing;
pub mod sends;
pub mod switches;
pub mod volume;
