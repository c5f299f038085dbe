//! The audio server: its graph of nodes and ports, its cards and their
//! profiles, through `pw-cli`, `pw-metadata` and `pactl`.

pub mod buffer_size;
pub mod controller;
pub mod general;
pub mod profile;
pub mod volume;
