//! Control of an audio interface through the command-line tools of the
//! mixer and of the audio server: the commands to run, and what their
//! output means.
//!
//! Nothing here starts a tool, reads a file or holds a lock. An operation
//! is a function of its arguments and of what came of the commands that
//! were run for it so far; it answers with the next command to run or
//! with its result (`command`). The caller runs the commands.
//!
//! `alsa` and `pipewire` hold the operations on a card that is known by
//! its number; `alsa_control`, `audio_control` and `pipewire_control`
//! hold those that resolve a card or a port by its name first, or go by
//! the card of the session (`cache`). `text`, `decimal` and `pattern` are
//! what the parsers of tool output are made of.

pub mod alsa;
pub mod alsa_control;
pub mod audio_control;
pub mod cache;
pub mod command;
pub mod decimal;
pub mod error;
pub mod name_map;
pub mod pattern;
pub mod pipewire;
pub mod pipewire_control;
pub mod state;
pub mod storage;
pub mod text;
