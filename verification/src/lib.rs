//! Core logic of a Discord voice bot that greets users joining voice
//! channels, plays audio clips discovered from an assets folder, and
//! offers text-to-speech.  Everything that talks to Discord, the file
//! system or the network lives in the application around this library.

pub mod text;
pub mod name_map;
pub mod types;
pub mod asset_processing;
pub mod commands;
pub mod constants;
pub mod voice;
pub mod extensions;
pub mod traits;
