//! A command-line audio player's core: track navigation, format selection,
//! sample decoding, device negotiation, block filling for a pull-based output
//! stream, and the transport state machine that ties them together.

pub mod audio;
pub mod cli;
pub mod controller;
pub mod error;
pub mod format;
pub mod mp3;
pub mod navigator;
pub mod playback;
pub mod wav;
