//! The playback core of a desktop music player.
//!
//! The crate decides what the player does; it performs no input or output.
//! Devices, files, the network and the threads belong to the program around it,
//! which hands in what happened and carries out what comes back.

pub mod binary64;
pub mod decode;
pub mod devices;
pub mod eq;
pub mod load;
pub mod media;
pub mod output;
pub mod state;
pub mod text;
