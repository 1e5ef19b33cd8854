//! Receive an NDI video source and republish it as a shared texture: the
//! verified logic of source matching and selection, runtime location, frame
//! checking and publishing, and the launcher's state.
use vstd::prelude::*;

pub mod cli;
pub mod launcher;
pub mod ndi;
pub mod output;
pub mod run;
pub mod text;
