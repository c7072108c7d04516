//! Hearsay: the core of a local, on-device voice agent.
//!
//! The microphone's audio becomes utterances ([`capture`]) or a live transcript
//! ([`pipeline`]); a pure state machine takes turns with the user ([`conversation`]); the
//! controller ([`controller`]) keeps one conversation together, with barge-in that cancels
//! whatever is still in flight; replies stream in ([`llm`]), are cut into sentences
//! ([`dialogue`]), spoken ([`tts`]) and played ([`player`]). Nothing here does I/O.

use vstd::prelude::*;

pub mod aggregator;
pub mod audio;
pub mod binary32;
pub mod capture;
pub mod config;
pub mod controller;
pub mod conversation;
pub mod dialogue;
pub mod engine;
pub mod error;
pub mod events;
pub mod file_source;
pub mod json;
pub mod llm;
pub mod mic;
pub mod models;
pub mod pipeline;
pub mod player;
pub mod ports;
pub mod ring;
pub mod shell;
pub mod sidecar;
pub mod stabilize;
pub mod text;
pub mod transcript;
pub mod tts;
pub mod vad;
pub mod whisper;
pub mod word;

verus! {

} // verus!
