//! Kokoro text-to-speech as a Windows SAPI5 voice: the verified core.

pub mod assets;
pub mod cli;
pub mod config;
pub mod g2p;
pub mod guid;
pub mod registry;
pub mod synth;
pub mod text;
pub mod tokenizer;
pub mod voices;
