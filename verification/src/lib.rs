//! Post-synthesis speech processing: pitch and tempo transforms over 16-bit
//! PCM audio, phoneme resolution through a layered cascade (pronunciation
//! dictionary, then an optional language-model fallback), and the decision
//! core of a lipsync run that drives an external forced-alignment tool.
//!
//! Audio samples are the 16-bit signed PCM values that the surrounding WAV
//! files carry; multiplicative pitch and tempo factors are held in thousandths
//! so that every transform is exact integer arithmetic.

pub mod arpabet;
pub mod audio;
pub mod dict;
pub mod lipsync;
pub mod naming;
pub mod resolve;
pub mod strutil;
pub mod tempo;
pub mod voices;
