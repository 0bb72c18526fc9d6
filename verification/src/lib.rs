//! Verified control logic of a four-operator FM synthesizer: modulation
//! routing, operator pruning, MIDI event ordering, voice life cycle,
//! parameter indexing and patch storage.

pub mod arrays;
pub mod audio;
pub mod common;
pub mod gen;
pub mod parameters;
pub mod processing;
pub mod sync;
pub mod text;
pub mod voices;
