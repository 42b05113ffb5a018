//! A multi-chip sound-synthesis mixing engine.
//!
//! The crate reconciles three timing domains: an external driving clock, the
//! native sample rate of each emulated sound chip, and one output sample
//! rate. Register writes and clock ticks go in; stereo sample chunks come
//! out. Chip models themselves are external collaborators: anything that
//! implements the [`chip::SoundChip`] capability can be mixed.

pub mod chip;
pub mod data_stream;
pub mod device;
pub mod rom;
pub mod sample;
pub mod slot;
pub mod stream;
pub mod table;
pub mod vgmmeta;
