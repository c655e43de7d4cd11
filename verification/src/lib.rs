//! A sampler and groovebox engine.
//!
//! A control side triggers sample playback and recording through a command
//! queue; a real-time side renders audio, one block per callback. The
//! library holds both sides' logic:
//!
//! - [`frame`], [`sample_buffer`], [`sample_id`]: frames, buffers of them
//!   and their identities;
//! - [`voice`], [`effect`]: one playback cursor per trigger and the chain of
//!   processors it runs through;
//! - [`ring`], [`recording`]: the pre-roll ring and the capture state
//!   machine;
//! - [`command`], [`engine`], [`control`], [`bounce`]: the command protocol,
//!   the engine that applies it and mixes, the control thread's end of the
//!   queues, and offline rendering;
//! - [`shared`], [`pipeline`], [`middle`], [`tui`]: the sequencer with its
//!   project data, and key resolution for the control surface.
//!
//! A sample is carried as the bit pattern of an IEEE-754 binary32 value.
//! [`binary32`] decides order and selection on those bits; arithmetic that
//! rounds is left to an implementation of [`math::SampleMath`] that the
//! caller brings. Every function is proved free of panics and overflow, and
//! to meet its contract, for every input its contract admits and for every
//! such implementation.

pub mod binary32;
pub mod bounce;
pub mod command;
pub mod control;
pub mod effect;
pub mod engine;
pub mod frame;
pub mod math;
pub mod middle;
pub mod pipeline;
pub mod recording;
pub mod ring;
pub mod sample_buffer;
pub mod sample_id;
pub mod shared;
pub mod tui;
pub mod voice;
