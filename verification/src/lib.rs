//! The sequential core of a real-time spatial-audio pipeline.
//!
//! A render thread cuts a mono source into fixed-length chunks, has each one
//! filtered and spatialised, and hands the interleaved stereo result to the
//! device callback through a small bounded queue. This crate holds the rules
//! of that pipeline, each with a proved contract:
//!
//! * [`chunk`]: how a source is cut into chunks and how the last one is padded;
//! * [`stereo`]: interleaving of left/right frames;
//! * [`mailbox`]: the single-slot orientation mailbox;
//! * [`handoff`]: the bounded queue between render thread and callback;
//! * [`sink`]: what the device callback plays, leftover and silence included;
//! * [`worker`]: the render thread's decisions as a state machine;
//! * [`consumer`]: the negotiated device format and the pacing it implies.
//!
//! The sample type is a parameter throughout: the crate copies and orders
//! samples and never computes with them.

pub mod chunk;
pub mod consumer;
pub mod handoff;
pub mod mailbox;
pub mod sink;
pub mod stereo;
pub mod worker;

