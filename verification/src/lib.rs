//! USB Audio Class 1.0 stereo loopback: the verified core of the firmware
//! (formats, packet queues, control requests, descriptors, diagnostics) and
//! of its host-side bit-perfect checker.

pub mod audio;
pub mod pcm;
pub mod diag;
pub mod diagnostics;
pub mod streams;
pub mod control;
pub mod descriptors;
pub mod check;
pub mod tasks;
