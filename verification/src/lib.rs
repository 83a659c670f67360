//! The logic of a small interactive command shell: splitting a line into
//! words, reading the words as a pipeline, planning the processes and
//! descriptors that realise it, and keeping the session's history and jobs.
//!
//! Nothing here touches the operating system. Every function maps plain values
//! to plain values; the caller performs the steps that the plans name.

pub mod words;
pub mod text;
pub mod cmd;
pub mod pipeline;
pub mod plan;
pub mod session;
