//! Verified core of a small Linux init: the `uev` event-loop context and its
//! decisions, mount-table queries, child-status decoding, directory-entry
//! filtering and GPT decoding.  System calls are made by the caller; the
//! functions here take their results as plain values.
#![allow(non_camel_case_types)]

pub mod sys;
pub mod text;
pub mod fs;
pub mod uev;
pub mod spawn;
pub mod dir;
pub mod gpt;
