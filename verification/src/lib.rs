//! Verified core of a file-anonymization pipeline: JSON events whose
//! `sensitive` flag is set have the properties named by their `paths`
//! replaced, files flow through a chain of stages, and the broker side
//! tracks polling offsets and message payloads.

pub mod anonymize;
pub mod builder;
pub mod connection;
pub mod dh;
pub mod helper;
pub mod ingress;
pub mod json;
pub mod json_text;
pub mod laws;
pub mod naming;
pub mod pipeline;
pub mod text;
