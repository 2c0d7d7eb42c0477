//! Metadata envelope for encrypted payloads, with the owned strings that
//! carry its fields across a language boundary.

pub mod encryption;
pub mod string;
pub mod versionable;
