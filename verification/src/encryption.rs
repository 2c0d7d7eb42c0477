//! The envelope that accompanies an encrypted field, and the algorithms that
//! it can name.

pub mod algorithm;
pub mod header;
