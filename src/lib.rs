//! Extended attributes: the decoding of packed attribute-name lists and the
//! buffer-sizing decisions behind every fetch from the operating system.

pub mod names;
pub mod sizing;
