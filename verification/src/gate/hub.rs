//! The lines of the listening front and what they do with the bytes they receive.

pub mod http;
pub mod line_header;
pub mod process;
