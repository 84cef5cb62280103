//! Parsing of plain `http://` URLs into host, port, path and search part.

pub mod text;
pub mod url;
