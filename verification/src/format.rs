//! The three format codecs and the line utilities they share.

pub mod bin;
pub mod bin_laws;
pub mod csv;
pub mod csv_laws;
pub mod text;
pub mod text_laws;
pub mod tools;
