//! Tells what kind of archive a file is and turns its bytes into a plain tar
//! stream: gzip, bzip2 and xz are uncompressed, zip becomes tar entry by
//! entry, tar is copied.
//!
//! The library works on bytes in memory and reads or writes no file. The
//! modules `codecs`, `zip_in` and `tar_out` call the crates that decode and
//! encode the formats; what they state of those crates is taken on trust.
//! All else is proved:
//!
//! - `kinds`: the five kinds and sets of them;
//! - `registry`: the name and the fingerprint of each kind;
//! - `text`: searching and splitting text;
//! - `classify`: from a content report, a file name or a list of names to a
//!   set of kinds;
//! - `source`: byte sources, and the loop that drains one through a buffer;
//! - `zip_tar`: from the entries of a zip archive to a tar stream;
//! - `convert`: the choice among the kinds of a file, and the conversion;
//! - `shell`: what a command line settles before a conversion starts.

pub mod classify;
pub mod codecs;
pub mod convert;
pub mod error;
pub mod kinds;
pub mod registry;
pub mod shell;
pub mod source;
pub mod tar_out;
pub mod text;
pub mod zip_in;
pub mod zip_tar;
