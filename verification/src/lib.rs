//! A pretty-printer for streams of log lines.
//!
//! A line is read as a JSON record of one of two schemas, or under JSON
//! pointers of the caller's choice; as a row of the table that
//! `kubectl get events` prints; or as plain text. A record is drawn with its
//! level, its time stamp and its message in columns; plain text is written
//! as it is. In both, what the caller's regular expressions match is painted.
//!
//! The library reads and writes nothing. [`process::do_line`] takes one line
//! and the state of its stream and says what is to be written and what is to
//! be started; [`record::format_info`] draws a record.
//!
//! # Modules
//!
//! - [`text`], [`search`], [`space`], [`utf8`], [`number`], [`case`]: texts
//!   as sequences of characters.
//! - [`style`], [`highlight`]: colours, and painting what a regular
//!   expression matches.
//! - [`json`], [`timestamp`]: JSON documents and time stamps.
//! - [`kail`], [`fields`], [`extract`]: from a line to its fields.
//! - [`level`], [`stack`], [`events`], [`record`]: drawing.
//! - [`config`], [`options`]: the configuration of a run.
//! - [`process`]: one line at a time.

pub mod case;
pub mod config;
pub mod events;
pub mod extract;
pub mod fields;
pub mod highlight;
pub mod json;
pub mod kail;
pub mod level;
pub mod number;
pub mod options;
pub mod process;
pub mod record;
pub mod search;
pub mod space;
pub mod stack;
pub mod style;
pub mod text;
pub mod timestamp;
pub mod utf8;
