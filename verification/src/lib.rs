//! A mirror of an image host's upload history in a remote SQL table.
//!
//! The image host keeps the pictures; the table keeps what is known about
//! them, so that they can be filtered, sorted and annotated. This library
//! holds the decisions that keep the two in step. It sends no request of its
//! own: every function takes what a caller has read and says what to write or
//! to ask for next.
//!
//! - [`import`] is the full import, a machine that pages through the host's
//!   history, upserts what it meets in batches, and marks deleted what the
//!   host no longer shows. [`mirror`] models the table that the import writes
//!   to, and [`laws`] proves what holds of whole imports against that model.
//! - [`statements`] and [`query`] build the SQL text, [`rows`] and [`query`]
//!   read the rows that come back.
//! - [`store`] and [`host`] say what the answers of the two services mean,
//!   and [`setup`] which requests set the table up and which may fail.
//! - [`vault`] seals and opens the host's credentials.
//! - [`reports`] holds the messages for the user, [`text`] the string
//!   functions under all of it, and [`model`] the data.

pub mod host;
pub mod import;
pub mod laws;
pub mod mirror;
pub mod model;
pub mod query;
pub mod reports;
pub mod rows;
pub mod setup;
pub mod statements;
pub mod store;
pub mod text;
pub mod vault;
