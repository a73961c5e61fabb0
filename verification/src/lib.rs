//! A version-control repository seen as two relations: its commit history
//! and the per-file change counts of each commit.
//!
//! The crate holds the adapter logic between a relational query engine and
//! a repository: the negotiation of bound parameters, the materialisation
//! of commit rows, the aggregation of line changes per file, and the cursor
//! that serves rows column by column. It reads no repository itself. A
//! caller runs a query in these steps:
//!
//! 1. [`binding::plan`] turns the constraints that the engine offers into a
//!    bind mode and an argument slot for each parameter.
//! 2. [`request::prepare`] reads the arguments of a filter call and says
//!    which repository to open and which commit to start from.
//! 3. The caller walks the history from there, or compares the trees that
//!    [`diff::comparison`] names under [`diff::DiffSettings::fixed`].
//! 4. [`commits::CommitCursor::load`] or [`stats::StatsCursor::load`] makes
//!    the rows of what was read, and the cursor serves them.
//!
//! [`table::Table`] writes a result out as text.

pub mod binding;
pub mod commits;
pub mod cursor;
pub mod diff;
pub mod error;
pub mod git_types;
pub mod history;
pub mod object_id;
pub mod relation;
pub mod request;
pub mod stats;
pub mod table;
pub mod text;
