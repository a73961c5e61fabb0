//! What the two cursors share: the values that a column hands to the
//! engine, and the states that a cursor goes through.

use crate::history::id_of;
use crate::object_id::{hex_text, ObjectId};
use crate::text::text_of;
use vstd::prelude::*;

verus! {

/// The value of one column of one row.
#[derive(Clone, Debug, PartialEq, Eq)]
pub enum ColumnValue {
    Null,
    Text(String),
    Count(u64),
    Boolean(bool),
    /// An instant, in seconds since the epoch.
    Timestamp(i64),
}

/// A column value, its text as characters.
pub enum ColumnView {
    Null,
    Text(Seq<char>),
    Count(nat),
    Boolean(bool),
    Timestamp(i64),
}

impl View for ColumnValue {
    type V = ColumnView;

    open spec fn view(&self) -> ColumnView {
        match self {
            ColumnValue::Null => ColumnView::Null,
            ColumnValue::Text(text) => ColumnView::Text(text@),
            ColumnValue::Count(n) => ColumnView::Count(*n as nat),
            ColumnValue::Boolean(b) => ColumnView::Boolean(*b),
            ColumnValue::Timestamp(seconds) => ColumnView::Timestamp(*seconds),
        }
    }
}

/// An optional text as a column: null where it is absent.
pub open spec fn text_or_null(text: Option<Seq<char>>) -> ColumnView {
    match text {
        Some(text) => ColumnView::Text(text),
        None => ColumnView::Null,
    }
}

/// An optional name as a column: its forty digits, or null.
pub open spec fn name_or_null(id: Option<Seq<u8>>) -> ColumnView {
    match id {
        Some(id) => ColumnView::Text(hex_text(id)),
        None => ColumnView::Null,
    }
}

/// An optional text as a column: null where it is absent.
pub fn text_column(text: &Option<String>) -> (value: ColumnValue)
    ensures
        value@ == text_or_null(text_of(*text)),
{
    match text {
        Some(text) => ColumnValue::Text(text.clone()),
        None => ColumnValue::Null,
    }
}

/// An optional name as a column: its forty digits, or null.
pub fn name_column(id: &Option<ObjectId>) -> (value: ColumnValue)
    ensures
        value@ == name_or_null(id_of(*id)),
{
    match id {
        Some(id) => ColumnValue::Text(id.to_hex()),
        None => ColumnValue::Null,
    }
}

/// Where a cursor stands.
#[derive(Clone, Copy, Debug, PartialEq, Eq, Structural)]
pub enum CursorState {
    /// No filter call has loaded rows.
    Unbound,
    /// A row is current.
    Bound,
    /// The rows are used up.
    Exhausted,
}

/// The state of a cursor that holds `rows` rows and stands at `position`.
pub open spec fn state_of(loaded: bool, rows: nat, position: nat) -> CursorState {
    if !loaded {
        CursorState::Unbound
    } else if position < rows {
        CursorState::Bound
    } else {
        CursorState::Exhausted
    }
}

/// The row identifier that every row reports: the relations have no row
/// identity of their own.
pub open spec fn fixed_rowid() -> i64 {
    1
}

} // verus!
