//! The cursor of the stats relation: it loads the per-file counts of one
//! commit when a filter call binds it, and serves them one at a time.

use crate::binding::BindMode;
use crate::cursor::{
    fixed_rowid, state_of, text_column, text_or_null, ColumnValue, ColumnView, CursorState,
};
use crate::diff::{
    commit_stats, comparison_for, deltas_view, distinct_files, group_total,
    law_grouping_reproduces_stats, law_one_row_per_file, lines_view, stats_of, Comparison,
    DeltaView, FileDelta, LineChange, LineView,
};
use crate::history::CommitView;
use crate::object_id::{hex_text, law_parse_inverts_hex};
use crate::error::QueryError;
use crate::request::{request_of, revision_names_commit, Request, RequestView};
use crate::text::text_of;
use vstd::prelude::*;

verus! {

/// The value of column `i` of a file's row, the hidden columns echoing the
/// parameters that the row was made for. A column that the relation does not
/// have is null.
pub open spec fn stats_column(
    row: DeltaView,
    repository: Option<Seq<char>>,
    revision: Option<Seq<char>>,
    i: int,
) -> ColumnView {
    if i == 0 {
        ColumnView::Text(row.path)
    } else if i == 1 {
        ColumnView::Count(row.additions)
    } else if i == 2 {
        ColumnView::Count(row.deletions)
    } else if i == 3 {
        text_or_null(repository)
    } else if i == 4 {
        text_or_null(revision)
    } else {
        ColumnView::Null
    }
}

/// What a reading gave, as values: nothing where it failed.
pub open spec fn outcome_view(
    outcome: Result<(Request, Comparison, Vec<LineChange>), QueryError>,
) -> Option<(RequestView, Comparison, Seq<LineView>)> {
    match outcome {
        Ok(given) => Some((given.0@, given.1, lines_view(given.2@))),
        Err(_) => None,
    }
}

/// The cursor of the stats relation.
#[derive(Debug)]
pub struct StatsCursor {
    loaded: bool,
    repository: Option<String>,
    revision: Option<String>,
    rows: Vec<FileDelta>,
    position: usize,
}

/// What a stats cursor holds, as values.
pub struct StatsCursorView {
    pub loaded: bool,
    pub repository: Option<Seq<char>>,
    pub revision: Option<Seq<char>>,
    pub rows: Seq<DeltaView>,
    pub position: nat,
}

impl StatsCursorView {
    /// What holds of every cursor: no two rows are the same file, and before
    /// the first filter call it holds nothing.
    pub open spec fn wf(self) -> bool {
        &&& distinct_files(self.rows)
        &&& !self.loaded ==> self.rows.len() == 0 && self.repository is None && self.revision
            is None
    }

    /// A cursor that no filter call has bound.
    pub open spec fn unbound() -> StatsCursorView {
        StatsCursorView {
            loaded: false,
            repository: None,
            revision: None,
            rows: Seq::empty(),
            position: 0,
        }
    }

    /// The cursor after a filter call with `request`, for a commit whose
    /// trees were held against each other as `comparison` says and differed
    /// by `lines`: it holds the commit's statistics, stands at the first
    /// row, and echoes the parameters of this call. It does not depend on
    /// what the cursor held before.
    pub open spec fn filtered(
        request: RequestView,
        comparison: Comparison,
        lines: Seq<LineView>,
    ) -> StatsCursorView {
        StatsCursorView {
            loaded: true,
            repository: request.bound_repository,
            revision: request.bound_revision,
            rows: stats_of(comparison, lines),
            position: 0,
        }
    }

    /// The cursor after a filter call whose reading gave `outcome`: the
    /// request, the comparison and its lines, or nothing because the reading
    /// failed. A failed call leaves the cursor unbound.
    pub open spec fn finished(
        outcome: Option<(RequestView, Comparison, Seq<LineView>)>,
    ) -> StatsCursorView {
        match outcome {
            Some(given) => StatsCursorView::filtered(given.0, given.1, given.2),
            None => StatsCursorView::unbound(),
        }
    }

    /// Whether the rows are used up.
    pub open spec fn eof(self) -> bool {
        self.position >= self.rows.len()
    }

    /// Where the cursor stands.
    pub open spec fn state(self) -> CursorState {
        state_of(self.loaded, self.rows.len(), self.position)
    }

    /// The cursor one place further, whether or not a row stands there. Only
    /// at the largest position that a machine can count does it stay.
    pub open spec fn advanced(self) -> StatsCursorView {
        if self.position < usize::MAX {
            StatsCursorView { position: self.position + 1, ..self }
        } else {
            self
        }
    }

    /// Column `i` of the current row, null when no row is current.
    pub open spec fn column(self, i: int) -> ColumnView {
        if self.eof() {
            ColumnView::Null
        } else {
            stats_column(self.rows[self.position as int], self.repository, self.revision, i)
        }
    }
}

impl View for StatsCursor {
    type V = StatsCursorView;

    closed spec fn view(&self) -> StatsCursorView {
        StatsCursorView {
            loaded: self.loaded,
            repository: text_of(self.repository),
            revision: text_of(self.revision),
            rows: deltas_view(self.rows@),
            position: self.position as nat,
        }
    }
}

impl StatsCursor {
    /// Every cursor is well formed.
    #[verifier::type_invariant]
    spec fn inv(self) -> bool {
        self@.wf()
    }

    /// A cursor as the relation opens it: unbound.
    pub fn new() -> (cursor: StatsCursor)
        ensures
            cursor@ == StatsCursorView::unbound(),
            cursor@.wf(),
    {
        let cursor = StatsCursor {
            loaded: false,
            repository: None,
            revision: None,
            rows: Vec::new(),
            position: 0,
        };
        assert(cursor@.rows =~= Seq::empty());
        cursor
    }

    /// Forgets the rows and parameters of the last filter call.
    pub fn reset(&mut self)
        ensures
            final(self)@ == StatsCursorView::unbound(),
            final(self)@.wf(),
    {
        let cleared = StatsCursor::new();
        *self = cleared;
    }

    /// Binds the cursor to a filter call: the commit asked for by `request`
    /// had its trees compared as `comparison` says, and `lines` is what the
    /// comparison reported. The cursor then holds the statistics of this
    /// commit alone, and stands at the first row.
    pub fn load(&mut self, request: Request, comparison: Comparison, lines: &Vec<LineChange>)
        ensures
            final(self)@ == StatsCursorView::filtered(request@, comparison, lines_view(lines@)),
            final(self)@.wf(),
    {
        let rows = commit_stats(comparison, lines);
        proof {
            law_one_row_per_file(lines_view(lines@));
        }
        let Request { binding, repository: _, start: _ } = request;
        let loaded = StatsCursor {
            loaded: true,
            repository: binding.repository,
            revision: binding.revision,
            rows,
            position: 0,
        };
        *self = loaded;
    }

    /// Ends a filter call with what the reading gave: the request, the
    /// comparison and its lines, or the failure that stopped it. A failure
    /// leaves the cursor unbound, with nothing of the call before, and is
    /// handed on as it is; lines are loaded as `load` loads them.
    pub fn finish(
        &mut self,
        outcome: Result<(Request, Comparison, Vec<LineChange>), QueryError>,
    ) -> (r: Result<(), QueryError>)
        ensures
            final(self)@ == StatsCursorView::finished(outcome_view(outcome)),
            final(self)@.wf(),
            outcome matches Err(e) ==> final(self)@ == StatsCursorView::unbound() && r == Err::<
                (),
                QueryError,
            >(e),
            outcome matches Ok(given) ==> final(self)@ == StatsCursorView::filtered(
                given.0@,
                given.1,
                lines_view(given.2@),
            ) && r is Ok,
    {
        match outcome {
            Ok((request, comparison, lines)) => {
                self.load(request, comparison, &lines);
                Ok(())
            },
            Err(e) => {
                self.reset();
                Err(e)
            },
        }
    }

    /// Moves one place on. The position goes up by one on every call, also
    /// behind the last row; rows and parameters stay as they are.
    pub fn next(&mut self)
        ensures
            final(self)@ == old(self)@.advanced(),
            old(self)@.position < usize::MAX ==> final(self)@.position == old(self)@.position + 1,
            final(self)@.wf(),
    {
        proof {
            use_type_invariant(&*self);
        }
        if self.position < usize::MAX {
            self.position = self.position + 1;
        }
    }

    /// Whether the rows are used up.
    pub fn eof(&self) -> (done: bool)
        ensures
            done == self@.eof(),
    {
        self.position >= self.rows.len()
    }

    /// Where the cursor stands.
    pub fn state(&self) -> (state: CursorState)
        ensures
            state == self@.state(),
    {
        if !self.loaded {
            CursorState::Unbound
        } else if self.position < self.rows.len() {
            CursorState::Bound
        } else {
            CursorState::Exhausted
        }
    }

    /// Column `i` of the current row.
    pub fn column(&self, i: i32) -> (value: ColumnValue)
        ensures
            value@ == self@.column(i as int),
    {
        if self.position >= self.rows.len() {
            return ColumnValue::Null;
        }
        let row = &self.rows[self.position];
        assert(self@.rows[self.position as int] == row@);
        if i == 0 {
            ColumnValue::Text(row.path.clone())
        } else if i == 1 {
            ColumnValue::Count(row.additions)
        } else if i == 2 {
            ColumnValue::Count(row.deletions)
        } else if i == 3 {
            text_column(&self.repository)
        } else if i == 4 {
            text_column(&self.revision)
        } else {
            ColumnValue::Null
        }
    }

    /// The row identifier, the same for every row.
    pub fn rowid(&self) -> (id: i64)
        ensures
            id == fixed_rowid(),
    {
        1
    }

    /// Number of rows that the last filter call loaded.
    pub fn row_count(&self) -> (n: usize)
        ensures
            n == self@.rows.len(),
    {
        self.rows.len()
    }

    /// Number of rows that the engine has moved past.
    pub fn position(&self) -> (n: usize)
        ensures
            n == self@.position,
    {
        self.position
    }
}

/// The cursor after `steps` calls of `next`.
pub open spec fn after_steps(cursor: StatsCursorView, steps: nat) -> StatsCursorView
    decreases steps,
{
    if steps == 0 {
        cursor
    } else {
        after_steps(cursor, (steps - 1) as nat).advanced()
    }
}

/// A filter call leaves nothing of the call before it: the cursor holds the
/// statistics of this call's commit, from the first row, and every row
/// echoes the parameters of this call.
pub proof fn law_filter_forgets(request: RequestView, comparison: Comparison, lines: Seq<LineView>)
    ensures
        StatsCursorView::filtered(request, comparison, lines).wf(),
        StatsCursorView::filtered(request, comparison, lines).rows == stats_of(comparison, lines),
        StatsCursorView::filtered(request, comparison, lines).position == 0,
        forall|k: int|
            0 <= k < stats_of(comparison, lines).len() ==> {
                &&& stats_column(
                    #[trigger] stats_of(comparison, lines)[k],
                    StatsCursorView::filtered(request, comparison, lines).repository,
                    StatsCursorView::filtered(request, comparison, lines).revision,
                    3,
                ) == text_or_null(request.bound_repository)
                &&& stats_column(
                    stats_of(comparison, lines)[k],
                    StatsCursorView::filtered(request, comparison, lines).repository,
                    StatsCursorView::filtered(request, comparison, lines).revision,
                    4,
                ) == text_or_null(request.bound_revision)
            },
{
    law_one_row_per_file(lines);
}

/// A commit without parents serves no row: the cursor is at the end as soon
/// as it is bound.
pub proof fn law_root_commit_serves_nothing(request: RequestView, lines: Seq<LineView>)
    ensures
        comparison_for(0) is Some,
        StatsCursorView::filtered(request, comparison_for(0)->0, lines).rows.len() == 0,
        StatsCursorView::filtered(request, comparison_for(0)->0, lines).eof(),
        StatsCursorView::filtered(request, comparison_for(0)->0, lines).state()
            == CursorState::Exhausted,
{
}

/// The hash that the commits relation shows for a row, bound as the
/// revision of the stats relation, asks for that very commit.
pub proof fn law_join_asks_for_the_commit(
    row: CommitView,
    mode: BindMode,
    repository: Option<Seq<char>>,
)
    requires
        row.hash.len() == 20,
    ensures
        revision_names_commit(Some(hex_text(row.hash))),
        request_of(mode, repository, Some(hex_text(row.hash))).start == Some(row.hash),
{
    law_parse_inverts_hex(row.hash);
}

/// A join and a direct query see the same statistics. The rows of a commit
/// are the same whichever call asked for them, and grouping them by file,
/// as a join grouped by commit and file does, gives each row of the direct
/// query back with its own counts.
pub proof fn law_join_reproduces_direct_stats(
    joined: RequestView,
    direct: RequestView,
    comparison: Comparison,
    lines: Seq<LineView>,
)
    ensures
        StatsCursorView::filtered(joined, comparison, lines).rows == StatsCursorView::filtered(
            direct,
            comparison,
            lines,
        ).rows,
        forall|k: int|
            #![trigger stats_of(comparison, lines)[k]]
            0 <= k < stats_of(comparison, lines).len() ==> group_total(
                StatsCursorView::filtered(joined, comparison, lines).rows,
                StatsCursorView::filtered(direct, comparison, lines).rows[k].path,
            ) == (
                StatsCursorView::filtered(direct, comparison, lines).rows[k].additions,
                StatsCursorView::filtered(direct, comparison, lines).rows[k].deletions,
            ),
{
    law_grouping_reproduces_stats(comparison, lines, Seq::empty());
}

/// Every call of `next` moves the cursor one place on and changes nothing
/// else: after `steps` calls it stands `steps` places further, and it is at
/// the end exactly when that is at or behind the last row.
pub proof fn law_next_counts_rows(cursor: StatsCursorView, steps: nat)
    requires
        cursor.wf(),
        cursor.position + steps <= usize::MAX,
    ensures
        after_steps(cursor, steps) == (StatsCursorView {
            position: cursor.position + steps,
            ..cursor
        }),
        after_steps(cursor, steps).wf(),
        after_steps(cursor, steps).eof() <==> cursor.position + steps >= cursor.rows.len(),
    decreases steps,
{
    if steps > 0 {
        law_next_counts_rows(cursor, (steps - 1) as nat);
    }
}

/// A filter call that fails leaves nothing of the call before it: the
/// cursor is unbound, holds no row and echoes no parameter.
pub proof fn law_failed_filter_forgets()
    ensures
        StatsCursorView::finished(None) == StatsCursorView::unbound(),
        StatsCursorView::finished(None).wf(),
        StatsCursorView::finished(None).rows.len() == 0,
        StatsCursorView::finished(None).eof(),
        StatsCursorView::finished(None).state() == CursorState::Unbound,
        forall|i: int| StatsCursorView::finished(None).column(i) == ColumnView::Null,
{
}

} // verus!
