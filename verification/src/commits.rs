//! The cursor of the commits relation: it loads the rows of a walk when a
//! filter call binds it, and serves them one at a time.

use crate::cursor::{
    fixed_rowid, name_column, name_or_null, state_of, text_column, text_or_null, ColumnValue,
    ColumnView, CursorState,
};
use crate::error::{ErrorKind, QueryError};
use crate::history::{
    distinct_rows, has_row, history, law_one_row_per_commit, materialize, rows_view, walk_meets,
    walk_view, CommitRecord, CommitView, WalkedCommit, WalkedView,
};
use crate::object_id::{hex_text, is_object_name, law_hex_text_is_forty_digits, ObjectId};
use crate::request::{Request, RequestView, Start};
use crate::text::text_of;
use vstd::prelude::*;

verus! {

/// What a bound revision selects.
#[derive(Clone, Copy, Debug, PartialEq, Eq, Structural)]
pub enum RevisionMode {
    /// The commit and all that it descends from. This is the meaning that
    /// joins rely on.
    Ancestry,
    /// The one commit that the revision names.
    SingleCommit,
}

/// The value of column `i` of a commit's row, the hidden columns echoing the
/// parameters that the row was made for. A column that the relation does not
/// have is null.
pub open spec fn commit_column(
    row: CommitView,
    repository: Option<Seq<char>>,
    revision: Option<Seq<char>>,
    i: int,
) -> ColumnView {
    if i == 0 {
        ColumnView::Text(hex_text(row.hash))
    } else if i == 1 {
        text_or_null(row.message)
    } else if i == 2 {
        text_or_null(row.author_name)
    } else if i == 3 {
        text_or_null(row.author_email)
    } else if i == 4 {
        ColumnView::Timestamp(row.author_when)
    } else if i == 5 {
        text_or_null(row.committer_name)
    } else if i == 6 {
        text_or_null(row.committer_email)
    } else if i == 7 {
        ColumnView::Timestamp(row.committer_when)
    } else if i == 8 {
        ColumnView::Boolean(row.is_merge)
    } else if i == 9 {
        name_or_null(row.parent_1)
    } else if i == 10 {
        name_or_null(row.parent_2)
    } else if i == 11 {
        text_or_null(repository)
    } else if i == 12 {
        text_or_null(revision)
    } else {
        ColumnView::Null
    }
}

/// The row of the commit `id` among `rows`.
pub open spec fn row_of(rows: Seq<CommitView>, id: Seq<u8>) -> Option<CommitView>
    decreases rows.len(),
{
    if rows.len() == 0 {
        None
    } else if rows.last().hash == id {
        Some(rows.last())
    } else {
        row_of(rows.drop_last(), id)
    }
}

/// The rows that a filter call serves. A walk from the head, or from a
/// revision read as an ancestry, serves a row for each commit of the walk.
/// A revision read as a single commit serves the row of the commit that it
/// names and no other; where the walk did not meet that commit, there is
/// nothing to serve.
pub open spec fn rows_served(
    mode: RevisionMode,
    start: Option<Seq<u8>>,
    walk: Seq<WalkedView>,
) -> Option<Seq<CommitView>> {
    match start {
        Some(id) => if mode == RevisionMode::SingleCommit {
            match row_of(history(walk), id) {
                Some(row) => Some(seq![row]),
                None => None,
            }
        } else {
            Some(history(walk))
        },
        None => Some(history(walk)),
    }
}

/// What a reading gave, as values: nothing where it failed.
pub open spec fn outcome_view(outcome: Result<(Request, Vec<WalkedCommit>), QueryError>) -> Option<
    (RequestView, Seq<WalkedView>),
> {
    match outcome {
        Ok(given) => Some((given.0@, walk_view(given.1@))),
        Err(_) => None,
    }
}

/// What a cursor says when a revision read as a single commit names none
/// that the walk met.
pub open spec fn unmet_revision_message() -> Seq<char> {
    "the revision names no commit of the walk"@
}

/// The cursor of the commits relation.
#[derive(Debug)]
pub struct CommitCursor {
    mode: RevisionMode,
    loaded: bool,
    repository: Option<String>,
    revision: Option<String>,
    rows: Vec<CommitRecord>,
    position: usize,
}

/// What a commit cursor holds, as values.
pub struct CommitCursorView {
    pub mode: RevisionMode,
    pub loaded: bool,
    pub repository: Option<Seq<char>>,
    pub revision: Option<Seq<char>>,
    pub rows: Seq<CommitView>,
    pub position: nat,
}

impl CommitCursorView {
    /// What holds of every cursor: no two rows are the same commit, and
    /// before the first filter call it holds nothing.
    pub open spec fn wf(self) -> bool {
        &&& distinct_rows(self.rows)
        &&& !self.loaded ==> self.rows.len() == 0 && self.repository is None && self.revision
            is None
    }

    /// A cursor that no filter call has bound.
    pub open spec fn unbound(mode: RevisionMode) -> CommitCursorView {
        CommitCursorView {
            mode,
            loaded: false,
            repository: None,
            revision: None,
            rows: Seq::empty(),
            position: 0,
        }
    }

    /// The cursor after a filter call with `request` whose walk gave
    /// `walk`: it holds the rows served, stands at the first, and echoes the
    /// parameters of this call. Nothing of what it held before is left; a
    /// call with nothing to serve leaves it unbound.
    pub open spec fn filtered(self, request: RequestView, walk: Seq<WalkedView>) -> CommitCursorView {
        match rows_served(self.mode, request.start, walk) {
            Some(rows) => CommitCursorView {
                mode: self.mode,
                loaded: true,
                repository: request.bound_repository,
                revision: request.bound_revision,
                rows,
                position: 0,
            },
            None => CommitCursorView::unbound(self.mode),
        }
    }

    /// The cursor after a filter call whose reading gave `outcome`: the
    /// request and the walk, or nothing because the reading failed. A failed
    /// call leaves the cursor unbound.
    pub open spec fn finished(self, outcome: Option<(RequestView, Seq<WalkedView>)>) -> CommitCursorView {
        match outcome {
            Some(given) => self.filtered(given.0, given.1),
            None => CommitCursorView::unbound(self.mode),
        }
    }

    /// Whether the rows are used up.
    pub open spec fn eof(self) -> bool {
        self.position >= self.rows.len()
    }

    /// Where the cursor stands.
    pub open spec fn state(self) -> CursorState {
        state_of(self.loaded, self.rows.len(), self.position)
    }

    /// The cursor one place further, whether or not a row stands there. Only
    /// at the largest position that a machine can count does it stay.
    pub open spec fn advanced(self) -> CommitCursorView {
        if self.position < usize::MAX {
            CommitCursorView { position: self.position + 1, ..self }
        } else {
            self
        }
    }

    /// Column `i` of the current row, null when no row is current.
    pub open spec fn column(self, i: int) -> ColumnView {
        if self.eof() {
            ColumnView::Null
        } else {
            commit_column(self.rows[self.position as int], self.repository, self.revision, i)
        }
    }
}

impl View for CommitCursor {
    type V = CommitCursorView;

    closed spec fn view(&self) -> CommitCursorView {
        CommitCursorView {
            mode: self.mode,
            loaded: self.loaded,
            repository: text_of(self.repository),
            revision: text_of(self.revision),
            rows: rows_view(self.rows@),
            position: self.position as nat,
        }
    }
}

/// The row of `id` among `rows`, looked for from the end.
fn find_row(rows: &Vec<CommitRecord>, id: &ObjectId) -> (place: Option<usize>)
    ensures
        match place {
            Some(k) => k < rows.len() && row_of(rows_view(rows@), id@) == Some(rows@[k as int]@),
            None => row_of(rows_view(rows@), id@) is None,
        },
{
    let ghost all = rows_view(rows@);
    let mut k: usize = rows.len();
    assert(all.take(k as int) =~= all);
    while k > 0
        invariant
            k <= rows.len(),
            all == rows_view(rows@),
            row_of(all, id@) == row_of(all.take(k as int), id@),
        decreases k,
    {
        proof {
            assert(all.take(k as int).drop_last() =~= all.take(k - 1));
            assert(all.take(k as int).last() == rows@[k - 1]@);
        }
        k = k - 1;
        if rows[k].hash.same(id) {
            return Some(k);
        }
    }
    None
}

impl CommitCursor {
    /// Every cursor is well formed.
    #[verifier::type_invariant]
    spec fn inv(self) -> bool {
        self@.wf()
    }

    /// A cursor as the relation opens it: unbound, reading a bound revision
    /// in `mode`.
    pub fn new(mode: RevisionMode) -> (cursor: CommitCursor)
        ensures
            cursor@ == CommitCursorView::unbound(mode),
            cursor@.wf(),
    {
        let cursor = CommitCursor {
            mode,
            loaded: false,
            repository: None,
            revision: None,
            rows: Vec::new(),
            position: 0,
        };
        assert(cursor@.rows =~= Seq::empty());
        cursor
    }

    /// Forgets the rows and parameters of the last filter call.
    pub fn reset(&mut self)
        ensures
            final(self)@ == CommitCursorView::unbound(old(self)@.mode),
            final(self)@.wf(),
    {
        let cleared = CommitCursor::new(self.mode);
        *self = cleared;
    }

    /// Binds the cursor to a filter call: `walk` is what the walk asked for
    /// by `request` met. The cursor then holds the rows of this call alone,
    /// and stands at the first. Where a revision is read as a single commit
    /// and the walk did not meet it, the revision does not resolve, and the
    /// cursor is left unbound.
    pub fn load(&mut self, request: Request, walk: &Vec<WalkedCommit>) -> (r: Result<
        (),
        QueryError,
    >)
        ensures
            final(self)@ == old(self)@.filtered(request@, walk_view(walk@)),
            final(self)@.wf(),
            r is Ok <==> rows_served(old(self)@.mode, request@.start, walk_view(walk@)) is Some,
            r matches Err(e) ==> e.kind == ErrorKind::RevisionResolution && e.message@
                == unmet_revision_message(),
    {
        let mode = self.mode;
        let all = materialize(walk);
        proof {
            law_one_row_per_commit(walk_view(walk@));
        }
        let rows = match (mode, request.start) {
            (RevisionMode::SingleCommit, Start::Commit(id)) => {
                match find_row(&all, &id) {
                    Some(k) => {
                        let mut one: Vec<CommitRecord> = Vec::new();
                        one.push(all[k].duplicate());
                        assert(rows_view(one@) =~= seq![all@[k as int]@]);
                        one
                    },
                    None => {
                        self.reset();
                        return Err(
                            QueryError::with_text(
                                ErrorKind::RevisionResolution,
                                "the revision names no commit of the walk",
                            ),
                        );
                    },
                }
            },
            _ => all,
        };
        let Request { binding, repository: _, start: _ } = request;
        let loaded = CommitCursor {
            mode,
            loaded: true,
            repository: binding.repository,
            revision: binding.revision,
            rows,
            position: 0,
        };
        *self = loaded;
        Ok(())
    }

    /// Ends a filter call with what the reading gave: the request and the
    /// walk, or the failure that stopped it. A failure leaves the cursor
    /// unbound, with nothing of the call before, and is handed on as it is;
    /// a walk is loaded as `load` loads it.
    pub fn finish(&mut self, outcome: Result<(Request, Vec<WalkedCommit>), QueryError>) -> (r:
        Result<(), QueryError>)
        ensures
            final(self)@ == old(self)@.finished(outcome_view(outcome)),
            final(self)@.wf(),
            outcome matches Err(e) ==> final(self)@ == CommitCursorView::unbound(old(self)@.mode)
                && r == Err::<(), QueryError>(e),
            outcome matches Ok(given) ==> final(self)@ == old(self)@.filtered(
                given.0@,
                walk_view(given.1@),
            ) && (r is Ok <==> rows_served(old(self)@.mode, given.0@.start, walk_view(given.1@))
                is Some),
            outcome is Ok ==> (r matches Err(e) ==> e.kind == ErrorKind::RevisionResolution
                && e.message@ == unmet_revision_message()),
    {
        match outcome {
            Ok((request, walk)) => self.load(request, &walk),
            Err(e) => {
                self.reset();
                Err(e)
            },
        }
    }

    /// Moves one place on. The position goes up by one on every call, also
    /// behind the last row; rows and parameters stay as they are.
    pub fn next(&mut self)
        ensures
            final(self)@ == old(self)@.advanced(),
            old(self)@.position < usize::MAX ==> final(self)@.position == old(self)@.position + 1,
            final(self)@.wf(),
    {
        proof {
            use_type_invariant(&*self);
        }
        if self.position < usize::MAX {
            self.position = self.position + 1;
        }
    }

    /// Whether the rows are used up.
    pub fn eof(&self) -> (done: bool)
        ensures
            done == self@.eof(),
    {
        self.position >= self.rows.len()
    }

    /// Where the cursor stands.
    pub fn state(&self) -> (state: CursorState)
        ensures
            state == self@.state(),
    {
        if !self.loaded {
            CursorState::Unbound
        } else if self.position < self.rows.len() {
            CursorState::Bound
        } else {
            CursorState::Exhausted
        }
    }

    /// Column `i` of the current row.
    pub fn column(&self, i: i32) -> (value: ColumnValue)
        ensures
            value@ == self@.column(i as int),
    {
        if self.position >= self.rows.len() {
            return ColumnValue::Null;
        }
        let row = &self.rows[self.position];
        assert(self@.rows[self.position as int] == row@);
        if i == 0 {
            ColumnValue::Text(row.hash.to_hex())
        } else if i == 1 {
            text_column(&row.message)
        } else if i == 2 {
            text_column(&row.author_name)
        } else if i == 3 {
            text_column(&row.author_email)
        } else if i == 4 {
            ColumnValue::Timestamp(row.author_when)
        } else if i == 5 {
            text_column(&row.committer_name)
        } else if i == 6 {
            text_column(&row.committer_email)
        } else if i == 7 {
            ColumnValue::Timestamp(row.committer_when)
        } else if i == 8 {
            ColumnValue::Boolean(row.is_merge)
        } else if i == 9 {
            name_column(&row.parent_1)
        } else if i == 10 {
            name_column(&row.parent_2)
        } else if i == 11 {
            text_column(&self.repository)
        } else if i == 12 {
            text_column(&self.revision)
        } else {
            ColumnValue::Null
        }
    }

    /// The row identifier, the same for every row.
    pub fn rowid(&self) -> (id: i64)
        ensures
            id == fixed_rowid(),
    {
        1
    }

    /// Number of rows that the last filter call loaded.
    pub fn row_count(&self) -> (n: usize)
        ensures
            n == self@.rows.len(),
    {
        self.rows.len()
    }

    /// Number of rows that the engine has moved past.
    pub fn position(&self) -> (n: usize)
        ensures
            n == self@.position,
    {
        self.position
    }

    /// How the cursor reads a bound revision.
    pub fn mode(&self) -> (mode: RevisionMode)
        ensures
            mode == self@.mode,
    {
        self.mode
    }
}

/// The row found for a commit is that commit's.
pub proof fn lemma_row_of_is_named(rows: Seq<CommitView>, id: Seq<u8>)
    ensures
        row_of(rows, id) matches Some(row) ==> row.hash == id && has_row(rows, id),
        row_of(rows, id) is None ==> !has_row(rows, id),
    decreases rows.len(),
{
    if rows.len() > 0 {
        let init = rows.drop_last();
        lemma_row_of_is_named(init, id);
        if rows.last().hash == id {
            assert(rows[rows.len() - 1].hash == id);
        } else {
            if has_row(init, id) {
                let k = choose|k: int| 0 <= k < init.len() && (#[trigger] init[k]).hash == id;
                assert(rows[k].hash == id);
            }
            if has_row(rows, id) {
                let k = choose|k: int| 0 <= k < rows.len() && (#[trigger] rows[k]).hash == id;
                assert(init[k].hash == id);
            }
        }
    }
}

/// The cursor after `steps` calls of `next`.
pub open spec fn after_steps(cursor: CommitCursorView, steps: nat) -> CommitCursorView
    decreases steps,
{
    if steps == 0 {
        cursor
    } else {
        after_steps(cursor, (steps - 1) as nat).advanced()
    }
}

/// A filter call leaves nothing of the call before it: whatever two cursors
/// held, after the same call they hold the same, which is the rows of this
/// call, from the first, under the parameters of this call.
pub proof fn law_filter_forgets(
    a: CommitCursorView,
    b: CommitCursorView,
    request: RequestView,
    walk: Seq<WalkedView>,
)
    requires
        a.mode == b.mode,
    ensures
        a.filtered(request, walk) == b.filtered(request, walk),
        a.filtered(request, walk).wf(),
        a.filtered(request, walk).loaded ==> {
            &&& Some(a.filtered(request, walk).rows) == rows_served(a.mode, request.start, walk)
            &&& a.filtered(request, walk).position == 0
            &&& a.filtered(request, walk).repository == request.bound_repository
            &&& a.filtered(request, walk).revision == request.bound_revision
        },
        forall|k: int|
            0 <= k < a.filtered(request, walk).rows.len() ==> {
                &&& commit_column(
                    #[trigger] a.filtered(request, walk).rows[k],
                    a.filtered(request, walk).repository,
                    a.filtered(request, walk).revision,
                    11,
                ) == text_or_null(request.bound_repository)
                &&& commit_column(
                    a.filtered(request, walk).rows[k],
                    a.filtered(request, walk).repository,
                    a.filtered(request, walk).revision,
                    12,
                ) == text_or_null(request.bound_revision)
            },
{
    law_one_row_per_commit(walk);
}

/// A walk that is served whole gives one row for each commit that it met:
/// no commit twice, none left out, and each under a name of forty
/// hexadecimal digits.
pub proof fn law_rows_are_the_commits(
    cursor: CommitCursorView,
    request: RequestView,
    walk: Seq<WalkedView>,
)
    requires
        cursor.mode == RevisionMode::Ancestry || request.start is None,
        forall|i: int| 0 <= i < walk.len() ==> (#[trigger] walk[i]).id.len() == 20,
    ensures
        cursor.filtered(request, walk).loaded,
        cursor.filtered(request, walk).rows == history(walk),
        distinct_rows(cursor.filtered(request, walk).rows),
        forall|id: Seq<u8>| #[trigger]
            has_row(cursor.filtered(request, walk).rows, id)
                <==> walk_meets(walk, id),
        forall|k: int|
            0 <= k < cursor.filtered(request, walk).rows.len() ==> {
                &&& commit_column(
                    #[trigger] cursor.filtered(request, walk).rows[k],
                    request.bound_repository,
                    request.bound_revision,
                    0,
                ) == ColumnView::Text(hex_text(cursor.filtered(request, walk).rows[k].hash))
                &&& hex_text(cursor.filtered(request, walk).rows[k].hash).len() == 40
                &&& is_object_name(
                    hex_text(cursor.filtered(request, walk).rows[k].hash),
                )
            },
{
    law_one_row_per_commit(walk);
    let rows = cursor.filtered(request, walk).rows;
    assert forall|k: int| 0 <= k < rows.len() implies hex_text((#[trigger] rows[k]).hash).len()
        == 40 && is_object_name(hex_text(rows[k].hash)) by {
        assert(has_row(rows, rows[k].hash));
        let i = choose|i: int| 0 <= i < walk.len() && (#[trigger] walk[i]).id == rows[k].hash;
        law_hex_text_is_forty_digits(rows[k].hash);
    }
}

/// A revision read as a single commit serves exactly one row, the row of
/// the commit that it names, however long the walk was; a revision that the
/// walk did not meet serves nothing and leaves the cursor unbound.
pub proof fn law_single_commit_serves_one_row(
    cursor: CommitCursorView,
    request: RequestView,
    walk: Seq<WalkedView>,
)
    requires
        cursor.mode == RevisionMode::SingleCommit,
        request.start is Some,
    ensures
        walk_meets(walk, request.start->0) ==> {
            &&& cursor.filtered(request, walk).loaded
            &&& cursor.filtered(request, walk).rows.len() == 1
            &&& cursor.filtered(request, walk).rows[0].hash == request.start->0
            &&& !cursor.filtered(request, walk).eof()
            &&& cursor.filtered(request, walk).advanced().eof()
        },
        !walk_meets(walk, request.start->0) ==> cursor.filtered(request, walk)
            == CommitCursorView::unbound(cursor.mode),
{
    law_one_row_per_commit(walk);
    lemma_row_of_is_named(history(walk), request.start->0);
}

/// Every call of `next` moves the cursor one place on and changes nothing
/// else: after `steps` calls it stands `steps` places further, and it is at
/// the end exactly when that is at or behind the last row.
pub proof fn law_next_counts_rows(cursor: CommitCursorView, steps: nat)
    requires
        cursor.wf(),
        cursor.position + steps <= usize::MAX,
    ensures
        after_steps(cursor, steps) == (CommitCursorView {
            position: cursor.position + steps,
            ..cursor
        }),
        after_steps(cursor, steps).wf(),
        after_steps(cursor, steps).eof() <==> cursor.position + steps >= cursor.rows.len(),
    decreases steps,
{
    if steps > 0 {
        law_next_counts_rows(cursor, (steps - 1) as nat);
    }
}

/// A filter call that fails leaves nothing of the call before it: whatever
/// the cursor held, it is unbound, holds no row and echoes no parameter.
pub proof fn law_failed_filter_forgets(cursor: CommitCursorView)
    ensures
        cursor.finished(None) == CommitCursorView::unbound(cursor.mode),
        cursor.finished(None).wf(),
        cursor.finished(None).rows.len() == 0,
        cursor.finished(None).eof(),
        cursor.finished(None).state() == CursorState::Unbound,
        forall|i: int| cursor.finished(None).column(i) == ColumnView::Null,
{
}

} // verus!
