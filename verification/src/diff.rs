//! The diff aggregator: which two trees stand for a commit's change, under
//! which settings they are compared, and how the changed lines add up to one
//! count of additions and deletions per file.

use crate::error::{ErrorKind, QueryError};
use vstd::prelude::*;

verus! {

/// One of the trees around a commit.
#[derive(Clone, Copy, Debug, PartialEq, Eq, Structural)]
pub enum TreeOf {
    /// The commit's own tree.
    Commit,
    /// The tree of its first parent.
    FirstParent,
    /// The tree of its second parent.
    SecondParent,
}

/// The two trees whose difference is a commit's change.
#[derive(Clone, Copy, Debug, PartialEq, Eq, Structural)]
pub struct Comparison {
    /// The tree that the change starts from.
    pub old: TreeOf,
    /// The tree that the change leads to.
    pub new: TreeOf,
}

impl Comparison {
    /// Whether a tree is compared with itself, so that nothing can differ.
    pub open spec fn is_empty(self) -> bool {
        self.old == self.new
    }

    /// Whether a tree is compared with itself.
    pub fn compares_tree_with_itself(self) -> (b: bool)
        ensures
            b == self.is_empty(),
    {
        self.old == self.new
    }
}

/// The comparison for a commit with `parents` parents. A commit without
/// parents is held against itself; one with a single parent against that
/// parent; a merge of two is read as the way from its first parent's tree
/// to its second parent's. More parents have no comparison.
pub open spec fn comparison_for(parents: int) -> Option<Comparison> {
    if parents == 0 {
        Some(Comparison { old: TreeOf::Commit, new: TreeOf::Commit })
    } else if parents == 1 {
        Some(Comparison { old: TreeOf::FirstParent, new: TreeOf::Commit })
    } else if parents == 2 {
        Some(Comparison { old: TreeOf::FirstParent, new: TreeOf::SecondParent })
    } else {
        None
    }
}

/// What is said of a commit with more than two parents.
pub open spec fn too_many_parents_message() -> Seq<char> {
    "Commit has more than 2 parents"@
}

/// Chooses the trees to compare for a commit with `parents` parents.
pub fn comparison(parents: usize) -> (r: Result<Comparison, QueryError>)
    ensures
        r is Ok <==> parents <= 2,
        r matches Ok(c) ==> Some(c) == comparison_for(parents as int),
        r matches Err(e) ==> e.kind == ErrorKind::UnsupportedMergeTopology && e.message@
            == too_many_parents_message(),
{
    if parents == 0 {
        Ok(Comparison { old: TreeOf::Commit, new: TreeOf::Commit })
    } else if parents == 1 {
        Ok(Comparison { old: TreeOf::FirstParent, new: TreeOf::Commit })
    } else if parents == 2 {
        Ok(Comparison { old: TreeOf::FirstParent, new: TreeOf::SecondParent })
    } else {
        Err(
            QueryError::with_text(
                ErrorKind::UnsupportedMergeTopology,
                "Commit has more than 2 parents",
            ),
        )
    }
}

/// The settings under which two trees are compared.
#[derive(Clone, Copy, Debug, PartialEq, Eq, Structural)]
pub struct DiffSettings {
    pub ignore_blank_lines: bool,
    pub ignore_filemode: bool,
    pub context_lines: u32,
    pub ignore_whitespace: bool,
    pub ignore_whitespace_change: bool,
    pub ignore_whitespace_eol: bool,
    pub ignore_submodules: bool,
}

impl DiffSettings {
    /// The one set of settings in use: blank lines, file modes, submodules
    /// and every difference in white space are passed over, and no line of
    /// context is given.
    pub open spec fn spec_fixed() -> DiffSettings {
        DiffSettings {
            ignore_blank_lines: true,
            ignore_filemode: true,
            context_lines: 0,
            ignore_whitespace: true,
            ignore_whitespace_change: true,
            ignore_whitespace_eol: true,
            ignore_submodules: true,
        }
    }

    /// The one set of settings in use.
    pub fn fixed() -> (settings: DiffSettings)
        ensures
            settings == DiffSettings::spec_fixed(),
    {
        DiffSettings {
            ignore_blank_lines: true,
            ignore_filemode: true,
            context_lines: 0,
            ignore_whitespace: true,
            ignore_whitespace_change: true,
            ignore_whitespace_eol: true,
            ignore_submodules: true,
        }
    }
}

/// The kind of a line that a comparison reports.
#[derive(Clone, Copy, Debug, PartialEq, Eq, Structural)]
pub enum LineKind {
    Context,
    Addition,
    Deletion,
    ContextEofNewline,
    AddEofNewline,
    DeleteEofNewline,
    FileHeader,
    HunkHeader,
    Binary,
}

/// A line that a comparison reports, under the path that the file has after
/// the change.
#[derive(Clone, Debug, PartialEq, Eq)]
pub struct LineChange {
    pub path: String,
    pub kind: LineKind,
}

/// A reported line, its path as characters.
pub struct LineView {
    pub path: Seq<char>,
    pub kind: LineKind,
}

impl View for LineChange {
    type V = LineView;

    open spec fn view(&self) -> LineView {
        LineView { path: self.path@, kind: self.kind }
    }
}

/// The lines added to and deleted from one file by one commit.
#[derive(Clone, Debug, PartialEq, Eq)]
pub struct FileDelta {
    pub path: String,
    pub additions: u64,
    pub deletions: u64,
}

/// The counts of one file, as numbers without bound.
pub struct DeltaView {
    pub path: Seq<char>,
    pub additions: nat,
    pub deletions: nat,
}

impl View for FileDelta {
    type V = DeltaView;

    open spec fn view(&self) -> DeltaView {
        DeltaView {
            path: self.path@,
            additions: self.additions as nat,
            deletions: self.deletions as nat,
        }
    }
}

impl FileDelta {
    /// A copy of the row.
    pub fn duplicate(&self) -> (copy: FileDelta)
        ensures
            copy@ == self@,
    {
        FileDelta {
            path: self.path.clone(),
            additions: self.additions,
            deletions: self.deletions,
        }
    }
}

/// The reported lines as values.
pub open spec fn lines_view(lines: Seq<LineChange>) -> Seq<LineView> {
    lines.map_values(|l: LineChange| l@)
}

/// The rows as values.
pub open spec fn deltas_view(rows: Seq<FileDelta>) -> Seq<DeltaView> {
    rows.map_values(|d: FileDelta| d@)
}

/// Whether a line counts: only additions and deletions do.
pub open spec fn counted(kind: LineKind) -> bool {
    kind == LineKind::Addition || kind == LineKind::Deletion
}

/// Number of lines of `kind` reported for `path`.
pub open spec fn tally(lines: Seq<LineView>, path: Seq<char>, kind: LineKind) -> nat
    decreases lines.len(),
{
    if lines.len() == 0 {
        0
    } else {
        tally(lines.drop_last(), path, kind) + if lines.last().path == path && lines.last().kind
            == kind {
            1nat
        } else {
            0nat
        }
    }
}

/// Whether a counted line for `path` is among `lines`.
pub open spec fn touches(lines: Seq<LineView>, path: Seq<char>) -> bool {
    exists|i: int| 0 <= i < lines.len() && counted((#[trigger] lines[i]).kind) && lines[i].path == path
}

/// The files with a counted line, in the order of their first such line.
pub open spec fn changed_paths(lines: Seq<LineView>) -> Seq<Seq<char>>
    decreases lines.len(),
{
    if lines.len() == 0 {
        Seq::empty()
    } else {
        let before = changed_paths(lines.drop_last());
        if counted(lines.last().kind) && !touches(lines.drop_last(), lines.last().path) {
            before.push(lines.last().path)
        } else {
            before
        }
    }
}

/// The count for one file.
pub open spec fn delta_of(lines: Seq<LineView>, path: Seq<char>) -> DeltaView {
    DeltaView {
        path,
        additions: tally(lines, path, LineKind::Addition),
        deletions: tally(lines, path, LineKind::Deletion),
    }
}

/// The counts of a comparison: one row for each file with an added or a
/// deleted line, with the number of its added and of its deleted lines.
pub open spec fn deltas(lines: Seq<LineView>) -> Seq<DeltaView> {
    changed_paths(lines).map_values(|path: Seq<char>| delta_of(lines, path))
}

/// The rows that a commit's statistics consist of: none where a tree was
/// held against itself, else the counts of the reported lines.
pub open spec fn stats_of(comparison: Comparison, lines: Seq<LineView>) -> Seq<DeltaView> {
    if comparison.is_empty() {
        Seq::empty()
    } else {
        deltas(lines)
    }
}

/// No more lines of a kind are counted for a file than were reported.
pub proof fn lemma_tally_bound(lines: Seq<LineView>, path: Seq<char>, kind: LineKind)
    ensures
        tally(lines, path, kind) <= lines.len(),
    decreases lines.len(),
{
    if lines.len() > 0 {
        lemma_tally_bound(lines.drop_last(), path, kind);
    }
}

/// A file without a counted line has no additions and no deletions.
pub proof fn lemma_untouched_tally(lines: Seq<LineView>, path: Seq<char>, kind: LineKind)
    requires
        counted(kind),
        !touches(lines, path),
    ensures
        tally(lines, path, kind) == 0,
    decreases lines.len(),
{
    if lines.len() > 0 {
        let init = lines.drop_last();
        let n = lines.len() - 1;
        assert(!touches(init, path)) by {
            if touches(init, path) {
                let i = choose|i: int|
                    0 <= i < init.len() && counted((#[trigger] init[i]).kind) && init[i].path
                        == path;
                assert(counted(lines[i].kind) && lines[i].path == path);
            }
        }
        lemma_untouched_tally(init, path, kind);
        assert(!(counted(lines[n].kind) && lines[n].path == path));
    }
}

/// One more line reaches the files that the lines before it reached, and
/// its own file where it counts.
pub proof fn lemma_touches_step(lines: Seq<LineView>, path: Seq<char>)
    requires
        lines.len() > 0,
    ensures
        touches(lines, path) <==> touches(lines.drop_last(), path) || (counted(lines.last().kind)
            && lines.last().path == path),
{
    let init = lines.drop_last();
    let n = lines.len() - 1;
    if touches(init, path) {
        let i = choose|i: int|
            0 <= i < init.len() && counted((#[trigger] init[i]).kind) && init[i].path == path;
        assert(counted(lines[i].kind) && lines[i].path == path);
    }
    if counted(lines.last().kind) && lines.last().path == path {
        assert(counted(lines[n].kind) && lines[n].path == path);
    }
    if touches(lines, path) {
        let i = choose|i: int|
            0 <= i < lines.len() && counted((#[trigger] lines[i]).kind) && lines[i].path == path;
        if i < n {
            assert(counted(init[i].kind) && init[i].path == path);
        }
    }
}

/// The changed files are those with a counted line, each named once.
pub proof fn lemma_changed_paths(lines: Seq<LineView>)
    ensures
        changed_paths(lines).no_duplicates(),
        forall|path: Seq<char>| #[trigger]
            changed_paths(lines).contains(path) <==> touches(lines, path),
    decreases lines.len(),
{
    if lines.len() > 0 {
        let init = lines.drop_last();
        let before = changed_paths(init);
        let paths = changed_paths(lines);
        lemma_changed_paths(init);
        assert forall|path: Seq<char>| #[trigger]
            paths.contains(path) <==> touches(lines, path) by {
            lemma_touches_step(lines, path);
            assert(before.contains(path) <==> touches(init, path));
            if paths.len() > before.len() {
                assert(paths =~= before.push(lines.last().path));
                if before.contains(path) {
                    let k = choose|k: int| 0 <= k < before.len() && before[k] == path;
                    assert(paths[k] == path);
                }
                if path == lines.last().path {
                    assert(paths[before.len() as int] == path);
                }
                if paths.contains(path) {
                    let k = choose|k: int| 0 <= k < paths.len() && paths[k] == path;
                    if k < before.len() {
                        assert(before[k] == path);
                    }
                }
            }
        }
        if paths.len() > before.len() {
            assert(!before.contains(lines.last().path));
        }
    } else {
        assert forall|path: Seq<char>| #[trigger]
            changed_paths(lines).contains(path) <==> touches(lines, path) by {}
    }
}

/// The place of `path` among the rows, looked for from the newest row
/// backwards.
fn place_of(rows: &Vec<FileDelta>, path: &String) -> (place: Option<usize>)
    ensures
        place matches Some(k) ==> k < rows.len() && rows@[k as int].path@ == path@,
        place is None ==> forall|j: int| 0 <= j < rows.len() ==> rows@[j].path@ != path@,
{
    let mut k: usize = rows.len();
    while k > 0
        invariant
            k <= rows.len(),
            forall|j: int| k <= j < rows.len() ==> rows@[j].path@ != path@,
        decreases k,
    {
        k = k - 1;
        if rows[k].path == *path {
            return Some(k);
        }
    }
    None
}

/// Adds the reported lines up: one row for each file with an added or a
/// deleted line, in the order in which the files first occur.
pub fn aggregate(lines: &Vec<LineChange>) -> (rows: Vec<FileDelta>)
    ensures
        deltas_view(rows@) == deltas(lines_view(lines@)),
{
    let ghost all = lines_view(lines@);
    let mut rows: Vec<FileDelta> = Vec::new();
    let mut i: usize = 0;
    assert(deltas_view(rows@) =~= deltas(all.take(0)));
    while i < lines.len()
        invariant
            i <= lines.len(),
            all == lines_view(lines@),
            deltas_view(rows@) == deltas(all.take(i as int)),
        decreases lines.len() - i,
    {
        let ghost prefix = all.take(i as int);
        let ghost next = all.take(i + 1);
        let ghost before = deltas_view(rows@);
        let line = &lines[i];
        proof {
            assert(next.drop_last() =~= prefix);
            assert(next.last() == line@);
            lemma_changed_paths(prefix);
            lemma_changed_paths(next);
            lemma_touches_step(next, line@.path);
            assert(before.len() == changed_paths(prefix).len());
            assert forall|j: int| 0 <= j < before.len() implies (#[trigger] rows@[j]).path@
                == changed_paths(prefix)[j] by {
                assert(before[j] == rows@[j]@);
            }
        }
        let added = match line.kind {
            LineKind::Addition => true,
            _ => false,
        };
        let deleted = match line.kind {
            LineKind::Deletion => true,
            _ => false,
        };
        if added || deleted {
            match place_of(&rows, &line.path) {
                Some(k) => {
                    proof {
                        assert(changed_paths(prefix)[k as int] == line@.path);
                        assert(changed_paths(prefix).contains(line@.path));
                        assert(changed_paths(next) == changed_paths(prefix));
                        lemma_tally_bound(prefix, line@.path, LineKind::Addition);
                        lemma_tally_bound(prefix, line@.path, LineKind::Deletion);
                        assert(before[k as int] == rows@[k as int]@);
                    }
                    let row = &rows[k];
                    let updated = FileDelta {
                        path: row.path.clone(),
                        additions: if added {
                            row.additions + 1
                        } else {
                            row.additions
                        },
                        deletions: if deleted {
                            row.deletions + 1
                        } else {
                            row.deletions
                        },
                    };
                    rows.set(k, updated);
                    proof {
                        let after = deltas_view(rows@);
                        assert forall|j: int| 0 <= j < after.len() implies after[j] == deltas(
                            next,
                        )[j] by {
                            if j != k {
                                assert(after[j] == before[j]);
                                assert(changed_paths(prefix)[j] != changed_paths(prefix)[k as int]);
                            }
                        }
                        assert(after =~= deltas(next));
                    }
                },
                None => {
                    proof {
                        assert(!changed_paths(prefix).contains(line@.path)) by {
                            if changed_paths(prefix).contains(line@.path) {
                                let j = choose|j: int|
                                    0 <= j < changed_paths(prefix).len() && changed_paths(
                                        prefix,
                                    )[j] == line@.path;
                                assert(rows@[j].path@ == line@.path);
                            }
                        }
                        assert(!touches(prefix, line@.path));
                        lemma_untouched_tally(prefix, line@.path, LineKind::Addition);
                        lemma_untouched_tally(prefix, line@.path, LineKind::Deletion);
                        assert(changed_paths(next) == changed_paths(prefix).push(line@.path));
                    }
                    let row = FileDelta {
                        path: line.path.clone(),
                        additions: if added {
                            1
                        } else {
                            0
                        },
                        deletions: if deleted {
                            1
                        } else {
                            0
                        },
                    };
                    rows.push(row);
                    proof {
                        let after = deltas_view(rows@);
                        assert forall|j: int| 0 <= j < after.len() implies after[j] == deltas(
                            next,
                        )[j] by {
                            if j < before.len() {
                                assert(after[j] == before[j]);
                                assert(changed_paths(prefix)[j] != line@.path);
                            }
                        }
                        assert(after =~= deltas(next));
                    }
                },
            }
        } else {
            proof {
                assert(!counted(line.kind));
                assert(changed_paths(next) == changed_paths(prefix));
                assert(deltas(next) =~= deltas(prefix));
            }
        }
        i = i + 1;
    }
    assert(all.take(i as int) =~= all);
    rows
}

/// The statistics of a commit from the comparison chosen for it and the
/// lines that the comparison reported. A tree held against itself changes
/// nothing, whatever was reported.
pub fn commit_stats(comparison: Comparison, lines: &Vec<LineChange>) -> (rows: Vec<FileDelta>)
    ensures
        deltas_view(rows@) == stats_of(comparison, lines_view(lines@)),
{
    if comparison.compares_tree_with_itself() {
        let rows: Vec<FileDelta> = Vec::new();
        assert(deltas_view(rows@) =~= Seq::empty());
        rows
    } else {
        aggregate(lines)
    }
}

/// A commit without parents has no statistics: the comparison chosen for it
/// holds a tree against itself, and its rows are none whatever is reported.
pub proof fn law_root_commit_changes_nothing(lines: Seq<LineView>)
    ensures
        comparison_for(0) is Some,
        comparison_for(0)->0.is_empty(),
        stats_of(comparison_for(0)->0, lines) == Seq::<DeltaView>::empty(),
{
}

/// A commit with parents is counted line by line: the comparison chosen for
/// one parent or two holds two different trees against each other.
pub proof fn law_commit_with_parents_is_counted(parents: int, lines: Seq<LineView>)
    requires
        1 <= parents <= 2,
    ensures
        comparison_for(parents) is Some,
        stats_of(comparison_for(parents)->0, lines) == deltas(lines),
{
}

/// No two rows are the same file.
pub open spec fn distinct_files(rows: Seq<DeltaView>) -> bool {
    forall|a: int, b: int|
        0 <= a < b < rows.len() ==> (#[trigger] rows[a]).path != (#[trigger] rows[b]).path
}

/// Whether some row among `rows` is the file `path`.
pub open spec fn has_file(rows: Seq<DeltaView>, path: Seq<char>) -> bool {
    exists|k: int| 0 <= k < rows.len() && (#[trigger] rows[k]).path == path
}

/// The counts hold one row for each file with an added or a deleted line
/// and no other, and each row holds the number of the file's added and of
/// its deleted lines.
pub proof fn law_one_row_per_file(lines: Seq<LineView>)
    ensures
        distinct_files(deltas(lines)),
        forall|path: Seq<char>| #[trigger] has_file(deltas(lines), path) <==> touches(lines, path),
        forall|k: int|
            0 <= k < deltas(lines).len() ==> #[trigger] deltas(lines)[k] == delta_of(
                lines,
                deltas(lines)[k].path,
            ),
{
    let rows = deltas(lines);
    let paths = changed_paths(lines);
    lemma_changed_paths(lines);
    assert forall|path: Seq<char>| #[trigger] has_file(rows, path) <==> touches(lines, path) by {
        assert(paths.contains(path) <==> touches(lines, path));
        if has_file(rows, path) {
            let k = choose|k: int| 0 <= k < rows.len() && (#[trigger] rows[k]).path == path;
            assert(paths[k] == path);
        }
        if paths.contains(path) {
            let k = choose|k: int| 0 <= k < paths.len() && paths[k] == path;
            assert(rows[k].path == path);
        }
    }
}

/// The additions and deletions of the rows for `path`, added up.
pub open spec fn group_total(rows: Seq<DeltaView>, path: Seq<char>) -> (nat, nat)
    decreases rows.len(),
{
    if rows.len() == 0 {
        (0, 0)
    } else {
        let before = group_total(rows.drop_last(), path);
        if rows.last().path == path {
            (before.0 + rows.last().additions, before.1 + rows.last().deletions)
        } else {
            before
        }
    }
}

/// A file without a row adds up to nothing.
proof fn lemma_group_of_absent_file(rows: Seq<DeltaView>, path: Seq<char>)
    requires
        !has_file(rows, path),
    ensures
        group_total(rows, path) == (0nat, 0nat),
    decreases rows.len(),
{
    if rows.len() > 0 {
        let init = rows.drop_last();
        assert(rows[rows.len() - 1].path != path);
        assert(!has_file(init, path)) by {
            if has_file(init, path) {
                let k = choose|k: int| 0 <= k < init.len() && (#[trigger] init[k]).path == path;
                assert(rows[k].path == path);
            }
        }
        lemma_group_of_absent_file(init, path);
    }
}

/// Where no file has two rows, the rows of one file add up to its one row.
pub proof fn lemma_group_of_single_row(rows: Seq<DeltaView>, k: int)
    requires
        distinct_files(rows),
        0 <= k < rows.len(),
    ensures
        group_total(rows, rows[k].path) == (rows[k].additions, rows[k].deletions),
    decreases rows.len(),
{
    let init = rows.drop_last();
    let n = rows.len() - 1;
    let path = rows[k].path;
    assert forall|a: int, b: int| 0 <= a < b < init.len() implies (#[trigger] init[a]).path != (
    #[trigger] init[b]).path by {
        assert(init[a] == rows[a] && init[b] == rows[b]);
    }
    if k == n {
        assert(!has_file(init, path)) by {
            if has_file(init, path) {
                let j = choose|j: int| 0 <= j < init.len() && (#[trigger] init[j]).path == path;
                assert(rows[j].path == rows[n].path);
            }
        }
        lemma_group_of_absent_file(init, path);
    } else {
        assert(rows[k].path != rows[n].path);
        assert(init[k] == rows[k]);
        lemma_group_of_single_row(init, k);
    }
}

/// Grouping the rows of a commit by file and adding up each group gives the
/// rows back: an engine that joins the two relations and groups by commit
/// and file sees, for each file, the counts that the commit's statistics
/// hold, and for any other file nothing.
pub proof fn law_grouping_reproduces_stats(
    comparison: Comparison,
    lines: Seq<LineView>,
    path: Seq<char>,
)
    ensures
        forall|k: int|
            #![trigger stats_of(comparison, lines)[k]]
            0 <= k < stats_of(comparison, lines).len() ==> group_total(
                stats_of(comparison, lines),
                stats_of(comparison, lines)[k].path,
            ) == (stats_of(comparison, lines)[k].additions, stats_of(comparison, lines)[k].deletions),
        !has_file(stats_of(comparison, lines), path) ==> group_total(
            stats_of(comparison, lines),
            path,
        ) == (0nat, 0nat),
        !comparison.is_empty() ==> group_total(stats_of(comparison, lines), path) == (
            tally(lines, path, LineKind::Addition),
            tally(lines, path, LineKind::Deletion),
        ),
{
    let rows = stats_of(comparison, lines);
    law_one_row_per_file(lines);
    assert(distinct_files(rows));
    assert forall|k: int| #![trigger rows[k]] 0 <= k < rows.len() implies group_total(
        rows,
        rows[k].path,
    ) == (rows[k].additions, rows[k].deletions) by {
        lemma_group_of_single_row(rows, k);
    }
    if !has_file(rows, path) {
        lemma_group_of_absent_file(rows, path);
    }
    if !comparison.is_empty() {
        if has_file(rows, path) {
            let k = choose|k: int| 0 <= k < rows.len() && (#[trigger] rows[k]).path == path;
            lemma_group_of_single_row(rows, k);
            assert(rows[k] == delta_of(lines, rows[k].path));
        } else {
            assert(!touches(lines, path));
            lemma_untouched_tally(lines, path, LineKind::Addition);
            lemma_untouched_tally(lines, path, LineKind::Deletion);
        }
    }
}

} // verus!
