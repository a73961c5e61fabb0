use git_relations::binding::BindMode;
use git_relations::commits::{CommitCursor, RevisionMode};
use git_relations::cursor::{ColumnValue, CursorState};
use git_relations::error::{ErrorKind, QueryError};
use git_relations::history::{Signature, WalkedCommit};
use git_relations::object_id::ObjectId;
use git_relations::request::{prepare, Request, Start};

const FIRST: &str = "6bf8ee6cd03eac57b7039756edc58c4aed6f6882";
const SECOND: &str = "9096bf0343aecaa4a592da68c10874fd9fe35918";
const MERGE: &str = "00000000000000000000000000000000000000aa";

fn text(s: &str) -> Option<String> {
    Some(s.to_string())
}

fn shown(s: &str) -> ColumnValue {
    ColumnValue::Text(s.to_string())
}

fn walked(hash: &str, message: &str, when: i64, parents: &[&str]) -> WalkedCommit {
    WalkedCommit {
        id: ObjectId::parse(hash).unwrap(),
        message: Some(message.to_string()),
        author: Signature { name: text("Ann"), email: text("ann@example.org"), when },
        committer: Signature { name: text("Bob"), email: None, when: when + 1 },
        parents: parents.iter().map(|p| ObjectId::parse(p).unwrap()).collect(),
    }
}

fn fixture() -> Vec<WalkedCommit> {
    vec![
        walked(MERGE, "Merge\n", 1656700000, &[SECOND, FIRST]),
        walked(SECOND, "Add hello\n", 1656699000, &[FIRST]),
        walked(FIRST, "First commit\n", 1656698157, &[]),
    ]
}

fn unbound_request() -> Request {
    prepare(BindMode::Unbound, &vec![]).unwrap()
}

#[test]
fn a_new_cursor_is_unbound_and_at_the_end() {
    let c = CommitCursor::new(RevisionMode::Ancestry);
    assert_eq!(c.state(), CursorState::Unbound);
    assert!(c.eof());
    assert_eq!(c.row_count(), 0);
    assert_eq!(c.position(), 0);
    assert_eq!(c.mode(), RevisionMode::Ancestry);
    assert_eq!(c.column(0), ColumnValue::Null);
    assert_eq!(c.column(11), ColumnValue::Null);
    assert_eq!(c.rowid(), 1);
}

#[test]
fn the_first_commit_of_the_fixture() {
    let seconds = chrono::DateTime::parse_from_rfc3339("2022-07-01T17:55:57Z").unwrap().timestamp();
    assert_eq!(seconds, 1656698157);
    let mut c = CommitCursor::new(RevisionMode::Ancestry);
    let walk = vec![WalkedCommit {
        id: ObjectId::parse(FIRST).unwrap(),
        message: text("First commit\n"),
        author: Signature { name: text("Ann"), email: text("ann@example.org"), when: seconds },
        committer: Signature { name: text("Ann"), email: text("ann@example.org"), when: seconds },
        parents: vec![],
    }];
    let request = prepare(BindMode::RepositoryBound, &vec![text("./tests")]).unwrap();
    assert_eq!(request.repository, "./tests");
    assert_eq!(request.start, Start::Head);
    c.load(request, &walk).unwrap();
    assert_eq!(c.row_count(), 1);
    assert_eq!(c.column(0), shown(FIRST));
    assert_eq!(c.column(1), shown("First commit\n"));
    assert_eq!(c.column(4), ColumnValue::Timestamp(seconds));
    assert_eq!(c.column(7), ColumnValue::Timestamp(seconds));
    assert_eq!(c.column(8), ColumnValue::Boolean(false));
    assert_eq!(c.column(9), ColumnValue::Null);
    assert_eq!(c.column(10), ColumnValue::Null);
    assert_eq!(c.column(11), shown("./tests"));
    assert_eq!(c.column(12), ColumnValue::Null);
}

#[test]
fn every_column_of_a_merge() {
    let mut c = CommitCursor::new(RevisionMode::Ancestry);
    c.load(unbound_request(), &fixture()).unwrap();
    assert_eq!(c.state(), CursorState::Bound);
    assert_eq!(c.column(0), shown(MERGE));
    assert_eq!(c.column(1), shown("Merge\n"));
    assert_eq!(c.column(2), shown("Ann"));
    assert_eq!(c.column(3), shown("ann@example.org"));
    assert_eq!(c.column(4), ColumnValue::Timestamp(1656700000));
    assert_eq!(c.column(5), shown("Bob"));
    assert_eq!(c.column(6), ColumnValue::Null);
    assert_eq!(c.column(7), ColumnValue::Timestamp(1656700001));
    assert_eq!(c.column(8), ColumnValue::Boolean(true));
    assert_eq!(c.column(9), shown(SECOND));
    assert_eq!(c.column(10), shown(FIRST));
    assert_eq!(c.column(11), ColumnValue::Null);
    assert_eq!(c.column(12), ColumnValue::Null);
    assert_eq!(c.column(13), ColumnValue::Null);
    assert_eq!(c.column(-1), ColumnValue::Null);
    assert_eq!(c.column(i32::MAX), ColumnValue::Null);
    assert_eq!(c.rowid(), 1);
}

#[test]
fn next_walks_the_rows_and_goes_on_behind_the_last() {
    let mut c = CommitCursor::new(RevisionMode::Ancestry);
    c.load(unbound_request(), &fixture()).unwrap();
    assert_eq!(c.row_count(), 3);
    let mut seen = Vec::new();
    while !c.eof() {
        assert_eq!(c.state(), CursorState::Bound);
        assert_eq!(c.rowid(), 1);
        seen.push(c.column(0));
        c.next();
    }
    assert_eq!(seen, vec![shown(MERGE), shown(SECOND), shown(FIRST)]);
    assert_eq!(c.state(), CursorState::Exhausted);
    assert_eq!(c.position(), 3);
    assert_eq!(c.column(0), ColumnValue::Null);
    c.next();
    c.next();
    assert_eq!(c.position(), 5);
    assert_eq!(c.row_count(), 3);
    assert!(c.eof());
    assert_eq!(c.state(), CursorState::Exhausted);
    assert_eq!(c.column(0), ColumnValue::Null);
    assert_eq!(c.column(11), ColumnValue::Null);
}

#[test]
fn an_empty_walk_is_exhausted_at_once() {
    let mut c = CommitCursor::new(RevisionMode::Ancestry);
    c.load(unbound_request(), &vec![]).unwrap();
    assert_eq!(c.state(), CursorState::Exhausted);
    assert!(c.eof());
}

#[test]
fn a_bound_revision_walks_its_ancestry() {
    let mut c = CommitCursor::new(RevisionMode::Ancestry);
    let request = prepare(BindMode::RevisionBound, &vec![text(SECOND)]).unwrap();
    assert_eq!(request.repository, ".");
    assert_eq!(request.start, Start::Commit(ObjectId::parse(SECOND).unwrap()));
    let walk = fixture().split_off(1);
    c.load(request, &walk).unwrap();
    assert_eq!(c.row_count(), 2);
    assert_eq!(c.column(0), shown(SECOND));
    assert_eq!(c.column(11), ColumnValue::Null);
    assert_eq!(c.column(12), shown(SECOND));
    c.next();
    assert!(!c.eof());
    assert_eq!(c.column(0), shown(FIRST));
    assert_eq!(c.column(12), shown(SECOND));
    c.next();
    assert!(c.eof());
}

#[test]
fn a_single_commit_revision_serves_exactly_one_row() {
    let mut c = CommitCursor::new(RevisionMode::SingleCommit);
    let request = prepare(BindMode::RevisionBound, &vec![text(SECOND)]).unwrap();
    c.load(request, &fixture()).unwrap();
    assert_eq!(c.row_count(), 1);
    assert!(!c.eof());
    assert_eq!(c.column(0), shown(SECOND));
    assert_eq!(c.column(1), shown("Add hello\n"));
    assert_eq!(c.column(12), shown(SECOND));
    c.next();
    assert!(c.eof());
    assert_eq!(c.state(), CursorState::Exhausted);
}

#[test]
fn a_single_commit_cursor_without_revision_serves_the_walk() {
    let mut c = CommitCursor::new(RevisionMode::SingleCommit);
    c.load(unbound_request(), &fixture()).unwrap();
    assert_eq!(c.row_count(), 3);
    let request = prepare(BindMode::RepositoryBound, &vec![text("/srv/repo")]).unwrap();
    c.load(request, &fixture()).unwrap();
    assert_eq!(c.row_count(), 3);
    assert_eq!(c.column(11), shown("/srv/repo"));
}

#[test]
fn a_single_commit_that_the_walk_did_not_meet_does_not_resolve() {
    let mut c = CommitCursor::new(RevisionMode::SingleCommit);
    c.load(unbound_request(), &fixture()).unwrap();
    let request = prepare(BindMode::RevisionBound, &vec![text("abcd")]).unwrap();
    let e = c.load(request, &fixture()).unwrap_err();
    assert_eq!(e.kind, ErrorKind::RevisionResolution);
    assert_eq!(c.state(), CursorState::Unbound);
    assert_eq!(c.row_count(), 0);
    assert!(c.eof());
    assert_eq!(c.column(12), ColumnValue::Null);
}

#[test]
fn filtering_again_leaves_nothing_of_the_call_before() {
    let mut c = CommitCursor::new(RevisionMode::Ancestry);
    let first = prepare(BindMode::BothBound, &vec![text("/one"), text(MERGE)]).unwrap();
    c.load(first, &fixture()).unwrap();
    c.next();
    c.next();
    assert_eq!(c.position(), 2);
    assert_eq!(c.column(11), shown("/one"));
    assert_eq!(c.column(12), shown(MERGE));

    let second = prepare(BindMode::RevisionBound, &vec![text(FIRST)]).unwrap();
    let walk = fixture().split_off(2);
    c.load(second, &walk).unwrap();
    assert_eq!(c.position(), 0);
    assert_eq!(c.row_count(), 1);
    assert_eq!(c.column(0), shown(FIRST));
    assert_eq!(c.column(11), ColumnValue::Null);
    assert_eq!(c.column(12), shown(FIRST));

    let mut fresh = CommitCursor::new(RevisionMode::Ancestry);
    let same = prepare(BindMode::RevisionBound, &vec![text(FIRST)]).unwrap();
    fresh.load(same, &walk).unwrap();
    for i in -1..15 {
        assert_eq!(c.column(i), fresh.column(i));
    }
    assert_eq!(c.row_count(), fresh.row_count());
    assert_eq!(c.state(), fresh.state());
}

#[test]
fn reset_forgets_rows_and_parameters() {
    let mut c = CommitCursor::new(RevisionMode::SingleCommit);
    let request = prepare(BindMode::RepositoryBound, &vec![text("/one")]).unwrap();
    c.load(request, &fixture()).unwrap();
    c.reset();
    assert_eq!(c.state(), CursorState::Unbound);
    assert_eq!(c.row_count(), 0);
    assert_eq!(c.column(11), ColumnValue::Null);
    assert_eq!(c.mode(), RevisionMode::SingleCommit);
}

#[test]
fn prepare_reports_what_is_wrong_with_a_call() {
    let e = prepare(BindMode::RevisionBound, &vec![]).unwrap_err();
    assert_eq!(e.kind, ErrorKind::ConstraintBinding);
    let e = prepare(BindMode::RevisionBound, &vec![text("not a name")]).unwrap_err();
    assert_eq!(e.kind, ErrorKind::RevisionResolution);
    let e = prepare(BindMode::BothBound, &vec![text("/one"), text("")]).unwrap_err();
    assert_eq!(e.kind, ErrorKind::RevisionResolution);
    let e = prepare(BindMode::BothBound, &vec![None, text(FIRST)]).unwrap_err();
    assert_eq!(e.kind, ErrorKind::ConstraintBinding);
}

#[test]
fn prepare_keeps_the_parameters_as_given() {
    let upper = SECOND.to_uppercase();
    let r = prepare(BindMode::BothBound, &vec![text("/one"), text(&upper)]).unwrap();
    assert_eq!(r.binding.mode, BindMode::BothBound);
    assert_eq!(r.binding.repository, text("/one"));
    assert_eq!(r.binding.revision, text(&upper));
    assert_eq!(r.repository, "/one");
    assert_eq!(r.start, Start::Commit(ObjectId::parse(SECOND).unwrap()));
    let r = prepare(BindMode::Unbound, &vec![text("/one")]).unwrap();
    assert_eq!(r.binding.repository, None);
    assert_eq!(r.repository, ".");
    assert_eq!(r.start, Start::Head);
}

#[test]
fn next_moves_on_one_place_on_every_call() {
    let mut c = CommitCursor::new(RevisionMode::Ancestry);
    c.next();
    assert_eq!(c.position(), 1);
    assert_eq!(c.state(), CursorState::Unbound);
    assert!(c.eof());
    c.load(unbound_request(), &fixture()).unwrap();
    assert_eq!(c.position(), 0);
    for k in 1..=7 {
        c.next();
        assert_eq!(c.position(), k);
        assert_eq!(c.row_count(), 3);
        assert_eq!(c.eof(), k >= 3);
    }
}

#[test]
fn a_reading_that_failed_leaves_the_cursor_unbound() {
    let mut c = CommitCursor::new(RevisionMode::Ancestry);
    let request = prepare(BindMode::RepositoryBound, &vec![text("/one")]).unwrap();
    c.finish(Ok((request, fixture()))).unwrap();
    c.next();
    assert_eq!(c.row_count(), 3);
    assert_eq!(c.column(11), shown("/one"));

    let failure = QueryError::new(ErrorKind::RepositoryOpen, "no repository at /two".to_string());
    let e = c.finish(Err(failure.clone())).unwrap_err();
    assert_eq!(e, failure);
    assert_eq!(c.state(), CursorState::Unbound);
    assert_eq!(c.row_count(), 0);
    assert_eq!(c.position(), 0);
    assert!(c.eof());
    for i in -1..15 {
        assert_eq!(c.column(i), ColumnValue::Null);
    }
}

#[test]
fn a_reading_that_succeeded_is_loaded() {
    let mut c = CommitCursor::new(RevisionMode::SingleCommit);
    let request = prepare(BindMode::RevisionBound, &vec![text(SECOND)]).unwrap();
    c.finish(Ok((request, fixture()))).unwrap();
    assert_eq!(c.row_count(), 1);
    assert_eq!(c.column(0), shown(SECOND));

    let request = prepare(BindMode::RevisionBound, &vec![text("abcd")]).unwrap();
    let e = c.finish(Ok((request, fixture()))).unwrap_err();
    assert_eq!(e.kind, ErrorKind::RevisionResolution);
    assert_eq!(e.message, "the revision names no commit of the walk");
    assert_eq!(c.state(), CursorState::Unbound);
}
