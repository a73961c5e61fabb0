use git_relations::binding::BindMode;
use git_relations::cursor::{ColumnValue, CursorState};
use git_relations::diff::{comparison, LineChange, LineKind};
use git_relations::error::{ErrorKind, QueryError};
use git_relations::request::prepare;
use git_relations::stats::StatsCursor;

const SECOND: &str = "9096bf0343aecaa4a592da68c10874fd9fe35918";
const OTHER: &str = "6bf8ee6cd03eac57b7039756edc58c4aed6f6882";

fn text(s: &str) -> Option<String> {
    Some(s.to_string())
}

fn shown(s: &str) -> ColumnValue {
    ColumnValue::Text(s.to_string())
}

fn line(path: &str, kind: LineKind) -> LineChange {
    LineChange { path: path.to_string(), kind }
}

#[test]
fn a_new_stats_cursor_is_unbound() {
    let c = StatsCursor::new();
    assert_eq!(c.state(), CursorState::Unbound);
    assert!(c.eof());
    assert_eq!(c.row_count(), 0);
    assert_eq!(c.position(), 0);
    assert_eq!(c.column(0), ColumnValue::Null);
    assert_eq!(c.rowid(), 1);
}

#[test]
fn the_second_commit_of_the_fixture_adds_one_line_to_hello_txt() {
    let mut c = StatsCursor::new();
    let request = prepare(BindMode::BothBound, &vec![text("./tests"), text(SECOND)]).unwrap();
    c.load(request, comparison(1).unwrap(), &vec![line("hello.txt", LineKind::Addition)]);
    assert_eq!(c.row_count(), 1);
    assert_eq!(c.state(), CursorState::Bound);
    assert_eq!(c.column(0), shown("hello.txt"));
    assert_eq!(c.column(1), ColumnValue::Count(1));
    assert_eq!(c.column(2), ColumnValue::Count(0));
    assert_eq!(c.column(3), shown("./tests"));
    assert_eq!(c.column(4), shown(SECOND));
    assert_eq!(c.column(5), ColumnValue::Null);
    assert_eq!(c.column(-1), ColumnValue::Null);
    assert_eq!(c.rowid(), 1);
    c.next();
    assert!(c.eof());
    assert_eq!(c.state(), CursorState::Exhausted);
    assert_eq!(c.column(0), ColumnValue::Null);
    c.next();
    assert_eq!(c.position(), 2);
    assert_eq!(c.row_count(), 1);
    assert!(c.eof());
}

#[test]
fn a_root_commit_serves_no_row() {
    let mut c = StatsCursor::new();
    let request = prepare(BindMode::RevisionBound, &vec![text(OTHER)]).unwrap();
    c.load(request, comparison(0).unwrap(), &vec![line("hello.txt", LineKind::Addition)]);
    assert_eq!(c.row_count(), 0);
    assert!(c.eof());
    assert_eq!(c.state(), CursorState::Exhausted);
}

#[test]
fn a_rebound_stats_cursor_holds_the_new_commit_alone() {
    let mut c = StatsCursor::new();
    let first = prepare(BindMode::BothBound, &vec![text("/one"), text(OTHER)]).unwrap();
    let lines = vec![
        line("a", LineKind::Addition),
        line("b", LineKind::Deletion),
        line("a", LineKind::Deletion),
    ];
    c.load(first, comparison(2).unwrap(), &lines);
    assert_eq!(c.row_count(), 2);
    c.next();
    assert_eq!(c.column(0), shown("b"));
    assert_eq!(c.column(1), ColumnValue::Count(0));
    assert_eq!(c.column(2), ColumnValue::Count(1));
    assert_eq!(c.column(3), shown("/one"));

    let second = prepare(BindMode::RevisionBound, &vec![text(SECOND)]).unwrap();
    c.load(second, comparison(1).unwrap(), &vec![line("hello.txt", LineKind::Addition)]);
    assert_eq!(c.position(), 0);
    assert_eq!(c.row_count(), 1);
    assert_eq!(c.column(0), shown("hello.txt"));
    assert_eq!(c.column(3), ColumnValue::Null);
    assert_eq!(c.column(4), shown(SECOND));

    c.reset();
    assert_eq!(c.state(), CursorState::Unbound);
    assert_eq!(c.row_count(), 0);
    assert_eq!(c.column(4), ColumnValue::Null);
}

#[test]
fn a_join_sees_what_a_direct_query_sees() {
    let lines = vec![
        line("a", LineKind::Addition),
        line("b", LineKind::Deletion),
        line("a", LineKind::Addition),
    ];
    let mut direct = StatsCursor::new();
    direct.load(
        prepare(BindMode::RevisionBound, &vec![text(SECOND)]).unwrap(),
        comparison(1).unwrap(),
        &lines,
    );
    let mut joined = StatsCursor::new();
    joined.load(
        prepare(BindMode::RevisionBound, &vec![text(OTHER)]).unwrap(),
        comparison(1).unwrap(),
        &vec![line("zzz", LineKind::Deletion)],
    );
    joined.next();
    joined.load(
        prepare(BindMode::RevisionBound, &vec![text(SECOND)]).unwrap(),
        comparison(1).unwrap(),
        &lines,
    );
    assert_eq!(direct.row_count(), joined.row_count());
    while !direct.eof() {
        for i in 0..5 {
            assert_eq!(direct.column(i), joined.column(i));
        }
        direct.next();
        joined.next();
    }
    assert!(joined.eof());
}

#[test]
fn a_stats_cursor_moves_on_one_place_on_every_call() {
    let mut c = StatsCursor::new();
    c.next();
    c.next();
    assert_eq!(c.position(), 2);
    assert_eq!(c.state(), CursorState::Unbound);
    let request = prepare(BindMode::Unbound, &vec![]).unwrap();
    c.load(request, comparison(1).unwrap(), &vec![line("a", LineKind::Addition)]);
    assert_eq!(c.position(), 0);
    c.next();
    c.next();
    c.next();
    assert_eq!(c.position(), 3);
    assert_eq!(c.row_count(), 1);
    assert!(c.eof());
}

#[test]
fn a_failed_stats_reading_leaves_no_row_of_the_call_before() {
    let mut c = StatsCursor::new();
    let request = prepare(BindMode::BothBound, &vec![text("/one"), text(SECOND)]).unwrap();
    c.finish(Ok((request, comparison(1).unwrap(), vec![line("hello.txt", LineKind::Addition)])))
        .unwrap();
    assert_eq!(c.row_count(), 1);
    assert_eq!(c.column(0), shown("hello.txt"));
    assert_eq!(c.column(3), shown("/one"));

    let failure = QueryError::new(ErrorKind::TreeLookup, "tree not found".to_string());
    let e = c.finish(Err(failure.clone())).unwrap_err();
    assert_eq!(e, failure);
    assert_eq!(c.state(), CursorState::Unbound);
    assert_eq!(c.row_count(), 0);
    assert_eq!(c.position(), 0);
    for i in -1..7 {
        assert_eq!(c.column(i), ColumnValue::Null);
    }
    let failure = QueryError::new(ErrorKind::DiffComputation, "diff failed".to_string());
    assert_eq!(c.finish(Err(failure.clone())).unwrap_err(), failure);
}
