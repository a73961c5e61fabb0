use git_relations::error::{ErrorKind, QueryError};
use git_relations::relation::{ColumnKind, Relation};

#[test]
fn commits_has_eleven_data_columns_and_two_parameters() {
    let r = Relation::Commits;
    assert_eq!(r.data_columns(), 11);
    assert_eq!(r.repository_column(), 11);
    assert_eq!(r.revision_column(), 12);
    assert_eq!(r.column_count(), 13);
    assert!(r.is_hidden(11));
    assert!(r.is_hidden(12));
    assert!(!r.is_hidden(10));
    assert!(!r.is_hidden(13));
    assert!(!r.is_hidden(0));
}

#[test]
fn stats_has_three_data_columns_and_two_parameters() {
    let r = Relation::Stats;
    assert_eq!(r.data_columns(), 3);
    assert_eq!(r.repository_column(), 3);
    assert_eq!(r.revision_column(), 4);
    assert_eq!(r.column_count(), 5);
    assert!(r.is_hidden(3));
    assert!(r.is_hidden(4));
    assert!(!r.is_hidden(2));
    assert!(!r.is_hidden(11));
}

#[test]
fn the_commits_declaration() {
    assert_eq!(Relation::Commits.name(), "commits");
    assert_eq!(
        Relation::Commits.declaration(),
        "create table commits(hash text, message text, author_name text, author_email text, \
         author_when DATETIME, committer_name text, committer_email text, \
         committer_when DATETIME, is_merge bool, parent_1 text, parent_2 text, \
         repository hidden, revision hidden)"
    );
}

#[test]
fn the_stats_declaration() {
    assert_eq!(Relation::Stats.name(), "stats");
    assert_eq!(
        Relation::Stats.declaration(),
        "create table stats(file_name text, additions integer, deletions integer, \
         repository hidden, revision hidden)"
    );
}

#[test]
fn columns_have_names_and_kinds() {
    assert_eq!(Relation::Commits.column_name(0), Some("hash"));
    assert_eq!(Relation::Commits.column_name(8), Some("is_merge"));
    assert_eq!(Relation::Commits.column_name(12), Some("revision"));
    assert_eq!(Relation::Commits.column_name(13), None);
    assert_eq!(Relation::Commits.column_name(-1), None);
    assert_eq!(Relation::Stats.column_name(0), Some("file_name"));
    assert_eq!(Relation::Stats.column_name(4), Some("revision"));
    assert_eq!(Relation::Stats.column_name(5), None);
    assert_eq!(Relation::Commits.column_kind(0), Some(ColumnKind::Text));
    assert_eq!(Relation::Commits.column_kind(4), Some(ColumnKind::Timestamp));
    assert_eq!(Relation::Commits.column_kind(7), Some(ColumnKind::Timestamp));
    assert_eq!(Relation::Commits.column_kind(8), Some(ColumnKind::Boolean));
    assert_eq!(Relation::Commits.column_kind(11), Some(ColumnKind::Hidden));
    assert_eq!(Relation::Commits.column_kind(12), Some(ColumnKind::Hidden));
    assert_eq!(Relation::Commits.column_kind(13), None);
    assert_eq!(Relation::Stats.column_kind(1), Some(ColumnKind::Integer));
    assert_eq!(Relation::Stats.column_kind(2), Some(ColumnKind::Integer));
    assert_eq!(Relation::Stats.column_kind(3), Some(ColumnKind::Hidden));
    assert_eq!(ColumnKind::Timestamp.word(), "DATETIME");
    assert_eq!(ColumnKind::Hidden.word(), "hidden");
}

#[test]
fn an_error_carries_its_kind_and_message() {
    let e = QueryError::new(ErrorKind::RepositoryOpen, "no such repository".to_string());
    assert_eq!(e.kind(), ErrorKind::RepositoryOpen);
    assert_eq!(e.message(), "no such repository");
    let e = QueryError::with_text(ErrorKind::TreeLookup, "tree not found");
    assert_eq!(e.kind, ErrorKind::TreeLookup);
    assert_eq!(e.message, "tree not found");
    let e = QueryError::with_text(ErrorKind::DiffComputation, "diff failed");
    assert_eq!(e.kind(), ErrorKind::DiffComputation);
}
