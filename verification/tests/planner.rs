use git_relations::binding::{plan, resolve, BindMode, Constraint};
use git_relations::error::ErrorKind;
use git_relations::relation::Relation;

fn usable(column: i32) -> Constraint {
    Constraint { column, usable: true }
}

fn unusable(column: i32) -> Constraint {
    Constraint { column, usable: false }
}

fn text(s: &str) -> Option<String> {
    Some(s.to_string())
}

#[test]
fn no_constraints_leave_the_query_unbound() {
    let p = plan(&vec![], Relation::Commits);
    assert_eq!(p.mode, BindMode::Unbound);
    assert!(p.slots.is_empty());
}

#[test]
fn repository_alone_is_repository_bound() {
    let p = plan(&vec![usable(11)], Relation::Commits);
    assert_eq!(p.mode, BindMode::RepositoryBound);
    assert_eq!(p.slots, vec![Some(0)]);
}

#[test]
fn revision_alone_is_revision_bound() {
    let p = plan(&vec![usable(12)], Relation::Commits);
    assert_eq!(p.mode, BindMode::RevisionBound);
    assert_eq!(p.slots, vec![Some(0)]);
}

#[test]
fn both_columns_are_both_bound_with_repository_first() {
    let p = plan(&vec![usable(11), usable(12)], Relation::Commits);
    assert_eq!(p.mode, BindMode::BothBound);
    assert_eq!(p.slots, vec![Some(0), Some(1)]);
}

#[test]
fn slots_follow_columns_not_discovery_order() {
    let p = plan(&vec![usable(12), usable(11)], Relation::Commits);
    assert_eq!(p.mode, BindMode::BothBound);
    assert_eq!(p.slots, vec![Some(1), Some(0)]);
}

#[test]
fn constraints_on_data_columns_are_ignored() {
    let p = plan(&vec![usable(0), usable(11), usable(8)], Relation::Commits);
    assert_eq!(p.mode, BindMode::RepositoryBound);
    assert_eq!(p.slots, vec![None, Some(0), None]);
}

#[test]
fn unusable_constraints_are_ignored() {
    let p = plan(&vec![unusable(11), usable(12)], Relation::Commits);
    assert_eq!(p.mode, BindMode::RevisionBound);
    assert_eq!(p.slots, vec![None, Some(0)]);
}

#[test]
fn a_column_restricted_twice_falls_back_to_unbound() {
    let p = plan(&vec![usable(11), usable(11)], Relation::Commits);
    assert_eq!(p.mode, BindMode::Unbound);
    assert_eq!(p.slots, vec![None, None]);
    let q = plan(&vec![usable(11), usable(12), usable(12)], Relation::Commits);
    assert_eq!(q.mode, BindMode::Unbound);
    assert_eq!(q.slots, vec![None, None, None]);
    let r = plan(&vec![usable(12), usable(12), usable(12)], Relation::Commits);
    assert_eq!(r.mode, BindMode::Unbound);
}

#[test]
fn stats_binds_on_its_own_hidden_columns() {
    let p = plan(&vec![usable(4), usable(3)], Relation::Stats);
    assert_eq!(p.mode, BindMode::BothBound);
    assert_eq!(p.slots, vec![Some(1), Some(0)]);
    let q = plan(&vec![usable(11), usable(12)], Relation::Stats);
    assert_eq!(q.mode, BindMode::Unbound);
    assert_eq!(q.slots, vec![None, None]);
    let r = plan(&vec![usable(4)], Relation::Stats);
    assert_eq!(r.mode, BindMode::RevisionBound);
    assert_eq!(r.slots, vec![Some(0)]);
}

#[test]
fn the_plan_is_the_same_in_any_order() {
    let a = vec![usable(12), usable(3), usable(11), unusable(12)];
    let b = vec![unusable(12), usable(11), usable(12), usable(3)];
    let pa = plan(&a, Relation::Commits);
    let pb = plan(&b, Relation::Commits);
    assert_eq!(pa.mode, pb.mode);
    assert_eq!(pa.slots, vec![Some(1), None, Some(0), None]);
    assert_eq!(pb.slots, vec![None, Some(0), Some(1), None]);
}

#[test]
fn planning_twice_gives_the_same_plan() {
    let cs = vec![usable(12), usable(11), usable(2)];
    assert_eq!(plan(&cs, Relation::Commits), plan(&cs, Relation::Commits));
}

#[test]
fn modes_cross_the_boundary_as_numbers() {
    assert_eq!(BindMode::Unbound.to_index(), 0);
    assert_eq!(BindMode::RevisionBound.to_index(), 1);
    assert_eq!(BindMode::RepositoryBound.to_index(), 2);
    assert_eq!(BindMode::BothBound.to_index(), 3);
    assert_eq!(BindMode::from_index(0), Some(BindMode::Unbound));
    assert_eq!(BindMode::from_index(1), Some(BindMode::RevisionBound));
    assert_eq!(BindMode::from_index(2), Some(BindMode::RepositoryBound));
    assert_eq!(BindMode::from_index(3), Some(BindMode::BothBound));
    assert_eq!(BindMode::from_index(4), None);
    assert_eq!(BindMode::from_index(-1), None);
}

#[test]
fn modes_know_their_arguments() {
    assert_eq!(BindMode::Unbound.argument_count(), 0);
    assert_eq!(BindMode::RevisionBound.argument_count(), 1);
    assert_eq!(BindMode::RepositoryBound.argument_count(), 1);
    assert_eq!(BindMode::BothBound.argument_count(), 2);
    assert_eq!(BindMode::BothBound.slot_of_repository(), Some(0));
    assert_eq!(BindMode::BothBound.slot_of_revision(), Some(1));
    assert_eq!(BindMode::RevisionBound.slot_of_revision(), Some(0));
    assert_eq!(BindMode::RevisionBound.slot_of_repository(), None);
    assert_eq!(BindMode::RepositoryBound.slot_of_repository(), Some(0));
    assert_eq!(BindMode::RepositoryBound.slot_of_revision(), None);
    assert_eq!(BindMode::Unbound.slot_of_revision(), None);
    assert!(BindMode::BothBound.has_repository());
    assert!(BindMode::BothBound.has_revision());
    assert!(!BindMode::RevisionBound.has_repository());
    assert!(!BindMode::RepositoryBound.has_revision());
}

#[test]
fn resolve_reads_nothing_when_unbound() {
    let b = resolve(BindMode::Unbound, &vec![text("ignored")]).unwrap();
    assert_eq!(b.mode, BindMode::Unbound);
    assert_eq!(b.repository, None);
    assert_eq!(b.revision, None);
}

#[test]
fn resolve_reads_the_revision_from_the_first_slot() {
    let b = resolve(BindMode::RevisionBound, &vec![text("abc")]).unwrap();
    assert_eq!(b.repository, None);
    assert_eq!(b.revision, text("abc"));
}

#[test]
fn resolve_reads_the_repository_from_the_first_slot() {
    let b = resolve(BindMode::RepositoryBound, &vec![text("./tests")]).unwrap();
    assert_eq!(b.repository, text("./tests"));
    assert_eq!(b.revision, None);
}

#[test]
fn resolve_reads_both_in_column_order() {
    let b = resolve(BindMode::BothBound, &vec![text("./tests"), text("abc"), text("extra")]).unwrap();
    assert_eq!(b.mode, BindMode::BothBound);
    assert_eq!(b.repository, text("./tests"));
    assert_eq!(b.revision, text("abc"));
}

#[test]
fn resolve_reports_a_missing_parameter() {
    let e = resolve(BindMode::RevisionBound, &vec![]).unwrap_err();
    assert_eq!(e.kind, ErrorKind::ConstraintBinding);
    assert_eq!(e.message, "the revision was not supplied");
    let e = resolve(BindMode::BothBound, &vec![text("./tests")]).unwrap_err();
    assert_eq!(e.kind(), ErrorKind::ConstraintBinding);
    let e = resolve(BindMode::RepositoryBound, &vec![None]).unwrap_err();
    assert_eq!(e.kind, ErrorKind::ConstraintBinding);
    assert_eq!(e.message(), "the repository path was not supplied");
    let e = resolve(BindMode::BothBound, &vec![]).unwrap_err();
    assert_eq!(e.message, "the repository path was not supplied");
    let e = resolve(BindMode::BothBound, &vec![text("./tests"), None]).unwrap_err();
    assert_eq!(e.kind, ErrorKind::ConstraintBinding);
}

#[test]
fn only_a_usable_equality_can_be_taken() {
    assert_eq!(Constraint::offered(11, true, true), usable(11));
    assert_eq!(Constraint::offered(11, true, false), unusable(11));
    assert_eq!(Constraint::offered(11, false, true), unusable(11));
    assert_eq!(Constraint::offered(11, false, false), unusable(11));
    let p = plan(
        &vec![Constraint::offered(11, true, false), Constraint::offered(12, true, true)],
        Relation::Commits,
    );
    assert_eq!(p.mode, BindMode::RevisionBound);
    assert_eq!(p.slots, vec![None, Some(0)]);
}
