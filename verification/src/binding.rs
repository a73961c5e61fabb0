//! The binding planner: from the equality constraints that a query offers
//! on a relation's hidden columns to a bind mode and an argument slot for
//! each constraint that is taken.

use crate::error::{ErrorKind, QueryError};
use crate::relation::Relation;
use crate::text::{copy_text, text_of};
use vstd::prelude::*;

verus! {

/// Which of the two hidden parameters a query supplied.
#[derive(Clone, Copy, Debug, PartialEq, Eq, Structural)]
pub enum BindMode {
    Unbound,
    RevisionBound,
    RepositoryBound,
    BothBound,
}

impl BindMode {
    /// Whether the repository path is supplied in this mode.
    pub open spec fn binds_repository(self) -> bool {
        self == BindMode::RepositoryBound || self == BindMode::BothBound
    }

    /// Whether the revision is supplied in this mode.
    pub open spec fn binds_revision(self) -> bool {
        self == BindMode::RevisionBound || self == BindMode::BothBound
    }

    /// Number of arguments that a filter call carries in this mode.
    pub open spec fn arity(self) -> nat {
        match self {
            BindMode::Unbound => 0,
            BindMode::RevisionBound => 1,
            BindMode::RepositoryBound => 1,
            BindMode::BothBound => 2,
        }
    }

    /// The argument slot of the repository path, counted from zero.
    pub open spec fn repository_slot(self) -> Option<usize> {
        if self.binds_repository() {
            Some(0usize)
        } else {
            None
        }
    }

    /// The argument slot of the revision: it follows the repository path
    /// where both are bound.
    pub open spec fn revision_slot(self) -> Option<usize> {
        match self {
            BindMode::RevisionBound => Some(0usize),
            BindMode::BothBound => Some(1usize),
            _ => None,
        }
    }

    /// The number under which the mode crosses a native call boundary.
    pub open spec fn index(self) -> int {
        match self {
            BindMode::Unbound => 0,
            BindMode::RevisionBound => 1,
            BindMode::RepositoryBound => 2,
            BindMode::BothBound => 3,
        }
    }

    /// Whether the repository path is supplied in this mode.
    pub fn has_repository(self) -> (b: bool)
        ensures
            b == self.binds_repository(),
    {
        match self {
            BindMode::RepositoryBound | BindMode::BothBound => true,
            _ => false,
        }
    }

    /// Whether the revision is supplied in this mode.
    pub fn has_revision(self) -> (b: bool)
        ensures
            b == self.binds_revision(),
    {
        match self {
            BindMode::RevisionBound | BindMode::BothBound => true,
            _ => false,
        }
    }

    /// The argument slot of the repository path, counted from zero.
    pub fn slot_of_repository(self) -> (slot: Option<usize>)
        ensures
            slot == self.repository_slot(),
    {
        match self {
            BindMode::RepositoryBound | BindMode::BothBound => Some(0),
            _ => None,
        }
    }

    /// The argument slot of the revision, counted from zero.
    pub fn slot_of_revision(self) -> (slot: Option<usize>)
        ensures
            slot == self.revision_slot(),
    {
        match self {
            BindMode::RevisionBound => Some(0),
            BindMode::BothBound => Some(1),
            _ => None,
        }
    }

    /// Number of arguments that a filter call carries in this mode.
    pub fn argument_count(self) -> (n: usize)
        ensures
            n == self.arity(),
    {
        match self {
            BindMode::Unbound => 0,
            BindMode::RevisionBound => 1,
            BindMode::RepositoryBound => 1,
            BindMode::BothBound => 2,
        }
    }

    /// The number under which the mode crosses a native call boundary.
    pub fn to_index(self) -> (n: i32)
        ensures
            n == self.index(),
    {
        match self {
            BindMode::Unbound => 0,
            BindMode::RevisionBound => 1,
            BindMode::RepositoryBound => 2,
            BindMode::BothBound => 3,
        }
    }

    /// The mode that crossed the boundary as `n`, if `n` stands for one.
    pub fn from_index(n: i32) -> (mode: Option<BindMode>)
        ensures
            mode matches Some(m) ==> m.index() == n,
            mode is None <==> !(0 <= n <= 3),
    {
        if n == 0 {
            Some(BindMode::Unbound)
        } else if n == 1 {
            Some(BindMode::RevisionBound)
        } else if n == 2 {
            Some(BindMode::RepositoryBound)
        } else if n == 3 {
            Some(BindMode::BothBound)
        } else {
            None
        }
    }
}

/// Every mode crosses the boundary under a number of its own, from zero to
/// three.
pub proof fn law_index_names_one_mode(a: BindMode, b: BindMode)
    ensures
        0 <= a.index() <= 3,
        a.index() == b.index() ==> a == b,
{
}

/// A predicate that the engine offers: the column it restricts, and whether
/// it is an equality that the relation may take as a parameter.
#[derive(Clone, Copy, Debug, PartialEq, Eq, Structural)]
pub struct Constraint {
    pub column: i32,
    pub usable: bool,
}

impl Constraint {
    /// A constraint as the engine offers it. It can be taken as a parameter
    /// only where the engine marks it usable and it is an equality.
    pub fn offered(column: i32, usable: bool, equality: bool) -> (c: Constraint)
        ensures
            c.column == column,
            c.usable == (usable && equality),
    {
        Constraint { column, usable: usable && equality }
    }
}

/// Whether `c` is a usable constraint on `column`.
pub open spec fn restricts(c: Constraint, column: int) -> bool {
    c.usable && c.column == column
}

/// Number of usable constraints on `column` among `cs`.
pub open spec fn bound_count(cs: Seq<Constraint>, column: int) -> nat
    decreases cs.len(),
{
    if cs.len() == 0 {
        0
    } else {
        bound_count(cs.drop_last(), column) + if restricts(cs.last(), column) {
            1nat
        } else {
            0nat
        }
    }
}

/// The mode that a set of constraints selects: a hidden column counts as
/// bound when exactly one usable constraint restricts it, the mode names
/// the bound columns, and a column restricted twice leaves the query
/// unbound. Constraints on other columns play no part.
pub open spec fn plan_mode(cs: Seq<Constraint>, relation: Relation) -> BindMode {
    let repository = bound_count(cs, relation.spec_repository_column());
    let revision = bound_count(cs, relation.spec_revision_column());
    if repository == 1 && revision == 1 {
        BindMode::BothBound
    } else if repository == 1 && revision == 0 {
        BindMode::RepositoryBound
    } else if repository == 0 && revision == 1 {
        BindMode::RevisionBound
    } else {
        BindMode::Unbound
    }
}

/// The argument slot of the constraint at `i`, counted from zero: bound
/// columns take the slots in ascending order of column, and a constraint
/// that takes no part in the mode has none.
pub open spec fn plan_slot(cs: Seq<Constraint>, relation: Relation, i: int) -> Option<usize> {
    let mode = plan_mode(cs, relation);
    if restricts(cs[i], relation.spec_repository_column()) {
        mode.repository_slot()
    } else if restricts(cs[i], relation.spec_revision_column()) {
        mode.revision_slot()
    } else {
        None
    }
}

/// What the planner hands back: the mode, and for each constraint offered
/// the slot that its value takes in the filter call.
#[derive(Clone, Debug, PartialEq, Eq)]
pub struct Plan {
    pub mode: BindMode,
    pub slots: Vec<Option<usize>>,
}

impl Plan {
    /// Whether this plan is the one that `cs` selects on `relation`.
    pub open spec fn answers(self, cs: Seq<Constraint>, relation: Relation) -> bool {
        &&& self.mode == plan_mode(cs, relation)
        &&& self.slots@.len() == cs.len()
        &&& forall|i: int|
            0 <= i < cs.len() ==> #[trigger] self.slots@[i] == plan_slot(cs, relation, i)
    }
}

/// Counts the usable constraints on `column`, stopping at two.
fn count_bound(constraints: &Vec<Constraint>, column: i32) -> (n: u8)
    ensures
        n <= 2,
        n < 2 ==> n == bound_count(constraints@, column as int),
        n == 2 ==> bound_count(constraints@, column as int) >= 2,
{
    let mut n: u8 = 0;
    let mut i: usize = 0;
    while i < constraints.len()
        invariant
            i <= constraints.len(),
            n <= 2,
            n < 2 ==> n == bound_count(constraints@.take(i as int), column as int),
            n == 2 ==> bound_count(constraints@.take(i as int), column as int) >= 2,
        decreases constraints.len() - i,
    {
        proof {
            assert(constraints@.take(i + 1).drop_last() =~= constraints@.take(i as int));
        }
        let c = constraints[i];
        if c.usable && c.column == column && n < 2 {
            n = n + 1;
        }
        i = i + 1;
    }
    proof {
        assert(constraints@.take(i as int) =~= constraints@);
    }
    n
}

/// Plans the binding of a query on `relation` from the constraints offered.
pub fn plan(constraints: &Vec<Constraint>, relation: Relation) -> (p: Plan)
    ensures
        p.answers(constraints@, relation),
{
    let repository_column = relation.repository_column();
    let revision_column = relation.revision_column();
    let repository = count_bound(constraints, repository_column);
    let revision = count_bound(constraints, revision_column);
    let mode = if repository == 1 && revision == 1 {
        BindMode::BothBound
    } else if repository == 1 && revision == 0 {
        BindMode::RepositoryBound
    } else if repository == 0 && revision == 1 {
        BindMode::RevisionBound
    } else {
        BindMode::Unbound
    };
    let mut slots: Vec<Option<usize>> = Vec::new();
    let mut i: usize = 0;
    while i < constraints.len()
        invariant
            i <= constraints.len(),
            slots@.len() == i,
            mode == plan_mode(constraints@, relation),
            repository_column == relation.spec_repository_column(),
            revision_column == relation.spec_revision_column(),
            forall|j: int| 0 <= j < i ==> slots@[j] == plan_slot(constraints@, relation, j),
        decreases constraints.len() - i,
    {
        let c = constraints[i];
        let slot = if c.usable && c.column == repository_column {
            mode.slot_of_repository()
        } else if c.usable && c.column == revision_column {
            mode.slot_of_revision()
        } else {
            None
        };
        slots.push(slot);
        i = i + 1;
    }
    Plan { mode, slots }
}

/// The text that a filter call carries in `slot`: none where the mode has no
/// such slot, the call is too short, or the argument is no text.
pub open spec fn argument(values: Seq<Option<String>>, slot: Option<usize>) -> Option<Seq<char>> {
    match slot {
        Some(k) => if k < values.len() {
            text_of(values[k as int])
        } else {
            None
        },
        None => None,
    }
}

/// Whether a filter call carries every parameter that `mode` names.
pub open spec fn supplies(values: Seq<Option<String>>, mode: BindMode) -> bool {
    &&& mode.binds_repository() ==> argument(values, mode.repository_slot()) is Some
    &&& mode.binds_revision() ==> argument(values, mode.revision_slot()) is Some
}

/// What is said of a call that lacks a parameter: the repository path is
/// named where it is the one that is missing, else the revision.
pub open spec fn missing_message(values: Seq<Option<String>>, mode: BindMode) -> Seq<char> {
    if mode.binds_repository() && argument(values, mode.repository_slot()) is None {
        "the repository path was not supplied"@
    } else {
        "the revision was not supplied"@
    }
}

/// The parameters of one filter call.
#[derive(Clone, Debug, PartialEq, Eq)]
pub struct QueryBinding {
    pub repository: Option<String>,
    pub revision: Option<String>,
    pub mode: BindMode,
}

impl QueryBinding {
    /// Whether these are the parameters that `values` carry under `mode`.
    pub open spec fn reads(self, values: Seq<Option<String>>, mode: BindMode) -> bool {
        &&& self.mode == mode
        &&& text_of(self.repository) == argument(values, mode.repository_slot())
        &&& text_of(self.revision) == argument(values, mode.revision_slot())
    }

    /// The binding of a call without parameters.
    pub fn unbound() -> (b: QueryBinding)
        ensures
            b.mode == BindMode::Unbound,
            b.repository is None,
            b.revision is None,
    {
        QueryBinding { repository: None, revision: None, mode: BindMode::Unbound }
    }
}

/// A copy of the text in `slot`.
fn argument_text(values: &Vec<Option<String>>, slot: Option<usize>) -> (text: Option<String>)
    ensures
        text_of(text) == argument(values@, slot),
{
    match slot {
        Some(k) => {
            if k < values.len() {
                copy_text(&values[k])
            } else {
                None
            }
        },
        None => None,
    }
}

/// Reads the parameters of a filter call: the values arrive in the slots
/// that the plan gave out for `mode`. A parameter that the mode names and
/// the call lacks is a binding error; values beyond the mode's arguments are
/// not read.
pub fn resolve(mode: BindMode, values: &Vec<Option<String>>) -> (r: Result<QueryBinding, QueryError>)
    ensures
        r is Ok <==> supplies(values@, mode),
        r matches Ok(b) ==> b.reads(values@, mode),
        r matches Err(e) ==> e.kind == ErrorKind::ConstraintBinding && e.message@
            == missing_message(values@, mode),
{
    let repository = argument_text(values, mode.slot_of_repository());
    let revision = argument_text(values, mode.slot_of_revision());
    if mode.has_repository() && repository.is_none() {
        return Err(
            QueryError::with_text(ErrorKind::ConstraintBinding, "the repository path was not supplied"),
        );
    }
    if mode.has_revision() && revision.is_none() {
        return Err(QueryError::with_text(ErrorKind::ConstraintBinding, "the revision was not supplied"));
    }
    Ok(QueryBinding { repository, revision, mode })
}

/// No usable constraint among `cs` restricts `column`.
pub open spec fn never_bound(cs: Seq<Constraint>, column: int) -> bool {
    forall|i: int| 0 <= i < cs.len() ==> !restricts(#[trigger] cs[i], column)
}

/// The constraint at `i` is the only usable one among `cs` that restricts
/// `column`.
pub open spec fn bound_only_at(cs: Seq<Constraint>, column: int, i: int) -> bool {
    &&& 0 <= i < cs.len()
    &&& restricts(cs[i], column)
    &&& forall|j: int| 0 <= j < cs.len() && j != i ==> !restricts(#[trigger] cs[j], column)
}

/// Two different usable constraints among `cs` restrict `column`.
pub open spec fn bound_twice(cs: Seq<Constraint>, column: int) -> bool {
    exists|i: int, j: int|
        0 <= i < j < cs.len() && restricts(#[trigger] cs[i], column) && restricts(
            #[trigger] cs[j],
            column,
        )
}

/// The count of usable constraints on a column is zero exactly when none
/// restricts it.
pub proof fn lemma_count_zero(cs: Seq<Constraint>, column: int)
    ensures
        bound_count(cs, column) == 0 <==> never_bound(cs, column),
    decreases cs.len(),
{
    if cs.len() > 0 {
        lemma_count_zero(cs.drop_last(), column);
        if never_bound(cs, column) {
            assert forall|i: int| 0 <= i < cs.drop_last().len() implies !restricts(
                #[trigger] cs.drop_last()[i],
                column,
            ) by {
                assert(cs.drop_last()[i] == cs[i]);
            }
            assert(cs.last() == cs[cs.len() - 1]);
        }
        if bound_count(cs, column) == 0 {
            assert forall|i: int| 0 <= i < cs.len() implies !restricts(
                #[trigger] cs[i],
                column,
            ) by {
                if i < cs.len() - 1 {
                    assert(cs.drop_last()[i] == cs[i]);
                }
            }
        }
    }
}

/// The count is one exactly when a single constraint restricts the column.
pub proof fn lemma_count_one(cs: Seq<Constraint>, column: int)
    ensures
        bound_count(cs, column) == 1 <==> exists|i: int| bound_only_at(cs, column, i),
    decreases cs.len(),
{
    if cs.len() > 0 {
        let init = cs.drop_last();
        let n = cs.len() - 1;
        lemma_count_one(init, column);
        lemma_count_zero(init, column);
        assert forall|i: int| 0 <= i < n implies init[i] == cs[i] by {}
        if bound_count(cs, column) == 1 {
            if restricts(cs.last(), column) {
                assert(never_bound(init, column));
                assert(bound_only_at(cs, column, n));
            } else {
                let i = choose|i: int| bound_only_at(init, column, i);
                assert forall|j: int| 0 <= j < cs.len() && j != i implies !restricts(
                    #[trigger] cs[j],
                    column,
                ) by {
                    if j < n {
                        assert(init[j] == cs[j]);
                    }
                }
                assert(bound_only_at(cs, column, i));
            }
        }
        if exists|i: int| bound_only_at(cs, column, i) {
            let i = choose|i: int| bound_only_at(cs, column, i);
            if i == n {
                assert forall|j: int| 0 <= j < init.len() implies !restricts(
                    #[trigger] init[j],
                    column,
                ) by {
                    assert(init[j] == cs[j]);
                }
                assert(never_bound(init, column));
            } else {
                assert(!restricts(cs[n], column));
                assert forall|j: int| 0 <= j < init.len() && j != i implies !restricts(
                    #[trigger] init[j],
                    column,
                ) by {
                    assert(init[j] == cs[j]);
                }
                assert(bound_only_at(init, column, i));
            }
        }
    }
}

/// The count is two or more exactly when two constraints restrict the
/// column.
pub proof fn lemma_count_many(cs: Seq<Constraint>, column: int)
    ensures
        bound_count(cs, column) >= 2 <==> bound_twice(cs, column),
{
    lemma_count_zero(cs, column);
    lemma_count_one(cs, column);
    if bound_twice(cs, column) {
        let (i, j) = choose|i: int, j: int|
            0 <= i < j < cs.len() && restricts(#[trigger] cs[i], column) && restricts(
                #[trigger] cs[j],
                column,
            );
        if bound_count(cs, column) == 1 {
            let k = choose|k: int| bound_only_at(cs, column, k);
            assert(!restricts(cs[i], column) || !restricts(cs[j], column));
        }
    }
    if bound_count(cs, column) >= 2 {
        assert(!never_bound(cs, column));
        let i = choose|i: int| 0 <= i < cs.len() && restricts(#[trigger] cs[i], column);
        assert(!bound_only_at(cs, column, i));
        let j = choose|j: int| 0 <= j < cs.len() && j != i && restricts(#[trigger] cs[j], column);
        if i < j {
            assert(restricts(cs[i], column) && restricts(cs[j], column));
        } else {
            assert(restricts(cs[j], column) && restricts(cs[i], column));
        }
    }
}

/// The mode names exactly the hidden columns that are restricted once: none
/// gives `Unbound`, the revision alone `RevisionBound`, the repository alone
/// `RepositoryBound`, both `BothBound`. It is `Unbound` as well whenever a
/// hidden column is restricted twice, or one is restricted once and the
/// other twice.
pub proof fn law_mode_names_bound_columns(cs: Seq<Constraint>, relation: Relation)
    ensures
        never_bound(cs, relation.spec_repository_column()) && never_bound(
            cs,
            relation.spec_revision_column(),
        ) ==> plan_mode(cs, relation) == BindMode::Unbound,
        never_bound(cs, relation.spec_repository_column()) && (exists|i: int|
            bound_only_at(cs, relation.spec_revision_column(), i)) ==> plan_mode(cs, relation)
            == BindMode::RevisionBound,
        (exists|i: int| bound_only_at(cs, relation.spec_repository_column(), i)) && never_bound(
            cs,
            relation.spec_revision_column(),
        ) ==> plan_mode(cs, relation) == BindMode::RepositoryBound,
        (exists|i: int| bound_only_at(cs, relation.spec_repository_column(), i)) && (exists|
            i: int,
        | bound_only_at(cs, relation.spec_revision_column(), i)) ==> plan_mode(cs, relation)
            == BindMode::BothBound,
        bound_twice(cs, relation.spec_repository_column()) || bound_twice(
            cs,
            relation.spec_revision_column(),
        ) ==> plan_mode(cs, relation) == BindMode::Unbound,
{
    lemma_count_zero(cs, relation.spec_repository_column());
    lemma_count_zero(cs, relation.spec_revision_column());
    lemma_count_one(cs, relation.spec_repository_column());
    lemma_count_one(cs, relation.spec_revision_column());
    lemma_count_many(cs, relation.spec_repository_column());
    lemma_count_many(cs, relation.spec_revision_column());
}

/// A constraint on a column that is not hidden changes neither the mode nor
/// the slot of any other constraint, and takes no slot itself.
pub proof fn law_other_columns_ignored(cs: Seq<Constraint>, relation: Relation, c: Constraint)
    requires
        !relation.spec_is_hidden(c.column as int),
    ensures
        plan_mode(cs.push(c), relation) == plan_mode(cs, relation),
        plan_slot(cs.push(c), relation, cs.len() as int) is None,
        forall|i: int|
            0 <= i < cs.len() ==> plan_slot(cs.push(c), relation, i) == plan_slot(cs, relation, i),
{
    assert(cs.push(c).drop_last() =~= cs);
}

/// Some constraint among `cs` takes the argument slot `k`.
pub open spec fn slot_taken(cs: Seq<Constraint>, relation: Relation, k: usize) -> bool {
    exists|i: int| 0 <= i < cs.len() && #[trigger] plan_slot(cs, relation, i) == Some(k)
}

/// Slots follow the columns: of two constraints that take a slot, the one
/// on the smaller column takes the smaller slot.
pub proof fn law_slots_ascend_with_columns(
    cs: Seq<Constraint>,
    relation: Relation,
    i: int,
    j: int,
)
    requires
        0 <= i < cs.len(),
        0 <= j < cs.len(),
        plan_slot(cs, relation, i) is Some,
        plan_slot(cs, relation, j) is Some,
        cs[i].column < cs[j].column,
    ensures
        plan_slot(cs, relation, i)->0 < plan_slot(cs, relation, j)->0,
{
}

/// The slots that a plan hands out are exactly the arguments of its mode:
/// every slot below the mode's arity goes to one constraint and no other,
/// and no constraint takes a slot at or above it.
pub proof fn law_slots_are_the_arguments(cs: Seq<Constraint>, relation: Relation)
    ensures
        forall|i: int|
            0 <= i < cs.len() && plan_slot(cs, relation, i) is Some ==> (#[trigger] plan_slot(
                cs,
                relation,
                i,
            ))->0 < plan_mode(cs, relation).arity(),
        forall|k: usize|
            k < plan_mode(cs, relation).arity() ==> #[trigger] slot_taken(cs, relation, k),
        forall|i: int, j: int|
            0 <= i < cs.len() && 0 <= j < cs.len() && plan_slot(cs, relation, i) is Some
                && plan_slot(cs, relation, i) == plan_slot(cs, relation, j) ==> i == j,
{
    let repository = relation.spec_repository_column();
    let revision = relation.spec_revision_column();
    let mode = plan_mode(cs, relation);
    lemma_count_one(cs, repository);
    lemma_count_one(cs, revision);
    assert forall|k: usize| k < mode.arity() implies #[trigger] slot_taken(cs, relation, k) by {
        if mode.binds_repository() && k == 0 {
            let i = choose|i: int| bound_only_at(cs, repository, i);
            assert(plan_slot(cs, relation, i) == Some(k));
        } else {
            assert(mode.binds_revision());
            let i = choose|i: int| bound_only_at(cs, revision, i);
            assert(plan_slot(cs, relation, i) == Some(k));
        }
    }
    assert forall|i: int, j: int|
        0 <= i < cs.len() && 0 <= j < cs.len() && plan_slot(cs, relation, i) is Some && plan_slot(
            cs,
            relation,
            i,
        ) == plan_slot(cs, relation, j) implies i == j by {
        if restricts(cs[i], repository) {
            let k = choose|k: int| bound_only_at(cs, repository, k);
            assert(restricts(cs[j], repository));
            assert(i == k && j == k);
        } else {
            let k = choose|k: int| bound_only_at(cs, revision, k);
            assert(restricts(cs[j], revision));
            assert(i == k && j == k);
        }
    }
}

/// Taking out the constraint at `k` lowers the count by what it added.
proof fn lemma_count_remove(cs: Seq<Constraint>, column: int, k: int)
    requires
        0 <= k < cs.len(),
    ensures
        bound_count(cs, column) == bound_count(cs.remove(k), column) + if restricts(
            cs[k],
            column,
        ) {
            1nat
        } else {
            0nat
        },
    decreases cs.len(),
{
    if k == cs.len() - 1 {
        assert(cs.remove(k) =~= cs.drop_last());
    } else {
        lemma_count_remove(cs.drop_last(), column, k);
        assert(cs.remove(k).drop_last() =~= cs.drop_last().remove(k));
        assert(cs.remove(k).last() == cs.last());
    }
}

/// Two offers of the same constraints in different orders count alike.
proof fn lemma_count_ignores_order(a: Seq<Constraint>, b: Seq<Constraint>, column: int)
    requires
        a.to_multiset() == b.to_multiset(),
    ensures
        bound_count(a, column) == bound_count(b, column),
    decreases a.len(),
{
    broadcast use vstd::seq_lib::group_to_multiset_ensures;

    a.to_multiset_ensures();
    b.to_multiset_ensures();
    if a.len() == 0 {
        assert(b.len() == 0);
    } else {
        let last = a.last();
        assert(a.contains(last)) by {
            assert(a[a.len() - 1] == last);
        }
        assert(b.to_multiset().count(last) > 0);
        assert(b.contains(last));
        let k = choose|k: int| 0 <= k < b.len() && b[k] == last;
        assert(a.drop_last() =~= a.remove(a.len() - 1));
        assert(a.drop_last().to_multiset() =~= b.remove(k).to_multiset());
        lemma_count_ignores_order(a.drop_last(), b.remove(k), column);
        lemma_count_remove(b, column, k);
    }
}

/// The plan does not depend on the order in which the constraints were
/// found: two offers with the same constraints select the same mode, and
/// equal constraints take equal slots in both.
pub proof fn law_plan_ignores_order(a: Seq<Constraint>, b: Seq<Constraint>, relation: Relation)
    requires
        a.to_multiset() == b.to_multiset(),
    ensures
        plan_mode(a, relation) == plan_mode(b, relation),
        forall|i: int, j: int|
            0 <= i < a.len() && 0 <= j < b.len() && a[i] == b[j] ==> plan_slot(a, relation, i)
                == plan_slot(b, relation, j),
{
    lemma_count_ignores_order(a, b, relation.spec_repository_column());
    lemma_count_ignores_order(a, b, relation.spec_revision_column());
}

} // verus!
