//! The two relations and the layout of their columns.
//!
//! Both relations end in two hidden parameter columns, the repository path
//! first and the revision second. A hidden column takes its value from an
//! equality predicate of the query and echoes it back in every row.

use crate::text::{cells_view, join, joined};
use vstd::prelude::*;
use vstd::string::*;

verus! {

/// One of the two relations served over a repository.
#[derive(Clone, Copy, Debug, PartialEq, Eq, Structural)]
pub enum Relation {
    /// One row per commit: hash, message, author, committer, merge flag and
    /// the first two parents.
    Commits,
    /// One row per file changed by a commit: path, additions, deletions.
    Stats,
}

impl Relation {
    /// Number of data columns; the hidden parameters follow them.
    pub open spec fn spec_data_columns(self) -> int {
        match self {
            Relation::Commits => 11,
            Relation::Stats => 3,
        }
    }

    /// Column that holds the repository path parameter.
    pub open spec fn spec_repository_column(self) -> int {
        self.spec_data_columns()
    }

    /// Column that holds the revision parameter.
    pub open spec fn spec_revision_column(self) -> int {
        self.spec_data_columns() + 1
    }

    /// Number of columns, hidden ones included.
    pub open spec fn spec_column_count(self) -> int {
        self.spec_data_columns() + 2
    }

    /// Whether `column` is one of the two hidden parameter columns.
    pub open spec fn spec_is_hidden(self, column: int) -> bool {
        column == self.spec_repository_column() || column == self.spec_revision_column()
    }

    /// Number of data columns; the hidden parameters follow them.
    pub fn data_columns(self) -> (n: i32)
        ensures
            n == self.spec_data_columns(),
    {
        match self {
            Relation::Commits => 11,
            Relation::Stats => 3,
        }
    }

    /// Column that holds the repository path parameter.
    pub fn repository_column(self) -> (column: i32)
        ensures
            column == self.spec_repository_column(),
    {
        self.data_columns()
    }

    /// Column that holds the revision parameter.
    pub fn revision_column(self) -> (column: i32)
        ensures
            column == self.spec_revision_column(),
    {
        self.data_columns() + 1
    }

    /// Number of columns, hidden ones included.
    pub fn column_count(self) -> (n: i32)
        ensures
            n == self.spec_column_count(),
    {
        self.data_columns() + 2
    }

    /// Whether `column` is one of the two hidden parameter columns.
    pub fn is_hidden(self, column: i32) -> (hidden: bool)
        ensures
            hidden == self.spec_is_hidden(column as int),
    {
        column == self.repository_column() || column == self.revision_column()
    }
}

/// How a column is declared to the engine.
#[derive(Clone, Copy, Debug, PartialEq, Eq, Structural)]
pub enum ColumnKind {
    Text,
    Timestamp,
    Boolean,
    Integer,
    /// A parameter: bound by an equality predicate, not shown.
    Hidden,
}

impl ColumnKind {
    /// The word that declares a column of this kind.
    pub open spec fn spec_word(self) -> Seq<char> {
        match self {
            ColumnKind::Text => "text"@,
            ColumnKind::Timestamp => "DATETIME"@,
            ColumnKind::Boolean => "bool"@,
            ColumnKind::Integer => "integer"@,
            ColumnKind::Hidden => "hidden"@,
        }
    }

    /// The word that declares a column of this kind.
    pub fn word(self) -> (word: &'static str)
        ensures
            word@ == self.spec_word(),
    {
        match self {
            ColumnKind::Text => "text",
            ColumnKind::Timestamp => "DATETIME",
            ColumnKind::Boolean => "bool",
            ColumnKind::Integer => "integer",
            ColumnKind::Hidden => "hidden",
        }
    }
}

impl Relation {
    /// The name under which the relation is registered.
    pub open spec fn spec_name(self) -> Seq<char> {
        match self {
            Relation::Commits => "commits"@,
            Relation::Stats => "stats"@,
        }
    }

    /// The name of column `i`.
    pub open spec fn spec_column_name(self, i: int) -> Seq<char> {
        match self {
            Relation::Commits => if i == 0 {
                "hash"@
            } else if i == 1 {
                "message"@
            } else if i == 2 {
                "author_name"@
            } else if i == 3 {
                "author_email"@
            } else if i == 4 {
                "author_when"@
            } else if i == 5 {
                "committer_name"@
            } else if i == 6 {
                "committer_email"@
            } else if i == 7 {
                "committer_when"@
            } else if i == 8 {
                "is_merge"@
            } else if i == 9 {
                "parent_1"@
            } else if i == 10 {
                "parent_2"@
            } else if i == 11 {
                "repository"@
            } else {
                "revision"@
            },
            Relation::Stats => if i == 0 {
                "file_name"@
            } else if i == 1 {
                "additions"@
            } else if i == 2 {
                "deletions"@
            } else if i == 3 {
                "repository"@
            } else {
                "revision"@
            },
        }
    }

    /// The kind of column `i`: the two columns behind the data are hidden.
    pub open spec fn spec_column_kind(self, i: int) -> ColumnKind {
        if i >= self.spec_data_columns() {
            ColumnKind::Hidden
        } else {
            match self {
                Relation::Commits => if i == 4 || i == 7 {
                    ColumnKind::Timestamp
                } else if i == 8 {
                    ColumnKind::Boolean
                } else {
                    ColumnKind::Text
                },
                Relation::Stats => if i == 0 {
                    ColumnKind::Text
                } else {
                    ColumnKind::Integer
                },
            }
        }
    }

    /// The declaration of column `i`: its name, a blank, and its kind.
    pub open spec fn spec_column(self, i: int) -> Seq<char> {
        self.spec_column_name(i) + seq![' '] + self.spec_column_kind(i).spec_word()
    }

    /// The declaration of the relation as the engine reads it.
    pub open spec fn spec_declaration(self) -> Seq<char> {
        "create table "@ + self.spec_name() + seq!['('] + joined(
            Seq::new(self.spec_column_count() as nat, |i: int| self.spec_column(i)),
            seq![',', ' '],
        ) + seq![')']
    }

    /// The name under which the relation is registered.
    pub fn name(self) -> (name: &'static str)
        ensures
            name@ == self.spec_name(),
    {
        match self {
            Relation::Commits => "commits",
            Relation::Stats => "stats",
        }
    }

    /// The name of column `i`, for a column that the relation has.
    pub fn column_name(self, i: i32) -> (name: Option<&'static str>)
        ensures
            name is Some <==> 0 <= i < self.spec_column_count(),
            name matches Some(text) ==> text@ == self.spec_column_name(i as int),
    {
        if i < 0 || i >= self.column_count() {
            return None;
        }
        let name = match self {
            Relation::Commits => if i == 0 {
                "hash"
            } else if i == 1 {
                "message"
            } else if i == 2 {
                "author_name"
            } else if i == 3 {
                "author_email"
            } else if i == 4 {
                "author_when"
            } else if i == 5 {
                "committer_name"
            } else if i == 6 {
                "committer_email"
            } else if i == 7 {
                "committer_when"
            } else if i == 8 {
                "is_merge"
            } else if i == 9 {
                "parent_1"
            } else if i == 10 {
                "parent_2"
            } else if i == 11 {
                "repository"
            } else {
                "revision"
            },
            Relation::Stats => if i == 0 {
                "file_name"
            } else if i == 1 {
                "additions"
            } else if i == 2 {
                "deletions"
            } else if i == 3 {
                "repository"
            } else {
                "revision"
            },
        };
        Some(name)
    }

    /// The kind of column `i`, for a column that the relation has.
    pub fn column_kind(self, i: i32) -> (kind: Option<ColumnKind>)
        ensures
            kind is Some <==> 0 <= i < self.spec_column_count(),
            kind matches Some(k) ==> k == self.spec_column_kind(i as int),
    {
        if i < 0 || i >= self.column_count() {
            return None;
        }
        let kind = if i >= self.data_columns() {
            ColumnKind::Hidden
        } else {
            match self {
                Relation::Commits => if i == 4 || i == 7 {
                    ColumnKind::Timestamp
                } else if i == 8 {
                    ColumnKind::Boolean
                } else {
                    ColumnKind::Text
                },
                Relation::Stats => if i == 0 {
                    ColumnKind::Text
                } else {
                    ColumnKind::Integer
                },
            }
        };
        Some(kind)
    }

    /// Writes the declaration of the relation: its name and, in their
    /// order, its columns with their kinds.
    pub fn declaration(self) -> (text: String)
        ensures
            text@ == self.spec_declaration(),
    {
        let mut columns: Vec<String> = Vec::new();
        let count = self.column_count();
        let mut i: i32 = 0;
        while i < count
            invariant
                0 <= i <= count,
                count == self.spec_column_count(),
                columns.len() == i,
                forall|j: int| 0 <= j < i ==> (#[trigger] columns@[j])@ == self.spec_column(j),
            decreases count - i,
        {
            let name = self.column_name(i);
            let kind = self.column_kind(i);
            let mut column = String::new();
            match (name, kind) {
                (Some(name), Some(kind)) => {
                    proof {
                        reveal_strlit(" ");
                        assert(" "@ =~= seq![' ']);
                        assert(Seq::<char>::empty() + name@ =~= name@);
                    }
                    column.append(name);
                    column.append(" ");
                    column.append(kind.word());
                },
                _ => {},
            }
            columns.push(column);
            i = i + 1;
        }
        proof {
            reveal_strlit("(");
            reveal_strlit(")");
            reveal_strlit(", ");
            assert("("@ =~= seq!['(']);
            assert(")"@ =~= seq![')']);
            assert(", "@ =~= seq![',', ' ']);
            assert(cells_view(columns@) =~= Seq::new(
                self.spec_column_count() as nat,
                |i: int| self.spec_column(i),
            ));
        }
        let mut text = "create table ".to_owned();
        text.append(self.name());
        text.append("(");
        text.append(join(&columns, ", ").as_str());
        text.append(")");
        text
    }
}

/// The columns that are declared hidden are the two parameter columns, and
/// they stand behind the data in ascending order, the repository first.
pub proof fn law_hidden_columns_are_the_parameters(relation: Relation, i: int)
    requires
        0 <= i < relation.spec_column_count(),
    ensures
        relation.spec_column_kind(i) == ColumnKind::Hidden <==> relation.spec_is_hidden(i),
        relation.spec_repository_column() < relation.spec_revision_column(),
        relation.spec_revision_column() == relation.spec_column_count() - 1,
{
}

} // verus!
