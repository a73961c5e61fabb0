//! Result tables as text: columns of even width under their names.

use crate::text::{cells_view, join, joined};
use vstd::prelude::*;
use vstd::std_specs::iter::IteratorSpec;
use vstd::string::*;

verus! {

/// No column is wider than this many characters.
pub const MAX_WIDTH: usize = 50;

/// The widest cell in column `i` of `rows`.
pub open spec fn widest(rows: Seq<Seq<Seq<char>>>, i: int) -> nat
    decreases rows.len(),
{
    if rows.len() == 0 {
        0
    } else {
        let before = widest(rows.drop_last(), i);
        let here = rows.last()[i].len();
        if here > before {
            here
        } else {
            before
        }
    }
}

/// `n` times the character `c`.
pub open spec fn run(c: char, n: nat) -> Seq<char> {
    Seq::new(n, |i: int| c)
}

/// A cell brought to `width` characters: cut where it is longer, filled up
/// with blanks where it is shorter.
pub open spec fn fitted(cell: Seq<char>, width: nat) -> Seq<char> {
    if cell.len() >= width {
        cell.take(width as int)
    } else {
        cell + run(' ', (width - cell.len()) as nat)
    }
}

/// The cells one after another, `separator` behind each.
pub open spec fn trailed(cells: Seq<Seq<char>>, separator: Seq<char>) -> Seq<char>
    decreases cells.len(),
{
    if cells.len() == 0 {
        Seq::empty()
    } else {
        trailed(cells.drop_last(), separator) + cells.last() + separator
    }
}

/// The sum of the widths.
pub open spec fn total(widths: Seq<nat>) -> nat
    decreases widths.len(),
{
    if widths.len() == 0 {
        0
    } else {
        total(widths.drop_last()) + widths.last()
    }
}

/// The separator between two cells.
pub open spec fn bar() -> Seq<char> {
    seq![' ', '|', ' ']
}

/// A table, its names and cells as characters.
pub struct TableView {
    pub names: Seq<Seq<char>>,
    pub rows: Seq<Seq<Seq<char>>>,
}

impl TableView {
    /// Every row has a cell for each column.
    pub open spec fn wf(self) -> bool {
        forall|r: int| 0 <= r < self.rows.len() ==> (#[trigger] self.rows[r]).len() == self.names.len()
    }

    /// The width of column `i`: that of its widest cell or of its name, but
    /// no more than the largest width.
    pub open spec fn width(self, i: int) -> nat {
        let name = self.names[i].len();
        let cells = widest(self.rows, i);
        let most = if name > cells {
            name
        } else {
            cells
        };
        if most > MAX_WIDTH {
            MAX_WIDTH as nat
        } else {
            most
        }
    }

    /// The widths of all columns.
    pub open spec fn widths(self) -> Seq<nat> {
        Seq::new(self.names.len(), |i: int| self.width(i))
    }

    /// The cells of a row, each brought to the width of its column.
    pub open spec fn fit_row(self, cells: Seq<Seq<char>>) -> Seq<Seq<char>> {
        Seq::new(self.names.len(), |i: int| fitted(cells[i], self.width(i)))
    }

    /// The line of the column names.
    pub open spec fn heading(self) -> Seq<char> {
        joined(self.fit_row(self.names), bar())
    }

    /// The line under the names: a dash for every character of the columns,
    /// three more for each column, and one.
    pub open spec fn rule(self) -> Seq<char> {
        run('-', total(self.widths()) + 3 * self.names.len() + 1)
    }

    /// The line of row `r`, between two bars.
    pub open spec fn line(self, r: int) -> Seq<char> {
        seq!['|'] + joined(self.fit_row(self.rows[r]), bar()) + seq!['|']
    }

    /// The table as lines: the names, the rule, and a line for each row.
    pub open spec fn rendering(self) -> Seq<Seq<char>> {
        seq![self.heading(), self.rule()] + Seq::new(self.rows.len(), |r: int| self.line(r))
    }

    /// A row as it is printed: behind an opening bar, each cell with a bar
    /// after it.
    pub open spec fn printed_line(self, cells: Seq<Seq<char>>) -> Seq<char> {
        seq!['|', ' '] + trailed(self.fit_row(cells), bar())
    }

    /// The table as it is printed: the names, the rule, and the rows, all
    /// in one form.
    pub open spec fn printing(self) -> Seq<Seq<char>> {
        seq![self.printed_line(self.names), self.rule()] + Seq::new(
            self.rows.len(),
            |r: int| self.printed_line(self.rows[r]),
        )
    }
}

/// The rows as values.
pub open spec fn grid_view(rows: Seq<Vec<String>>) -> Seq<Seq<Seq<char>>> {
    rows.map_values(|r: Vec<String>| cells_view(r@))
}

/// The lines as values.
pub open spec fn lines_view(lines: Seq<String>) -> Seq<Seq<char>> {
    lines.map_values(|l: String| l@)
}

/// A result table: the names of its columns and its rows of cells.
#[derive(Debug)]
pub struct Table {
    names: Vec<String>,
    rows: Vec<Vec<String>>,
}

impl View for Table {
    type V = TableView;

    closed spec fn view(&self) -> TableView {
        TableView { names: cells_view(self.names@), rows: grid_view(self.rows@) }
    }
}

/// `n` blanks.
fn blanks(n: usize) -> (text: String)
    ensures
        text@ == run(' ', n as nat),
{
    let mut text = String::new();
    let mut k: usize = 0;
    assert(text@ =~= run(' ', 0));
    while k < n
        invariant
            k <= n,
            text@ == run(' ', k as nat),
        decreases n - k,
    {
        proof {
            reveal_strlit(" ");
            assert(" "@ =~= seq![' ']);
            assert(run(' ', k as nat) + seq![' '] =~= run(' ', (k + 1) as nat));
        }
        text.append(" ");
        k = k + 1;
    }
    text
}

/// Adds `n` dashes to `text`.
fn add_dashes(text: &mut String, n: usize)
    ensures
        final(text)@ == old(text)@ + run('-', n as nat),
{
    let mut k: usize = 0;
    assert(text@ =~= old(text)@ + run('-', 0));
    while k < n
        invariant
            k <= n,
            text@ == old(text)@ + run('-', k as nat),
        decreases n - k,
    {
        proof {
            reveal_strlit("-");
            assert("-"@ =~= seq!['-']);
            assert(old(text)@ + run('-', k as nat) + seq!['-'] =~= old(text)@ + run(
                '-',
                (k + 1) as nat,
            ));
        }
        text.append("-");
        k = k + 1;
    }
}

/// A cell at the width of its column.
fn fit(cell: &String, width: usize) -> (text: String)
    ensures
        text@ == fitted(cell@, width as nat),
{
    let length = cell.as_str().unicode_len();
    if length >= width {
        cell.as_str().substring_char(0, width).to_owned()
    } else {
        let mut text = cell.clone();
        let fill = blanks(width - length);
        text.append(fill.as_str());
        text
    }
}

/// The widths as numbers.
pub open spec fn as_nats(widths: Seq<usize>) -> Seq<nat> {
    widths.map_values(|w: usize| w as nat)
}

/// The cells, each at the width of its place.
pub open spec fn fit_each(cells: Seq<Seq<char>>, widths: Seq<nat>) -> Seq<Seq<char>> {
    Seq::new(widths.len(), |i: int| fitted(cells[i], widths[i]))
}

/// Brings each cell to the width of its column.
fn fit_cells(cells: &Vec<String>, widths: &Vec<usize>) -> (fit_cells: Vec<String>)
    requires
        cells.len() == widths.len(),
    ensures
        cells_view(fit_cells@) == fit_each(cells_view(cells@), as_nats(widths@)),
{
    let mut out: Vec<String> = Vec::new();
    let mut i: usize = 0;
    while i < cells.len()
        invariant
            i <= cells.len(),
            cells.len() == widths.len(),
            out.len() == i,
            forall|j: int| 0 <= j < i ==> (#[trigger] out@[j])@ == fitted(cells@[j]@, widths@[j] as nat),
        decreases cells.len() - i,
    {
        out.push(fit(&cells[i], widths[i]));
        i = i + 1;
    }
    assert(cells_view(out@) =~= fit_each(cells_view(cells@), as_nats(widths@)));
    out
}

/// Puts the cells one after another with `separator` behind each.
fn trail(cells: &Vec<String>, separator: &str) -> (text: String)
    ensures
        text@ == trailed(cells_view(cells@), separator@),
{
    let ghost all = cells_view(cells@);
    let mut text = String::new();
    let mut i: usize = 0;
    assert(all.take(0) =~= Seq::empty());
    while i < cells.len()
        invariant
            i <= cells.len(),
            all == cells_view(cells@),
            text@ == trailed(all.take(i as int), separator@),
        decreases cells.len() - i,
    {
        proof {
            assert(all.take(i + 1).drop_last() =~= all.take(i as int));
            assert(all.take(i + 1).last() == cells@[i as int]@);
        }
        text.append(cells[i].as_str());
        text.append(separator);
        i = i + 1;
    }
    assert(all.take(i as int) =~= all);
    text
}

impl Table {
    /// Every table is well formed.
    #[verifier::type_invariant]
    spec fn inv(self) -> bool {
        self@.wf()
    }

    /// A table with the columns `names` and no row.
    pub fn new(names: Vec<String>) -> (table: Table)
        ensures
            table@ == (TableView { names: cells_view(names@), rows: Seq::empty() }),
            table@.wf(),
    {
        let table = Table { names, rows: Vec::new() };
        assert(table@.rows =~= Seq::empty());
        table
    }

    /// Adds a row, if it has a cell for each column and no more; a row of
    /// another length is not taken.
    pub fn push_row(&mut self, cells: Vec<String>) -> (taken: bool)
        ensures
            taken == (cells.len() == old(self)@.names.len()),
            final(self)@ == if taken {
                TableView { rows: old(self)@.rows.push(cells_view(cells@)), ..old(self)@ }
            } else {
                old(self)@
            },
            final(self)@.wf(),
    {
        proof {
            use_type_invariant(&*self);
        }
        if cells.len() == self.names.len() {
            let ghost before = self@.rows;
            let ghost row = cells_view(cells@);
            proof {
                assert forall|r: int| 0 <= r < before.push(row).len() implies (
                #[trigger] before.push(row)[r]).len() == self@.names.len() by {
                    if r < before.len() {
                        assert(before.push(row)[r] == before[r]);
                    }
                }
                assert(grid_view(self.rows@.push(cells)) =~= before.push(row));
            }
            let mut taken = Table::new(Vec::new());
            core::mem::swap(self, &mut taken);
            let Table { names, mut rows } = taken;
            rows.push(cells);
            *self = Table { names, rows };
            true
        } else {
            false
        }
    }

    /// Number of columns.
    pub fn column_count(&self) -> (n: usize)
        ensures
            n == self@.names.len(),
    {
        self.names.len()
    }

    /// Number of rows.
    pub fn row_count(&self) -> (n: usize)
        ensures
            n == self@.rows.len(),
    {
        self.rows.len()
    }

    /// The width of column `i`.
    fn width_of(&self, i: usize) -> (width: usize)
        requires
            i < self@.names.len(),
        ensures
            width == self@.width(i as int),
            width <= MAX_WIDTH,
    {
        proof {
            use_type_invariant(self);
        }
        let ghost grid = self@.rows;
        let name = self.names[i].as_str().unicode_len();
        let mut cells: usize = 0;
        let mut r: usize = 0;
        assert(grid.take(0) =~= Seq::empty());
        while r < self.rows.len()
            invariant
                r <= self.rows.len(),
                i < self@.names.len(),
                self@.wf(),
                grid == self@.rows,
                cells == widest(grid.take(r as int), i as int),
            decreases self.rows.len() - r,
        {
            proof {
                assert(grid.take(r + 1).drop_last() =~= grid.take(r as int));
                assert(grid.take(r + 1).last() == grid[r as int]);
                assert(grid[r as int] == cells_view(self.rows@[r as int]@));
                assert(grid[r as int].len() == self@.names.len());
                assert(grid[r as int][i as int] == self.rows@[r as int]@[i as int]@);
            }
            let here = self.rows[r][i].as_str().unicode_len();
            if here > cells {
                cells = here;
            }
            r = r + 1;
        }
        assert(grid.take(r as int) =~= grid);
        let most = if name > cells {
            name
        } else {
            cells
        };
        if most > MAX_WIDTH {
            MAX_WIDTH
        } else {
            most
        }
    }

    /// The widths of the columns.
    pub fn widths(&self) -> (widths: Vec<usize>)
        ensures
            as_nats(widths@) == self@.widths(),
            widths.len() == self@.names.len(),
            forall|i: int| 0 <= i < widths.len() ==> #[trigger] widths@[i] <= MAX_WIDTH,
    {
        let mut widths: Vec<usize> = Vec::new();
        let mut i: usize = 0;
        while i < self.names.len()
            invariant
                i <= self.names.len(),
                self.names.len() == self@.names.len(),
                widths.len() == i,
                forall|j: int| 0 <= j < i ==> #[trigger] widths@[j] == self@.width(j),
                forall|j: int| 0 <= j < i ==> #[trigger] widths@[j] <= MAX_WIDTH,
            decreases self.names.len() - i,
        {
            widths.push(self.width_of(i));
            i = i + 1;
        }
        assert(as_nats(widths@) =~= self@.widths());
        widths
    }

    /// The rule under the names, for columns of the given widths.
    fn rule_for(widths: &Vec<usize>) -> (text: String)
        requires
            forall|i: int| 0 <= i < widths.len() ==> #[trigger] widths@[i] <= MAX_WIDTH,
        ensures
            text@ == run('-', (total(as_nats(widths@)) + 3 * widths.len() + 1) as nat),
    {
        let ghost all = as_nats(widths@);
        let mut text = String::new();
        let mut i: usize = 0;
        assert(all.take(0) =~= Seq::empty());
        assert(text@ =~= run('-', 0));
        while i < widths.len()
            invariant
                i <= widths.len(),
                all == as_nats(widths@),
                forall|j: int| 0 <= j < widths.len() ==> #[trigger] widths@[j] <= MAX_WIDTH,
                text@ == run('-', (total(all.take(i as int)) + 3 * i) as nat),
            decreases widths.len() - i,
        {
            let ghost before = (total(all.take(i as int)) + 3 * i) as nat;
            proof {
                assert(all.take(i + 1).drop_last() =~= all.take(i as int));
                assert(all.take(i + 1).last() == widths@[i as int] as nat);
                assert(run('-', before) + run('-', (widths@[i as int] + 3) as nat) =~= run(
                    '-',
                    (before + widths@[i as int] + 3) as nat,
                ));
            }
            add_dashes(&mut text, widths[i] + 3);
            i = i + 1;
        }
        proof {
            assert(all.take(i as int) =~= all);
            let sum = (total(all) + 3 * widths.len()) as nat;
            assert(run('-', sum) + run('-', 1) =~= run('-', (sum + 1) as nat));
        }
        add_dashes(&mut text, 1);
        text
    }

    /// Writes the table out: the column names, a rule, and each row between
    /// bars, every cell at the width of its column.
    pub fn render(&self) -> (lines: Vec<String>)
        ensures
            lines_view(lines@) == self@.rendering(),
    {
        proof {
            use_type_invariant(self);
            reveal_strlit(" | ");
            assert(" | "@ =~= bar());
            reveal_strlit("|");
            assert("|"@ =~= seq!['|']);
        }
        let widths = self.widths();
        let mut lines: Vec<String> = Vec::new();
        assert(self.names.len() == self@.names.len());
        let names = fit_cells(&self.names, &widths);
        assert(cells_view(names@) =~= self@.fit_row(self@.names));
        lines.push(join(&names, " | "));
        lines.push(Table::rule_for(&widths));
        assert(as_nats(widths@).len() == widths.len());
        assert(lines_view(lines@) =~= seq![self@.heading(), self@.rule()]);
        let mut r: usize = 0;
        while r < self.rows.len()
            invariant
                r <= self.rows.len(),
                self@.wf(),
                self.rows.len() == self@.rows.len(),
                widths.len() == self@.names.len(),
                as_nats(widths@) == self@.widths(),
                " | "@ == bar(),
                "|"@ == seq!['|'],
                lines.len() == r + 2,
                lines_view(lines@) == seq![self@.heading(), self@.rule()] + Seq::new(
                    r as nat,
                    |k: int| self@.line(k),
                ),
            decreases self.rows.len() - r,
        {
            let ghost before = lines_view(lines@);
            proof {
                assert(self@.rows[r as int] == cells_view(self.rows@[r as int]@));
                assert(self@.rows[r as int].len() == self@.names.len());
            }
            let cells = fit_cells(&self.rows[r], &widths);
            assert(cells_view(cells@) =~= self@.fit_row(self@.rows[r as int]));
            let mut line = "|".to_owned();
            line.append(join(&cells, " | ").as_str());
            line.append("|");
            assert(line@ == self@.line(r as int));
            lines.push(line);
            assert(lines_view(lines@) =~= before.push(self@.line(r as int)));
            assert(lines_view(lines@) =~= seq![self@.heading(), self@.rule()] + Seq::new(
                (r + 1) as nat,
                |k: int| self@.line(k),
            ));
            r = r + 1;
        }
        lines
    }

    /// Writes the table out as it is printed: the names and each row behind
    /// an opening bar, a bar after each cell, and the rule under the names.
    pub fn render_for_print(&self) -> (lines: Vec<String>)
        ensures
            lines_view(lines@) == self@.printing(),
    {
        proof {
            use_type_invariant(self);
            reveal_strlit(" | ");
            assert(" | "@ =~= bar());
            reveal_strlit("| ");
            assert("| "@ =~= seq!['|', ' ']);
        }
        let widths = self.widths();
        let mut lines: Vec<String> = Vec::new();
        assert(self.names.len() == self@.names.len());
        let names = fit_cells(&self.names, &widths);
        assert(cells_view(names@) =~= self@.fit_row(self@.names));
        let mut heading = "| ".to_owned();
        heading.append(trail(&names, " | ").as_str());
        lines.push(heading);
        lines.push(Table::rule_for(&widths));
        assert(as_nats(widths@).len() == widths.len());
        assert(lines_view(lines@) =~= seq![self@.printed_line(self@.names), self@.rule()]);
        let mut r: usize = 0;
        while r < self.rows.len()
            invariant
                r <= self.rows.len(),
                self@.wf(),
                self.rows.len() == self@.rows.len(),
                widths.len() == self@.names.len(),
                as_nats(widths@) == self@.widths(),
                " | "@ == bar(),
                "| "@ == seq!['|', ' '],
                lines.len() == r + 2,
                lines_view(lines@) == seq![self@.printed_line(self@.names), self@.rule()]
                    + Seq::new(r as nat, |k: int| self@.printed_line(self@.rows[k])),
            decreases self.rows.len() - r,
        {
            let ghost before = lines_view(lines@);
            proof {
                assert(self@.rows[r as int] == cells_view(self.rows@[r as int]@));
                assert(self@.rows[r as int].len() == self@.names.len());
            }
            let cells = fit_cells(&self.rows[r], &widths);
            assert(cells_view(cells@) =~= self@.fit_row(self@.rows[r as int]));
            let mut line = "| ".to_owned();
            line.append(trail(&cells, " | ").as_str());
            assert(line@ == self@.printed_line(self@.rows[r as int]));
            lines.push(line);
            assert(lines_view(lines@) =~= before.push(self@.printed_line(self@.rows[r as int])));
            assert(lines_view(lines@) =~= seq![self@.printed_line(self@.names), self@.rule()]
                + Seq::new((r + 1) as nat, |k: int| self@.printed_line(self@.rows[k])));
            r = r + 1;
        }
        lines
    }
}

/// A cell at the width of its column has exactly that width, and begins
/// with the cell, or is its beginning.
pub proof fn law_fitted_width(cell: Seq<char>, width: nat)
    ensures
        fitted(cell, width).len() == width,
        cell.len() <= width ==> fitted(cell, width).take(cell.len() as int) == cell,
        cell.len() >= width ==> fitted(cell, width) == cell.take(width as int),
{
    if cell.len() <= width {
        assert(fitted(cell, width).take(cell.len() as int) =~= cell);
    }
}

/// The widest cell of a column is no shorter than any cell of it.
pub proof fn lemma_widest_bounds(rows: Seq<Seq<Seq<char>>>, i: int, r: int)
    requires
        0 <= r < rows.len(),
    ensures
        rows[r][i].len() <= widest(rows, i),
    decreases rows.len(),
{
    if r < rows.len() - 1 {
        lemma_widest_bounds(rows.drop_last(), i, r);
    }
}

/// No column is wider than the largest width, and a cell or a name that is
/// within the largest width is shown whole.
pub proof fn law_cells_shown_whole(table: TableView, i: int, r: int)
    requires
        0 <= i < table.names.len(),
        0 <= r < table.rows.len(),
    ensures
        table.width(i) <= MAX_WIDTH,
        table.names[i].len() <= MAX_WIDTH ==> table.names[i].len() <= table.width(i),
        table.rows[r][i].len() <= MAX_WIDTH ==> table.rows[r][i].len() <= table.width(i),
{
    lemma_widest_bounds(table.rows, i, r);
}

/// The length of cells joined by a separator.
proof fn lemma_joined_len(cells: Seq<Seq<char>>, separator: Seq<char>, widths: Seq<nat>)
    requires
        cells.len() == widths.len(),
        forall|i: int| 0 <= i < cells.len() ==> (#[trigger] cells[i]).len() == widths[i],
    ensures
        joined(cells, separator).len() == if cells.len() == 0 {
            0
        } else {
            total(widths) + separator.len() * (cells.len() - 1)
        },
    decreases cells.len(),
{
    if cells.len() == 1 {
        assert(widths.drop_last() =~= Seq::empty());
        assert(total(widths.drop_last()) == 0);
        assert(widths.last() == widths[0]);
    } else if cells.len() > 1 {
        let n = cells.len() - 1;
        assert forall|i: int| 0 <= i < n implies (#[trigger] cells.drop_last()[i]).len()
            == widths.drop_last()[i] by {
            assert(cells.drop_last()[i] == cells[i]);
        }
        lemma_joined_len(cells.drop_last(), separator, widths.drop_last());
        assert(cells.last().len() == widths[n]);
        assert(separator.len() * (n - 1) + separator.len() == separator.len() * n)
            by (nonlinear_arith);
    }
}

/// The lines of the rows are of one length: the widths of the columns, three
/// characters between each two, and the two bars.
pub proof fn law_lines_are_even(table: TableView, r: int)
    requires
        table.names.len() > 0,
        0 <= r < table.rows.len(),
    ensures
        table.line(r).len() == total(table.widths()) + 3 * (table.names.len() - 1) + 2,
        table.heading().len() + 2 == table.line(r).len(),
{
    let widths = table.widths();
    assert forall|i: int| 0 <= i < table.names.len() implies (#[trigger] table.fit_row(
        table.rows[r],
    )[i]).len() == widths[i] && (#[trigger] table.fit_row(table.names)[i]).len() == widths[i] by {
        law_fitted_width(table.rows[r][i], table.width(i));
        law_fitted_width(table.names[i], table.width(i));
    }
    lemma_joined_len(table.fit_row(table.rows[r]), bar(), widths);
    lemma_joined_len(table.fit_row(table.names), bar(), widths);
}

/// The text without its line ends: every line feed is left out, and with it
/// a carriage return that stands directly before it.
pub open spec fn without_line_ends(text: Seq<char>) -> Seq<char>
    decreases text.len(),
{
    if text.len() == 0 {
        text
    } else if text[0] == '\n' {
        without_line_ends(text.drop_first())
    } else if text[0] == '\r' && text.len() > 1 && text[1] == '\n' {
        without_line_ends(text.skip(2))
    } else {
        seq![text[0]] + without_line_ends(text.drop_first())
    }
}

/// Appends a character with `String::push` of the standard library, which
/// adds the character to the end of the text.
#[verifier::external_body]
fn push_char(text: &mut String, c: char)
    ensures
        final(text)@ == old(text)@.push(c),
{
    text.push(c);
}

/// Puts a text on one line, as a cell shows it.
pub fn one_line(text: &str) -> (flat: String)
    ensures
        flat@ == without_line_ends(text@),
{
    broadcast use vstd::string::group_string_axioms;

    let mut flat = String::new();
    let mut held = false;
    let mut rest = text.chars();
    assert(Seq::<char>::empty() + without_line_ends(rest.remaining()) =~= without_line_ends(
        text@,
    ));
    loop
        invariant
            rest.obeys_prophetic_iter_laws(),
            rest.decrease() is Some,
            without_line_ends(text@) == flat@ + without_line_ends(
                if held {
                    seq!['\r'] + rest.remaining()
                } else {
                    rest.remaining()
                },
            ),
        decreases rest.decrease()->0,
    {
        let ghost before = rest.remaining();
        let ghost written = flat@;
        match rest.next() {
            Some(c) => {
                assert(before.len() > 0 && c == before[0]);
                assert(rest.remaining() == before.drop_first());
                if held {
                    let ghost pending = seq!['\r'] + before;
                    assert(pending.drop_first() =~= before);
                    assert(pending.skip(2) =~= before.drop_first());
                    if c == '\n' {
                        held = false;
                    } else {
                        push_char(&mut flat, '\r');
                        assert(written + (seq!['\r'] + without_line_ends(before)) =~= written.push(
                            '\r',
                        ) + without_line_ends(before));
                        if c == '\r' {
                            assert(seq!['\r'] + rest.remaining() =~= before);
                        } else {
                            held = false;
                            push_char(&mut flat, c);
                            assert(written.push('\r') + (seq![c] + without_line_ends(
                                before.drop_first(),
                            )) =~= written.push('\r').push(c) + without_line_ends(
                                before.drop_first(),
                            ));
                        }
                    }
                } else if c == '\r' {
                    held = true;
                    assert(seq!['\r'] + rest.remaining() =~= before);
                } else if c == '\n' {
                } else {
                    push_char(&mut flat, c);
                    assert(written + (seq![c] + without_line_ends(before.drop_first()))
                        =~= written.push(c) + without_line_ends(before.drop_first()));
                }
            },
            None => {
                assert(before =~= Seq::<char>::empty());
                assert(rest.remaining() == before);
                assert(without_line_ends(Seq::<char>::empty()) =~= Seq::<char>::empty());
                if held {
                    let ghost pending = seq!['\r'] + before;
                    assert(pending.len() == 1 && pending[0] == '\r');
                    assert(pending.drop_first() =~= Seq::<char>::empty());
                    assert(without_line_ends(pending) == seq!['\r'] + without_line_ends(
                        pending.drop_first(),
                    ));
                    push_char(&mut flat, '\r');
                    assert(written + (seq!['\r'] + Seq::<char>::empty()) =~= written.push('\r'));
                } else {
                    assert(written + Seq::<char>::empty() =~= written);
                }
                return flat;
            },
        }
    }
}

} // verus!
