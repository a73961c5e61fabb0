//! Small helpers on text: optional text, and texts put together.

use vstd::prelude::*;
use vstd::string::*;

verus! {

/// The characters of an optional text.
pub open spec fn text_of(value: Option<String>) -> Option<Seq<char>> {
    match value {
        Some(s) => Some(s@),
        None => None,
    }
}

/// A copy of an optional text.
pub fn copy_text(value: &Option<String>) -> (copy: Option<String>)
    ensures
        text_of(copy) == text_of(*value),
{
    match value {
        Some(s) => Some(s.clone()),
        None => None,
    }
}

/// The texts as values.
pub open spec fn cells_view(cells: Seq<String>) -> Seq<Seq<char>> {
    cells.map_values(|c: String| c@)
}

/// The texts one after another, `separator` between each two.
pub open spec fn joined(cells: Seq<Seq<char>>, separator: Seq<char>) -> Seq<char>
    decreases cells.len(),
{
    if cells.len() == 0 {
        Seq::empty()
    } else if cells.len() == 1 {
        cells[0]
    } else {
        joined(cells.drop_last(), separator) + separator + cells.last()
    }
}

/// Puts the texts one after another with `separator` between them.
pub fn join(cells: &Vec<String>, separator: &str) -> (text: String)
    ensures
        text@ == joined(cells_view(cells@), separator@),
{
    let ghost all = cells_view(cells@);
    let mut text = String::new();
    let mut i: usize = 0;
    assert(all.take(0) =~= Seq::empty());
    while i < cells.len()
        invariant
            i <= cells.len(),
            all == cells_view(cells@),
            text@ == joined(all.take(i as int), separator@),
        decreases cells.len() - i,
    {
        proof {
            assert(all.take(i + 1).drop_last() =~= all.take(i as int));
            assert(all.take(i + 1).last() == cells@[i as int]@);
            if i == 0 {
                assert(all.take(1)[0] == cells@[0]@);
                assert(Seq::<char>::empty() + cells@[0]@ =~= cells@[0]@);
            }
        }
        if i > 0 {
            text.append(separator);
        }
        text.append(cells[i].as_str());
        i = i + 1;
    }
    assert(all.take(i as int) =~= all);
    text
}

} // verus!
