//! The projection of a list of path expressions over a list of items.
use crate::json::Json;
use crate::path::{opt_string_view, resolve, resolved, strings_view};
use vstd::prelude::*;

verus! {

/// A grid of optional cells, seen as sequences of texts.
pub open spec fn grid_view(g: Seq<Vec<Option<String>>>) -> Seq<Seq<Option<Seq<char>>>> {
    g.map_values(|row: Vec<Option<String>>| row@.map_values(|c: Option<String>| opt_string_view(c)))
}

/// One row per item, one cell per field: what each field resolves to in that item.
pub open spec fn projection(items: Seq<Json>, fields: Seq<Seq<char>>) -> Seq<Seq<Option<Seq<char>>>> {
    Seq::new(items.len(), |i: int| Seq::new(fields.len(), |j: int| resolved(items[i], fields[j])))
}

/// Resolves every field against every item, in order.
pub fn project(items: &Vec<Json>, fields: &Vec<String>) -> (grid: Vec<Vec<Option<String>>>)
    ensures
        grid_view(grid@) == projection(items@, strings_view(fields@)),
{
    let ghost fv = strings_view(fields@);
    let mut grid: Vec<Vec<Option<String>>> = Vec::new();
    let mut i: usize = 0;
    while i < items.len()
        invariant
            i <= items@.len(),
            fv == strings_view(fields@),
            grid_view(grid@) =~= projection(items@, fv).take(i as int),
        decreases items@.len() - i,
    {
        let mut row: Vec<Option<String>> = Vec::new();
        let mut j: usize = 0;
        while j < fields.len()
            invariant
                i < items@.len(),
                j <= fields@.len(),
                fv == strings_view(fields@),
                row@.map_values(|c: Option<String>| opt_string_view(c)) =~= projection(items@, fv)[i as int].take(j as int),
            decreases fields@.len() - j,
        {
            let cell = resolve(&items[i], fields[j].as_str());
            let ghost before = row@;
            row.push(cell);
            assert(fv[j as int] == fields@[j as int]@);
            assert(row@.map_values(|c: Option<String>| opt_string_view(c)) =~= before.map_values(
                |c: Option<String>| opt_string_view(c),
            ).push(opt_string_view(cell)));
            assert(projection(items@, fv)[i as int].take(j + 1) =~= projection(items@, fv)[i as int].take(j as int).push(resolved(items@[i as int], fv[j as int])));
            j = j + 1;
        }
        assert(row@.map_values(|c: Option<String>| opt_string_view(c)) =~= projection(items@, fv)[i as int]);
        let ghost before = grid@;
        grid.push(row);
        assert(grid_view(grid@) =~= grid_view(before).push(projection(items@, fv)[i as int]));
        assert(projection(items@, fv).take(i + 1) =~= projection(items@, fv).take(i as int).push(projection(items@, fv)[i as int]));
        i = i + 1;
    }
    assert(projection(items@, fv).take(i as int) =~= projection(items@, fv));
    grid
}

/// The projection is rectangular: as many rows as items, each with as many
/// cells as fields.
pub proof fn lemma_projection_rectangular(items: Seq<Json>, fields: Seq<Seq<char>>)
    ensures
        projection(items, fields).len() == items.len(),
        forall|i: int| 0 <= i < items.len() ==> (#[trigger] projection(items, fields)[i]).len() == fields.len(),
{
}

} // verus!
