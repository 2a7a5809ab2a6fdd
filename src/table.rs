//! Rendering of a projection grid as a borderless, whitespace-aligned text table.
use crate::path::{opt_string_view, split_on, strings_view};
use crate::project::grid_view;
use prettytable::{Row, Table};
use vstd::prelude::*;
use vstd::string::StrSliceExecFns;

verus! {

#[verifier::external_type_specification]
#[verifier::external_body]
pub struct ExTable(prettytable::Table);

#[verifier::external_type_specification]
#[verifier::external_body]
pub struct ExRow(prettytable::Row);

/// The title line of a table, if it has one: the lines of each title cell.
pub uninterp spec fn table_titles(t: prettytable::Table) -> Option<Seq<Seq<Seq<char>>>>;

/// The body rows of a table, in order: the lines of each cell.
pub uninterp spec fn table_rows(t: prettytable::Table) -> Seq<Seq<Seq<Seq<char>>>>;

/// Whether a table is set to prettytable's clean format.
pub uninterp spec fn table_is_clean(t: prettytable::Table) -> bool;

/// The lines of each cell of a row, in order.
pub uninterp spec fn row_cells(r: prettytable::Row) -> Seq<Seq<Seq<char>>>;

/// The text that prettytable prints for a table in its clean format with these
/// titles and rows, each cell given by its lines.
pub uninterp spec fn clean_table_text(
    titles: Seq<Seq<Seq<char>>>,
    rows: Seq<Seq<Seq<Seq<char>>>>,
) -> Seq<char>;

/// A line without the one carriage return that may end it.
pub open spec fn strip_cr(line: Seq<char>) -> Seq<char> {
    if line.len() > 0 && line.last() == '\r' {
        line.drop_last()
    } else {
        line
    }
}

/// The lines of a text as `str::lines` gives them: split at each `\n`, one `\r`
/// before a `\n` dropped, and no line after a final `\n`.
pub open spec fn text_lines(s: Seq<char>) -> Seq<Seq<char>> {
    let pieces = split_on(s, '\n');
    let ended = pieces.drop_last().map_values(|l: Seq<char>| strip_cr(l));
    if pieces.last().len() == 0 {
        ended
    } else {
        ended.push(pieces.last())
    }
}

/// The lines of each text of a row.
pub open spec fn cells_lines(row: Seq<Seq<char>>) -> Seq<Seq<Seq<char>>> {
    row.map_values(|t: Seq<char>| text_lines(t))
}

/// Whether a text holds no escape character (U+001B).
pub open spec fn escape_free(s: Seq<char>) -> bool {
    forall|i: int| 0 <= i < s.len() ==> s[i] != '\u{1b}'
}

/// Whether every text of a row holds no escape character.
pub open spec fn all_escape_free(row: Seq<Seq<char>>) -> bool {
    forall|k: int| 0 <= k < row.len() ==> escape_free(#[trigger] row[k])
}

/// Relies on `Table::new`: a table with no titles and no rows.
#[verifier::external_body]
fn new_table() -> (t: Table)
    ensures
        table_titles(t) is None,
        table_rows(t) == Seq::<Seq<Seq<Seq<char>>>>::empty(),
{
    Table::new()
}

/// Relies on `Table::set_format` with `FORMAT_CLEAN` (no borders, no separator
/// lines, cells padded by one space): only the format changes.
#[verifier::external_body]
fn use_clean_format(t: &mut Table)
    ensures
        table_is_clean(*final(t)),
        table_titles(*final(t)) == table_titles(*old(t)),
        table_rows(*final(t)) == table_rows(*old(t)),
{
    t.set_format(*prettytable::format::consts::FORMAT_CLEAN);
}

/// Relies on `Row::new`, given one `Cell::new` per text: a row of those texts, in
/// order, each kept as its `str::lines`. `Cell::new` measures each line's width
/// and can panic on a text that holds an escape character, so none may.
#[verifier::external_body]
fn make_row(cells: &Vec<String>) -> (r: Row)
    requires
        all_escape_free(strings_view(cells@)),
    ensures
        row_cells(r) == cells_lines(strings_view(cells@)),
{
    Row::new(cells.iter().map(|c| prettytable::Cell::new(c)).collect())
}

/// Relies on `Table::set_titles`: the row becomes the title line; nothing else changes.
#[verifier::external_body]
fn set_titles(t: &mut Table, titles: Row)
    ensures
        table_titles(*final(t)) == Some(row_cells(titles)),
        table_rows(*final(t)) == table_rows(*old(t)),
        table_is_clean(*final(t)) == table_is_clean(*old(t)),
{
    t.set_titles(titles);
}

/// Relies on `Table::add_row`: the row is appended after the others; nothing else changes.
#[verifier::external_body]
fn add_row(t: &mut Table, row: Row)
    ensures
        table_rows(*final(t)) == table_rows(*old(t)).push(row_cells(row)),
        table_titles(*final(t)) == table_titles(*old(t)),
        table_is_clean(*final(t)) == table_is_clean(*old(t)),
{
    t.add_row(row);
}

/// Relies on `Table`'s `Display`: in the clean format the text depends on the
/// titles and the rows alone.
#[verifier::external_body]
fn table_text(t: &Table) -> (r: String)
    ensures
        table_is_clean(*t) && table_titles(*t) is Some ==> r@ == clean_table_text(
            table_titles(*t)->0,
            table_rows(*t),
        ),
{
    t.to_string()
}

/// The text shown for a cell: its value, or nothing where it is absent.
pub open spec fn cell_text(c: Option<Seq<char>>) -> Seq<char> {
    match c {
        Some(s) => s,
        None => seq![],
    }
}

/// The texts shown for every cell of a grid.
pub open spec fn body_texts(grid: Seq<Seq<Option<Seq<char>>>>) -> Seq<Seq<Seq<char>>> {
    grid.map_values(|row: Seq<Option<Seq<char>>>| row.map_values(|c: Option<Seq<char>>| cell_text(c)))
}

/// The texts shown for one row of cells.
pub fn cell_texts(row: &Vec<Option<String>>) -> (r: Vec<String>)
    ensures
        strings_view(r@) == row@.map_values(|c: Option<String>| opt_string_view(c)).map_values(
            |c: Option<Seq<char>>| cell_text(c),
        ),
{
    let mut r: Vec<String> = Vec::new();
    let mut j: usize = 0;
    while j < row.len()
        invariant
            j <= row@.len(),
            strings_view(r@) =~= row@.map_values(|c: Option<String>| opt_string_view(c)).map_values(
                |c: Option<Seq<char>>| cell_text(c),
            ).take(j as int),
        decreases row@.len() - j,
    {
        let text = match &row[j] {
            Some(s) => s.clone(),
            None => String::new(),
        };
        let ghost before = r@;
        r.push(text);
        assert(strings_view(r@) =~= strings_view(before).push(text@));
        j = j + 1;
    }
    r
}

/// Whether a text holds no escape character.
pub fn is_escape_free(s: &str) -> (r: bool)
    ensures
        r == escape_free(s@),
{
    let n = s.unicode_len();
    let mut i: usize = 0;
    while i < n
        invariant
            n == s@.len(),
            i <= n,
            forall|k: int| 0 <= k < i ==> s@[k] != '\u{1b}',
        decreases n - i,
    {
        if s.get_char(i) == '\u{1b}' {
            return false;
        }
        i = i + 1;
    }
    true
}

/// Whether every text of a row holds no escape character.
pub fn row_escape_free(row: &Vec<String>) -> (r: bool)
    ensures
        r == all_escape_free(strings_view(row@)),
{
    let mut k: usize = 0;
    while k < row.len()
        invariant
            k <= row@.len(),
            forall|m: int| 0 <= m < k ==> escape_free(#[trigger] strings_view(row@)[m]),
        decreases row@.len() - k,
    {
        if !is_escape_free(row[k].as_str()) {
            assert(!escape_free(strings_view(row@)[k as int]));
            return false;
        }
        k = k + 1;
    }
    true
}

/// The body of the table for a grid: the lines shown in each cell.
pub open spec fn body_lines(grid: Seq<Seq<Option<Seq<char>>>>) -> Seq<Seq<Seq<Seq<char>>>> {
    body_texts(grid).map_values(|row: Seq<Seq<char>>| cells_lines(row))
}

/// Whether no header and no present cell holds an escape character.
pub open spec fn renderable(headers: Seq<Seq<char>>, grid: Seq<Seq<Option<Seq<char>>>>) -> bool {
    &&& all_escape_free(headers)
    &&& forall|i: int| 0 <= i < grid.len() ==> all_escape_free(#[trigger] body_texts(grid)[i])
}

/// Renders the headers and the grid as a table: a header line, then one line
/// per row (more where a text spans lines), columns as wide as their widest
/// text, no borders. `None` where a header or a cell holds an escape character.
pub fn render(headers: &Vec<String>, grid: &Vec<Vec<Option<String>>>) -> (r: Option<String>)
    ensures
        r is Some <==> renderable(strings_view(headers@), grid_view(grid@)),
        r matches Some(text) ==> text@ == clean_table_text(
            cells_lines(strings_view(headers@)),
            body_lines(grid_view(grid@)),
        ),
{
    if !row_escape_free(headers) {
        return None;
    }
    let mut table = new_table();
    use_clean_format(&mut table);
    set_titles(&mut table, make_row(headers));
    let mut i: usize = 0;
    while i < grid.len()
        invariant
            i <= grid@.len(),
            all_escape_free(strings_view(headers@)),
            forall|k: int| 0 <= k < i ==> all_escape_free(#[trigger] body_texts(grid_view(grid@))[k]),
            table_is_clean(table),
            table_titles(table) == Some(cells_lines(strings_view(headers@))),
            table_rows(table) =~= body_lines(grid_view(grid@)).take(i as int),
        decreases grid@.len() - i,
    {
        let cells = cell_texts(&grid[i]);
        assert(strings_view(cells@) == body_texts(grid_view(grid@))[i as int]);
        if !row_escape_free(&cells) {
            return None;
        }
        add_row(&mut table, make_row(&cells));
        assert(body_lines(grid_view(grid@)).take(i + 1) =~= body_lines(grid_view(grid@)).take(
            i as int,
        ).push(cells_lines(strings_view(cells@))));
        i = i + 1;
    }
    assert(body_lines(grid_view(grid@)).take(i as int) =~= body_lines(grid_view(grid@)));
    Some(table_text(&table))
}

/// Rendering keeps every row and every cell of the grid: the table body has one
/// row per grid row and one cell per grid cell, an absent cell shows as the empty
/// text and a present one as its own text.
pub proof fn lemma_render_total(grid: Seq<Seq<Option<Seq<char>>>>)
    ensures
        body_texts(grid).len() == grid.len(),
        forall|i: int| 0 <= i < grid.len() ==> (#[trigger] body_texts(grid)[i]).len() == grid[i].len(),
        forall|i: int, j: int|
            0 <= i < grid.len() && 0 <= j < grid[i].len() ==> (grid[i][j] is None ==> (
            #[trigger] body_texts(grid)[i][j]) == Seq::<char>::empty()),
        forall|i: int, j: int|
            0 <= i < grid.len() && 0 <= j < grid[i].len() ==> (grid[i][j] is Some ==> (
            #[trigger] body_texts(grid)[i][j]) == grid[i][j]->0),
{
}

} // verus!
