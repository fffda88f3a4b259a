//! Report tables, built with the `prettytable` crate.
//!
//! The crate's tables, rows and cells are opaque to the verifier. What they hold
//! is named here, and each constructor and method that the exporter calls gets a
//! contract over those names. The contracts are taken on trust from the crate's
//! source; everything that is built on them is verified.
use vstd::prelude::*;
use prettytable::format::consts::{FORMAT_DEFAULT, FORMAT_NO_LINESEP_WITH_TITLE};
use prettytable::format::Alignment;
use prettytable::{Cell, Row, Table};
use crate::width::printable;

verus! {

/// The side of its column to which a cell's text is pushed.
#[derive(Clone, Copy, Debug)]
pub enum Side {
    Left,
    Center,
    Right,
}

/// The separators and borders with which a table is drawn. Each stands for the
/// format of that name among the formats that `prettytable` offers.
#[derive(Clone, Copy, Debug)]
pub enum Layout {
    /// `FORMAT_DEFAULT`: a line after the titles and one between any two rows.
    Default,
    /// `FORMAT_NO_LINESEP_WITH_TITLE`: a line after the titles, none between rows.
    NoLinesepWithTitle,
}

/// What one cell holds: its lines of text and the side they are pushed to.
pub struct CellContent {
    pub lines: Seq<Seq<char>>,
    pub side: Side,
}

/// `prettytable::Cell`, opaque to the verifier.
#[verifier::external_type_specification]
#[verifier::external_body]
pub struct ExCell(Cell);

/// `prettytable::Row`, opaque to the verifier.
#[verifier::external_type_specification]
#[verifier::external_body]
pub struct ExRow(Row);

/// `prettytable::Table`, opaque to the verifier.
#[verifier::external_type_specification]
#[verifier::external_body]
pub struct ExTable(Table);

/// The lines that a cell made from `text` holds: `prettytable` splits the text
/// with `str::lines`.
pub uninterp spec fn text_lines(text: Seq<char>) -> Seq<Seq<char>>;

/// The lines and the alignment of `cell`.
pub uninterp spec fn cell_content(cell: Cell) -> CellContent;

/// The cells of `row`, first to last.
pub uninterp spec fn row_cells(row: Row) -> Seq<CellContent>;

/// The title row of `table`, if it has one.
pub uninterp spec fn table_titles(table: Table) -> Option<Seq<CellContent>>;

/// The rows of `table` below its titles, top to bottom.
pub uninterp spec fn table_rows(table: Table) -> Seq<Seq<CellContent>>;

/// The layout with which `table` is drawn.
pub uninterp spec fn table_layout(table: Table) -> Layout;

/// A cell that holds `text`, pushed to `side`.
pub open spec fn aligned(text: Seq<char>, side: Side) -> CellContent {
    CellContent { lines: text_lines(text), side }
}

/// `Cell::new_align`: the cell holds the lines of `text` and the alignment that
/// stands for `side`. It measures each line, and stops with a panic on a line
/// that has fewer columns than characters inside escape sequences: such a text is
/// left out, see `printable`.
#[verifier::external_body]
pub(crate) fn aligned_cell(text: &str, side: Side) -> (cell: Cell)
    requires
        printable(text@),
    ensures
        cell_content(cell) == (CellContent { lines: text_lines(text@), side }),
{
    Cell::new_align(
        text,
        match side {
            Side::Left => Alignment::LEFT,
            Side::Center => Alignment::CENTER,
            Side::Right => Alignment::RIGHT,
        },
    )
}

/// `Cell::new`: the cell holds the lines of `text`, aligned to the left. It
/// measures each line as `Cell::new_align` does, so the same texts are left out.
#[verifier::external_body]
pub(crate) fn plain_cell(text: &str) -> (cell: Cell)
    requires
        printable(text@),
    ensures
        cell_content(cell) == (CellContent { lines: text_lines(text@), side: Side::Left }),
{
    Cell::new(text)
}

/// `Row::new`: the row holds the given cells in their order.
#[verifier::external_body]
pub(crate) fn row_of(cells: Vec<Cell>) -> (row: Row)
    ensures
        row_cells(row) == cells@.map_values(|cell: Cell| cell_content(cell)),
{
    Row::new(cells)
}

/// `Table::new`: the table has no titles and no rows, and the default layout.
#[verifier::external_body]
pub(crate) fn empty_table() -> (table: Table)
    ensures
        table_titles(table) is None,
        table_rows(table) == Seq::<Seq<CellContent>>::empty(),
        table_layout(table) == Layout::Default,
{
    Table::new()
}

/// `Table::set_format`, with the format of the crate that `layout` stands for:
/// the layout is replaced, titles and rows stay.
#[verifier::external_body]
pub(crate) fn set_layout(table: &mut Table, layout: Layout)
    ensures
        table_layout(*final(table)) == layout,
        table_titles(*final(table)) == table_titles(*old(table)),
        table_rows(*final(table)) == table_rows(*old(table)),
{
    table.set_format(
        match layout {
            Layout::Default => *FORMAT_DEFAULT,
            Layout::NoLinesepWithTitle => *FORMAT_NO_LINESEP_WITH_TITLE,
        },
    )
}

/// `Table::set_titles`: `titles` becomes the title row, the rows and the layout
/// stay.
#[verifier::external_body]
pub(crate) fn set_titles(table: &mut Table, titles: Row)
    ensures
        table_titles(*final(table)) == Some(row_cells(titles)),
        table_rows(*final(table)) == table_rows(*old(table)),
        table_layout(*final(table)) == table_layout(*old(table)),
{
    table.set_titles(titles)
}

/// `Table::add_row`: `row` is appended below the rows that are there, the titles
/// and the layout stay.
#[verifier::external_body]
pub(crate) fn add_row(table: &mut Table, row: Row)
    ensures
        table_rows(*final(table)) == table_rows(*old(table)).push(row_cells(row)),
        table_titles(*final(table)) == table_titles(*old(table)),
        table_layout(*final(table)) == table_layout(*old(table)),
{
    table.add_row(row);
}

} // verus!
