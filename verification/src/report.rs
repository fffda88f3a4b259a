//! What an export has to show: the uptime, a number of samples and the table of
//! the running totals, and the text that goes before the table.
use vstd::prelude::*;
use vstd::string::{StrSliceExecFns, StringExecFns};
use prettytable::Table;
use crate::accumulate::{counts, shows, Accumulate, Figures};
use crate::aggregate::{first_seen, folded, folded_names};
use crate::measure::{first_at, names, Measure};
use crate::table::{aligned, table_layout, table_rows, table_titles, CellContent, Layout, Side};
use crate::width::printable;

verus! {

/// What one export has to show.
pub struct Report {
    /// The whole seconds from the exporter's creation to the export.
    pub uptime: u64,
    /// The number of samples in the accumulator that the export touched last.
    pub samples_processed: u64,
    /// The running totals, one row for each measure.
    pub table: Table,
}

/// The titles of the table of a report.
pub open spec fn titles() -> Seq<CellContent> {
    seq![
        aligned("MEASURE"@, Side::Center),
        aligned("EXPECTATION"@, Side::Center),
        aligned("UNCERTAINTY"@, Side::Center),
        aligned("RELATIVE UNCERTAINTY"@, Side::Center),
    ]
}

/// The row of the table for a measure called `name` that shows `figures`.
pub open spec fn figures_row(name: Seq<char>, figures: Figures) -> Seq<CellContent> {
    seq![
        aligned(name, Side::Right),
        aligned(figures.value@, Side::Left),
        aligned(figures.uncertainty@, Side::Left),
        aligned(figures.relative_uncertainty@, Side::Left),
    ]
}

/// A measure called `name` that shows `figures` can be put into a row: the name
/// and each figure can be put into a cell.
pub open spec fn fits_a_row(name: Seq<char>, figures: Figures) -> bool {
    &&& printable(name)
    &&& printable(figures.value@)
    &&& printable(figures.uncertainty@)
    &&& printable(figures.relative_uncertainty@)
}

/// `row` is a row that the table can have for `measure`.
pub open spec fn row_shows<A: Accumulate>(measure: Measure<A>, row: Seq<CellContent>) -> bool {
    exists|figures: Figures|
        {
            &&& #[trigger] shows(measure.acc, figures)
            &&& fits_a_row(measure.name@, figures)
            &&& row == figures_row(measure.name@, figures)
        }
}

/// `measure` can show figures with which it cannot be put into a row.
pub open spec fn fits_no_row<A: Accumulate>(measure: Measure<A>) -> bool {
    exists|figures: Figures| #[trigger]
        shows(measure.acc, figures) && !fits_a_row(measure.name@, figures)
}

/// The cause that an export gives when a measure cannot be put into a row of the
/// table.
pub open spec fn cannot_be_shown() -> Seq<char> {
    "the name or a figure of a measure has a line that is narrower than its escape sequences"@
}

/// `table` is a table that shows `measures`: it has the report's layout and
/// titles, and below them one row for each measure, in the order of `measures`.
pub open spec fn tabulates<A: Accumulate>(measures: Seq<Measure<A>>, table: Table) -> bool {
    &&& table_layout(table) == Layout::NoLinesepWithTitle
    &&& table_titles(table) == Some(titles())
    &&& table_rows(table).len() == measures.len()
    &&& forall|i: int|
        0 <= i < measures.len() ==> row_shows(measures[i], #[trigger] table_rows(table)[i])
}

/// `count` is a number of samples that an export of `batch` can report once the
/// running totals are `aggregate`: the count of the accumulator under the name of
/// the last measure of `batch`, and 0 for an empty batch.
pub open spec fn last_count<A: Accumulate>(
    aggregate: Seq<Measure<A>>,
    batch: Seq<Measure<A>>,
    count: u64,
) -> bool {
    if batch.len() == 0 {
        count == 0
    } else {
        exists|index: int|
            first_at(names(aggregate), batch.last().name@, index) && #[trigger] counts(
                aggregate[index].acc,
                count,
            )
    }
}

/// The rows of a table of the running totals stand in the order in which the
/// names were first seen: after a batch has been absorbed, row `i` begins with the
/// `i`-th name of those that were there and those that the batch has brought, each
/// at its first appearance.
pub proof fn rows_in_order_of_first_sight<A: Accumulate>(
    before: Seq<Measure<A>>,
    batch: Seq<Measure<A>>,
    after: Seq<Measure<A>>,
    table: Table,
)
    requires
        folded(before, batch, after),
        tabulates(after, table),
    ensures
        table_rows(table).len() == first_seen(names(before), names(batch)).len(),
        forall|i: int|
            0 <= i < table_rows(table).len() ==> (#[trigger] table_rows(table)[i])[0] == aligned(
                first_seen(names(before), names(batch))[i],
                Side::Right,
            ),
{
    folded_names(before, batch, after);
    assert forall|i: int| 0 <= i < table_rows(table).len() implies (#[trigger] table_rows(
        table,
    )[i])[0] == aligned(names(after)[i], Side::Right) by {
        assert(row_shows(after[i], table_rows(table)[i]));
    }
}

/// The ten digits.
pub open spec fn digits() -> Seq<char> {
    "0123456789"@
}

/// The decimal numeral of `n`, without leading zeros.
pub open spec fn decimal(n: nat) -> Seq<char>
    decreases n,
{
    if n < 10 {
        seq![digits()[n as int]]
    } else {
        decimal(n / 10).push(digits()[(n % 10) as int])
    }
}

/// The lines that go before the table of a report with the given uptime and
/// number of samples: an empty line, the uptime, the samples, and the line that
/// announces the table.
pub open spec fn heading(uptime: u64, samples_processed: u64) -> Seq<char> {
    "\nSimulation uptime: "@ + decimal(uptime as nat) + " secs\nSamples processed: "@ + decimal(
        samples_processed as nat,
    ) + "\nAggregate values:\n"@
}

/// The decimal numeral of `n`.
pub fn decimal_text(n: u64) -> (text: String)
    ensures
        text@ == decimal(n as nat),
    decreases n,
{
    proof {
        reveal_strlit("0123456789");
    }
    let last: usize = (n % 10) as usize;
    let digit = "0123456789".substring_ascii(last, last + 1);
    assert(digit@ =~= seq![digits()[last as int]]);
    if n < 10 {
        String::from_str(digit)
    } else {
        let mut text = decimal_text(n / 10);
        text.append(digit);
        assert(text@ =~= decimal((n / 10) as nat).push(digits()[last as int]));
        text
    }
}

impl Report {
    /// The text that goes before the table.
    pub fn heading(&self) -> (text: String)
        ensures
            text@ == heading(self.uptime, self.samples_processed),
    {
        let mut text = String::from_str("\nSimulation uptime: ");
        text.append(decimal_text(self.uptime).as_str());
        text.append(" secs\nSamples processed: ");
        text.append(decimal_text(self.samples_processed).as_str());
        text.append("\nAggregate values:\n");
        text
    }
}

} // verus!
