//! Exporters: sinks that fold batches of measures into running totals and report
//! the totals.
use vstd::prelude::*;
use std::time::{Duration, SystemTime, SystemTimeError};
use prettytable::Table;
use crate::accumulate::{counts, is_empty_state, merges_to, shows, Accumulate};
use crate::aggregate::{
    absorbed, first_seen, first_seen_keeps_apart, first_seen_keeps_front, folded, folded_names,
};
use crate::measure::{first_at, names, Measure, MeasureRegistry, Measures};
use crate::report::{
    cannot_be_shown, figures_row, fits_no_row, last_count, row_shows, tabulates, titles, Report,
};
use crate::table::{
    add_row, aligned_cell, empty_table, plain_cell, row_cells, row_of, set_layout, set_titles,
    table_layout, table_rows, table_titles, Layout, Side,
};
use crate::width::is_printable;

verus! {

/// `std::time::SystemTime`, opaque to the verifier.
#[verifier::external_type_specification]
#[verifier::external_body]
pub struct ExSystemTime(SystemTime);

/// `std::time::SystemTimeError`, opaque to the verifier.
#[verifier::external_type_specification]
#[verifier::external_body]
pub struct ExSystemTimeError(SystemTimeError);

/// `SystemTime::now` reads the system clock: nothing is known of what it returns.
pub assume_specification[ SystemTime::now ]() -> SystemTime;

/// `SystemTime::elapsed` reads the system clock, and fails where the clock is
/// behind `since`: nothing is known of what it returns.
pub assume_specification[ SystemTime::elapsed ](since: &SystemTime) -> Result<
    Duration,
    SystemTimeError,
>;

/// `Duration::as_secs`: the whole seconds of an opaque duration.
pub assume_specification[ Duration::as_secs ](duration: &Duration) -> u64;

/// The error of an exporter. It holds a text that describes the cause.
#[derive(Debug)]
pub struct ExportError(pub String);

/// A data sink that accepts accumulated measures.
pub trait Exporter {
    /// The kind of accumulator that the exporter aggregates.
    type Acc: Accumulate;

    /// The running totals that the exporter owns, in the order in which their
    /// names were first seen.
    spec fn aggregate(&self) -> Seq<Measure<Self::Acc>>;

    /// Performs one export: absorbs every measure of `measures` into the running
    /// totals, then reports the totals. The totals are updated whether or not the
    /// report succeeds. Their names stay in the order in which they were first
    /// seen, and no name gets a second total. `measures` itself is only read: to
    /// reset it between exports is up to its owner.
    fn export(&mut self, measures: &Measures<Self::Acc>) -> (outcome: Result<(), ExportError>)
        ensures
            folded(old(self).aggregate(), measures@, final(self).aggregate()),
            names(final(self).aggregate()) == first_seen(
                names(old(self).aggregate()),
                names(measures@),
            ),
            names(old(self).aggregate()).is_prefix_of(names(final(self).aggregate())),
            names(old(self).aggregate()).no_duplicates() ==> names(
                final(self).aggregate(),
            ).no_duplicates(),
    ;
}

/// The cause that an export gives when the system clock is behind the creation of
/// the exporter, so that no uptime can be reported.
pub open spec fn clock_is_behind() -> Seq<char> {
    "the system clock is behind the creation of the exporter"@
}

/// Keeps running totals of the measures it is handed. On `export` it merges the
/// batch into the totals and makes a report of all of them, which stays with the
/// exporter for its owner to print.
pub struct DebugExporter<A> {
    aggregated: MeasureRegistry<A>,
    creation_timestamp: SystemTime,
    report: Option<Report>,
}

impl<A: Accumulate> DebugExporter<A> {
    /// An exporter without totals, created now.
    pub fn new() -> (exporter: Self)
        ensures
            exporter.aggregate() == Seq::<Measure<A>>::empty(),
            exporter.latest() is None,
    {
        DebugExporter {
            aggregated: MeasureRegistry::new(),
            creation_timestamp: SystemTime::now(),
            report: None,
        }
    }

    /// The report of the latest export, where that export has succeeded.
    pub closed spec fn latest(&self) -> Option<Report> {
        self.report
    }

    /// The time at which the exporter was created.
    pub closed spec fn created(&self) -> SystemTime {
        self.creation_timestamp
    }

    /// The report of the latest export, where that export has succeeded.
    pub fn report(&self) -> (report: Option<&Report>)
        ensures
            match report {
                Some(r) => self.latest() == Some(*r),
                None => self.latest() is None,
            },
    {
        self.report.as_ref()
    }

    /// The running totals.
    pub fn aggregated(&self) -> (all: &Measures<A>)
        ensures
            all@ == self.aggregate(),
    {
        self.aggregated.measures()
    }

    /// Ends an export of which `uptime` and `samples_processed` are known: with the
    /// seconds since the creation in `uptime`, makes the report of the running
    /// totals, and fails where a measure cannot be put into the table; with
    /// `None`, for a clock that is behind the creation, fails. A failure leaves no
    /// report. The running totals stay as they are either way.
    pub fn conclude(&mut self, uptime: Option<u64>, samples_processed: u64) -> (outcome: Result<
        (),
        ExportError,
    >)
        ensures
            final(self).aggregate() == old(self).aggregate(),
            final(self).created() == old(self).created(),
            uptime is None ==> outcome is Err,
            match outcome {
                Ok(_) => {
                    &&& uptime matches Some(secs)
                    &&& final(self).latest() matches Some(report)
                    &&& report.uptime == secs
                    &&& report.samples_processed == samples_processed
                    &&& tabulates(final(self).aggregate(), report.table)
                },
                Err(error) => {
                    &&& final(self).latest() is None
                    &&& error.0@ == if uptime is None {
                        clock_is_behind()
                    } else {
                        cannot_be_shown()
                    }
                    &&& uptime is Some ==> exists|i: int|
                        0 <= i < final(self).aggregate().len() && #[trigger] fits_no_row(
                            final(self).aggregate()[i],
                        )
                },
            },
    {
        self.report = None;
        match uptime {
            Some(secs) => match Self::pretty_table(self.aggregated.measures()) {
                Ok(table) => {
                    self.report = Some(Report { uptime: secs, samples_processed, table });
                    Ok(())
                },
                Err(error) => {
                    proof {
                        let i = choose|i: int|
                            0 <= i < self.aggregate().len() && #[trigger] fits_no_row(
                                self.aggregate()[i],
                            );
                        assert(fits_no_row(self.aggregate()[i]));
                    }
                    Err(error)
                },
            },
            None => Err(
                ExportError("the system clock is behind the creation of the exporter".to_owned()),
            ),
        }
    }

    /// Formats `measures` as a table: a row of titles, then for each measure its
    /// name and its figures. Fails at the first measure whose name or figures
    /// cannot be put into a cell: a line of such a text has fewer columns than
    /// characters inside escape sequences, and no table can be made of it.
    pub fn pretty_table(measures: &Measures<A>) -> (outcome: Result<Table, ExportError>)
        ensures
            match outcome {
                Ok(table) => tabulates(measures@, table),
                Err(error) => {
                    &&& error.0@ == cannot_be_shown()
                    &&& exists|i: int|
                        0 <= i < measures@.len() && #[trigger] fits_no_row(measures@[i])
                },
            },
    {
        proof {
            reveal_strlit("MEASURE");
            reveal_strlit("EXPECTATION");
            reveal_strlit("UNCERTAINTY");
            reveal_strlit("RELATIVE UNCERTAINTY");
        }
        let mut table = empty_table();
        set_layout(&mut table, Layout::NoLinesepWithTitle);
        set_titles(
            &mut table,
            row_of(
                vec![
                    aligned_cell("MEASURE", Side::Center),
                    aligned_cell("EXPECTATION", Side::Center),
                    aligned_cell("UNCERTAINTY", Side::Center),
                    aligned_cell("RELATIVE UNCERTAINTY", Side::Center),
                ],
            ),
        );
        let list = measures.slice();
        let mut k: usize = 0;
        while k < list.len()
            invariant
                k <= list.len(),
                list@ == measures@,
                table_layout(table) == Layout::NoLinesepWithTitle,
                table_titles(table) == Some(titles()),
                table_rows(table).len() == k,
                forall|i: int|
                    0 <= i < k ==> row_shows(measures@[i], #[trigger] table_rows(table)[i]),
            decreases list.len() - k,
        {
            let measure = &list[k];
            let figures = measure.acc.figures();
            assert(shows(measure.acc, figures));
            if !(is_printable(measure.name.as_str()) && is_printable(figures.value.as_str())
                && is_printable(figures.uncertainty.as_str()) && is_printable(
                figures.relative_uncertainty.as_str(),
            )) {
                assert(fits_no_row(measures@[k as int]));
                return Err(
                    ExportError(
                        "the name or a figure of a measure has a line that is narrower than its escape sequences".to_owned(),
                    ),
                );
            }
            let row = row_of(
                vec![
                    aligned_cell(measure.name.as_str(), Side::Right),
                    plain_cell(figures.value.as_str()),
                    plain_cell(figures.uncertainty.as_str()),
                    plain_cell(figures.relative_uncertainty.as_str()),
                ],
            );
            assert(row_cells(row) =~= figures_row(measure.name@, figures));
            add_row(&mut table, row);
            k += 1;
        }
        Ok(table)
    }
}

impl<A: Accumulate> Exporter for DebugExporter<A> {
    type Acc = A;

    closed spec fn aggregate(&self) -> Seq<Measure<A>> {
        self.aggregated@
    }

    /// Absorbs `measures` into the running totals, then makes the report: the
    /// uptime, the number of samples in the accumulator that was touched last, and
    /// the table of all totals. The export fails where the clock is behind the
    /// creation of the exporter and where a measure cannot be put into the table;
    /// the totals are updated all the same.
    fn export(&mut self, measures: &Measures<A>) -> (outcome: Result<(), ExportError>)
        ensures
            final(self).created() == old(self).created(),
            match outcome {
                Ok(_) => {
                    &&& final(self).latest() matches Some(report)
                    &&& last_count(final(self).aggregate(), measures@, report.samples_processed)
                    &&& tabulates(final(self).aggregate(), report.table)
                },
                Err(error) => {
                    &&& final(self).latest() is None
                    &&& error.0@ == clock_is_behind() || {
                        &&& error.0@ == cannot_be_shown()
                        &&& exists|i: int|
                            0 <= i < final(self).aggregate().len() && #[trigger] fits_no_row(
                                final(self).aggregate()[i],
                            )
                    }
                },
            },
    {
        let mut samples_processed: u64 = 0;
        let batch = measures.slice();
        let mut k: usize = 0;
        while k < batch.len()
            invariant
                k <= batch.len(),
                batch@ == measures@,
                folded(old(self).aggregate(), measures@.take(k as int), self.aggregate()),
                last_count(self.aggregate(), measures@.take(k as int), samples_processed),
                self.created() == old(self).created(),
            decreases batch.len() - k,
        {
            let measure = &batch[k];
            let ghost before = self.aggregate();
            let found = self.aggregated.find(&measure.name);
            let index = match found {
                Some(index) => index,
                None => self.aggregated.register(measure.name.clone()),
            };
            let ghost registered = self.aggregate();
            let slot = self.aggregated.accumulator(index);
            let sum = slot.merge(&measure.acc);
            *slot = sum;
            samples_processed = self.aggregated.accumulator(index).num_of_samples();
            proof {
                let after = self.aggregate();
                let taken = measures@.take(k + 1);
                assert(after =~= registered.update(
                    index as int,
                    Measure { name: registered[index as int].name, acc: sum },
                ));
                assert(merges_to(registered[index as int].acc, measure.acc, sum));
                if found is Some {
                    assert(names(before)[index as int] == measure.name@);
                    assert(names(after) =~= names(before));
                } else {
                    let empty = choose|empty: A| #[trigger]
                        is_empty_state(empty) && registered == before.push(
                            Measure { name: measure.name, acc: empty },
                        );
                    assert(after =~= before.push(Measure { name: measure.name, acc: sum }));
                    assert(merges_to(empty, measure.acc, sum));
                    assert(names(after) =~= names(before).push(measure.name@));
                    assert forall|j: int| 0 <= j < index implies names(after)[j]
                        != measure.name@ by {
                        assert(names(before)[j] == names(after)[j]);
                    }
                }
                assert(absorbed(before, *measure, after));
                assert(taken.drop_last() =~= measures@.take(k as int));
                assert(taken.last() == *measure);
                assert(names(after)[index as int] == measure.name@);
                assert(first_at(names(after), measure.name@, index as int));
                assert(counts(after[index as int].acc, samples_processed));
            }
            k += 1;
        }
        assert(measures@.take(k as int) =~= measures@);
        proof {
            folded_names(old(self).aggregate(), measures@, self.aggregate());
            first_seen_keeps_front(names(old(self).aggregate()), names(measures@));
            if names(old(self).aggregate()).no_duplicates() {
                first_seen_keeps_apart(names(old(self).aggregate()), names(measures@));
            }
        }
        let uptime = match self.creation_timestamp.elapsed() {
            Ok(elapsed) => Some(elapsed.as_secs()),
            Err(_) => None,
        };
        self.conclude(uptime, samples_processed)
    }
}

} // verus!
