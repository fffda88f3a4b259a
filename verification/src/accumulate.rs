//! The interface between the registry and the statistics it carries.
use vstd::prelude::*;

verus! {

/// What an accumulator shows of itself in a report, already turned into text.
pub struct Figures {
    /// The current estimate.
    pub value: String,
    /// The current uncertainty of the estimate.
    pub uncertainty: String,
    /// The uncertainty divided by the absolute value of the estimate. Where the
    /// estimate is zero the quotient is not finite, and the text says so.
    pub relative_uncertainty: String,
}

/// Streaming statistical state that summarises a set of samples.
///
/// The registry and the exporters never look inside an accumulator. They create
/// empty ones, combine them, and ask for the number of samples and for the figures
/// to print. Nothing is assumed of an implementation: every contract in this crate
/// speaks of what these four methods return through the predicates below, so a
/// verified implementation's own `ensures` carry through to the callers.
pub trait Accumulate: Sized {
    /// The state that has seen no sample.
    fn new() -> Self;

    /// The state that summarises the samples of `self` together with those of
    /// `other`.
    fn merge(&self, other: &Self) -> Self;

    /// The number of samples folded in so far.
    fn num_of_samples(&self) -> u64;

    /// The estimate, its uncertainty and their quotient, as they are to be printed.
    fn figures(&self) -> Figures;
}

/// `acc` is a state that `Accumulate::new` can return.
pub open spec fn is_empty_state<A: Accumulate>(acc: A) -> bool {
    call_ensures(A::new, (), acc)
}

/// `sum` is a state that merging `other` into `target` can return.
pub open spec fn merges_to<A: Accumulate>(target: A, other: A, sum: A) -> bool {
    call_ensures(A::merge, (&target, &other), sum)
}

/// `count` is a number of samples that `acc` can report.
pub open spec fn counts<A: Accumulate>(acc: A, count: u64) -> bool {
    call_ensures(A::num_of_samples, (&acc,), count)
}

/// `figures` are figures that `acc` can show.
pub open spec fn shows<A: Accumulate>(acc: A, figures: Figures) -> bool {
    call_ensures(A::figures, (&acc,), figures)
}

} // verus!
