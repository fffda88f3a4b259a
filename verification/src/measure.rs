//! Named accumulators and the ordered registry that owns them.
use vstd::prelude::*;
use crate::accumulate::{is_empty_state, Accumulate};

verus! {

/// One tracked quantity: a name and the accumulator registered under it.
pub struct Measure<A> {
    /// The name, which is what a measure is found by.
    pub name: String,
    /// The statistics of the samples seen so far.
    pub acc: A,
}

/// An ordered sequence of measures, read-only to whoever is handed one.
pub struct Measures<A> {
    list: Vec<Measure<A>>,
}

impl<A> View for Measures<A> {
    type V = Seq<Measure<A>>;

    closed spec fn view(&self) -> Seq<Measure<A>> {
        self.list@
    }
}

/// The names of `list`, in its order.
pub open spec fn names<A>(list: Seq<Measure<A>>) -> Seq<Seq<char>> {
    list.map_values(|m: Measure<A>| m.name@)
}

/// `index` is the first position of `name` in `names`.
pub open spec fn first_at(names: Seq<Seq<char>>, name: Seq<char>, index: int) -> bool {
    &&& 0 <= index < names.len()
    &&& names[index] == name
    &&& forall|j: int| 0 <= j < index ==> names[j] != name
}

impl<A> Measures<A> {
    /// The measures of `list`, in its order.
    pub fn new(list: Vec<Measure<A>>) -> (measures: Self)
        ensures
            measures@ == list@,
    {
        Measures { list }
    }

    /// The measures in their order.
    pub fn slice(&self) -> (items: &[Measure<A>])
        ensures
            items@ == self@,
    {
        self.list.as_slice()
    }
}

/// An ordered collection of named accumulators. Names are added at the end and
/// never renamed or removed, so a position, once handed out, keeps its meaning.
pub struct MeasureRegistry<A> {
    measures: Measures<A>,
}

impl<A> View for MeasureRegistry<A> {
    type V = Seq<Measure<A>>;

    closed spec fn view(&self) -> Seq<Measure<A>> {
        self.measures@
    }
}

impl<A: Accumulate> MeasureRegistry<A> {
    /// A registry without measures.
    pub fn new() -> (registry: Self)
        ensures
            registry@ == Seq::<Measure<A>>::empty(),
    {
        MeasureRegistry { measures: Measures { list: Vec::new() } }
    }

    /// The position of the accumulator registered under `name`, if there is one.
    pub fn find(&self, name: &String) -> (found: Option<usize>)
        ensures
            match found {
                Some(index) => first_at(names(self@), name@, index as int),
                None => !names(self@).contains(name@),
            },
    {
        let mut index: usize = 0;
        while index < self.measures.list.len()
            invariant
                index <= self.measures.list.len(),
                forall|j: int| 0 <= j < index ==> names(self@)[j] != name@,
            decreases self.measures.list.len() - index,
        {
            if self.measures.list[index].name == *name {
                return Some(index);
            }
            index += 1;
        }
        None
    }

    /// Adds an empty accumulator under `name` at the end and returns its position.
    ///
    /// The caller has looked `name` up with `find` and not found it.
    pub fn register(&mut self, name: String) -> (index: usize)
        requires
            !names(old(self)@).contains(name@),
        ensures
            index == old(self)@.len(),
            exists|empty: A| #[trigger]
                is_empty_state(empty) && final(self)@ == old(self)@.push(
                    Measure { name, acc: empty },
                ),
            names(final(self)@) == names(old(self)@).push(name@),
            names(old(self)@).no_duplicates() ==> names(final(self)@).no_duplicates(),
    {
        let index = self.measures.list.len();
        let empty = A::new();
        let ghost fresh = Measure { name, acc: empty };
        self.measures.list.push(Measure { name, acc: empty });
        assert(is_empty_state(fresh.acc) && self@ == old(self)@.push(fresh));
        assert(names(self@) =~= names(old(self)@).push(name@));
        index
    }

    /// Exclusive access to the accumulator at `index`, for as long as the borrow
    /// lasts. Only the accumulator can be changed through it: the name and the
    /// other measures stay as they are.
    pub fn accumulator(&mut self, index: usize) -> (acc: &mut A)
        requires
            index < old(self)@.len(),
        ensures
            *acc == old(self)@[index as int].acc,
            final(self)@ == old(self)@.update(
                index as int,
                Measure { name: old(self)@[index as int].name, acc: *final(acc) },
            ),
            names(final(self)@) == names(old(self)@),
    {
        let ghost before = self.measures.list@;
        let measure = &mut self.measures.list[index];
        proof {
            let after = before.update(
                index as int,
                Measure { name: before[index as int].name, acc: final(measure).acc },
            );
            assert(names(after) =~= names(before));
        }
        &mut measure.acc
    }

    /// All measures in the order in which their names were registered.
    pub fn measures(&self) -> (all: &Measures<A>)
        ensures
            all@ == self@,
    {
        &self.measures
    }
}

} // verus!
