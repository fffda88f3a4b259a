//! The merge protocol: what it means to absorb a measure, or a batch of them,
//! into running totals, and what follows for the names of the totals.
use vstd::prelude::*;
use vstd::seq_lib::{commutative_foldl, lemma_fold_left_permutation, to_multiset_len};
use crate::accumulate::{counts, is_empty_state, merges_to, Accumulate};
use crate::measure::{first_at, names, Measure};

verus! {

/// `after` is what `before` becomes when `incoming` is looked up by its name,
/// registered at the end if the name is new, and merged into the accumulator
/// under that name. Every other measure stays as it is, and so do all names.
pub open spec fn absorbed<A: Accumulate>(
    before: Seq<Measure<A>>,
    incoming: Measure<A>,
    after: Seq<Measure<A>>,
) -> bool {
    if names(before).contains(incoming.name@) {
        exists|index: int, sum: A|
            {
                &&& first_at(names(before), incoming.name@, index)
                &&& #[trigger] merges_to(before[index].acc, incoming.acc, sum)
                &&& after == before.update(index, Measure { name: before[index].name, acc: sum })
            }
    } else {
        exists|empty: A, sum: A|
            {
                &&& is_empty_state(empty)
                &&& #[trigger] merges_to(empty, incoming.acc, sum)
                &&& after == before.push(Measure { name: incoming.name, acc: sum })
            }
    }
}

/// `after` is what `before` becomes when the measures of `batch` are absorbed one
/// after the other, first to last.
pub open spec fn folded<A: Accumulate>(
    before: Seq<Measure<A>>,
    batch: Seq<Measure<A>>,
    after: Seq<Measure<A>>,
) -> bool
    decreases batch.len(),
{
    if batch.len() == 0 {
        after == before
    } else {
        exists|between: Seq<Measure<A>>|
            folded(before, batch.drop_last(), between) && #[trigger] absorbed(
                between,
                batch.last(),
                after,
            )
    }
}

/// What the names `known` become when the names of `incoming` are met one after
/// the other and each name that is not there yet is added at the end.
pub open spec fn first_seen(known: Seq<Seq<char>>, incoming: Seq<Seq<char>>) -> Seq<Seq<char>>
    decreases incoming.len(),
{
    if incoming.len() == 0 {
        known
    } else {
        let so_far = first_seen(known, incoming.drop_last());
        if so_far.contains(incoming.last()) {
            so_far
        } else {
            so_far.push(incoming.last())
        }
    }
}

/// Absorbing a measure adds its name at the end where the name is new, and
/// leaves the names as they are where it is not.
pub proof fn absorbed_names<A: Accumulate>(
    before: Seq<Measure<A>>,
    incoming: Measure<A>,
    after: Seq<Measure<A>>,
)
    requires
        absorbed(before, incoming, after),
    ensures
        names(after) == if names(before).contains(incoming.name@) {
            names(before)
        } else {
            names(before).push(incoming.name@)
        },
{
    if names(before).contains(incoming.name@) {
        assert(names(after) =~= names(before));
    } else {
        assert(names(after) =~= names(before).push(incoming.name@));
    }
}

/// Absorbing a batch leaves the names of the totals in the order in which they
/// were first seen: those that were there stay in front, and the new ones follow
/// in the order of their first appearance in the batch.
pub proof fn folded_names<A: Accumulate>(
    before: Seq<Measure<A>>,
    batch: Seq<Measure<A>>,
    after: Seq<Measure<A>>,
)
    requires
        folded(before, batch, after),
    ensures
        names(after) == first_seen(names(before), names(batch)),
    decreases batch.len(),
{
    if batch.len() > 0 {
        let between = choose|between: Seq<Measure<A>>|
            folded(before, batch.drop_last(), between) && #[trigger] absorbed(
                between,
                batch.last(),
                after,
            );
        folded_names(before, batch.drop_last(), between);
        absorbed_names(between, batch.last(), after);
        assert(names(batch).drop_last() =~= names(batch.drop_last()));
    }
}

/// The names that were known stay where they are, whichever names come in.
pub proof fn first_seen_keeps_front(known: Seq<Seq<char>>, incoming: Seq<Seq<char>>)
    ensures
        known.is_prefix_of(first_seen(known, incoming)),
    decreases incoming.len(),
{
    if incoming.len() > 0 {
        first_seen_keeps_front(known, incoming.drop_last());
    }
}

/// Every name that was known or has come in is there afterwards, and no other.
pub proof fn first_seen_holds_all(known: Seq<Seq<char>>, incoming: Seq<Seq<char>>)
    ensures
        first_seen(known, incoming).to_set() == known.to_set().union(incoming.to_set()),
    decreases incoming.len(),
{
    let all = first_seen(known, incoming);
    if incoming.len() > 0 {
        let front = incoming.drop_last();
        let so_far = first_seen(known, front);
        first_seen_holds_all(known, front);
        assert(incoming =~= front.push(incoming.last()));
        front.lemma_push_to_set_commute(incoming.last());
        so_far.lemma_push_to_set_commute(incoming.last());
    }
    assert(all.to_set() =~= known.to_set().union(incoming.to_set()));
}

/// Where no name was known twice, none is afterwards.
pub proof fn first_seen_keeps_apart(known: Seq<Seq<char>>, incoming: Seq<Seq<char>>)
    requires
        known.no_duplicates(),
    ensures
        first_seen(known, incoming).no_duplicates(),
    decreases incoming.len(),
{
    if incoming.len() > 0 {
        first_seen_keeps_apart(known, incoming.drop_last());
    }
}

/// A first position stays the first position when the names go on.
proof fn first_at_stays(names: Seq<Seq<char>>, name: Seq<char>, p: int)
    requires
        names.len() > 0,
        first_at(names.drop_last(), name, p),
    ensures
        first_at(names, name, p),
{
    assert(names[p] == names.drop_last()[p]);
    assert forall|j: int| 0 <= j < p implies names[j] != name by {
        assert(names[j] == names.drop_last()[j]);
    }
}

/// A name that is there afterwards and was not known has come in, and its first
/// appearance among the incoming names has a position.
pub proof fn first_seen_adds_what_came(known: Seq<Seq<char>>, incoming: Seq<Seq<char>>, i: int)
    requires
        known.len() <= i < first_seen(known, incoming).len(),
    ensures
        exists|p: int| first_at(incoming, first_seen(known, incoming)[i], p),
    decreases incoming.len(),
{
    let all = first_seen(known, incoming);
    if incoming.len() > 0 {
        let front = incoming.drop_last();
        let so_far = first_seen(known, front);
        if i < so_far.len() {
            first_seen_adds_what_came(known, front, i);
            let p = choose|p: int| first_at(front, so_far[i], p);
            first_at_stays(incoming, so_far[i], p);
            assert(first_at(incoming, all[i], p));
        } else {
            first_seen_holds_all(known, front);
            assert forall|q: int| 0 <= q < front.len() implies incoming[q] != incoming.last() by {
                assert(front[q] == incoming[q]);
                assert(front.to_set().contains(front[q]));
                assert(so_far.to_set().contains(front[q]));
            }
            assert(first_at(incoming, all[i], incoming.len() - 1));
        }
    }
}

/// The names that were not known follow in the order in which they first came
/// in: of two of them, the one in front has appeared first.
pub proof fn first_seen_in_order_of_arrival(
    known: Seq<Seq<char>>,
    incoming: Seq<Seq<char>>,
    i: int,
    j: int,
)
    requires
        known.len() <= i < j < first_seen(known, incoming).len(),
    ensures
        exists|p: int, q: int|
            p < q && first_at(incoming, first_seen(known, incoming)[i], p) && first_at(
                incoming,
                first_seen(known, incoming)[j],
                q,
            ),
    decreases incoming.len(),
{
    let all = first_seen(known, incoming);
    if incoming.len() > 0 {
        let front = incoming.drop_last();
        let so_far = first_seen(known, front);
        if j < so_far.len() {
            first_seen_in_order_of_arrival(known, front, i, j);
            let (p, q) = choose|p: int, q: int|
                p < q && first_at(front, so_far[i], p) && first_at(front, so_far[j], q);
            first_at_stays(incoming, so_far[i], p);
            first_at_stays(incoming, so_far[j], q);
            assert(p < q && first_at(incoming, all[i], p) && first_at(incoming, all[j], q));
        } else {
            first_seen_adds_what_came(known, front, i);
            first_seen_adds_what_came(known, incoming, j);
            let p = choose|p: int| first_at(front, so_far[i], p);
            let q = choose|q: int| first_at(incoming, all[j], q);
            first_at_stays(incoming, so_far[i], p);
            assert(first_at(incoming, all[i], p));
            assert(all[j] == incoming.last());
            assert(!so_far.contains(incoming.last()));
            first_seen_holds_all(known, front);
            if q < front.len() {
                assert(front[q] == incoming.last());
                assert(front.to_set().contains(front[q]));
                assert(so_far.to_set().contains(incoming.last()));
            }
            assert(p < q);
        }
    }
}

/// Absorbing one batch and then another is absorbing the two in a row.
pub proof fn folded_in_turn<A: Accumulate>(
    before: Seq<Measure<A>>,
    first: Seq<Measure<A>>,
    between: Seq<Measure<A>>,
    second: Seq<Measure<A>>,
    after: Seq<Measure<A>>,
)
    requires
        folded(before, first, between),
        folded(between, second, after),
    ensures
        folded(before, first + second, after),
    decreases second.len(),
{
    if second.len() == 0 {
        assert(first + second =~= first);
    } else {
        let last_but_one = choose|state: Seq<Measure<A>>|
            folded(between, second.drop_last(), state) && #[trigger] absorbed(
                state,
                second.last(),
                after,
            );
        folded_in_turn(before, first, between, second.drop_last(), last_but_one);
        assert((first + second).drop_last() =~= first + second.drop_last());
        assert((first + second).last() == second.last());
    }
}

/// However many batches have been absorbed, there is one total for each name:
/// where no two totals had the same name before a batch, no two have afterwards,
/// the names are those that were there and those of the batch, and there are as
/// many totals as there are different names among them.
pub proof fn one_total_for_each_name<A: Accumulate>(
    before: Seq<Measure<A>>,
    batch: Seq<Measure<A>>,
    after: Seq<Measure<A>>,
)
    requires
        names(before).no_duplicates(),
        folded(before, batch, after),
    ensures
        names(after).no_duplicates(),
        names(after).to_set() == names(before).to_set().union(names(batch).to_set()),
        after.len() == names(before).to_set().union(names(batch).to_set()).len(),
{
    folded_names(before, batch, after);
    first_seen_keeps_apart(names(before), names(batch));
    first_seen_holds_all(names(before), names(batch));
    names(after).unique_seq_to_set();
}

/// The totals keep the order in which their names were first seen: those that
/// were there before a batch keep their places, whichever names the batch repeats.
pub proof fn first_seen_stays_first<A: Accumulate>(
    before: Seq<Measure<A>>,
    batch: Seq<Measure<A>>,
    after: Seq<Measure<A>>,
)
    requires
        folded(before, batch, after),
    ensures
        names(before).is_prefix_of(names(after)),
{
    folded_names(before, batch, after);
    first_seen_keeps_front(names(before), names(batch));
}

/// The measures under the one name `name` with the accumulators `accs`, in the
/// order of `accs`.
pub open spec fn under_one_name<A>(name: String, accs: Seq<A>) -> Seq<Measure<A>> {
    accs.map_values(|acc: A| Measure { name, acc })
}

/// Where there is one empty state and merging is a function `merged`, absorbing
/// measures under one name into empty totals leaves one total, which holds the
/// accumulators merged from the left.
proof fn folded_under_one_name<A: Accumulate>(
    merged: spec_fn(A, A) -> A,
    empty: A,
    name: String,
    accs: Seq<A>,
    after: Seq<Measure<A>>,
)
    requires
        forall|acc: A| #[trigger] is_empty_state(acc) ==> acc == empty,
        forall|a: A, b: A, sum: A| #[trigger] merges_to(a, b, sum) ==> sum == merged(a, b),
        folded(Seq::empty(), under_one_name(name, accs), after),
    ensures
        accs.len() == 0 ==> after.len() == 0,
        accs.len() > 0 ==> after.len() == 1 && after[0].name@ == name@ && after[0].acc
            == accs.fold_left(empty, merged),
    decreases accs.len(),
{
    let batch = under_one_name(name, accs);
    if accs.len() > 0 {
        let between = choose|between: Seq<Measure<A>>|
            folded(Seq::empty(), batch.drop_last(), between) && #[trigger] absorbed(
                between,
                batch.last(),
                after,
            );
        assert(batch.drop_last() =~= under_one_name(name, accs.drop_last()));
        folded_under_one_name(merged, empty, name, accs.drop_last(), between);
        assert(batch.last() == Measure { name, acc: accs.last() });
        assert(accs.fold_left(empty, merged) == merged(
            accs.drop_last().fold_left(empty, merged),
            accs.last(),
        ));
        if accs.len() == 1 {
            assert(between =~= Seq::<Measure<A>>::empty());
            assert(!names(between).contains(name@));
            assert(accs.drop_last().fold_left(empty, merged) == empty);
        } else {
            assert(names(between)[0] == name@);
            assert(names(between).contains(name@));
        }
    }
}

/// For accumulators that merge exactly, the order in which the measures of one
/// name arrive is immaterial: where there is one empty state, and merging is a
/// function that is associative and commutative, the same accumulators absorbed
/// into empty totals in two different orders leave the same total, which is all of
/// them merged.
pub proof fn order_of_arrival_is_immaterial<A: Accumulate>(
    merged: spec_fn(A, A) -> A,
    empty: A,
    name: String,
    one_order: Seq<A>,
    other_order: Seq<A>,
    after_one: Seq<Measure<A>>,
    after_other: Seq<Measure<A>>,
)
    requires
        forall|acc: A| #[trigger] is_empty_state(acc) ==> acc == empty,
        forall|a: A, b: A, sum: A| #[trigger] merges_to(a, b, sum) ==> sum == merged(a, b),
        forall|a: A, b: A| #[trigger] merged(a, b) == merged(b, a),
        forall|a: A, b: A, c: A| #[trigger] merged(merged(a, b), c) == merged(a, merged(b, c)),
        one_order.to_multiset() == other_order.to_multiset(),
        folded(Seq::empty(), under_one_name(name, one_order), after_one),
        folded(Seq::empty(), under_one_name(name, other_order), after_other),
    ensures
        after_one.len() == after_other.len(),
        names(after_one) == names(after_other),
        forall|i: int| 0 <= i < after_one.len() ==> after_one[i].acc == after_other[i].acc,
        one_order.len() > 0 ==> after_one.len() == 1 && after_one[0].acc == one_order.fold_left(
            empty,
            merged,
        ),
{
    folded_under_one_name(merged, empty, name, one_order, after_one);
    folded_under_one_name(merged, empty, name, other_order, after_other);
    to_multiset_len(one_order);
    to_multiset_len(other_order);
    assert(commutative_foldl(merged)) by {
        assert forall|x: A, y: A, v: A| #[trigger]
            merged(merged(v, x), y) == merged(merged(v, y), x) by {
            assert(merged(x, y) == merged(y, x));
        }
    }
    lemma_fold_left_permutation(one_order, other_order, merged, empty);
    assert(names(after_one) =~= names(after_other));
}

/// The samples of all of `parts` together, as `samples` counts them.
pub open spec fn total_samples<A>(samples: spec_fn(A) -> nat, parts: Seq<A>) -> nat {
    parts.fold_left(0nat, |sum: nat, part: A| sum + samples(part))
}

/// Where an empty state holds no samples and a merged state holds those of both
/// states, absorbing measures under one name into empty totals leaves one total,
/// which holds the samples of all of them.
proof fn counted_under_one_name<A: Accumulate>(
    samples: spec_fn(A) -> nat,
    name: String,
    parts: Seq<A>,
    after: Seq<Measure<A>>,
)
    requires
        forall|acc: A| #[trigger] is_empty_state(acc) ==> samples(acc) == 0,
        forall|a: A, b: A, sum: A| #[trigger]
            merges_to(a, b, sum) ==> samples(sum) == samples(a) + samples(b),
        folded(Seq::empty(), under_one_name(name, parts), after),
    ensures
        parts.len() == 0 ==> after.len() == 0,
        parts.len() > 0 ==> after.len() == 1 && after[0].name@ == name@ && samples(after[0].acc)
            == total_samples(samples, parts),
    decreases parts.len(),
{
    let batch = under_one_name(name, parts);
    if parts.len() > 0 {
        let between = choose|between: Seq<Measure<A>>|
            folded(Seq::empty(), batch.drop_last(), between) && #[trigger] absorbed(
                between,
                batch.last(),
                after,
            );
        assert(batch.drop_last() =~= under_one_name(name, parts.drop_last()));
        counted_under_one_name(samples, name, parts.drop_last(), between);
        assert(batch.last() == Measure { name, acc: parts.last() });
        assert(total_samples(samples, parts) == total_samples(samples, parts.drop_last())
            + samples(parts.last()));
        if parts.len() == 1 {
            assert(between =~= Seq::<Measure<A>>::empty());
            assert(!names(between).contains(name@));
            assert(total_samples(samples, parts.drop_last()) == 0);
        } else {
            assert(names(between)[0] == name@);
            assert(names(between).contains(name@));
        }
    }
}

/// The samples under one name add up, in whatever order they arrive and whatever
/// else the accumulators hold: where `samples` counts what `num_of_samples`
/// reports, an empty state holds no samples and a merged state holds those of
/// both states, the same parts absorbed into empty totals in two different orders
/// leave one total each, and both report the samples of all parts together.
pub proof fn samples_add_up<A: Accumulate>(
    samples: spec_fn(A) -> nat,
    name: String,
    one_order: Seq<A>,
    other_order: Seq<A>,
    after_one: Seq<Measure<A>>,
    after_other: Seq<Measure<A>>,
)
    requires
        forall|acc: A, count: u64| #[trigger] counts(acc, count) ==> count == samples(acc),
        forall|acc: A| #[trigger] is_empty_state(acc) ==> samples(acc) == 0,
        forall|a: A, b: A, sum: A| #[trigger]
            merges_to(a, b, sum) ==> samples(sum) == samples(a) + samples(b),
        one_order.len() > 0,
        one_order.to_multiset() == other_order.to_multiset(),
        folded(Seq::empty(), under_one_name(name, one_order), after_one),
        folded(Seq::empty(), under_one_name(name, other_order), after_other),
    ensures
        after_one.len() == 1 && after_other.len() == 1,
        total_samples(samples, one_order) == total_samples(samples, other_order),
        forall|count: u64| #[trigger]
            counts(after_one[0].acc, count) ==> count == total_samples(samples, one_order),
        forall|count: u64| #[trigger]
            counts(after_other[0].acc, count) ==> count == total_samples(samples, one_order),
{
    to_multiset_len(one_order);
    to_multiset_len(other_order);
    counted_under_one_name(samples, name, one_order, after_one);
    counted_under_one_name(samples, name, other_order, after_other);
    let add = |sum: nat, part: A| sum + samples(part);
    assert(commutative_foldl(add));
    lemma_fold_left_permutation(one_order, other_order, add, 0nat);
}

} // verus!
