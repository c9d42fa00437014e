//! What an update does not depend on: the order of the reports in a batch.

use crate::airspace::history::{
    lemma_first_not_before_bounds, placed, slot, sorted,
};
use crate::airspace::{
    history_at, in_order, lemma_updated, pruned_all, received, received_all, updated,
};
use crate::types::{Aircraft, Timestamp};
use vstd::multiset::Multiset;
use vstd::prelude::*;
use vstd::relations::{sorted_by, total_ordering};
use vstd::seq_lib::{
    commutative_foldl, lemma_fold_left_permutation, lemma_sorted_unique, to_multiset_insert,
};

verus! {

/// The instants of the reports of `h`, in the order of `h`.
pub open spec fn instants(h: Seq<Aircraft>) -> Seq<Timestamp> {
    h.map_values(|a: Aircraft| a.datetime)
}

/// For each history of `m`, how often each value of `of` occurs among its
/// reports.
pub open spec fn tally<T>(m: Map<u32, Seq<Aircraft>>, of: spec_fn(Aircraft) -> T) -> Map<
    u32,
    Multiset<T>,
> {
    m.map_values(|h: Seq<Aircraft>| h.map_values(of).to_multiset())
}

/// The values counted for `address` in `counts`; none where it has no entry.
pub open spec fn counted<T>(counts: Map<u32, Multiset<T>>, address: u32) -> Multiset<T> {
    if counts.contains_key(address) {
        counts[address]
    } else {
        Multiset::empty()
    }
}

/// Counts one report more, unless it has left the window.
pub open spec fn count_report<T>(of: spec_fn(Aircraft) -> T, now: Timestamp, window: u32) -> spec_fn(
    Map<u32, Multiset<T>>,
    Aircraft,
) -> Map<u32, Multiset<T>> {
    |counts: Map<u32, Multiset<T>>, a: Aircraft|
        if a.datetime.expired(now, window) {
            counts
        } else {
            counts.insert(
                a.icao_address.spec_value(),
                counted(counts, a.icao_address.spec_value()).insert(of(a)),
            )
        }
}

/// Taking a report in counts it.
proof fn lemma_received_counts<T>(
    m: Map<u32, Seq<Aircraft>>,
    a: Aircraft,
    now: Timestamp,
    window: u32,
    of: spec_fn(Aircraft) -> T,
)
    ensures
        tally(received(m, a, now, window), of) == count_report(of, now, window)(tally(m, of), a),
{
    broadcast use vstd::multiset::group_multiset_axioms;

    if !a.datetime.expired(now, window) {
        let own = a.icao_address.spec_value();
        let before = history_at(m, own);
        lemma_first_not_before_bounds(before, a.datetime);
        let at = slot(before, a.datetime);
        assert(placed(before, a).map_values(of) == before.map_values(of).insert(at, of(a)));
        to_multiset_insert(before.map_values(of), at, of(a));
        if !m.contains_key(own) {
            assert(before.map_values(of) == Seq::<T>::empty());
            before.map_values(of).to_multiset_ensures();
            assert(before.map_values(of).to_multiset().len() == 0);
            assert(before.map_values(of).to_multiset() =~= Multiset::<T>::empty());
        }
        assert(tally(received(m, a, now, window), of) =~= count_report(of, now, window)(
            tally(m, of),
            a,
        ));
    }
}

/// Taking a batch in counts its reports, one after the other.
proof fn lemma_received_all_counts<T>(
    m: Map<u32, Seq<Aircraft>>,
    batch: Seq<Aircraft>,
    now: Timestamp,
    window: u32,
    of: spec_fn(Aircraft) -> T,
)
    ensures
        tally(received_all(m, batch, now, window), of) == batch.fold_left(
            tally(m, of),
            count_report(of, now, window),
        ),
    decreases batch.len(),
{
    let count = count_report(of, now, window);
    batch.lemma_fold_left_alt(tally(m, of), count);
    if batch.len() > 0 {
        let rest = batch.drop_first();
        let taken = received(m, batch.first(), now, window);
        lemma_received_counts(m, batch.first(), now, window, of);
        lemma_received_all_counts(taken, rest, now, window, of);
        rest.lemma_fold_left_alt(tally(taken, of), count);
        assert(rest == batch.subrange(1, batch.len() as int));
    }
}

/// Counting two reports gives the same in either order.
proof fn lemma_counting_commutes<T>(of: spec_fn(Aircraft) -> T, now: Timestamp, window: u32)
    ensures
        commutative_foldl(count_report(of, now, window)),
{
    broadcast use vstd::multiset::group_multiset_axioms;

    let f = count_report(of, now, window);
    assert forall|x: Aircraft, y: Aircraft, v: Map<u32, Multiset<T>>| #[trigger]
        f(f(v, x), y) == f(f(v, y), x) by {
        let kx = x.icao_address.spec_value();
        let ky = y.icao_address.spec_value();
        if !x.datetime.expired(now, window) && !y.datetime.expired(now, window) && kx == ky {
            assert(counted(v, kx).insert(of(y)).insert(of(x)) =~= counted(v, kx).insert(
                of(x),
            ).insert(of(y)));
        }
        assert(f(f(v, x), y) =~= f(f(v, y), x));
    }
}

/// The order of instants is a total order.
pub proof fn lemma_instants_are_totally_ordered()
    ensures
        total_ordering(|a: Timestamp, b: Timestamp| a.not_after(b)),
{
    let leq = |a: Timestamp, b: Timestamp| a.not_after(b);
    assert forall|a: Timestamp, b: Timestamp| #[trigger] leq(a, b) && #[trigger] leq(b, a) implies a
        == b by {}
}

/// Two batches that hold the same reports, in whatever order, leave an
/// airspace with the same aircraft, for each of them the same reports, and
/// for each of them the same sequence of instants. (Reports of one aircraft
/// and one instant can stand in either order.)
pub proof fn lemma_update_ignores_batch_order(
    m: Map<u32, Seq<Aircraft>>,
    first: Seq<Aircraft>,
    second: Seq<Aircraft>,
    now: Timestamp,
    window: u32,
)
    requires
        in_order(m),
        first.to_multiset() == second.to_multiset(),
    ensures
        updated(m, first, now, window).dom() == updated(m, second, now, window).dom(),
        forall|address: u32| #[trigger]
            updated(m, first, now, window).contains_key(address) ==> updated(
                m,
                first,
                now,
                window,
            )[address].to_multiset() == updated(m, second, now, window)[address].to_multiset(),
        forall|address: u32| #[trigger]
            updated(m, first, now, window).contains_key(address) ==> instants(
                updated(m, first, now, window)[address],
            ) == instants(updated(m, second, now, window)[address]),
{
    let start = pruned_all(m, now, window);
    let one = updated(m, first, now, window);
    let other = updated(m, second, now, window);
    let same = |a: Aircraft| a;
    let when = |a: Aircraft| a.datetime;
    lemma_received_all_counts(start, first, now, window, same);
    lemma_received_all_counts(start, second, now, window, same);
    lemma_counting_commutes(same, now, window);
    lemma_fold_left_permutation(first, second, count_report(same, now, window), tally(start, same));
    lemma_received_all_counts(start, first, now, window, when);
    lemma_received_all_counts(start, second, now, window, when);
    lemma_counting_commutes(when, now, window);
    lemma_fold_left_permutation(first, second, count_report(when, now, window), tally(start, when));
    assert(tally(one, same) == tally(other, same));
    assert(tally(one, when) == tally(other, when));
    assert(one.dom() =~= tally(one, same).dom());
    assert(other.dom() =~= tally(other, same).dom());
    lemma_updated(m, first, now, window);
    lemma_updated(m, second, now, window);
    lemma_instants_are_totally_ordered();
    let leq = |a: Timestamp, b: Timestamp| a.not_after(b);
    assert forall|address: u32| #[trigger] one.contains_key(address) implies one[address].to_multiset()
        == other[address].to_multiset() && instants(one[address]) == instants(other[address]) by {
        assert(other.contains_key(address));
        assert(tally(one, same)[address] == tally(other, same)[address]);
        assert(one[address].map_values(same) == one[address]);
        assert(other[address].map_values(same) == other[address]);
        assert(tally(one, when)[address] == tally(other, when)[address]);
        let x = instants(one[address]);
        let y = instants(other[address]);
        assert(x.to_multiset() == y.to_multiset());
        assert(sorted(one[address]) && sorted(other[address]));
        assert(sorted_by(x, leq)) by {
            assert forall|i: int, j: int| 0 <= i < j < x.len() implies #[trigger] leq(x[i], x[j]) by {
                assert(one[address][i].datetime.not_after(one[address][j].datetime));
            }
        }
        assert(sorted_by(y, leq)) by {
            assert forall|i: int, j: int| 0 <= i < j < y.len() implies #[trigger] leq(y[i], y[j]) by {
                assert(other[address][i].datetime.not_after(other[address][j].datetime));
            }
        }
        lemma_sorted_unique(x, y, leq);
    }
}

} // verus!
