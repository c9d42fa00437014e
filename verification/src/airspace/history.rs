//! The history of one aircraft: its reports, oldest first.

use crate::types::{Aircraft, Timestamp};
use std::collections::VecDeque;
use vstd::prelude::*;

verus! {

/// Whether no report of `h` is later than one that follows it.
pub open spec fn sorted(h: Seq<Aircraft>) -> bool {
    forall|i: int, j: int| 0 <= i <= j < h.len() ==> h[i].datetime.not_after(h[j].datetime)
}

/// Whether every report of `h` is of the aircraft `address`.
pub open spec fn all_of(h: Seq<Aircraft>, address: u32) -> bool {
    forall|i: int| 0 <= i < h.len() ==> (#[trigger] h[i]).icao_address.spec_value() == address
}

/// Whether every report of `h` lies in the window of `window` seconds that
/// ends at `now`.
pub open spec fn none_expired(h: Seq<Aircraft>, now: Timestamp, window: u32) -> bool {
    forall|i: int| 0 <= i < h.len() ==> !(#[trigger] h[i]).datetime.expired(now, window)
}

/// `h` without the reports at its front that have left the window: the
/// first report that has not left it stays, and all that follow it.
pub open spec fn pruned(h: Seq<Aircraft>, now: Timestamp, window: u32) -> Seq<Aircraft>
    decreases h.len(),
{
    if h.len() > 0 && h[0].datetime.expired(now, window) {
        pruned(h.drop_first(), now, window)
    } else {
        h
    }
}

/// The place of the first report of `h` that is not earlier than `t`; the
/// length of `h` where all are earlier.
pub open spec fn first_not_before(h: Seq<Aircraft>, t: Timestamp) -> int
    decreases h.len(),
{
    if h.len() == 0 || !h[0].datetime.before(t) {
        0
    } else {
        1 + first_not_before(h.drop_first(), t)
    }
}

/// Where a report of the instant `t` goes into `h`. It goes to the end where
/// the newest report is not later than `t`, behind a report of the same
/// instant; else before the first report that is not earlier than `t`.
pub open spec fn slot(h: Seq<Aircraft>, t: Timestamp) -> int {
    if h.len() == 0 || h.last().datetime.not_after(t) {
        h.len() as int
    } else {
        first_not_before(h, t)
    }
}

/// `h` with the report `a` in its place.
pub open spec fn placed(h: Seq<Aircraft>, a: Aircraft) -> Seq<Aircraft> {
    h.insert(slot(h, a.datetime), a)
}

/// The place that `first_not_before` finds is the one with only earlier
/// reports before it and a report that is not earlier at it.
pub proof fn lemma_first_not_before(h: Seq<Aircraft>, t: Timestamp, k: int)
    requires
        0 <= k <= h.len(),
        forall|i: int| 0 <= i < k ==> (#[trigger] h[i]).datetime.before(t),
        k < h.len() ==> !h[k].datetime.before(t),
    ensures
        first_not_before(h, t) == k,
    decreases h.len(),
{
    if k > 0 {
        assert(h[0].datetime.before(t));
        let rest = h.drop_first();
        assert forall|i: int| 0 <= i < k - 1 implies (#[trigger] rest[i]).datetime.before(t) by {
            assert(rest[i] == h[i + 1]);
        }
        lemma_first_not_before(rest, t, k - 1);
    }
}

/// `first_not_before` lies in the history, after earlier reports only.
pub proof fn lemma_first_not_before_bounds(h: Seq<Aircraft>, t: Timestamp)
    ensures
        0 <= first_not_before(h, t) <= h.len(),
        forall|i: int| 0 <= i < first_not_before(h, t) ==> (#[trigger] h[i]).datetime.before(t),
        first_not_before(h, t) < h.len() ==> !h[first_not_before(h, t)].datetime.before(t),
    decreases h.len(),
{
    if !(h.len() == 0 || !h[0].datetime.before(t)) {
        let rest = h.drop_first();
        lemma_first_not_before_bounds(rest, t);
        let k = first_not_before(rest, t);
        assert forall|i: int| 0 <= i < k + 1 implies (#[trigger] h[i]).datetime.before(t) by {
            if i > 0 {
                assert(h[i] == rest[i - 1]);
            }
        }
        if k < rest.len() {
            assert(h[k + 1] == rest[k]);
        }
    }
}

/// Pruning cuts a front off: what stays is the end of the history, in
/// order, and its first report has not left the window.
pub proof fn lemma_pruned(h: Seq<Aircraft>, now: Timestamp, window: u32)
    ensures
        pruned(h, now, window).len() <= h.len(),
        pruned(h, now, window) == h.subrange(
            h.len() - pruned(h, now, window).len(),
            h.len() as int,
        ),
        pruned(h, now, window).len() > 0 ==> !pruned(h, now, window)[0].datetime.expired(
            now,
            window,
        ),
        forall|i: int|
            0 <= i < h.len() - pruned(h, now, window).len() ==> (#[trigger] h[i]).datetime.expired(
                now,
                window,
            ),
    decreases h.len(),
{
    if h.len() > 0 && h[0].datetime.expired(now, window) {
        let rest = h.drop_first();
        lemma_pruned(rest, now, window);
        let kept = pruned(rest, now, window);
        assert(kept == h.subrange(h.len() - kept.len(), h.len() as int));
        assert forall|i: int| 0 <= i < h.len() - kept.len() implies (#[trigger] h[i]).datetime.expired(
            now,
            window,
        ) by {
            if i > 0 {
                assert(h[i] == rest[i - 1]);
            }
        }
    } else {
        assert(h == h.subrange(0, h.len() as int));
    }
}

/// A history in order stays in order when it is pruned, keeps its aircraft,
/// and holds no report that has left the window.
pub proof fn lemma_pruned_sorted(h: Seq<Aircraft>, now: Timestamp, window: u32)
    requires
        sorted(h),
    ensures
        sorted(pruned(h, now, window)),
        none_expired(pruned(h, now, window), now, window),
        forall|address: u32| all_of(h, address) ==> all_of(pruned(h, now, window), address),
{
    lemma_pruned(h, now, window);
    let kept = pruned(h, now, window);
    let cut = h.len() - kept.len();
    assert forall|i: int, j: int| 0 <= i <= j < kept.len() implies kept[i].datetime.not_after(
        kept[j].datetime,
    ) by {
        assert(kept[i] == h[cut + i] && kept[j] == h[cut + j]);
    }
    assert forall|i: int| 0 <= i < kept.len() implies !(#[trigger] kept[i]).datetime.expired(
        now,
        window,
    ) by {
        assert(kept[0].datetime.not_after(kept[i].datetime));
    }
    assert forall|address: u32| all_of(h, address) implies all_of(kept, address) by {
        assert forall|i: int| 0 <= i < kept.len() implies (#[trigger] kept[i]).icao_address.spec_value()
            == address by {
            assert(kept[i] == h[cut + i]);
        }
    }
}

/// A history in order stays in order when a report is placed in it.
pub proof fn lemma_placed_sorted(h: Seq<Aircraft>, a: Aircraft)
    requires
        sorted(h),
    ensures
        sorted(placed(h, a)),
        0 <= slot(h, a.datetime) <= h.len(),
        placed(h, a).len() == h.len() + 1,
        forall|address: u32|
            all_of(h, address) && a.icao_address.spec_value() == address ==> all_of(
                placed(h, a),
                address,
            ),
        forall|now: Timestamp, window: u32|
            none_expired(h, now, window) && !a.datetime.expired(now, window) ==> none_expired(
                placed(h, a),
                now,
                window,
            ),
{
    let t = a.datetime;
    let k = slot(h, t);
    lemma_first_not_before_bounds(h, t);
    let after = placed(h, a);
    assert forall|i: int, j: int| 0 <= i <= j < after.len() implies after[i].datetime.not_after(
        after[j].datetime,
    ) by {
        if h.len() > 0 && h.last().datetime.not_after(t) {
            if i < k {
                assert(h[i].datetime.not_after(h.last().datetime));
            }
        }
        if i < k && j > k {
            assert(h[i].datetime.not_after(h[j - 1].datetime));
        }
        if i == k && j > k {
            assert(h[k].datetime.not_after(h[j - 1].datetime));
        }
    }
    assert forall|address: u32|
        all_of(h, address) && a.icao_address.spec_value() == address implies all_of(
        after,
        address,
    ) by {
        assert forall|i: int| 0 <= i < after.len() implies (#[trigger] after[i]).icao_address.spec_value()
            == address by {
            if i < k {
                assert(after[i] == h[i]);
            } else if i > k {
                assert(after[i] == h[i - 1]);
            }
        }
    }
    assert forall|now: Timestamp, window: u32|
        none_expired(h, now, window) && !a.datetime.expired(now, window) implies none_expired(
        after,
        now,
        window,
    ) by {
        assert forall|i: int| 0 <= i < after.len() implies !(#[trigger] after[i]).datetime.expired(
            now,
            window,
        ) by {
            if i < k {
                assert(after[i] == h[i]);
            } else if i > k {
                assert(after[i] == h[i - 1]);
            }
        }
    }
}

/// Drops from the front of `history` the reports that have left the window
/// of `window` seconds that ends at `now`.
pub fn prune(history: &mut VecDeque<Aircraft>, now: &Timestamp, window: u32)
    ensures
        final(history)@ == pruned(old(history)@, *now, window),
{
    broadcast use vstd::std_specs::vecdeque::axiom_spec_len;

    while history.len() > 0 && history[0].datetime.is_expired(now, window)
        invariant
            pruned(history@, *now, window) == pruned(old(history)@, *now, window),
        decreases history.len(),
    {
        let ghost before = history@;
        let _ = history.pop_front();
        assert(history@ == before.drop_first());
    }
}

/// Finds the place of the first report of `history` that is not earlier
/// than `t`, by halving.
pub fn partition_point(history: &VecDeque<Aircraft>, t: &Timestamp) -> (place: usize)
    requires
        sorted(history@),
    ensures
        place == first_not_before(history@, *t),
        place <= history.len(),
{
    broadcast use vstd::std_specs::vecdeque::axiom_spec_len;

    let mut low: usize = 0;
    let mut high: usize = history.len();
    while low < high
        invariant
            low <= high <= history.len(),
            sorted(history@),
            forall|i: int| 0 <= i < low ==> (#[trigger] history@[i]).datetime.before(*t),
            forall|i: int| high <= i < history.len() ==> !(#[trigger] history@[i]).datetime.before(*t),
        decreases high - low,
    {
        let middle = low + (high - low) / 2;
        if history[middle].datetime.is_before(t) {
            assert forall|i: int| 0 <= i < middle + 1 implies (#[trigger] history@[i]).datetime.before(
                *t,
            ) by {
                assert(history@[i].datetime.not_after(history@[middle as int].datetime));
            }
            low = middle + 1;
        } else {
            assert forall|i: int| middle <= i < history.len() implies !(#[trigger] history@[i]).datetime.before(
                *t,
            ) by {
                assert(history@[middle as int].datetime.not_after(history@[i].datetime));
            }
            high = middle;
        }
    }
    proof {
        lemma_first_not_before(history@, *t, low as int);
    }
    low
}

/// Puts `aircraft` in its place in `history`: at the end where it is not
/// earlier than the newest report, at the front where it is not later than
/// the oldest, and else where halving finds its place.
pub fn place(history: &mut VecDeque<Aircraft>, aircraft: Aircraft)
    requires
        sorted(old(history)@),
    ensures
        final(history)@ == placed(old(history)@, aircraft),
{
    broadcast use vstd::std_specs::vecdeque::axiom_spec_len;

    let count = history.len();
    if count == 0 || history[count - 1].datetime.is_not_after(&aircraft.datetime) {
        history.push_back(aircraft);
        assert(history@ == old(history)@.insert(count as int, aircraft));
    } else if aircraft.datetime.is_not_after(&history[0].datetime) {
        proof {
            lemma_first_not_before(history@, aircraft.datetime, 0);
        }
        history.push_front(aircraft);
        assert(history@ == old(history)@.insert(0, aircraft));
    } else {
        let at = partition_point(history, &aircraft.datetime);
        history.insert(at, aircraft);
    }
}

} // verus!
