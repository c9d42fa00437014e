//! The airspace: for each aircraft the reports of a trailing window of time,
//! oldest first.

pub mod history;
pub mod laws;
pub mod store;

use crate::airspace::history::{
    all_of, lemma_placed_sorted, lemma_pruned_sorted, none_expired, place, placed, prune, pruned,
    sorted,
};
use crate::clock::utc_now;
use crate::keys::keys_of;
use crate::types::{Aircraft, ICAOAddress, Timestamp};
use std::collections::{HashMap, VecDeque};
use vstd::prelude::*;
use vstd::std_specs::iter::IteratorSpec;

verus! {

/// The histories that `map` holds, each as the sequence of its reports.
pub open spec fn tracks(map: HashMap<u32, VecDeque<Aircraft>>) -> Map<u32, Seq<Aircraft>> {
    map@.map_values(|history: VecDeque<Aircraft>| history@)
}

/// Whether each history of `m` is in the order of time and holds the
/// reports of its own aircraft only.
pub open spec fn in_order(m: Map<u32, Seq<Aircraft>>) -> bool {
    forall|address: u32| #[trigger]
        m.contains_key(address) ==> sorted(m[address]) && all_of(m[address], address)
}

/// Whether no report in `m` has left the window of `window` seconds that
/// ends at `now`.
pub open spec fn in_window(m: Map<u32, Seq<Aircraft>>, now: Timestamp, window: u32) -> bool {
    forall|address: u32| #[trigger]
        m.contains_key(address) ==> none_expired(m[address], now, window)
}

/// The history of `address` in `m`; empty where `m` has none.
pub open spec fn history_at(m: Map<u32, Seq<Aircraft>>, address: u32) -> Seq<Aircraft> {
    if m.contains_key(address) {
        m[address]
    } else {
        Seq::empty()
    }
}

/// `m` with every history pruned. A history that becomes empty stays.
pub open spec fn pruned_all(m: Map<u32, Seq<Aircraft>>, now: Timestamp, window: u32) -> Map<
    u32,
    Seq<Aircraft>,
> {
    m.map_values(|h: Seq<Aircraft>| pruned(h, now, window))
}

/// `m` after the report `a` has come in: a report that has left the window
/// changes nothing; another is placed in the history of its aircraft, which
/// starts empty where `m` has none.
pub open spec fn received(m: Map<u32, Seq<Aircraft>>, a: Aircraft, now: Timestamp, window: u32) -> Map<
    u32,
    Seq<Aircraft>,
> {
    if a.datetime.expired(now, window) {
        m
    } else {
        m.insert(
            a.icao_address.spec_value(),
            placed(history_at(m, a.icao_address.spec_value()), a),
        )
    }
}

/// `m` after the reports of `batch` have come in, one after the other in the
/// order of `batch`.
pub open spec fn received_all(
    m: Map<u32, Seq<Aircraft>>,
    batch: Seq<Aircraft>,
    now: Timestamp,
    window: u32,
) -> Map<u32, Seq<Aircraft>>
    decreases batch.len(),
{
    if batch.len() == 0 {
        m
    } else {
        received_all(received(m, batch.first(), now, window), batch.drop_first(), now, window)
    }
}

/// `m` after an update at `now` with `batch`: every history is pruned, then
/// the reports come in.
pub open spec fn updated(
    m: Map<u32, Seq<Aircraft>>,
    batch: Seq<Aircraft>,
    now: Timestamp,
    window: u32,
) -> Map<u32, Seq<Aircraft>> {
    received_all(pruned_all(m, now, window), batch, now, window)
}

/// Pruning keeps the histories in order and leaves nothing outside the
/// window.
pub proof fn lemma_pruned_all(m: Map<u32, Seq<Aircraft>>, now: Timestamp, window: u32)
    requires
        in_order(m),
    ensures
        in_order(pruned_all(m, now, window)),
        in_window(pruned_all(m, now, window), now, window),
        pruned_all(m, now, window).dom() == m.dom(),
{
    let after = pruned_all(m, now, window);
    assert forall|address: u32| #[trigger] after.contains_key(address) implies sorted(
        after[address],
    ) && all_of(after[address], address) && none_expired(after[address], now, window) by {
        assert(m.contains_key(address));
        lemma_pruned_sorted(m[address], now, window);
    }
    assert(after.dom() =~= m.dom());
}

/// A report that comes in keeps the histories in order and inside the
/// window.
pub proof fn lemma_received(m: Map<u32, Seq<Aircraft>>, a: Aircraft, now: Timestamp, window: u32)
    requires
        in_order(m),
    ensures
        in_order(received(m, a, now, window)),
        in_window(m, now, window) ==> in_window(received(m, a, now, window), now, window),
{
    let after = received(m, a, now, window);
    let own = a.icao_address.spec_value();
    if !a.datetime.expired(now, window) {
        let before = history_at(m, own);
        if m.contains_key(own) {
            assert(sorted(before) && all_of(before, own));
        }
        lemma_placed_sorted(before, a);
        assert forall|address: u32| #[trigger] after.contains_key(address) implies sorted(
            after[address],
        ) && all_of(after[address], address) by {
            if address != own {
                assert(m.contains_key(address));
            }
        }
        if in_window(m, now, window) {
            assert forall|address: u32| #[trigger] after.contains_key(address) implies none_expired(
                after[address],
                now,
                window,
            ) by {
                if address != own {
                    assert(m.contains_key(address));
                } else if m.contains_key(own) {
                    assert(none_expired(before, now, window));
                }
            }
        }
    }
}

/// Reports that come in keep the histories in order and inside the window.
pub proof fn lemma_received_all(
    m: Map<u32, Seq<Aircraft>>,
    batch: Seq<Aircraft>,
    now: Timestamp,
    window: u32,
)
    requires
        in_order(m),
    ensures
        in_order(received_all(m, batch, now, window)),
        in_window(m, now, window) ==> in_window(received_all(m, batch, now, window), now, window),
    decreases batch.len(),
{
    if batch.len() > 0 {
        lemma_received(m, batch.first(), now, window);
        lemma_received_all(
            received(m, batch.first(), now, window),
            batch.drop_first(),
            now,
            window,
        );
    }
}

/// After an update every history is in the order of time, and no report in
/// it is older than the window.
pub proof fn lemma_updated(
    m: Map<u32, Seq<Aircraft>>,
    batch: Seq<Aircraft>,
    now: Timestamp,
    window: u32,
)
    requires
        in_order(m),
    ensures
        in_order(updated(m, batch, now, window)),
        in_window(updated(m, batch, now, window), now, window),
{
    lemma_pruned_all(m, now, window);
    lemma_received_all(pruned_all(m, now, window), batch, now, window);
}

/// A report that has left the window changes nothing when it comes in.
pub proof fn lemma_expired_report_is_dropped(
    m: Map<u32, Seq<Aircraft>>,
    a: Aircraft,
    now: Timestamp,
    window: u32,
)
    requires
        a.datetime.expired(now, window),
    ensures
        received(m, a, now, window) == m,
        received_all(m, seq![a], now, window) == m,
{
    reveal_with_fuel(received_all, 2);
    assert(seq![a].first() == a);
    assert(seq![a].drop_first().len() == 0);
}

/// Prunes every history of `map`.
fn prune_all(map: &mut HashMap<u32, VecDeque<Aircraft>>, now: &Timestamp, window: u32)
    ensures
        tracks(*final(map)) == pruned_all(tracks(*old(map)), *now, window),
{
    broadcast use vstd::std_specs::hash::group_hash_axioms;

    let addresses = keys_of(map);
    let mut at: usize = 0;
    while at < addresses.len()
        invariant
            at <= addresses.len(),
            addresses@.to_set() == old(map)@.dom(),
            addresses@.no_duplicates(),
            map@.dom() == old(map)@.dom(),
            forall|i: int|
                0 <= i < at ==> (#[trigger] map@[addresses@[i]])@ == pruned(
                    old(map)@[addresses@[i]]@,
                    *now,
                    window,
                ),
            forall|i: int|
                at <= i < addresses.len() ==> #[trigger] map@[addresses@[i]] == old(
                    map,
                )@[addresses@[i]],
        decreases addresses.len() - at,
    {
        let address = addresses[at];
        assert(addresses@.to_set().contains(addresses@[at as int]));
        let ghost before = map@;
        match map.remove(&address) {
            Some(mut history) => {
                prune(&mut history, now, window);
                map.insert(address, history);
                assert(map@.dom() == before.dom());
                assert forall|i: int| 0 <= i < at implies (#[trigger] map@[addresses@[i]])@
                    == pruned(old(map)@[addresses@[i]]@, *now, window) by {
                    assert(addresses@[i] != address);
                    assert(map@[addresses@[i]] == before[addresses@[i]]);
                }
                assert forall|i: int| at + 1 <= i < addresses.len() implies #[trigger] map@[addresses@[i]]
                    == old(map)@[addresses@[i]] by {
                    assert(addresses@[i] != address);
                    assert(map@[addresses@[i]] == before[addresses@[i]]);
                }
            },
            None => {},
        }
        at += 1;
    }
    proof {
        let after = tracks(*map);
        let wanted = pruned_all(tracks(*old(map)), *now, window);
        assert forall|address: u32| after.contains_key(address) implies after[address]
            == wanted[address] by {
            assert(addresses@.to_set().contains(address));
            let i = choose|i: int| 0 <= i < addresses@.len() && addresses@[i] == address;
            assert((#[trigger] map@[addresses@[i]])@ == pruned(
                old(map)@[addresses@[i]]@,
                *now,
                window,
            ));
        }
        assert(after =~= wanted);
    }
}

/// Takes the report `aircraft` into `map`.
fn receive(map: &mut HashMap<u32, VecDeque<Aircraft>>, aircraft: Aircraft, now: &Timestamp, window: u32)
    requires
        in_order(tracks(*old(map))),
    ensures
        tracks(*final(map)) == received(tracks(*old(map)), aircraft, *now, window),
{
    broadcast use vstd::std_specs::hash::group_hash_axioms;

    if aircraft.datetime.is_expired(now, window) {
        return ;
    }
    let address = aircraft.icao_address.value();
    let mut history = match map.remove(&address) {
        Some(history) => history,
        None => VecDeque::new(),
    };
    proof {
        if old(map)@.contains_key(address) {
            assert(tracks(*old(map)).contains_key(address));
        }
        assert(history@ == history_at(tracks(*old(map)), address));
    }
    place(&mut history, aircraft);
    map.insert(address, history);
    assert(tracks(*map) =~= received(tracks(*old(map)), aircraft, *now, window));
}

/// The reports of a trailing window of time, for each aircraft in the order
/// of their instants.
#[derive(Debug)]
pub struct Airspace {
    buffer_duration: u32,
    datetime: Timestamp,
    icao_to_aircraft_map: HashMap<u32, VecDeque<Aircraft>>,
}

impl Airspace {
    #[verifier::type_invariant]
    spec fn kept_in_order(self) -> bool {
        in_order(tracks(self.icao_to_aircraft_map))
    }

    /// The histories by the number of the address, oldest report first.
    pub closed spec fn histories(&self) -> Map<u32, Seq<Aircraft>> {
        tracks(self.icao_to_aircraft_map)
    }

    /// The instant of the last update.
    pub closed spec fn spec_datetime(&self) -> Timestamp {
        self.datetime
    }

    /// The length of the window, in seconds.
    pub closed spec fn spec_buffer_duration(&self) -> u32 {
        self.buffer_duration
    }

    /// An empty airspace with a window of `buffer_duration` seconds, stamped
    /// with the time of the system clock.
    pub fn new(buffer_duration: u32) -> (airspace: Self)
        ensures
            airspace.histories() == Map::<u32, Seq<Aircraft>>::empty(),
            airspace.spec_buffer_duration() == buffer_duration,
            in_order(airspace.histories()),
    {
        Airspace::new_at(buffer_duration, utc_now())
    }

    /// An empty airspace with a window of `buffer_duration` seconds, stamped
    /// `now`.
    pub fn new_at(buffer_duration: u32, now: Timestamp) -> (airspace: Self)
        ensures
            airspace.histories() == Map::<u32, Seq<Aircraft>>::empty(),
            airspace.spec_buffer_duration() == buffer_duration,
            airspace.spec_datetime() == now,
            in_order(airspace.histories()),
    {
        let airspace = Airspace {
            buffer_duration,
            datetime: now,
            icao_to_aircraft_map: HashMap::new(),
        };
        assert(airspace.histories() =~= Map::<u32, Seq<Aircraft>>::empty());
        airspace
    }

    /// Updates the airspace at the time of the system clock: see
    /// `update_at`.
    pub fn update(&mut self, aircrafts: Vec<Aircraft>)
        ensures
            final(self).spec_buffer_duration() == old(self).spec_buffer_duration(),
            final(self).histories() == updated(
                old(self).histories(),
                aircrafts@,
                final(self).spec_datetime(),
                old(self).spec_buffer_duration(),
            ),
            in_order(final(self).histories()),
            in_window(
                final(self).histories(),
                final(self).spec_datetime(),
                final(self).spec_buffer_duration(),
            ),
    {
        let now = utc_now();
        self.update_at(now, aircrafts);
    }

    /// Stamps the airspace `now`, drops from the front of every history the
    /// reports that are more than the window older than `now`, and takes in
    /// the reports of `aircrafts` in their order. A report that is more than
    /// the window older than `now` is dropped.
    pub fn update_at(&mut self, now: Timestamp, aircrafts: Vec<Aircraft>)
        ensures
            final(self).spec_datetime() == now,
            final(self).spec_buffer_duration() == old(self).spec_buffer_duration(),
            final(self).histories() == updated(
                old(self).histories(),
                aircrafts@,
                now,
                old(self).spec_buffer_duration(),
            ),
            in_order(final(self).histories()),
            in_window(final(self).histories(), now, old(self).spec_buffer_duration()),
    {
        proof {
            use_type_invariant(&*self);
            lemma_updated(self.histories(), aircrafts@, now, self.buffer_duration);
            lemma_pruned_all(self.histories(), now, self.buffer_duration);
        }
        let window = self.buffer_duration;
        self.datetime = now;
        // The map is worked on outside the airspace, and put back in order.
        let mut map: HashMap<u32, VecDeque<Aircraft>> = HashMap::new();
        assert(tracks(map) =~= Map::<u32, Seq<Aircraft>>::empty());
        std::mem::swap(&mut self.icao_to_aircraft_map, &mut map);
        prune_all(&mut map, &now, window);
        let ghost pruned_map = tracks(map);
        let ghost batch = aircrafts@;
        assert(batch.skip(0) == batch);
        for aircraft in it: aircrafts
            invariant
                it.seq() == batch,
                in_order(tracks(map)),
                received_all(pruned_map, batch, now, window) == received_all(
                    tracks(map),
                    batch.skip(it.index() as int),
                    now,
                    window,
                ),
        {
            proof {
                let left = batch.skip(it.index() as int);
                assert(left.first() == aircraft);
                assert(left.drop_first() == batch.skip(it.index() + 1));
                lemma_received(tracks(map), aircraft, now, window);
            }
            receive(&mut map, aircraft, &now, window);
        }
        std::mem::swap(&mut self.icao_to_aircraft_map, &mut map);
    }

    /// The history of `icao_address`, if the airspace has one.
    pub fn get_history(&self, icao_address: ICAOAddress) -> (history: Option<&VecDeque<Aircraft>>)
        ensures
            match history {
                Some(reports) => self.histories().contains_key(icao_address.spec_value())
                    && reports@ == self.histories()[icao_address.spec_value()],
                None => !self.histories().contains_key(icao_address.spec_value()),
            },
            in_order(self.histories()),
    {
        broadcast use vstd::std_specs::hash::group_hash_axioms;

        proof {
            use_type_invariant(self);
        }

        let address = icao_address.value();
        self.icao_to_aircraft_map.get(&address)
    }

    /// The instant of the last update.
    pub fn get_datetime(&self) -> (datetime: Timestamp)
        ensures
            datetime == self.spec_datetime(),
    {
        self.datetime
    }

    /// The length of the window, in seconds.
    pub fn buffer_duration(&self) -> (seconds: u32)
        ensures
            seconds == self.spec_buffer_duration(),
    {
        self.buffer_duration
    }

    /// All histories, by the number of the address.
    pub fn icao_to_aircraft_mapping(&self) -> (map: &HashMap<u32, VecDeque<Aircraft>>)
        ensures
            tracks(*map) == self.histories(),
            in_order(self.histories()),
    {
        proof {
            use_type_invariant(self);
        }
        &self.icao_to_aircraft_map
    }
}

} // verus!
