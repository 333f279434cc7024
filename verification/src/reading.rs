//! Raw readings of one group, keyed by counter handle, and the merged counts
//! of a whole run, keyed by event.

use crate::counter::CounterSpec;
use vstd::prelude::*;

verus! {

/// What one read of one group returned: a count per counter handle, and for
/// how long the group was enabled and actually counting.
#[derive(Debug)]
pub struct RawReading {
    /// Pairs of counter handle and accumulated count.
    pub entries: Vec<(u64, u64)>,
    /// Nanoseconds for which the group was enabled.
    pub time_enabled: u64,
    /// Nanoseconds for which the group was counting.
    pub time_running: u64,
}

/// The count that `entries` records for `handle`, searched from position
/// `from`: that of the first entry with this handle.
pub open spec fn lookup_from(entries: Seq<(u64, u64)>, handle: u64, from: int) -> Option<u64>
    decreases
        (if from < entries.len() {
            entries.len() - from
        } else {
            0
        }),
    when from >= 0
{
    if from >= entries.len() {
        None
    } else if entries[from].0 == handle {
        Some(entries[from].1)
    } else {
        lookup_from(entries, handle, from + 1)
    }
}

/// The count that `entries` records for `handle`.
pub open spec fn lookup(entries: Seq<(u64, u64)>, handle: u64) -> Option<u64> {
    lookup_from(entries, handle, 0)
}

/// Whether `entries` records a count for each of `handles`.
pub open spec fn complete(entries: Seq<(u64, u64)>, handles: Seq<u64>) -> bool {
    forall|i: int| 0 <= i < handles.len() ==> lookup(entries, #[trigger] handles[i]) is Some
}

/// The counts of one group by event: the `i`-th event with the count that
/// `entries` records for the `i`-th handle.
pub open spec fn resolved(
    specs: Seq<CounterSpec>,
    handles: Seq<u64>,
    entries: Seq<(u64, u64)>,
) -> Seq<(CounterSpec, u64)> {
    Seq::new(specs.len(), |i: int| (specs[i], lookup(entries, handles[i]).unwrap()))
}

/// A lookup gives the count of the first entry that has the handle, and
/// fails only where no entry has it.
pub proof fn lemma_lookup(entries: Seq<(u64, u64)>, handle: u64, from: int)
    requires
        from >= 0,
    ensures
        match lookup_from(entries, handle, from) {
            Some(count) => exists|i: int|
                {
                    &&& from <= i < entries.len()
                    &&& #[trigger] entries[i] == (handle, count)
                    &&& forall|k: int| from <= k < i ==> (#[trigger] entries[k]).0 != handle
                },
            None => forall|i: int| from <= i < entries.len() ==> (#[trigger] entries[i]).0 != handle,
        },
    decreases
        (if from < entries.len() {
            entries.len() - from
        } else {
            0
        }),
{
    if from < entries.len() {
        if entries[from].0 == handle {
            assert(entries[from] == (handle, entries[from].1));
        } else {
            lemma_lookup(entries, handle, from + 1);
            if let Some(count) = lookup_from(entries, handle, from) {
                let i = choose|i: int|
                    {
                        &&& from + 1 <= i < entries.len()
                        &&& #[trigger] entries[i] == (handle, count)
                        &&& forall|k: int|
                            from + 1 <= k < i ==> (#[trigger] entries[k]).0 != handle
                    };
                assert(forall|k: int| from <= k < i ==> (#[trigger] entries[k]).0 != handle);
            }
        }
    }
}

impl RawReading {
    /// The count recorded for `handle`, if there is one.
    pub fn get(&self, handle: u64) -> (count: Option<u64>)
        ensures
            count == lookup(self.entries@, handle),
    {
        let mut i: usize = 0;
        while i < self.entries.len()
            invariant
                i <= self.entries@.len(),
                lookup_from(self.entries@, handle, i as int) == lookup(self.entries@, handle),
            decreases self.entries@.len() - i,
        {
            if self.entries[i].0 == handle {
                return Some(self.entries[i].1);
            }
            i += 1;
        }
        None
    }

    /// Whether the group shared the hardware with others while it was
    /// enabled, so that its counts fall short of the events that occurred.
    pub fn was_multiplexed(&self) -> (shared: bool)
        ensures
            shared == (self.time_running < self.time_enabled),
    {
        self.time_running < self.time_enabled
    }
}

/// The counts of one group by event, or `None` where the reading lacks the
/// count of one of the group's counters.
pub fn resolve(specs: &Vec<CounterSpec>, handles: &Vec<u64>, reading: &RawReading) -> (pairs:
    Option<Vec<(CounterSpec, u64)>>)
    requires
        specs@.len() == handles@.len(),
    ensures
        pairs is Some <==> complete(reading.entries@, handles@),
        pairs matches Some(p) ==> p@ == resolved(specs@, handles@, reading.entries@),
{
    let mut pairs: Vec<(CounterSpec, u64)> = Vec::new();
    let mut i: usize = 0;
    while i < specs.len()
        invariant
            i <= specs@.len(),
            specs@.len() == handles@.len(),
            pairs@.len() == i,
            forall|k: int| 0 <= k < i ==> lookup(reading.entries@, #[trigger] handles@[k]) is Some,
            forall|k: int|
                0 <= k < i ==> #[trigger] pairs@[k] == (
                    specs@[k],
                    lookup(reading.entries@, handles@[k]).unwrap(),
                ),
        decreases specs@.len() - i,
    {
        match reading.get(handles[i]) {
            Some(count) => {
                pairs.push((specs[i], count));
            },
            None => {
                return None;
            },
        }
        i += 1;
    }
    proof {
        assert(pairs@ =~= resolved(specs@, handles@, reading.entries@));
    }
    Some(pairs)
}

/// The events of a list of counts, in order.
pub open spec fn keys(pairs: Seq<(CounterSpec, u64)>) -> Seq<CounterSpec> {
    Seq::new(pairs.len(), |i: int| pairs[i].0)
}

/// A list of counts as a mapping from event to count.
pub open spec fn as_map(pairs: Seq<(CounterSpec, u64)>) -> Map<CounterSpec, u64>
    decreases pairs.len(),
{
    if pairs.len() == 0 {
        Map::empty()
    } else {
        as_map(pairs.drop_last()).insert(pairs.last().0, pairs.last().1)
    }
}

/// The mapping of a list of counts is defined on exactly its events, and
/// where no event occurs twice it gives each event its count.
pub proof fn lemma_as_map(pairs: Seq<(CounterSpec, u64)>)
    ensures
        as_map(pairs).dom() == keys(pairs).to_set(),
        keys(pairs).no_duplicates() ==> forall|i: int|
            0 <= i < pairs.len() ==> as_map(pairs)[(#[trigger] pairs[i]).0] == pairs[i].1,
    decreases pairs.len(),
{
    if pairs.len() == 0 {
        assert(as_map(pairs).dom() =~= keys(pairs).to_set());
    } else {
        let init = pairs.drop_last();
        let last = pairs.last();
        lemma_as_map(init);
        assert forall|x: CounterSpec| as_map(pairs).dom().contains(x) <==> keys(pairs).contains(
            x,
        ) by {
            if keys(init).contains(x) {
                let i = choose|i: int| 0 <= i < init.len() && keys(init)[i] == x;
                assert(keys(pairs)[i] == x);
            }
            if keys(pairs).contains(x) {
                let i = choose|i: int| 0 <= i < pairs.len() && keys(pairs)[i] == x;
                if i < init.len() {
                    assert(keys(init)[i] == x);
                }
            }
            assert(keys(pairs)[pairs.len() - 1] == last.0);
            assert(keys(init).to_set().contains(x) <==> keys(init).contains(x));
        }
        assert(as_map(pairs).dom() =~= keys(pairs).to_set());
        if keys(pairs).no_duplicates() {
            assert forall|i: int, j: int|
                0 <= i < init.len() && 0 <= j < init.len() && i != j implies keys(init)[i] != keys(
                init,
            )[j] by {
                assert(keys(pairs)[i] != keys(pairs)[j]);
            }
            assert forall|i: int| 0 <= i < pairs.len() implies as_map(pairs)[(
                #[trigger] pairs[i]).0] == pairs[i].1 by {
                if i < init.len() {
                    assert(init[i] == pairs[i]);
                    assert(keys(pairs)[i] != keys(pairs)[pairs.len() - 1]);
                }
            }
        }
    }
}

/// The merged counts of a run: one count per event, no event twice.
#[derive(Debug)]
pub struct Counts {
    pairs: Vec<(CounterSpec, u64)>,
}

impl View for Counts {
    type V = Map<CounterSpec, u64>;

    open spec fn view(&self) -> Map<CounterSpec, u64> {
        as_map(self.pairs())
    }
}

impl Counts {
    /// The counts in the order in which they were recorded.
    pub closed spec fn pairs(&self) -> Seq<(CounterSpec, u64)> {
        self.pairs@
    }

    /// No event occurs twice.
    pub open spec fn wf(&self) -> bool {
        keys(self.pairs()).no_duplicates()
    }

    /// No counts at all.
    pub fn new() -> (counts: Counts)
        ensures
            counts.wf(),
            counts.pairs() == Seq::<(CounterSpec, u64)>::empty(),
    {
        let counts = Counts { pairs: Vec::new() };
        proof {
            assert(keys(counts.pairs()) =~= Seq::<CounterSpec>::empty());
        }
        counts
    }

    /// The number of events that have a count.
    pub fn len(&self) -> (n: usize)
        ensures
            n == self.pairs().len(),
    {
        self.pairs.len()
    }

    /// The `i`-th event and its count, in the order of recording.
    pub fn pair(&self, i: usize) -> (p: (CounterSpec, u64))
        requires
            i < self.pairs().len(),
        ensures
            p == self.pairs()[i as int],
    {
        self.pairs[i]
    }

    /// The count of `spec`, if it has one.
    pub fn get(&self, spec: CounterSpec) -> (count: Option<u64>)
        requires
            self.wf(),
        ensures
            count == (if self@.dom().contains(spec) {
                Some(self@[spec])
            } else {
                None
            }),
    {
        proof {
            lemma_as_map(self.pairs());
        }
        let mut i: usize = 0;
        while i < self.pairs.len()
            invariant
                self.wf(),
                i <= self.pairs@.len(),
                forall|k: int| 0 <= k < i ==> (#[trigger] self.pairs@[k]).0 != spec,
            decreases self.pairs@.len() - i,
        {
            if self.pairs[i].0 == spec {
                proof {
                    lemma_as_map(self.pairs());
                    assert(keys(self.pairs())[i as int] == spec);
                    assert(keys(self.pairs()).contains(spec));
                    assert(self@[self.pairs()[i as int].0] == self.pairs()[i as int].1);
                }
                return Some(self.pairs[i].1);
            }
            i += 1;
        }
        proof {
            if keys(self.pairs()).contains(spec) {
                let k = choose|k: int| 0 <= k < self.pairs@.len() && keys(self.pairs())[k] == spec;
                assert(self.pairs@[k].0 == spec);
            }
        }
        None
    }

    /// Adds the counts of further events, none of which has a count yet.
    pub fn extend(&mut self, more: Vec<(CounterSpec, u64)>)
        requires
            old(self).wf(),
            keys(old(self).pairs() + more@).no_duplicates(),
        ensures
            final(self).wf(),
            final(self).pairs() == old(self).pairs() + more@,
    {
        let mut more = more;
        self.pairs.append(&mut more);
    }

    /// Records `count` for `spec` unless `spec` already has a count; says
    /// whether it did.
    pub fn insert(&mut self, spec: CounterSpec, count: u64) -> (fresh: bool)
        requires
            old(self).wf(),
        ensures
            final(self).wf(),
            fresh == !old(self)@.dom().contains(spec),
            fresh ==> final(self).pairs() == old(self).pairs().push((spec, count)),
            !fresh ==> final(self).pairs() == old(self).pairs(),
    {
        if self.get(spec).is_some() {
            return false;
        }
        proof {
            lemma_as_map(self.pairs());
            let before = keys(self.pairs());
            let after = keys(self.pairs().push((spec, count)));
            assert(after =~= before.push(spec));
            assert forall|i: int, j: int|
                0 <= i < after.len() && 0 <= j < after.len() && i != j implies after[i]
                != after[j] by {
                if i < before.len() {
                    assert(before.contains(before[i]));
                }
                if j < before.len() {
                    assert(before.contains(before[j]));
                }
            }
        }
        self.pairs.push((spec, count));
        true
    }
}

} // verus!
