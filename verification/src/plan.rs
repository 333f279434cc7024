//! Deciding which counters share a group.
//!
//! Named hardware, software and cache events go into one group, raw event
//! codes into another, because raw codes may conflict with cache events.
//! Every distinct event that was asked for is placed exactly once.

use crate::counter::{CounterSpec, GroupClass};
use vstd::prelude::*;

verus! {

/// The distinct events of `specs` that belong to `class`, in the order in
/// which they first occur.
pub open spec fn members(specs: Seq<CounterSpec>, class: GroupClass) -> Seq<CounterSpec>
    decreases specs.len(),
{
    if specs.len() == 0 {
        Seq::empty()
    } else {
        let earlier = members(specs.drop_last(), class);
        let last = specs.last();
        if last.class() == class && !earlier.contains(last) {
            earlier.push(last)
        } else {
            earlier
        }
    }
}

/// The groups for `specs`: the primary group, then the secondary group,
/// each left out where it would be empty.
pub open spec fn partition(specs: Seq<CounterSpec>) -> Seq<Seq<CounterSpec>> {
    let primary = members(specs, GroupClass::Primary);
    let secondary = members(specs, GroupClass::Secondary);
    if primary.len() > 0 && secondary.len() > 0 {
        seq![primary, secondary]
    } else if primary.len() > 0 {
        seq![primary]
    } else if secondary.len() > 0 {
        seq![secondary]
    } else {
        Seq::empty()
    }
}

/// The members of all groups, one group after the other.
pub open spec fn joined(groups: Seq<Seq<CounterSpec>>) -> Seq<CounterSpec>
    decreases groups.len(),
{
    if groups.len() == 0 {
        Seq::empty()
    } else {
        joined(groups.drop_last()) + groups.last()
    }
}

/// A group that the hardware can sample as one: it is not empty and all its
/// members are of one class.
pub open spec fn representable(group: Seq<CounterSpec>) -> bool {
    &&& group.len() > 0
    &&& forall|i: int| 0 <= i < group.len() ==> (#[trigger] group[i]).class() == group[0].class()
}

/// The groups as sequences of events.
pub open spec fn group_views(groups: Seq<Vec<CounterSpec>>) -> Seq<Seq<CounterSpec>> {
    Seq::new(groups.len(), |i: int| groups[i]@)
}

/// `members` holds exactly the events of `specs` of the given class, each
/// once.
pub proof fn lemma_members(specs: Seq<CounterSpec>, class: GroupClass)
    ensures
        members(specs, class).no_duplicates(),
        forall|x: CounterSpec|
            #![trigger members(specs, class).contains(x)]
            #![trigger specs.contains(x)]
            members(specs, class).contains(x) <==> (specs.contains(x) && x.class() == class),
    decreases specs.len(),
{
    let m = members(specs, class);
    if specs.len() > 0 {
        let init = specs.drop_last();
        let last = specs.last();
        let earlier = members(init, class);
        lemma_members(init, class);
        assert forall|x: CounterSpec| m.contains(x) <==> (specs.contains(x) && x.class()
            == class) by {
            if specs.contains(x) {
                let i = choose|i: int| 0 <= i < specs.len() && specs[i] == x;
                if i < specs.len() - 1 {
                    assert(init[i] == x);
                }
            }
            if init.contains(x) {
                let i = choose|i: int| 0 <= i < init.len() && init[i] == x;
                assert(specs[i] == x);
            }
            if last.class() == class && !earlier.contains(last) {
                assert(m.last() == last);
                if earlier.contains(x) {
                    let i = choose|i: int| 0 <= i < earlier.len() && earlier[i] == x;
                    assert(m[i] == x);
                }
                if m.contains(x) {
                    let i = choose|i: int| 0 <= i < m.len() && m[i] == x;
                    if i < earlier.len() {
                        assert(earlier[i] == x);
                    }
                }
            }
            assert(specs[specs.len() - 1] == last);
        }
    }
}

/// The groups of a partition hold every requested event exactly once: none
/// is left out, none is added, none is repeated.
pub proof fn lemma_partition_covers(specs: Seq<CounterSpec>)
    ensures
        joined(partition(specs)).no_duplicates(),
        joined(partition(specs)).to_set() == specs.to_set(),
{
    let primary = members(specs, GroupClass::Primary);
    let secondary = members(specs, GroupClass::Secondary);
    let all = joined(partition(specs));
    lemma_members(specs, GroupClass::Primary);
    lemma_members(specs, GroupClass::Secondary);
    lemma_joined_two(primary, secondary);
    lemma_joined_two(secondary, primary);
    assert(all =~= primary + secondary) by {
        if primary.len() == 0 && secondary.len() == 0 {
            assert(joined(Seq::<Seq<CounterSpec>>::empty()) =~= Seq::<CounterSpec>::empty());
        }
    }
    assert forall|i: int, j: int| 0 <= i < all.len() && 0 <= j < all.len() && i != j implies all[i]
        != all[j] by {
        if i < primary.len() {
            assert(primary.contains(all[i]));
        } else {
            assert(secondary[i - primary.len()] == all[i]);
            assert(secondary.contains(all[i]));
        }
        if j < primary.len() {
            assert(primary.contains(all[j]));
        } else {
            assert(secondary[j - primary.len()] == all[j]);
            assert(secondary.contains(all[j]));
        }
    }
    assert forall|x: CounterSpec| all.contains(x) <==> specs.contains(x) by {
        if all.contains(x) {
            let i = choose|i: int| 0 <= i < all.len() && all[i] == x;
            if i < primary.len() {
                assert(primary.contains(x));
            } else {
                assert(secondary[i - primary.len()] == x);
                assert(secondary.contains(x));
            }
        }
        if specs.contains(x) {
            if x.class() == GroupClass::Primary {
                let i = choose|i: int| 0 <= i < primary.len() && primary[i] == x;
                assert(all[i] == x);
            } else {
                let i = choose|i: int| 0 <= i < secondary.len() && secondary[i] == x;
                assert(all[primary.len() + i] == x);
            }
        }
    }
    assert(all.to_set() =~= specs.to_set());
}

/// Joining one or two groups puts them one after the other.
pub proof fn lemma_joined_two(a: Seq<CounterSpec>, b: Seq<CounterSpec>)
    ensures
        joined(seq![a]) == a,
        joined(seq![a, b]) == a + b,
{
    let none = Seq::<Seq<CounterSpec>>::empty();
    let one = seq![a];
    let two = seq![a, b];
    assert(joined(none) =~= Seq::<CounterSpec>::empty());
    assert(one.drop_last() =~= none);
    assert(one.last() == a);
    assert(joined(one) =~= a);
    assert(two.drop_last() =~= one);
    assert(two.last() == b);
    assert(joined(two) =~= a + b);
}

/// Joining the first `n + 1` groups appends the group at `n` to the first
/// `n` groups joined.
pub proof fn lemma_joined_step(groups: Seq<Seq<CounterSpec>>, n: int)
    requires
        0 <= n < groups.len(),
    ensures
        joined(groups.take(n + 1)) == joined(groups.take(n)) + groups[n],
{
    assert(groups.take(n + 1).drop_last() =~= groups.take(n));
    assert(groups.take(n + 1).last() == groups[n]);
}

/// The first `n` groups joined are the beginning of all groups joined.
pub proof fn lemma_joined_prefix(groups: Seq<Seq<CounterSpec>>, n: int)
    requires
        0 <= n <= groups.len(),
    ensures
        joined(groups.take(n)).len() <= joined(groups).len(),
        joined(groups.take(n)) == joined(groups).take(joined(groups.take(n)).len() as int),
    decreases groups.len() - n,
{
    if n == groups.len() {
        assert(groups.take(n) =~= groups);
        assert(joined(groups) =~= joined(groups).take(joined(groups).len() as int));
    } else {
        lemma_joined_prefix(groups, n + 1);
        lemma_joined_step(groups, n);
        let shorter = joined(groups.take(n));
        let longer = joined(groups.take(n + 1));
        assert(shorter =~= joined(groups).take(shorter.len() as int)) by {
            assert(longer == joined(groups).take(longer.len() as int));
            assert forall|i: int| 0 <= i < shorter.len() implies shorter[i] == joined(groups)[i] by {
                assert(longer[i] == shorter[i]);
            }
        }
    }
}

/// Where no event occurs twice in all groups joined, none occurs twice in
/// the first `n` groups joined.
pub proof fn lemma_joined_prefix_distinct(groups: Seq<Seq<CounterSpec>>, n: int)
    requires
        0 <= n <= groups.len(),
        joined(groups).no_duplicates(),
    ensures
        joined(groups.take(n)).no_duplicates(),
{
    lemma_joined_prefix(groups, n);
}

/// Every group of a partition can be sampled as one.
pub proof fn lemma_partition_representable(specs: Seq<CounterSpec>)
    ensures
        forall|g: int|
            0 <= g < partition(specs).len() ==> representable(#[trigger] partition(specs)[g]),
{
    let primary = members(specs, GroupClass::Primary);
    let secondary = members(specs, GroupClass::Secondary);
    lemma_members(specs, GroupClass::Primary);
    lemma_members(specs, GroupClass::Secondary);
    assert forall|i: int| 0 <= i < primary.len() implies (#[trigger] primary[i]).class()
        == GroupClass::Primary by {
        assert(primary.contains(primary[i]));
    }
    assert forall|i: int| 0 <= i < secondary.len() implies (#[trigger] secondary[i]).class()
        == GroupClass::Secondary by {
        assert(secondary.contains(secondary[i]));
    }
}

/// No way of splitting the requested events into groups that the hardware
/// can sample gets by with fewer groups than the partition.
pub proof fn lemma_partition_is_minimal(specs: Seq<CounterSpec>, other: Seq<Seq<CounterSpec>>)
    requires
        forall|g: int| 0 <= g < other.len() ==> representable(#[trigger] other[g]),
        forall|x: CounterSpec|
            specs.contains(x) ==> exists|g: int|
                0 <= g < other.len() && (#[trigger] other[g]).contains(x),
    ensures
        partition(specs).len() <= other.len(),
{
    let primary = members(specs, GroupClass::Primary);
    let secondary = members(specs, GroupClass::Secondary);
    lemma_members(specs, GroupClass::Primary);
    lemma_members(specs, GroupClass::Secondary);
    if primary.len() > 0 {
        let x = primary[0];
        assert(primary.contains(x));
        assert(specs.contains(x) && x.class() == GroupClass::Primary);
        let gx = choose|g: int| 0 <= g < other.len() && (#[trigger] other[g]).contains(x);
        if secondary.len() > 0 {
            let y = secondary[0];
            assert(secondary.contains(y));
            assert(specs.contains(y) && y.class() == GroupClass::Secondary);
            let gy = choose|g: int| 0 <= g < other.len() && (#[trigger] other[g]).contains(y);
            if gx == gy {
                let group = other[gx];
                assert(representable(group));
                let i = choose|i: int| 0 <= i < group.len() && group[i] == x;
                let j = choose|j: int| 0 <= j < group.len() && group[j] == y;
                assert(group[i].class() == group[0].class());
                assert(group[j].class() == group[0].class());
            }
        }
    } else if secondary.len() > 0 {
        let y = secondary[0];
        assert(secondary.contains(y));
        assert(specs.contains(y) && y.class() == GroupClass::Secondary);
        let gy = choose|g: int| 0 <= g < other.len() && (#[trigger] other[g]).contains(y);
    }
}

/// Whether `list` holds `spec`.
pub fn holds(list: &Vec<CounterSpec>, spec: CounterSpec) -> (found: bool)
    ensures
        found == list@.contains(spec),
{
    let mut i: usize = 0;
    while i < list.len()
        invariant
            i <= list@.len(),
            forall|k: int| 0 <= k < i ==> list@[k] != spec,
        decreases list@.len() - i,
    {
        if list[i] == spec {
            return true;
        }
        i += 1;
    }
    false
}

/// The distinct events of `specs` that belong to `class`, in the order in
/// which they first occur.
pub fn members_of(specs: &Vec<CounterSpec>, class: GroupClass) -> (group: Vec<CounterSpec>)
    ensures
        group@ == members(specs@, class),
{
    let mut group: Vec<CounterSpec> = Vec::new();
    let mut i: usize = 0;
    while i < specs.len()
        invariant
            i <= specs@.len(),
            group@ == members(specs@.take(i as int), class),
        decreases specs@.len() - i,
    {
        let spec = specs[i];
        proof {
            assert(specs@.take(i + 1).drop_last() =~= specs@.take(i as int));
            assert(specs@.take(i + 1).last() == spec);
        }
        if spec.group_class() == class && !holds(&group, spec) {
            group.push(spec);
        }
        i += 1;
    }
    proof {
        assert(specs@.take(i as int) =~= specs@);
    }
    group
}

/// Splits `specs` into the fewest groups that the hardware can sample, and
/// places every distinct event in exactly one of them.
pub fn plan_groups(specs: &Vec<CounterSpec>) -> (groups: Vec<Vec<CounterSpec>>)
    ensures
        group_views(groups@) == partition(specs@),
{
    let primary = members_of(specs, GroupClass::Primary);
    let secondary = members_of(specs, GroupClass::Secondary);
    let mut groups: Vec<Vec<CounterSpec>> = Vec::new();
    if primary.len() > 0 {
        groups.push(primary);
    }
    if secondary.len() > 0 {
        groups.push(secondary);
    }
    proof {
        assert(group_views(groups@) =~= partition(specs@));
    }
    groups
}

} // verus!
