//! Allocation of host ids out of a configured range.
//!
//! A client asks with a seed, which selects its preferred host. Where that one is taken, the
//! nearest free host above it is used, and the search wraps round at the end of the range.

use std::collections::HashSet;
use std::ops::Range;
use vstd::prelude::*;

verus! {

broadcast use vstd::std_specs::hash::group_hash_axioms;

/// A host id that lies in the range and is not taken.
pub open spec fn is_free(range: Range<u32>, allocated: Set<u32>, host: u32) -> bool {
    range.start <= host < range.end && !allocated.contains(host)
}

/// Some host of the range is free.
pub open spec fn has_free(range: Range<u32>, allocated: Set<u32>) -> bool {
    exists|host: u32| #[trigger] is_free(range, allocated, host)
}

/// How many steps upwards lead from the host that `seed` prefers to `host`, where the step after
/// the last host of the range leads to the first one.
pub open spec fn distance(range: Range<u32>, seed: u32, host: u32) -> int
    recommends
        range.start <= host < range.end,
{
    let size = range.end - range.start;
    let preferred = range.start + seed as int % size;
    if host >= preferred {
        host - preferred
    } else {
        host - preferred + size
    }
}

/// `choice` is the free host nearest to the one that `seed` prefers, and `None` exactly where no
/// host is free.
pub open spec fn nearest_free(
    range: Range<u32>,
    seed: u32,
    allocated: Set<u32>,
    choice: Option<u32>,
) -> bool {
    match choice {
        Some(host) => {
            &&& is_free(range, allocated, host)
            &&& forall|other: u32| #[trigger]
                is_free(range, allocated, other) ==> distance(range, seed, host) <= distance(
                    range,
                    seed,
                    other,
                )
        },
        None => !has_free(range, allocated),
    }
}

/// The taken hosts once `choice` has been handed out.
pub open spec fn after_choice(allocated: Set<u32>, choice: Option<u32>) -> Set<u32> {
    match choice {
        Some(host) => allocated.insert(host),
        None => allocated,
    }
}

/// The free host nearest to the one that `seed` prefers, without taking it.
pub fn find_free_host(
    host_range: Range<u32>,
    seed: u32,
    allocated_host: &HashSet<u32>,
) -> (choice: Option<u32>)
    requires
        host_range.start < host_range.end,
    ensures
        nearest_free(host_range, seed, allocated_host@, choice),
{
    let host_range_size: u32 = host_range.end - host_range.start;
    let index: u32 = seed % host_range_size;
    let mut step: u32 = 0;
    while step < host_range_size
        invariant
            host_range.start < host_range.end,
            host_range_size == host_range.end - host_range.start,
            index == seed as int % host_range_size as int,
            index < host_range_size,
            step <= host_range_size,
            forall|other: u32| #[trigger]
                is_free(host_range, allocated_host@, other) ==> distance(host_range, seed, other)
                    >= step,
        decreases host_range_size - step,
    {
        let room: u32 = host_range_size - index;
        let offset: u32 = if step < room {
            index + step
        } else {
            step - room
        };
        let query_index: u32 = host_range.start + offset;
        assert(distance(host_range, seed, query_index) == step);
        if !allocated_host.contains(&query_index) {
            assert(is_free(host_range, allocated_host@, query_index));
            return Some(query_index);
        }
        assert forall|other: u32| #[trigger]
            is_free(host_range, allocated_host@, other) implies distance(host_range, seed, other)
            >= step + 1 by {
            if distance(host_range, seed, other) == step {
                assert(other == query_index);
            }
        }
        step = step + 1;
    }
    assert forall|other: u32| !#[trigger] is_free(host_range, allocated_host@, other) by {
        if is_free(host_range, allocated_host@, other) {
            assert(distance(host_range, seed, other) < host_range_size);
        }
    }
    None
}

/// Generate a unique host ID within the specified range
///
/// The id is the free one nearest to `seed`, and is taken from then on. `None` comes exactly
/// where every id of the range is taken, and then nothing changes.
pub fn get_host_id(
    host_range: Range<u32>,
    seed: u32,
    allocated_host: &mut HashSet<u32>,
) -> (choice: Option<u32>)
    requires
        host_range.start < host_range.end,
    ensures
        nearest_free(host_range, seed, old(allocated_host)@, choice),
        final(allocated_host)@ == after_choice(old(allocated_host)@, choice),
{
    let choice = find_free_host(host_range, seed, allocated_host);
    if let Some(host) = choice {
        allocated_host.insert(host);
    }
    choice
}

/// The free hosts of the range.
pub open spec fn free_hosts(range: Range<u32>, allocated: Set<u32>) -> Set<u32> {
    Set::new(|host: u32| is_free(range, allocated, host))
}

/// A run of requests on one range: `before[i]` holds the taken hosts before the request with seed
/// `seeds[i]`, and `choices[i]` is what that request was given.
pub open spec fn is_run(
    range: Range<u32>,
    seeds: Seq<u32>,
    before: Seq<Set<u32>>,
    choices: Seq<Option<u32>>,
) -> bool {
    &&& choices.len() == seeds.len()
    &&& before.len() == seeds.len() + 1
    &&& forall|i: int|
        #![trigger before[i + 1]]
        #![trigger choices[i]]
        0 <= i < seeds.len() ==> {
            &&& nearest_free(range, seeds[i], before[i], choices[i])
            &&& before[i + 1] == after_choice(before[i], choices[i])
        }
}

/// A range, a seed and the taken hosts leave one possible choice.
pub proof fn law_choice_is_determined(
    range: Range<u32>,
    seed: u32,
    allocated: Set<u32>,
    first: Option<u32>,
    second: Option<u32>,
)
    requires
        range.start < range.end,
        nearest_free(range, seed, allocated, first),
        nearest_free(range, seed, allocated, second),
    ensures
        first == second,
{
    if let (Some(a), Some(b)) = (first, second) {
        assert(distance(range, seed, a) == distance(range, seed, b));
    }
}

/// No free host is skipped: going up from the preferred host, and from the start of the range again
/// once its end is passed, every host before the one that is handed out is taken. Where none is
/// handed out, every host of the range is taken.
pub proof fn law_no_free_host_is_skipped(
    range: Range<u32>,
    seed: u32,
    allocated: Set<u32>,
    choice: Option<u32>,
)
    requires
        range.start < range.end,
        nearest_free(range, seed, allocated, choice),
    ensures
        ({
            let preferred = range.start + seed as int % (range.end - range.start);
            match choice {
                Some(host) => {
                    &&& range.start <= host < range.end
                    &&& !allocated.contains(host)
                    &&& host >= preferred ==> forall|other: u32|
                        preferred <= other < host ==> #[trigger] allocated.contains(other)
                    &&& host < preferred ==> forall|other: u32|
                        preferred <= other < range.end || range.start <= other < host
                            ==> #[trigger] allocated.contains(other)
                },
                None => forall|other: u32|
                    range.start <= other < range.end ==> #[trigger] allocated.contains(other),
            }
        }),
{
    let size = range.end - range.start;
    assert(0 <= seed as int % size < size);
    assert forall|other: u32|
        range.start <= other < range.end && !#[trigger] allocated.contains(other) implies is_free(
        range,
        allocated,
        other,
    ) by {}
}

/// What is handed out is taken from then on, and nothing else changes.
pub proof fn law_choice_is_taken(allocated: Set<u32>, choice: Option<u32>, host: u32)
    ensures
        after_choice(allocated, choice).contains(host) <==> allocated.contains(host) || choice
            == Some(host),
{
}

/// A client whose preferred host is free is given that one.
pub proof fn law_preferred_host_comes_first(
    range: Range<u32>,
    seed: u32,
    allocated: Set<u32>,
    choice: Option<u32>,
)
    requires
        range.start < range.end,
        nearest_free(range, seed, allocated, choice),
        !allocated.contains((range.start + seed as int % (range.end - range.start)) as u32),
    ensures
        choice == Some((range.start + seed as int % (range.end - range.start)) as u32),
{
    let size = range.end - range.start;
    let preferred = (range.start + seed as int % size) as u32;
    assert(0 <= seed as int % size < size);
    assert(is_free(range, allocated, preferred));
    assert(distance(range, seed, preferred) == 0);
}

/// A host that was handed out lies in the range, was free, and leaves one free host fewer.
pub proof fn law_choice_takes_one_host(
    range: Range<u32>,
    seed: u32,
    allocated: Set<u32>,
    host: u32,
)
    requires
        nearest_free(range, seed, allocated, Some(host)),
    ensures
        range.start <= host < range.end,
        !allocated.contains(host),
        after_choice(allocated, Some(host)).contains(host),
        free_hosts(range, allocated).finite(),
        free_hosts(range, after_choice(allocated, Some(host))).len() + 1 == free_hosts(
            range,
            allocated,
        ).len(),
{
    lemma_free_hosts_finite(range, allocated);
    assert(free_hosts(range, allocated.insert(host)) =~= free_hosts(range, allocated).remove(host));
    assert(free_hosts(range, allocated).contains(host));
}

/// However the seeds are chosen, a run of requests is served exactly as long as free hosts are
/// left, and never hands out the same host twice.
pub proof fn law_run_hands_out_every_host_once(
    range: Range<u32>,
    seeds: Seq<u32>,
    before: Seq<Set<u32>>,
    choices: Seq<Option<u32>>,
)
    requires
        is_run(range, seeds, before, choices),
    ensures
        free_hosts(range, before[0]).finite(),
        forall|i: int|
            0 <= i < choices.len() ==> ((#[trigger] choices[i]) is Some <==> i < free_hosts(
                range,
                before[0],
            ).len()),
        forall|i: int, j: int|
            0 <= i < j < choices.len() && (#[trigger] choices[i]) is Some ==> choices[i]
                != #[trigger] choices[j],
{
    lemma_free_hosts_finite(range, before[0]);
    let n = free_hosts(range, before[0]).len();
    assert forall|i: int| 0 <= i < choices.len() implies ((#[trigger] choices[i]) is Some <==> i
        < n) by {
        lemma_run_free_count(range, seeds, before, choices, i);
        lemma_free_hosts_finite(range, before[i]);
        if choices[i] is Some {
            assert(free_hosts(range, before[i]).contains(choices[i]->0));
        } else {
            assert(free_hosts(range, before[i]) =~= Set::empty());
        }
    }
    assert forall|i: int, j: int|
        0 <= i < j < choices.len() && (#[trigger] choices[i]) is Some implies choices[i]
        != #[trigger] choices[j] by {
        lemma_run_keeps_taken(range, seeds, before, choices, i, j);
    }
}

proof fn lemma_free_hosts_finite(range: Range<u32>, allocated: Set<u32>)
    ensures
        free_hosts(range, allocated).finite(),
{
    let ints = vstd::set_lib::set_int_range(0, 0x1_0000_0000);
    vstd::set_lib::lemma_int_range(0, 0x1_0000_0000);
    let all = ints.map(|i: int| i as u32);
    ints.lemma_map_finite(|i: int| i as u32);
    assert forall|host: u32| #[trigger]
        free_hosts(range, allocated).contains(host) implies all.contains(host) by {
        assert(ints.contains(host as int) && (host as int) as u32 == host);
    }
    vstd::set_lib::lemma_set_subset_finite(all, free_hosts(range, allocated));
}

proof fn lemma_run_free_count(
    range: Range<u32>,
    seeds: Seq<u32>,
    before: Seq<Set<u32>>,
    choices: Seq<Option<u32>>,
    i: int,
)
    requires
        is_run(range, seeds, before, choices),
        0 <= i <= choices.len(),
    ensures
        free_hosts(range, before[i]).len() == (if i <= free_hosts(range, before[0]).len() {
            free_hosts(range, before[0]).len() - i
        } else {
            0
        }),
    decreases i,
{
    if i > 0 {
        lemma_run_free_count(range, seeds, before, choices, i - 1);
        assert(before[i] == before[(i - 1) + 1]);
        match choices[i - 1] {
            Some(host) => {
                law_choice_takes_one_host(range, seeds[i - 1], before[i - 1], host);
            },
            None => {
                assert(free_hosts(range, before[i - 1]) =~= Set::empty());
            },
        }
    }
}

proof fn lemma_run_keeps_taken(
    range: Range<u32>,
    seeds: Seq<u32>,
    before: Seq<Set<u32>>,
    choices: Seq<Option<u32>>,
    i: int,
    j: int,
)
    requires
        is_run(range, seeds, before, choices),
        0 <= i < j <= choices.len(),
        choices[i] is Some,
    ensures
        before[j].contains(choices[i]->0),
    decreases j,
{
    assert(before[j] == before[(j - 1) + 1]);
    if j > i + 1 {
        lemma_run_keeps_taken(range, seeds, before, choices, i, j - 1);
    }
}

} // verus!
