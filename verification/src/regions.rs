//! Regions of the world map: which are open to the cult from the start, and
//! which discoveries open the others.
use crate::discoveries::{lookup, DiscoveriesResearched, DiscoveryVisibility};
use vstd::prelude::*;

verus! {

/// A region of the world map.
#[derive(Debug, Clone, PartialEq, Eq)]
pub struct Region {
    pub name: String,
}

/// A place in a region where a base can be built.
#[derive(Debug, Clone, PartialEq, Eq)]
pub struct BasePlot {
    pub name: String,
}

/// Whether a region is open at the start of a game: the starting region is,
/// and so is every region that needs no discovery.
pub fn region_starts_unlocked(
    name: &String,
    starting_region: &String,
    requires_discovery: &Option<String>,
) -> (r: bool)
    ensures
        r == (name@ == starting_region@ || requires_discovery is None),
{
    *name == *starting_region || requires_discovery.is_none()
}

/// Whether a discovery just made opens a region: a locked region opens when
/// it is the discovery that the region needs.
pub fn region_unlocked_by(
    unlocked: bool,
    requires_discovery: &Option<String>,
    discovery: &String,
) -> (r: bool)
    requires
        !unlocked ==> requires_discovery is Some,
    ensures
        r == (!unlocked && requires_discovery.unwrap()@ == discovery@),
{
    if unlocked {
        false
    } else {
        match requires_discovery {
            Some(d) => *d == *discovery,
            None => false,
        }
    }
}

/// Whether the map shows a region as needing to be unlocked: it needs a
/// discovery that has not been made.
pub fn region_needs_unlock(
    requires_discovery: &Option<String>,
    researched: &DiscoveriesResearched,
) -> (r: bool)
    ensures
        r == (requires_discovery matches Some(d) && lookup(researched.entries(), d@) is None),
{
    match requires_discovery {
        Some(d) => !researched.contains_key(d.as_str()),
        None => false,
    }
}

/// At the start of a game, the discovery that the starting region needs, if
/// any, counts as made, without being shown in the discoveries menu.
pub fn unlock_starting_region(
    researched: &mut DiscoveriesResearched,
    requires_discovery: &Option<String>,
)
    ensures
        match requires_discovery {
            Some(d) => final(researched).entries() == crate::discoveries::inserted(
                old(researched).entries(),
                d@,
                DiscoveryVisibility::Hidden,
            ),
            None => final(researched).entries() == old(researched).entries(),
        },
{
    match requires_discovery {
        Some(d) => researched.research(d.clone(), DiscoveryVisibility::Hidden),
        None => {},
    }
}


/// What the game rules read of a region's settings in the data files: the
/// discovery it needs, if any, and whether it is left off the map.
#[derive(Debug, Clone, PartialEq, Eq)]
pub struct RegionSettings {
    pub requires_discovery: Option<String>,
    pub hidden: bool,
}

/// The regions placed on the map at the start of a game, in the order of the
/// settings: every region that is not hidden, by its index, with whether it
/// starts unlocked.
pub open spec fn spawned_regions(regions: Seq<(String, RegionSettings)>, starting_region: Seq<char>) -> Seq<(usize, bool)>
    decreases regions.len(),
{
    if regions.len() == 0 {
        Seq::empty()
    } else {
        let rest = spawned_regions(regions.drop_last(), starting_region);
        let last = regions.last();
        if last.1.hidden {
            rest
        } else {
            rest.push(
                (
                    (regions.len() - 1) as usize,
                    last.0@ == starting_region || last.1.requires_discovery is None,
                ),
            )
        }
    }
}


/// Exactly the regions that are not hidden are placed, each once, in the
/// order of the settings, each unlocked exactly when it is the starting
/// region or needs no discovery.
pub proof fn lemma_spawned_regions(regions: Seq<(String, RegionSettings)>, start: Seq<char>)
    requires
        regions.len() <= usize::MAX,
    ensures
        forall|j: int|
            0 <= j < spawned_regions(regions, start).len() ==> {
                let e = #[trigger] spawned_regions(regions, start)[j];
                &&& e.0 < regions.len()
                &&& !regions[e.0 as int].1.hidden
                &&& e.1 == (regions[e.0 as int].0@ == start || regions[e.0 as int].1.requires_discovery is None)
            },
        forall|i: int|
            0 <= i < regions.len() && !(#[trigger] regions[i]).1.hidden ==> exists|j: int|
                0 <= j < spawned_regions(regions, start).len() && spawned_regions(regions, start)[j].0
                    == i,
        forall|j: int, k: int|
            0 <= j < k < spawned_regions(regions, start).len() ==> spawned_regions(regions, start)[j].0
                < spawned_regions(regions, start)[k].0,
    decreases regions.len(),
{
    if regions.len() > 0 {
        let rest = regions.drop_last();
        lemma_spawned_regions(rest, start);
        let l = spawned_regions(regions, start);
        let lr = spawned_regions(rest, start);
        let n = regions.len() - 1;
        assert forall|i: int| 0 <= i < n implies #[trigger] rest[i] == regions[i] by {}
        if regions.last().1.hidden {
            assert(l == lr);
            assert forall|i: int| 0 <= i < regions.len() && !(#[trigger] regions[i]).1.hidden implies exists|j: int|
                0 <= j < l.len() && l[j].0 == i by {
                assert(i < n);
                assert(!rest[i].1.hidden);
            }
            assert forall|j: int| 0 <= j < l.len() implies {
                let e = #[trigger] l[j];
                &&& e.0 < regions.len()
                &&& !regions[e.0 as int].1.hidden
                &&& e.1 == (regions[e.0 as int].0@ == start || regions[e.0 as int].1.requires_discovery is None)
            } by {
                assert(lr[j].0 < rest.len());
                assert(rest[lr[j].0 as int] == regions[lr[j].0 as int]);
            }
        } else {
            let last = regions.last();
            let x = (n as usize, last.0@ == start || last.1.requires_discovery is None);
            let l2 = lr.push(x);
            assert(l == l2);
            assert forall|i: int| 0 <= i < regions.len() && !(#[trigger] regions[i]).1.hidden implies exists|j: int|
                0 <= j < l.len() && l[j].0 == i by {
                if i < n {
                    assert(!rest[i].1.hidden);
                    let j = choose|j: int| 0 <= j < lr.len() && lr[j].0 == i;
                    assert(l2[j] == lr[j]);
                } else {
                    assert(l2[lr.len() as int] == x);
                }
            }
            assert forall|j: int| 0 <= j < l.len() implies {
                let e = #[trigger] l[j];
                &&& e.0 < regions.len()
                &&& !regions[e.0 as int].1.hidden
                &&& e.1 == (regions[e.0 as int].0@ == start || regions[e.0 as int].1.requires_discovery is None)
            } by {
                if j < lr.len() {
                    assert(l2[j] == lr[j]);
                    assert(lr[j].0 < rest.len());
                    assert(rest[lr[j].0 as int] == regions[lr[j].0 as int]);
                } else {
                    assert(l2[j] == x);
                }
            }
            assert forall|j: int, k: int| 0 <= j < k < l.len() implies l[j].0 < l[k].0 by {
                assert(l2[j] == lr[j]);
                assert(lr[j].0 < rest.len());
                if k < lr.len() {
                    assert(l2[k] == lr[k]);
                } else {
                    assert(l2[k] == x);
                }
            }
        }
    }
}

/// The regions to place on the map at the start of a game, with whether each
/// starts unlocked; hidden regions are left out.
pub fn regions_to_spawn(regions: &Vec<(String, RegionSettings)>, starting_region: &String) -> (r: Vec<(usize, bool)>)
    ensures
        r@ == spawned_regions(regions@, starting_region@),
        forall|j: int|
            0 <= j < r.len() ==> {
                let e = #[trigger] r@[j];
                &&& e.0 < regions.len()
                &&& !regions@[e.0 as int].1.hidden
                &&& e.1 == (regions@[e.0 as int].0@ == starting_region@
                    || regions@[e.0 as int].1.requires_discovery is None)
            },
        forall|i: int|
            0 <= i < regions.len() && !(#[trigger] regions@[i]).1.hidden ==> exists|j: int|
                0 <= j < r.len() && r@[j].0 == i,
        forall|j: int, k: int| 0 <= j < k < r.len() ==> r@[j].0 < r@[k].0,
{
    let n = regions.len();
    proof {
        assert(regions@.len() == n);
        lemma_spawned_regions(regions@, starting_region@);
    }
    let mut r: Vec<(usize, bool)> = Vec::new();
    let mut i: usize = 0;
    while i < regions.len()
        invariant
            i <= regions.len(),
            r@ == spawned_regions(regions@.take(i as int), starting_region@),
        decreases regions.len() - i,
    {
        assert(regions@.take(i as int + 1).drop_last() =~= regions@.take(i as int));
        if !regions[i].1.hidden {
            let unlocked = region_starts_unlocked(
                &regions[i].0,
                starting_region,
                &regions[i].1.requires_discovery,
            );
            r.push((i, unlocked));
        }
        i += 1;
    }
    assert(regions@.take(regions.len() as int) =~= regions@);
    r
}

} // verus!
