//! Discoveries: the research tree of the cult, what the discoveries menu offers,
//! and what learning a discovery costs.
use crate::funds::{Funds, FundsAmount};
use indexmap::IndexMap;
use vstd::prelude::*;

verus! {

/// The ordered map of `indexmap`.
#[verifier::external_type_specification]
#[verifier::external_body]
#[verifier::reject_recursive_types(K)]
#[verifier::reject_recursive_types(V)]
#[verifier::reject_recursive_types(S)]
pub struct ExIndexMap<K, V, S>(IndexMap<K, V, S>);

/// Whether a researched discovery is listed in the discoveries menu.
#[derive(Debug, Clone, Copy, PartialEq, Eq, Structural)]
pub enum DiscoveryVisibility {
    Hidden,
    Shown,
}

/// The entries of a map of researched discoveries, in the map's order.
pub uninterp spec fn researched_entries(m: IndexMap<String, DiscoveryVisibility>) -> Seq<
    (Seq<char>, DiscoveryVisibility),
>;

/// The index of the first entry with key `key`.
pub open spec fn key_index(entries: Seq<(Seq<char>, DiscoveryVisibility)>, key: Seq<char>) -> Option<
    int,
>
    decreases entries.len(),
{
    if entries.len() == 0 {
        None
    } else if entries[0].0 == key {
        Some(0)
    } else {
        match key_index(entries.drop_first(), key) {
            Some(i) => Some(i + 1),
            None => None,
        }
    }
}

/// The value stored for `key`.
pub open spec fn lookup(entries: Seq<(Seq<char>, DiscoveryVisibility)>, key: Seq<char>) -> Option<
    DiscoveryVisibility,
> {
    match key_index(entries, key) {
        Some(i) => Some(entries[i].1),
        None => None,
    }
}

/// The entries after inserting `value` under `key`: an existing key keeps its
/// place and takes the new value; a new key goes last.
pub open spec fn inserted(
    entries: Seq<(Seq<char>, DiscoveryVisibility)>,
    key: Seq<char>,
    value: DiscoveryVisibility,
) -> Seq<(Seq<char>, DiscoveryVisibility)> {
    match key_index(entries, key) {
        Some(i) => entries.update(i, (key, value)),
        None => entries.push((key, value)),
    }
}

/// `IndexMap::new`: a map with no entries.
#[verifier::external_body]
fn index_map_new() -> (r: IndexMap<String, DiscoveryVisibility>)
    ensures
        researched_entries(r) == Seq::<(Seq<char>, DiscoveryVisibility)>::empty(),
{
    IndexMap::new()
}

/// `IndexMap::get`: the value stored under `key`, looked up by hash; keys of
/// an `IndexMap` are unique, so this is the value of the first entry with that key.
#[verifier::external_body]
fn index_map_get(m: &IndexMap<String, DiscoveryVisibility>, key: &str) -> (r: Option<
    DiscoveryVisibility,
>)
    ensures
        r == lookup(researched_entries(*m), key@),
{
    m.get(key).copied()
}

/// `IndexMap::insert`: an existing key keeps its place in the order and takes
/// the new value, the old one being returned; a new key is added last.
#[verifier::external_body]
fn index_map_insert(
    m: &mut IndexMap<String, DiscoveryVisibility>,
    key: String,
    value: DiscoveryVisibility,
) -> (r: Option<DiscoveryVisibility>)
    ensures
        researched_entries(*final(m)) == inserted(researched_entries(*old(m)), key@, value),
        r == lookup(researched_entries(*old(m)), key@),
{
    m.insert(key, value)
}

/// The discoveries the player has made, in the order they were made.
pub struct DiscoveriesResearched(pub IndexMap<String, DiscoveryVisibility>);

impl DiscoveriesResearched {
    /// The discoveries made, in order, with their visibility.
    pub open spec fn entries(&self) -> Seq<(Seq<char>, DiscoveryVisibility)> {
        researched_entries(self.0)
    }

    /// No discoveries made yet.
    pub fn new() -> (r: Self)
        ensures
            r.entries() == Seq::<(Seq<char>, DiscoveryVisibility)>::empty(),
    {
        DiscoveriesResearched(index_map_new())
    }

    /// Whether the discovery `name` has been made.
    pub fn contains_key(&self, name: &str) -> (r: bool)
        ensures
            r == lookup(self.entries(), name@) is Some,
    {
        index_map_get(&self.0, name).is_some()
    }

    /// The visibility of the discovery `name`, if it has been made.
    pub fn get(&self, name: &str) -> (r: Option<DiscoveryVisibility>)
        ensures
            r == lookup(self.entries(), name@),
    {
        index_map_get(&self.0, name)
    }

    /// Records the discovery `name` with the given visibility.
    pub fn research(&mut self, name: String, visibility: DiscoveryVisibility)
        ensures
            final(self).entries() == inserted(old(self).entries(), name@, visibility),
    {
        let _ = index_map_insert(&mut self.0, name, visibility);
    }
}

/// The research points gathered and not yet spent.
#[derive(Debug, Clone, Copy, PartialEq, Eq, Structural)]
pub struct ResearchPoints(pub u32);

/// Research points that a task earns per day.
#[derive(Debug, Clone, Copy, PartialEq, Eq, Structural)]
pub struct Research(pub u32);

/// What a discovery costs and needs, as the data files define it.
#[derive(Debug, Clone)]
pub struct DiscoverySettings {
    pub research_cost: u32,
    pub funds_cost: FundsAmount,
    pub required_discoveries: Vec<String>,
}

/// The discovery chosen in the menu, with its funds and research costs.
#[derive(Debug, Clone)]
pub struct DiscoverySelected(pub String, pub FundsAmount, pub u32);

/// The sum of a list of research outputs.
pub open spec fn total_research(rs: Seq<Research>) -> int
    decreases rs.len(),
{
    if rs.len() == 0 {
        0
    } else {
        total_research(rs.drop_last()) + rs.last().0
    }
}

/// The day's research: every researching task adds its points.
pub fn research(researches: &Vec<Research>, points: &mut ResearchPoints)
    requires
        old(points).0 + total_research(researches@) <= u32::MAX,
    ensures
        final(points).0 == old(points).0 + total_research(researches@),
        forall|i: int|
            0 <= i < researches.len() ==> final(points).0 >= old(points).0 + #[trigger] researches@[i].0,
{
    proof {
        assert forall|i: int| 0 <= i < researches.len() implies total_research(researches@)
            >= #[trigger] researches@[i].0 by {
            lemma_total_research_counts_each(researches@, i);
        }
    }
    let mut sum: u32 = 0;
    let mut i: usize = 0;
    while i < researches.len()
        invariant
            i <= researches.len(),
            sum == total_research(researches@.take(i as int)),
            old(points).0 + total_research(researches@) <= u32::MAX,
            points.0 == old(points).0,
        decreases researches.len() - i,
    {
        proof {
            lemma_total_research_prefix(researches@, i as int + 1);
            assert(researches@.take(i as int + 1).drop_last() == researches@.take(i as int));
        }
        sum = sum + researches[i].0;
        i += 1;
    }
    assert(researches@.take(researches.len() as int) == researches@);
    points.0 = points.0 + sum;
}


/// No research task, no research points.
pub proof fn lemma_total_research_empty()
    ensures
        total_research(Seq::<Research>::empty()) == 0,
{
}

/// One more researching task adds exactly its own points to the day's total.
pub proof fn lemma_total_research_push(rs: Seq<Research>, x: Research)
    ensures
        total_research(rs.push(x)) == total_research(rs) + x.0,
{
    assert(rs.push(x).drop_last() =~= rs);
}

/// The research of two groups of tasks together is the research of the one
/// plus that of the other: every task counts, once.
pub proof fn lemma_total_research_concat(a: Seq<Research>, b: Seq<Research>)
    ensures
        total_research(a + b) == total_research(a) + total_research(b),
    decreases b.len(),
{
    if b.len() == 0 {
        assert(a + b =~= a);
    } else {
        lemma_total_research_concat(a, b.drop_last());
        assert((a + b).drop_last() =~= a + b.drop_last());
    }
}

/// Every task's points count: the total is at least the points of any one
/// task.
pub proof fn lemma_total_research_counts_each(rs: Seq<Research>, i: int)
    requires
        0 <= i < rs.len(),
    ensures
        total_research(rs) >= rs[i].0,
{
    assert(rs =~= rs.take(i) + seq![rs[i]] + rs.skip(i + 1));
    lemma_total_research_concat(rs.take(i) + seq![rs[i]], rs.skip(i + 1));
    lemma_total_research_concat(rs.take(i), seq![rs[i]]);
    lemma_total_research_nonneg(rs.take(i));
    lemma_total_research_nonneg(rs.skip(i + 1));
    lemma_total_research_push(Seq::<Research>::empty(), rs[i]);
    assert(Seq::<Research>::empty().push(rs[i]) =~= seq![rs[i]]);
}

/// Research totals are never negative.
proof fn lemma_total_research_nonneg(rs: Seq<Research>)
    ensures
        total_research(rs) >= 0,
    decreases rs.len(),
{
    if rs.len() > 0 {
        lemma_total_research_nonneg(rs.drop_last());
    }
}

/// A prefix of the research outputs sums to no more than all of them.
proof fn lemma_total_research_prefix(rs: Seq<Research>, n: int)
    requires
        0 <= n <= rs.len(),
    ensures
        total_research(rs.take(n)) <= total_research(rs),
    decreases rs.len() - n,
{
    if n < rs.len() {
        lemma_total_research_prefix(rs, n + 1);
        assert(rs.take(n + 1).drop_last() == rs.take(n));
    } else {
        assert(rs.take(n) == rs);
    }
}

/// Learns the selected discovery: its costs are paid and it is recorded as
/// shown. (Its modifiers are spawned by the caller.)
pub fn learn_new_discovery(
    funds: &mut Funds,
    points: &mut ResearchPoints,
    researched: &mut DiscoveriesResearched,
    selected: &DiscoverySelected,
)
    requires
        i64::MIN <= old(funds).0 - selected.1 <= i64::MAX,
        selected.2 <= old(points).0,
    ensures
        final(funds).0 == old(funds).0 - selected.1,
        final(points).0 == old(points).0 - selected.2,
        final(researched).entries() == inserted(
            old(researched).entries(),
            selected.0@,
            DiscoveryVisibility::Shown,
        ),
{
    funds.0 = funds.0 - selected.1;
    points.0 = points.0 - selected.2;
    researched.research(selected.0.clone(), DiscoveryVisibility::Shown);
}

/// How a discovery appears in the discoveries menu.
#[derive(Debug, Clone, Copy, PartialEq, Eq, Structural)]
pub enum DiscoveryMenuEntry {
    /// Not yet made, with all requirements made; the flags tell which costs
    /// cannot be paid now.
    Available { not_enough_points: bool, not_enough_funds: bool },
    /// Already made and shown.
    Discovered,
}

/// Every requirement of a discovery has been made.
pub open spec fn requirements_met(
    required: Seq<String>,
    entries: Seq<(Seq<char>, DiscoveryVisibility)>,
) -> bool {
    forall|i: int| 0 <= i < required.len() ==> lookup(entries, #[trigger] required[i]@) is Some
}

/// How the discovery `name` shows in the menu, if at all: a discovery not yet
/// made shows as available once all its requirements are made; a discovery
/// made shows unless it is hidden.
pub open spec fn menu_entry_spec(
    name: Seq<char>,
    settings: DiscoverySettings,
    entries: Seq<(Seq<char>, DiscoveryVisibility)>,
    points: u32,
    funds: FundsAmount,
) -> Option<DiscoveryMenuEntry> {
    match lookup(entries, name) {
        None => if requirements_met(settings.required_discoveries@, entries) {
            Some(
                DiscoveryMenuEntry::Available {
                    not_enough_points: settings.research_cost > points,
                    not_enough_funds: settings.funds_cost != 0 && settings.funds_cost > funds,
                },
            )
        } else {
            None
        },
        Some(DiscoveryVisibility::Hidden) => None,
        Some(DiscoveryVisibility::Shown) => Some(DiscoveryMenuEntry::Discovered),
    }
}


/// A discovery not yet made is listed in the menu exactly when every one of
/// its required discoveries has been made; it is then listed as available,
/// with flags telling whether the research points and the funds fall short.
pub proof fn lemma_menu_entry_of_unmade_discovery(
    name: Seq<char>,
    settings: DiscoverySettings,
    entries: Seq<(Seq<char>, DiscoveryVisibility)>,
    points: u32,
    funds: FundsAmount,
)
    requires
        lookup(entries, name) is None,
    ensures
        (exists|i: int|
            0 <= i < settings.required_discoveries@.len() && lookup(
                entries,
                #[trigger] settings.required_discoveries@[i]@,
            ) is None) ==> menu_entry_spec(name, settings, entries, points, funds) is None,
        (forall|i: int|
            0 <= i < settings.required_discoveries@.len() ==> lookup(
                entries,
                #[trigger] settings.required_discoveries@[i]@,
            ) is Some) ==> menu_entry_spec(name, settings, entries, points, funds) == Some(
            DiscoveryMenuEntry::Available {
                not_enough_points: settings.research_cost > points,
                not_enough_funds: settings.funds_cost != 0 && settings.funds_cost > funds,
            },
        ),
{
}

/// A discovery already made is listed as discovered unless it is hidden, in
/// which case it is not listed; its requirements do not matter.
pub proof fn lemma_menu_entry_of_made_discovery(
    name: Seq<char>,
    settings: DiscoverySettings,
    entries: Seq<(Seq<char>, DiscoveryVisibility)>,
    points: u32,
    funds: FundsAmount,
)
    requires
        lookup(entries, name) is Some,
    ensures
        menu_entry_spec(name, settings, entries, points, funds) == if lookup(entries, name)
            == Some(DiscoveryVisibility::Shown) {
            Some(DiscoveryMenuEntry::Discovered)
        } else {
            None
        },
{
}

/// How the discovery `name` shows in the discoveries menu, if at all.
pub fn discovery_menu_entry(
    name: &String,
    settings: &DiscoverySettings,
    researched: &DiscoveriesResearched,
    points: &ResearchPoints,
    funds: &Funds,
) -> (r: Option<DiscoveryMenuEntry>)
    ensures
        r == menu_entry_spec(name@, *settings, researched.entries(), points.0, funds.0),
        lookup(researched.entries(), name@) is None && (exists|i: int|
            0 <= i < settings.required_discoveries@.len() && lookup(
                researched.entries(),
                #[trigger] settings.required_discoveries@[i]@,
            ) is None) ==> r is None,
        lookup(researched.entries(), name@) is None && (forall|i: int|
            0 <= i < settings.required_discoveries@.len() ==> lookup(
                researched.entries(),
                #[trigger] settings.required_discoveries@[i]@,
            ) is Some) ==> r == Some(
            DiscoveryMenuEntry::Available {
                not_enough_points: settings.research_cost > points.0,
                not_enough_funds: settings.funds_cost != 0 && settings.funds_cost > funds.0,
            },
        ),
{
    proof {
        if lookup(researched.entries(), name@) is None {
            lemma_menu_entry_of_unmade_discovery(
                name@,
                *settings,
                researched.entries(),
                points.0,
                funds.0,
            );
        }
    }
    match researched.get(name.as_str()) {
        None => {
            let mut i: usize = 0;
            while i < settings.required_discoveries.len()
                invariant
                    i <= settings.required_discoveries.len(),
                    lookup(researched.entries(), name@) is None,
                    forall|j: int|
                        0 <= j < i ==> lookup(researched.entries(), #[trigger] settings.required_discoveries@[j]@)
                            is Some,
                decreases settings.required_discoveries.len() - i,
            {
                if !researched.contains_key(settings.required_discoveries[i].as_str()) {
                    assert(lookup(researched.entries(), settings.required_discoveries@[i as int]@) is None);
                    return None;
                }
                i += 1;
            }
            Some(
                DiscoveryMenuEntry::Available {
                    not_enough_points: settings.research_cost > points.0,
                    not_enough_funds: settings.funds_cost != 0 && settings.funds_cost > funds.0,
                },
            )
        },
        Some(DiscoveryVisibility::Hidden) => None,
        Some(DiscoveryVisibility::Shown) => Some(DiscoveryMenuEntry::Discovered),
    }
}

/// The entries of the discoveries menu, in the order of the data file: the
/// index of each discovery that shows, with how it shows.
pub fn open_discoveries_menu(
    discoveries: &Vec<(String, DiscoverySettings)>,
    researched: &DiscoveriesResearched,
    points: &ResearchPoints,
    funds: &Funds,
) -> (r: Vec<(usize, DiscoveryMenuEntry)>)
    ensures
        forall|j: int|
            0 <= j < r.len() ==> #[trigger] r[j].0 < discoveries.len() && menu_entry_spec(
                discoveries[r[j].0 as int].0@,
                discoveries[r[j].0 as int].1,
                researched.entries(),
                points.0,
                funds.0,
            ) == Some(r[j].1),
        forall|i: int|
            0 <= i < discoveries.len() && (menu_entry_spec(
                #[trigger] discoveries[i].0@,
                discoveries[i].1,
                researched.entries(),
                points.0,
                funds.0,
            ) is Some) ==> exists|j: int| 0 <= j < r.len() && r[j].0 == i,
        forall|j: int, k: int| 0 <= j < k < r.len() ==> r[j].0 < r[k].0,
{
    let mut r: Vec<(usize, DiscoveryMenuEntry)> = Vec::new();
    let mut i: usize = 0;
    while i < discoveries.len()
        invariant
            i <= discoveries.len(),
            forall|j: int|
                0 <= j < r.len() ==> #[trigger] r[j].0 < i && menu_entry_spec(
                    discoveries[r[j].0 as int].0@,
                    discoveries[r[j].0 as int].1,
                    researched.entries(),
                    points.0,
                    funds.0,
                ) == Some(r[j].1),
            forall|m: int|
                0 <= m < i && (menu_entry_spec(
                    #[trigger] discoveries[m].0@,
                    discoveries[m].1,
                    researched.entries(),
                    points.0,
                    funds.0,
                ) is Some) ==> exists|j: int| 0 <= j < r.len() && r[j].0 == m,
            forall|j: int, k: int| 0 <= j < k < r.len() ==> r[j].0 < r[k].0,
        decreases discoveries.len() - i,
    {
        let ghost old_r = r@;
        match discovery_menu_entry(&discoveries[i].0, &discoveries[i].1, researched, points, funds) {
            Some(e) => {
                r.push((i, e));
                assert(r[r.len() - 1].0 == i);
                assert forall|m: int|
                    0 <= m < i && (menu_entry_spec(
                        #[trigger] discoveries[m].0@,
                        discoveries[m].1,
                        researched.entries(),
                        points.0,
                        funds.0,
                    ) is Some) implies exists|j: int| 0 <= j < r.len() && r[j].0 == m by {
                    let j = choose|j: int| 0 <= j < old_r.len() && old_r[j].0 == m;
                    assert(r[j] == old_r[j]);
                }
            },
            None => {},
        }
        i += 1;
    }
    r
}

/// `key_index` finds the first entry with the key, and only where one has it.
proof fn lemma_key_index_bounds(entries: Seq<(Seq<char>, DiscoveryVisibility)>, key: Seq<char>)
    ensures
        key_index(entries, key) matches Some(i) ==> 0 <= i < entries.len() && entries[i].0 == key
            && forall|j: int| 0 <= j < i ==> entries[j].0 != key,
        key_index(entries, key) is None ==> forall|j: int|
            0 <= j < entries.len() ==> entries[j].0 != key,
    decreases entries.len(),
{
    if entries.len() > 0 {
        lemma_key_index_bounds(entries.drop_first(), key);
        assert forall|j: int| 1 <= j < entries.len() implies entries[j] == entries.drop_first()[j
            - 1] by {}
    }
}

/// After an insertion, the inserted key is found at its place in the order.
proof fn lemma_key_index_inserted(
    entries: Seq<(Seq<char>, DiscoveryVisibility)>,
    key: Seq<char>,
    value: DiscoveryVisibility,
)
    ensures
        key_index(inserted(entries, key, value), key) == (match key_index(entries, key) {
            Some(i) => Some(i),
            None => Some(entries.len() as int),
        }),
    decreases entries.len(),
{
    if entries.len() == 0 {
        assert(inserted(entries, key, value)[0] == (key, value));
    } else if entries[0].0 == key {
        assert(inserted(entries, key, value)[0] == (key, value));
    } else {
        let t = entries.drop_first();
        lemma_key_index_inserted(t, key, value);
        lemma_key_index_bounds(t, key);
        let e = inserted(entries, key, value);
        match key_index(t, key) {
            Some(i) => {
                assert(key_index(entries, key) == Some(i + 1));
                assert(e == entries.update(i + 1, (key, value)));
                assert(e.drop_first() =~= t.update(i, (key, value)));
            },
            None => {
                assert(key_index(entries, key) is None);
                assert(e == entries.push((key, value)));
                assert(e.drop_first() =~= t.push((key, value)));
            },
        }
        assert(e[0] == entries[0]);
    }
}

/// A discovery made for the first time goes last: the researched discoveries
/// stay in the order in which they were made.
pub proof fn lemma_new_discovery_goes_last(
    entries: Seq<(Seq<char>, DiscoveryVisibility)>,
    name: Seq<char>,
    visibility: DiscoveryVisibility,
)
    requires
        lookup(entries, name) is None,
    ensures
        inserted(entries, name, visibility) == entries.push((name, visibility)),
{
}

/// Once learned, a discovery counts as made and is shown in the menu, and it
/// is no longer offered as available.
pub proof fn lemma_learned_discovery_is_shown(
    entries: Seq<(Seq<char>, DiscoveryVisibility)>,
    name: Seq<char>,
    settings: DiscoverySettings,
    points: u32,
    funds: FundsAmount,
)
    ensures
        lookup(inserted(entries, name, DiscoveryVisibility::Shown), name) == Some(
            DiscoveryVisibility::Shown,
        ),
        menu_entry_spec(
            name,
            settings,
            inserted(entries, name, DiscoveryVisibility::Shown),
            points,
            funds,
        ) == Some(DiscoveryMenuEntry::Discovered),
{
    lemma_key_index_inserted(entries, name, DiscoveryVisibility::Shown);
    lemma_key_index_bounds(entries, name);
    let e = inserted(entries, name, DiscoveryVisibility::Shown);
    match key_index(entries, name) {
        Some(i) => assert(e[i] == (name, DiscoveryVisibility::Shown)),
        None => assert(e[entries.len() as int] == (name, DiscoveryVisibility::Shown)),
    }
}

} // verus!
