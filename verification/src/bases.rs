//! Bases of the cult: which base types a region offers, acquiring a base on a
//! vacant plot, and the choices in the follower transfer dialog.
use crate::discoveries::{lookup, DiscoveriesResearched};
use crate::followers::{transfer_followers, Follower, FollowerCount};
use crate::funds::{transfer_follower_costs, Expense, Funds, FundsAmount, INTEL_SUSPICION_COST, INTER_REGION_FUNDS_COST, INTRA_REGION_FUNDS_COST};
use crate::lookup::{contains_name, names_contain};
use crate::random::choose_one;
use rand::rngs::StdRng;
use vstd::prelude::*;

verus! {

/// A base, by the name of its base type.
#[derive(Debug, Clone, PartialEq, Eq)]
pub struct Base(pub String);

/// The settings of a base type in the data files.
#[derive(Debug, Clone)]
pub struct BasetypeSettings {
    pub max_follower_count: usize,
    pub cost_per_day: FundsAmount,
    pub initial_cost: FundsAmount,
    /// The regions where this base type can be built; empty means everywhere.
    pub regions: Vec<String>,
    pub requires_discovery: Option<String>,
    pub color: String,
}

/// A base type is offered in a region when it may be built there and the
/// discovery it needs, if any, has been made.
pub open spec fn base_type_offered_spec(
    settings: BasetypeSettings,
    region: Seq<char>,
    researched: Seq<(Seq<char>, crate::discoveries::DiscoveryVisibility)>,
) -> bool {
    (settings.regions@.len() == 0 || names_contain(settings.regions@, region)) && match settings.requires_discovery {
        None => true,
        Some(d) => lookup(researched, d@) is Some,
    }
}


/// A base type is offered in a region exactly when its list of regions is
/// empty or names that region at any place, and the discovery it needs, if
/// any, has been made.
pub proof fn lemma_base_type_offered(
    settings: BasetypeSettings,
    region: Seq<char>,
    researched: Seq<(Seq<char>, crate::discoveries::DiscoveryVisibility)>,
)
    ensures
        base_type_offered_spec(settings, region, researched) == ((settings.regions@.len() == 0
            || exists|i: int|
            0 <= i < settings.regions@.len() && #[trigger] settings.regions@[i]@ == region) && match settings.requires_discovery {
            None => true,
            Some(d) => lookup(researched, d@) is Some,
        }),
{
}

/// Whether the region menu offers a base type in `region`.
pub fn base_type_offered(
    settings: &BasetypeSettings,
    region: &String,
    researched: &DiscoveriesResearched,
) -> (r: bool)
    ensures
        r == base_type_offered_spec(*settings, region@, researched.entries()),
        r == ((settings.regions@.len() == 0 || exists|i: int|
            0 <= i < settings.regions@.len() && #[trigger] settings.regions@[i]@ == region@)
            && match settings.requires_discovery {
            None => true,
            Some(d) => lookup(researched.entries(), d@) is Some,
        }),
{
    proof {
        lemma_base_type_offered(*settings, region@, researched.entries());
    }
    let allowed_here = settings.regions.len() == 0 || contains_name(&settings.regions, region);
    allowed_here && match &settings.requires_discovery {
        None => true,
        Some(d) => researched.contains_key(d.as_str()),
    }
}

/// Why a base could not be acquired.
#[derive(Debug, Clone, Copy, PartialEq, Eq, Structural)]
pub enum SpawnBaseRefusal {
    /// The region has no vacant base plot.
    NoVacantBasePlot,
    /// The funds do not cover the initial cost.
    NotEnoughFunds,
}

/// Acquiring a base of a type with `initial_cost` in a region with the given
/// vacant base plots: one of the plots is picked at random, provided the funds
/// cover the cost.
pub fn spawn_base(
    vacant_base_plots: &Vec<usize>,
    funds: &Funds,
    initial_cost: FundsAmount,
    rng: &mut StdRng,
) -> (r: Result<usize, SpawnBaseRefusal>)
    ensures
        vacant_base_plots.len() == 0 ==> r == Err::<usize, SpawnBaseRefusal>(
            SpawnBaseRefusal::NoVacantBasePlot,
        ),
        vacant_base_plots.len() > 0 && funds.0 < initial_cost ==> r == Err::<
            usize,
            SpawnBaseRefusal,
        >(SpawnBaseRefusal::NotEnoughFunds),
        vacant_base_plots.len() > 0 && funds.0 >= initial_cost ==> (r matches Ok(p)
            && vacant_base_plots@.contains(p)),
{
    let base_plot = match choose_one(vacant_base_plots, rng) {
        Some(p) => p,
        None => return Err(SpawnBaseRefusal::NoVacantBasePlot),
    };
    if funds.0 < initial_cost {
        return Err(SpawnBaseRefusal::NotEnoughFunds);
    }
    Ok(base_plot)
}

/// Picks at random the plot of the starting base among the plots of the
/// starting region.
pub fn pick_starting_base_plot(base_plots: &Vec<usize>, rng: &mut StdRng) -> (r: usize)
    requires
        base_plots.len() > 0,
    ensures
        base_plots@.contains(r),
{
    match choose_one(base_plots, rng) {
        Some(p) => p,
        None => 0,
    }
}

/// Pays for a new base, unless it comes free (the starting base does).
pub fn pay_for_base(funds: &mut Funds, settings: &BasetypeSettings, free: bool)
    requires
        !free ==> old(funds).0 - settings.initial_cost >= i64::MIN,
        !free ==> old(funds).0 - settings.initial_cost <= i64::MAX,
    ensures
        final(funds).0 == if free {
            old(funds).0 as int
        } else {
            old(funds).0 - settings.initial_cost
        },
{
    if !free {
        funds.0 = funds.0 - settings.initial_cost;
    }
}

/// Acquires a base of the type with `settings` in a region with the given
/// vacant base plots: where there is a vacant plot and the funds cover the
/// initial cost, one of the plots is picked at random and the funds pay the
/// cost; otherwise nothing changes.
pub fn acquire_base(
    vacant_base_plots: &Vec<usize>,
    funds: &mut Funds,
    settings: &BasetypeSettings,
    rng: &mut StdRng,
) -> (r: Result<usize, SpawnBaseRefusal>)
    requires
        old(funds).0 >= settings.initial_cost ==> old(funds).0 - settings.initial_cost
            <= i64::MAX,
    ensures
        vacant_base_plots.len() == 0 ==> r == Err::<usize, SpawnBaseRefusal>(
            SpawnBaseRefusal::NoVacantBasePlot,
        ),
        vacant_base_plots.len() > 0 && old(funds).0 < settings.initial_cost ==> r == Err::<
            usize,
            SpawnBaseRefusal,
        >(SpawnBaseRefusal::NotEnoughFunds),
        r is Err ==> *final(funds) == *old(funds),
        vacant_base_plots.len() > 0 && old(funds).0 >= settings.initial_cost ==> (r matches Ok(p)
            && vacant_base_plots@.contains(p)),
        r is Ok ==> final(funds).0 == old(funds).0 - settings.initial_cost && final(funds).0 >= 0,
{
    let picked = spawn_base(vacant_base_plots, funds, settings.initial_cost, rng);
    match picked {
        Ok(p) => {
            pay_for_base(funds, settings, false);
            Ok(p)
        },
        Err(e) => Err(e),
    }
}

/// The settings of a task in the data files.
#[derive(Debug, Clone)]
pub struct TaskSettings {
    pub follower_types: Vec<String>,
    pub requires_discovery: Option<String>,
}

/// The task that followers of a type start with in a new base: the first task
/// in the data file that their type can do. One must exist.
pub fn default_task(tasks: &Vec<(String, TaskSettings)>, follower: &String) -> (r: usize)
    requires
        exists|i: int|
            0 <= i < tasks.len() && names_contain(#[trigger] tasks[i].1.follower_types@, follower@),
    ensures
        r < tasks.len(),
        names_contain(tasks[r as int].1.follower_types@, follower@),
        forall|j: int| 0 <= j < r ==> !names_contain(tasks[j].1.follower_types@, follower@),
{
    let mut i: usize = 0;
    while i < tasks.len()
        invariant
            i <= tasks.len(),
            forall|j: int| 0 <= j < i ==> !names_contain(tasks[j].1.follower_types@, follower@),
            exists|m: int|
                0 <= m < tasks.len() && names_contain(#[trigger] tasks[m].1.follower_types@, follower@),
        decreases tasks.len() - i,
    {
        if contains_name(&tasks[i].1.follower_types, follower) {
            return i;
        }
        i += 1;
    }
    0
}


/// A follower type as it starts out in a new base: nobody yet, doing the
/// task at index `task` of the task settings.
#[derive(Debug, Clone, PartialEq, Eq)]
pub struct NewBaseFollower {
    pub follower: Follower,
    pub count: FollowerCount,
    pub task: usize,
}

/// A newly built base: its type, its daily upkeep, and an entry for every
/// follower type.
#[derive(Debug, Clone)]
pub struct NewBase {
    pub base: Base,
    pub expense: Expense,
    pub followers: Vec<NewBaseFollower>,
}

/// `task` is the first task whose follower types include `follower`.
pub open spec fn is_first_task(tasks: Seq<(String, TaskSettings)>, follower: Seq<char>, task: int) -> bool {
    &&& 0 <= task < tasks.len()
    &&& names_contain(tasks[task].1.follower_types@, follower)
    &&& forall|j: int| 0 <= j < task ==> !names_contain(tasks[j].1.follower_types@, follower)
}

/// Builds a base of type `base_type`: its upkeep is the base type's cost per
/// day under the category `base`, every follower type (in the order of
/// `follower_types`) gets an entry with nobody yet and its default task, and
/// the funds pay the initial cost unless the base comes free.
#[verifier::loop_isolation(false)]
pub fn spawn_base_inner(
    base_type: &String,
    settings: &BasetypeSettings,
    follower_types: &Vec<String>,
    tasks: &Vec<(String, TaskSettings)>,
    funds: &mut Funds,
    free: bool,
) -> (r: NewBase)
    requires
        forall|i: int|
            #![trigger follower_types[i]]
            0 <= i < follower_types.len() ==> exists|j: int|
                0 <= j < tasks.len() && names_contain(
                    #[trigger] tasks[j].1.follower_types@,
                    follower_types[i]@,
                ),
        !free ==> old(funds).0 - settings.initial_cost >= i64::MIN,
        !free ==> old(funds).0 - settings.initial_cost <= i64::MAX,
    ensures
        r.base.0@ == base_type@,
        r.expense.0 == settings.cost_per_day,
        r.expense.1@ == "base"@,
        r.expense.2 == 1,
        final(funds).0 == if free {
            old(funds).0 as int
        } else {
            old(funds).0 - settings.initial_cost
        },
        r.followers.len() == follower_types.len(),
        forall|i: int|
            0 <= i < follower_types.len() ==> {
                let f = #[trigger] r.followers@[i];
                &&& f.follower.0@ == follower_types[i]@
                &&& f.count.0 == 0
                &&& is_first_task(tasks@, follower_types[i]@, f.task as int)
            },
{
    pay_for_base(funds, settings, free);
    let mut followers: Vec<NewBaseFollower> = Vec::new();
    let mut i: usize = 0;
    while i < follower_types.len()
        invariant
            i <= follower_types.len(),
            followers.len() == i,
            forall|m: int|
                0 <= m < i ==> {
                    let f = #[trigger] followers@[m];
                    &&& f.follower.0@ == follower_types[m]@
                    &&& f.count.0 == 0
                    &&& is_first_task(tasks@, follower_types[m]@, f.task as int)
                },
        decreases follower_types.len() - i,
    {
        let name = &follower_types[i];
        assert(exists|j: int|
            0 <= j < tasks.len() && names_contain(#[trigger] tasks[j].1.follower_types@, name@));
        let task = default_task(tasks, name);
        followers.push(NewBaseFollower { follower: Follower(name.clone()), count: FollowerCount(0), task });
        i += 1;
    }
    NewBase {
        base: Base(base_type.clone()),
        expense: Expense(settings.cost_per_day, String::from_str("base"), 1),
        followers,
    }
}

/// How a base appears as a destination in the follower transfer dialog.
#[derive(Debug, Clone, Copy, PartialEq, Eq, Structural)]
pub enum TransferDestination {
    /// The base the followers come from; it cannot be chosen.
    Source,
    /// A base with no room left; it cannot be chosen.
    Full,
    /// A base with room for this many more followers.
    Open(usize),
}

/// How a base with `current_follower_count` followers out of
/// `max_follower_count` appears as a destination.
pub fn transfer_destination(is_source: bool, current_follower_count: usize, max_follower_count: usize) -> (r:
    TransferDestination)
    requires
        current_follower_count <= max_follower_count,
    ensures
        is_source ==> r == TransferDestination::Source,
        !is_source && current_follower_count == max_follower_count ==> r
            == TransferDestination::Full,
        !is_source && current_follower_count < max_follower_count ==> r == TransferDestination::Open(
            (max_follower_count - current_follower_count) as usize,
        ),
{
    if is_source {
        TransferDestination::Source
    } else if current_follower_count == max_follower_count {
        TransferDestination::Full
    } else {
        TransferDestination::Open(max_follower_count - current_follower_count)
    }
}

/// The most followers that can be moved to a destination with room for
/// `remaining_capacity` more.
pub fn transfer_slider_max(follower_count: usize, remaining_capacity: usize) -> (r: usize)
    ensures
        r == if follower_count <= remaining_capacity {
            follower_count
        } else {
            remaining_capacity
        },
{
    if follower_count <= remaining_capacity {
        follower_count
    } else {
        remaining_capacity
    }
}

/// The base types that the menu of a region offers, as indices into
/// `base_types` in their order, and whether their items are enabled: they are
/// when some base plot of the region is vacant.
pub fn region_base_menu(
    base_types: &Vec<(String, BasetypeSettings)>,
    region: &String,
    researched: &DiscoveriesResearched,
    base_plot_occupied: &Vec<bool>,
) -> (r: (Vec<usize>, bool))
    ensures
        forall|j: int|
            0 <= j < r.0.len() ==> #[trigger] r.0[j] < base_types.len() && base_type_offered_spec(
                base_types[r.0[j] as int].1,
                region@,
                researched.entries(),
            ),
        forall|i: int|
            0 <= i < base_types.len() && base_type_offered_spec(
                #[trigger] base_types[i].1,
                region@,
                researched.entries(),
            ) ==> r.0@.contains(i as usize),
        forall|j: int, k: int| 0 <= j < k < r.0.len() ==> r.0[j] < r.0[k],
        r.1 == exists|p: int| 0 <= p < base_plot_occupied.len() && !#[trigger] base_plot_occupied[p],
{
    let mut vacant = false;
    let mut p: usize = 0;
    while p < base_plot_occupied.len()
        invariant
            p <= base_plot_occupied.len(),
            vacant == exists|q: int| 0 <= q < p && !#[trigger] base_plot_occupied[q],
        decreases base_plot_occupied.len() - p,
    {
        if !base_plot_occupied[p] {
            vacant = true;
        }
        p += 1;
    }
    let mut offered: Vec<usize> = Vec::new();
    let mut i: usize = 0;
    while i < base_types.len()
        invariant
            i <= base_types.len(),
            forall|j: int|
                0 <= j < offered.len() ==> #[trigger] offered[j] < i && base_type_offered_spec(
                    base_types[offered[j] as int].1,
                    region@,
                    researched.entries(),
                ),
            forall|m: int|
                0 <= m < i && base_type_offered_spec(
                    #[trigger] base_types[m].1,
                    region@,
                    researched.entries(),
                ) ==> offered@.contains(m as usize),
            forall|j: int, k: int| 0 <= j < k < offered.len() ==> offered[j] < offered[k],
        decreases base_types.len() - i,
    {
        let ghost old_offered = offered@;
        if base_type_offered(&base_types[i].1, region, researched) {
            offered.push(i);
            assert(offered[offered.len() - 1] == i);
        }
        assert forall|m: int|
            0 <= m <= i && base_type_offered_spec(
                #[trigger] base_types[m].1,
                region@,
                researched.entries(),
            ) implies offered@.contains(m as usize) by {
            if m < i {
                let j = old_offered.index_of(m as usize);
                assert(offered@[j] == m as usize);
            } else {
                assert(offered@[offered.len() - 1] == i);
            }
        }
        i += 1;
    }
    (offered, vacant)
}

/// The menu of a base for followers of one type: the tasks they can do, as
/// indices into `tasks` in their order, each enabled unless it is their current
/// task; and whether a transfer item follows, which it does when the cult has
/// more than one base.
pub fn follower_task_menu(
    tasks: &Vec<(String, TaskSettings)>,
    follower: &String,
    current_task: &String,
    base_count: usize,
) -> (r: (Vec<(usize, bool)>, bool))
    ensures
        forall|j: int|
            0 <= j < r.0.len() ==> #[trigger] r.0[j].0 < tasks.len() && names_contain(
                tasks[r.0[j].0 as int].1.follower_types@,
                follower@,
            ) && r.0[j].1 == (tasks[r.0[j].0 as int].0@ != current_task@),
        forall|i: int|
            0 <= i < tasks.len() && names_contain(#[trigger] tasks[i].1.follower_types@, follower@)
                ==> exists|j: int| 0 <= j < r.0.len() && r.0[j].0 == i,
        forall|j: int, k: int| 0 <= j < k < r.0.len() ==> r.0[j].0 < r.0[k].0,
        r.1 == (base_count != 1),
{
    let mut items: Vec<(usize, bool)> = Vec::new();
    let mut i: usize = 0;
    while i < tasks.len()
        invariant
            i <= tasks.len(),
            forall|j: int|
                0 <= j < items.len() ==> #[trigger] items[j].0 < i && names_contain(
                    tasks[items[j].0 as int].1.follower_types@,
                    follower@,
                ) && items[j].1 == (tasks[items[j].0 as int].0@ != current_task@),
            forall|m: int|
                0 <= m < i && names_contain(#[trigger] tasks[m].1.follower_types@, follower@)
                    ==> exists|j: int| 0 <= j < items.len() && items[j].0 == m,
            forall|j: int, k: int| 0 <= j < k < items.len() ==> items[j].0 < items[k].0,
        decreases tasks.len() - i,
    {
        let ghost old_items = items@;
        if contains_name(&tasks[i].1.follower_types, follower) {
            let enabled = !(tasks[i].0 == *current_task);
            items.push((i, enabled));
            assert(items[items.len() - 1].0 == i);
            assert forall|m: int|
                0 <= m < i && names_contain(#[trigger] tasks[m].1.follower_types@, follower@)
                    implies exists|j: int| 0 <= j < items.len() && items[j].0 == m by {
                let j = choose|j: int| 0 <= j < old_items.len() && old_items[j].0 == m;
                assert(items[j] == old_items[j]);
            }
        }
        i += 1;
    }
    (items, base_count != 1)
}

/// Carries out a confirmed follower transfer of `count` followers: the funds
/// pay the transfer cost, intelligence suspicion rises by its cost (directly,
/// without firing suspicion events), and the followers move. Moving nobody
/// does nothing.
pub fn confirm_follower_transfer(
    funds: &mut Funds,
    intelligence_suspicion: &mut u32,
    src: &mut FollowerCount,
    dst: &mut FollowerCount,
    count: usize,
    same_region: bool,
)
    requires
        count <= old(src).0,
        old(dst).0 + count <= usize::MAX,
        i64::MIN <= (if same_region {
            INTRA_REGION_FUNDS_COST
        } else {
            INTER_REGION_FUNDS_COST
        }) * (count as i64) <= i64::MAX,
        INTEL_SUSPICION_COST * (count as u32) <= u32::MAX,
        count > 0 ==> i64::MIN <= old(funds).0 + (if same_region {
            INTRA_REGION_FUNDS_COST
        } else {
            INTER_REGION_FUNDS_COST
        }) * (count as i64) <= i64::MAX,
        count > 0 ==> *old(intelligence_suspicion) + INTEL_SUSPICION_COST * (count as u32)
            <= u32::MAX,
    ensures
        count == 0 ==> *final(funds) == *old(funds) && *final(intelligence_suspicion) == *old(
            intelligence_suspicion,
        ) && *final(src) == *old(src) && *final(dst) == *old(dst),
        count > 0 ==> final(funds).0 == old(funds).0 + (if same_region {
            INTRA_REGION_FUNDS_COST
        } else {
            INTER_REGION_FUNDS_COST
        }) * (count as i64) && *final(intelligence_suspicion) == *old(intelligence_suspicion)
            + INTEL_SUSPICION_COST * (count as u32) && final(src).0 == old(src).0 - count
            && final(dst).0 == old(dst).0 + count,
{
    if count == 0 {
        return;
    }
    let (funds_change, intel) = transfer_follower_costs(same_region, count);
    funds.0 = funds.0 + funds_change;
    *intelligence_suspicion = *intelligence_suspicion + intel;
    let (s, d) = transfer_followers(*src, *dst, count);
    *src = s;
    *dst = d;
}

} // verus!
