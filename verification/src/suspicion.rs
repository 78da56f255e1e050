//! Suspicion meters: how they rise, and when they set off a suspicion event.
//!
//! Each meter counts up. Crossing the lower or the middle limit fires a minor
//! event; crossing the upper limit fires a major event and starts the meter
//! over from the amount above the upper limit.
use crate::random::choose_one;
use rand::rngs::StdRng;
use vstd::prelude::*;

verus! {

/// Crossing this fires a minor suspicion event.
pub const LOWER_LIMIT: u32 = 334;

/// Crossing this fires a minor suspicion event.
pub const MIDDLE_LIMIT: u32 = 667;

/// Crossing this fires a major suspicion event and rolls the meter over.
pub const UPPER_LIMIT: u32 = 1000;

/// The four kinds of suspicion: two global, two regional.
#[derive(Debug, Clone, Copy, PartialEq, Eq, Hash, Structural)]
pub enum SuspicionType {
    Intelligence,
    Scientific,
    Police,
    Media,
}

/// The kebab-case name of a suspicion type, as used in data files and message keys.
pub open spec fn suspicion_type_name(t: SuspicionType) -> Seq<char> {
    match t {
        SuspicionType::Intelligence => "intelligence"@,
        SuspicionType::Scientific => "scientific"@,
        SuspicionType::Police => "police"@,
        SuspicionType::Media => "media"@,
    }
}

impl SuspicionType {
    /// The kebab-case name of this suspicion type.
    pub fn name(&self) -> (s: &'static str)
        ensures
            s@ == suspicion_type_name(*self),
    {
        match self {
            SuspicionType::Intelligence => "intelligence",
            SuspicionType::Scientific => "scientific",
            SuspicionType::Police => "police",
            SuspicionType::Media => "media",
        }
    }
}

/// How much to raise a meter by.
#[derive(Debug, Clone, Copy, PartialEq, Eq, Structural)]
pub enum SuspicionAmount {
    /// A fixed change, which may be negative; the sum saturates at the bounds of `u32`.
    Fixed(i32),
    /// A randomly drawn increase (the caller draws it from a Poisson distribution).
    Sampled(u32),
}

/// What an update does to a meter: its new value, and the event it fires, if any
/// (`Some(true)` for a major event, `Some(false)` for a minor one).
#[derive(Debug, Clone, Copy, PartialEq, Eq, Structural)]
pub struct SuspicionUpdate {
    pub value: u32,
    pub event: Option<bool>,
}

/// `before < limit <= after`: the meter went past `limit`.
pub open spec fn crosses(before: int, after: int, limit: int) -> bool {
    before < limit && limit <= after
}

/// The meter's value that an amount aims at, before any rollover.
pub open spec fn raised_value(before: u32, amount: SuspicionAmount) -> int {
    match amount {
        SuspicionAmount::Fixed(a) => {
            let s = before + a;
            if s < 0 {
                0
            } else if s > u32::MAX {
                u32::MAX as int
            } else {
                s
            }
        },
        SuspicionAmount::Sampled(k) => before + k,
    }
}

/// The outcome of moving a meter from `before` to `after`: nothing when the
/// meter would not rise, else the new value and the event.
pub open spec fn settle(before: u32, after: int) -> Option<SuspicionUpdate> {
    if after <= before {
        None
    } else if crosses(before as int, after, LOWER_LIMIT as int) || crosses(
        before as int,
        after,
        MIDDLE_LIMIT as int,
    ) {
        Some(SuspicionUpdate { value: after as u32, event: Some(false) })
    } else if crosses(before as int, after, UPPER_LIMIT as int) {
        Some(SuspicionUpdate { value: (after - UPPER_LIMIT) as u32, event: Some(true) })
    } else {
        Some(SuspicionUpdate { value: after as u32, event: None })
    }
}

/// `x + y`, saturating at the bounds of `u32`.
fn saturating_add_signed(x: u32, y: i32) -> (r: u32)
    ensures
        r == raised_value(x, SuspicionAmount::Fixed(y)),
{
    let s: i64 = x as i64 + y as i64;
    if s < 0 {
        0
    } else if s > u32::MAX as i64 {
        u32::MAX
    } else {
        s as u32
    }
}

/// Raises a meter that stands at `before` by `amount`.
///
/// Returns `None` where the meter does not rise (it never falls here), and
/// otherwise the new value with the event to fire.
pub fn update_suspicion_inner(before: u32, amount: SuspicionAmount) -> (r: Option<SuspicionUpdate>)
    requires
        amount matches SuspicionAmount::Sampled(k) ==> before + k <= u32::MAX,
    ensures
        r == settle(before, raised_value(before, amount)),
{
    let after: u32 = match amount {
        SuspicionAmount::Fixed(a) => saturating_add_signed(before, a),
        SuspicionAmount::Sampled(k) => before + k,
    };
    if after <= before {
        return None;
    }
    if before < LOWER_LIMIT && after >= LOWER_LIMIT || before < MIDDLE_LIMIT && after
        >= MIDDLE_LIMIT {
        Some(SuspicionUpdate { value: after, event: Some(false) })
    } else if before < UPPER_LIMIT && after >= UPPER_LIMIT {
        Some(SuspicionUpdate { value: after - UPPER_LIMIT, event: Some(true) })
    } else {
        Some(SuspicionUpdate { value: after, event: None })
    }
}

/// The suspicion meters of one region.
#[derive(Debug, Clone, Copy, PartialEq, Eq, Structural)]
pub struct RegionalSuspicion {
    pub police: u32,
    pub media: u32,
}

/// All suspicion meters: the two global ones, and the two of each region,
/// regions being numbered by their place in `regions`.
#[derive(Debug, Clone, PartialEq, Eq)]
pub struct SuspicionMeters {
    pub intelligence: u32,
    pub scientific: u32,
    pub regions: Vec<RegionalSuspicion>,
}

/// A regional suspicion was added without naming a region that exists.
#[derive(Debug, Clone, Copy, PartialEq, Eq, Structural)]
pub struct WrongSuspicionRegion;

/// The value of a meter after an update: the update's value, or the old value
/// where the meter did not rise.
pub open spec fn updated_value(before: u32, u: Option<SuspicionUpdate>) -> u32 {
    match u {
        Some(s) => s.value,
        None => before,
    }
}

/// The update that adding a fixed `amount` makes to a meter at `before`.
pub open spec fn fixed_update(before: u32, amount: i32) -> Option<SuspicionUpdate> {
    settle(before, raised_value(before, SuspicionAmount::Fixed(amount)))
}

/// Adds a fixed amount of suspicion of type `suspicion`. Intelligence and
/// scientific suspicion raise the global meter, whatever `region` says;
/// police and media suspicion raise the meter of the given region. A regional
/// suspicion without an existing region changes nothing and is refused. The
/// update is returned so that the caller can fire its event.
pub fn add_suspicion(
    meters: &mut SuspicionMeters,
    region: Option<usize>,
    suspicion: SuspicionType,
    amount: i32,
) -> (r: Result<Option<SuspicionUpdate>, WrongSuspicionRegion>)
    ensures
        suspicion == SuspicionType::Intelligence ==> ({
            let u = fixed_update(old(meters).intelligence, amount);
            &&& r == Ok::<Option<SuspicionUpdate>, WrongSuspicionRegion>(u)
            &&& *final(meters) == (SuspicionMeters {
                intelligence: updated_value(old(meters).intelligence, u),
                ..*old(meters)
            })
        }),
        suspicion == SuspicionType::Scientific ==> ({
            let u = fixed_update(old(meters).scientific, amount);
            &&& r == Ok::<Option<SuspicionUpdate>, WrongSuspicionRegion>(u)
            &&& *final(meters) == (SuspicionMeters {
                scientific: updated_value(old(meters).scientific, u),
                ..*old(meters)
            })
        }),
        (suspicion == SuspicionType::Police || suspicion == SuspicionType::Media) && !(region matches Some(
            i,
        ) && i < old(meters).regions.len()) ==> r == Err::<
            Option<SuspicionUpdate>,
            WrongSuspicionRegion,
        >(WrongSuspicionRegion) && *final(meters) == *old(meters),
        region is Some && region.unwrap() < old(meters).regions.len() && suspicion
            == SuspicionType::Police ==> ({
            let i = region.unwrap();
            let m = old(meters).regions@[i as int];
            let u = fixed_update(m.police, amount);
            &&& r == Ok::<Option<SuspicionUpdate>, WrongSuspicionRegion>(u)
            &&& final(meters).intelligence == old(meters).intelligence
            &&& final(meters).scientific == old(meters).scientific
            &&& final(meters).regions@ == old(meters).regions@.update(
                i as int,
                RegionalSuspicion { police: updated_value(m.police, u), ..m },
            )
        }),
        region is Some && region.unwrap() < old(meters).regions.len() && suspicion
            == SuspicionType::Media ==> ({
            let i = region.unwrap();
            let m = old(meters).regions@[i as int];
            let u = fixed_update(m.media, amount);
            &&& r == Ok::<Option<SuspicionUpdate>, WrongSuspicionRegion>(u)
            &&& final(meters).intelligence == old(meters).intelligence
            &&& final(meters).scientific == old(meters).scientific
            &&& final(meters).regions@ == old(meters).regions@.update(
                i as int,
                RegionalSuspicion { media: updated_value(m.media, u), ..m },
            )
        }),
{
    match suspicion {
        SuspicionType::Intelligence => {
            let u = update_suspicion_inner(meters.intelligence, SuspicionAmount::Fixed(amount));
            if let Some(s) = u {
                meters.intelligence = s.value;
            }
            Ok(u)
        },
        SuspicionType::Scientific => {
            let u = update_suspicion_inner(meters.scientific, SuspicionAmount::Fixed(amount));
            if let Some(s) = u {
                meters.scientific = s.value;
            }
            Ok(u)
        },
        SuspicionType::Police | SuspicionType::Media => {
            let i = match region {
                Some(i) => i,
                None => return Err(WrongSuspicionRegion),
            };
            if i >= meters.regions.len() {
                return Err(WrongSuspicionRegion);
            }
            let m = meters.regions[i];
            let police = suspicion == SuspicionType::Police;
            let before = if police {
                m.police
            } else {
                m.media
            };
            let u = update_suspicion_inner(before, SuspicionAmount::Fixed(amount));
            if let Some(s) = u {
                let changed = if police {
                    RegionalSuspicion { police: s.value, media: m.media }
                } else {
                    RegionalSuspicion { police: m.police, media: s.value }
                };
                meters.regions.set(i, changed);
            }
            Ok(u)
        },
    }
}

/// A meter fires an event exactly when it rises past one of the three limits.
pub proof fn lemma_event_iff_limit_crossed(before: u32, after: int)
    requires
        after <= u32::MAX,
    ensures
        (settle(before, after) matches Some(u) && u.event is Some) <==> (crosses(
            before as int,
            after,
            LOWER_LIMIT as int,
        ) || crosses(before as int, after, MIDDLE_LIMIT as int) || crosses(
            before as int,
            after,
            UPPER_LIMIT as int,
        )),
{
}

/// A major event fires exactly when the meter rises past the upper limit without
/// passing the lower or middle limit on the way, and then the meter keeps only
/// the excess over the upper limit.
pub proof fn lemma_major_event_rolls_over(before: u32, after: int)
    requires
        after <= u32::MAX,
    ensures
        (settle(before, after) matches Some(u) && u.event == Some(true)) <==> (crosses(
            before as int,
            after,
            UPPER_LIMIT as int,
        ) && !crosses(before as int, after, LOWER_LIMIT as int) && !crosses(
            before as int,
            after,
            MIDDLE_LIMIT as int,
        )),
        settle(before, after) matches Some(u) ==> (u.event == Some(true) ==> u.value == after
            - UPPER_LIMIT),
{
}

/// A meter never goes down, except when a major event rolls it over.
pub proof fn lemma_meter_only_rises(before: u32, amount: SuspicionAmount)
    requires
        amount matches SuspicionAmount::Sampled(k) ==> before + k <= u32::MAX,
    ensures
        settle(before, raised_value(before, amount)) matches Some(u) ==> (u.event == Some(true)
            || u.value > before),
{
}

/// A fixed amount that is not positive leaves a meter untouched.
pub proof fn lemma_non_positive_amount_is_ignored(before: u32, amount: i32)
    requires
        amount <= 0,
    ensures
        settle(before, raised_value(before, SuspicionAmount::Fixed(amount))) is None,
{
}

/// The suspicion type and weight class of a suspicion event in the data files.
#[derive(Debug, Clone, Copy, PartialEq, Eq, Structural)]
pub struct SuspicionEventKey {
    pub major: bool,
    pub suspicion_type: SuspicionType,
}

/// The event with key `k` can be fired for a `major` event of type `t`.
pub open spec fn event_fits(k: SuspicionEventKey, major: bool, t: SuspicionType) -> bool {
    k.major == major && k.suspicion_type == t
}

/// The indices, in increasing order, of all events that fit a `major` event of
/// type `suspicion_type`.
pub fn suspicion_event_candidates(
    events: &Vec<SuspicionEventKey>,
    major: bool,
    suspicion_type: SuspicionType,
) -> (r: Vec<usize>)
    ensures
        forall|j: int|
            0 <= j < r.len() ==> #[trigger] r[j] < events.len() && event_fits(
                events[r[j] as int],
                major,
                suspicion_type,
            ),
        forall|i: int|
            0 <= i < events.len() && event_fits(#[trigger] events[i], major, suspicion_type)
                ==> r@.contains(i as usize),
        forall|j: int, k: int| 0 <= j < k < r.len() ==> r[j] < r[k],
{
    let mut r: Vec<usize> = Vec::new();
    let mut i: usize = 0;
    while i < events.len()
        invariant
            i <= events.len(),
            forall|j: int|
                0 <= j < r.len() ==> #[trigger] r[j] < i && event_fits(
                    events[r[j] as int],
                    major,
                    suspicion_type,
                ),
            forall|m: int|
                0 <= m < i && event_fits(#[trigger] events[m], major, suspicion_type)
                    ==> r@.contains(m as usize),
            forall|j: int, k: int| 0 <= j < k < r.len() ==> r[j] < r[k],
        decreases events.len() - i,
    {
        let k = events[i];
        let ghost old_r = r@;
        if k.major == major && k.suspicion_type == suspicion_type {
            r.push(i);
            assert(r[r.len() - 1] == i);
        }
        assert forall|m: int|
            0 <= m <= i && event_fits(#[trigger] events[m], major, suspicion_type) implies r@.contains(
            m as usize,
        ) by {
            if m < i {
                let j = old_r.index_of(m as usize);
                assert(r@[j] == m as usize);
            } else {
                assert(r@[r.len() - 1] == i);
            }
        }
        i += 1;
    }
    r
}

/// Picks at random one of the events that fit a `major` event of type
/// `suspicion_type`; at least one must fit.
pub fn pick_suspicion_event(
    events: &Vec<SuspicionEventKey>,
    major: bool,
    suspicion_type: SuspicionType,
    rng: &mut StdRng,
) -> (r: usize)
    requires
        exists|i: int| 0 <= i < events.len() && event_fits(#[trigger] events[i], major, suspicion_type),
    ensures
        r < events.len(),
        event_fits(events[r as int], major, suspicion_type),
{
    let candidates = suspicion_event_candidates(events, major, suspicion_type);
    let ghost w = choose|i: int| 0 <= i < events.len() && event_fits(#[trigger] events[i], major, suspicion_type);
    assert(candidates@.contains(w as usize));
    match choose_one(&candidates, rng) {
        Some(x) => {
            let ghost j = candidates@.index_of(x);
            assert(candidates[j] == x);
            x
        },
        None => {
            assert(candidates@.len() > 0);
            0
        },
    }
}

} // verus!
