//! Achievements: gained once per game, queued, and announced one at a time.
use crate::lookup::{contains_name, names_contain};
use bevy_platform::collections::HashSet;
use bevy_platform::hash::FixedHasher;
use vstd::prelude::*;

verus! {

/// The hash set of `bevy_platform`.
#[verifier::external_type_specification]
#[verifier::external_body]
#[verifier::reject_recursive_types(T)]
#[verifier::reject_recursive_types(S)]
pub struct ExHashSet<T, S>(HashSet<T, S>);

/// The default hasher of `bevy_platform`'s collections.
#[verifier::external_type_specification]
#[verifier::external_body]
pub struct ExFixedHasher(FixedHasher);

/// The strings that a set of achievements holds.
pub uninterp spec fn achieved_set(s: HashSet<String>) -> Set<Seq<char>>;

/// `HashSet::new`: an empty set.
#[verifier::external_body]
fn hash_set_new() -> (r: HashSet<String>)
    ensures
        achieved_set(r) == Set::<Seq<char>>::empty(),
{
    HashSet::new()
}

/// `HashSet::contains`: whether the set holds a string equal to `value`.
#[verifier::external_body]
fn hash_set_contains(s: &HashSet<String>, value: &str) -> (r: bool)
    ensures
        r == achieved_set(*s).contains(value@),
{
    s.contains(value)
}

/// `HashSet::insert`: adds `value`; returns whether it was not there before
/// (an equal value already there stays and the set is unchanged).
#[verifier::external_body]
fn hash_set_insert(s: &mut HashSet<String>, value: String) -> (r: bool)
    ensures
        r == !achieved_set(*old(s)).contains(value@),
        achieved_set(*final(s)) == achieved_set(*old(s)).insert(value@),
{
    s.insert(value)
}

/// The achievements gained during this game. Each doubles as a message key,
/// `achievement-{key}`, with attributes `.title` and `.desc`.
pub struct Achievements(HashSet<String>);

impl Achievements {
    /// The achievements gained.
    pub closed spec fn gained(&self) -> Set<Seq<char>> {
        achieved_set(self.0)
    }

    /// Whether `achievement` has been gained.
    pub fn achieved(&self, achievement: &str) -> (r: bool)
        ensures
            r == self.gained().contains(achievement@),
    {
        hash_set_contains(&self.0, achievement)
    }
}

impl Default for Achievements {
    fn default() -> (r: Self)
        ensures
            r.gained() == Set::<Seq<char>>::empty(),
    {
        Achievements(hash_set_new())
    }
}

/// Achievements gained but not yet announced, in the order to announce them.
pub struct RecentlyAchieved(pub Vec<String>);

impl Default for RecentlyAchieved {
    fn default() -> (r: Self)
        ensures
            r.0@ == Seq::<String>::empty(),
    {
        RecentlyAchieved(Vec::new())
    }
}

/// The queue after an achievement is reported: it joins the queue unless it
/// has been gained already or is waiting already.
pub open spec fn queued_after(
    gained: Set<Seq<char>>,
    recent: Seq<String>,
    achievement: String,
) -> Seq<String> {
    if !gained.contains(achievement@) && !names_contain(recent, achievement@) {
        recent.push(achievement)
    } else {
        recent
    }
}

/// An achievement was reached; the sender need not know whether it was
/// reached before.
pub fn on_achieved_event(
    achievements: &Achievements,
    recent: &mut RecentlyAchieved,
    achievement: &String,
)
    ensures
        final(recent).0@ == queued_after(achievements.gained(), old(recent).0@, *achievement),
{
    if !achievements.achieved(achievement.as_str()) && !contains_name(&recent.0, achievement) {
        recent.0.push(achievement.clone());
    }
}

/// The index of the first waiting achievement that has not been gained.
pub open spec fn first_new(recent: Seq<String>, gained: Set<Seq<char>>) -> Option<int>
    decreases recent.len(),
{
    if recent.len() == 0 {
        None
    } else if !gained.contains(recent[0]@) {
        Some(0)
    } else {
        match first_new(recent.drop_first(), gained) {
            Some(i) => Some(i + 1),
            None => None,
        }
    }
}

/// Skipping waiting achievements that were all gained already does not change
/// which one comes up next.
proof fn lemma_first_new_skip(recent: Seq<String>, gained: Set<Seq<char>>, c: int)
    requires
        0 <= c <= recent.len(),
        forall|j: int| 0 <= j < c ==> gained.contains(#[trigger] recent[j]@),
    ensures
        first_new(recent, gained) == (match first_new(recent.skip(c), gained) {
            Some(i) => Some(i + c),
            None => None,
        }),
    decreases c,
{
    if c > 0 {
        assert(recent.skip(1) == recent.drop_first());
        lemma_first_new_skip(recent.drop_first(), gained, c - 1);
        assert(recent.drop_first().skip(c - 1) == recent.skip(c));
    } else {
        assert(recent.skip(0) == recent);
    }
}

/// `first_new` points at a waiting achievement not gained, all before it gained.
proof fn lemma_first_new_bounds(recent: Seq<String>, gained: Set<Seq<char>>)
    ensures
        first_new(recent, gained) matches Some(i) ==> 0 <= i < recent.len() && !gained.contains(
            recent[i]@,
        ) && forall|j: int| 0 <= j < i ==> gained.contains(#[trigger] recent[j]@),
        first_new(recent, gained) is None ==> forall|j: int|
            0 <= j < recent.len() ==> gained.contains(#[trigger] recent[j]@),
    decreases recent.len(),
{
    if recent.len() > 0 {
        lemma_first_new_bounds(recent.drop_first(), gained);
        assert forall|j: int| 1 <= j < recent.len() implies recent[j] == recent.drop_first()[j
            - 1] by {}
    }
}

/// Announces the next achievement, unless an achievement dialog is open.
///
/// Waiting achievements that were gained already are dropped; the first one
/// not gained yet is gained and returned for its dialog.
pub fn announce_achievements(
    achievements: &mut Achievements,
    recent: &mut RecentlyAchieved,
    dialog_open: bool,
) -> (r: Option<String>)
    ensures
        dialog_open ==> r is None && final(achievements).gained() == old(achievements).gained()
            && final(recent).0@ == old(recent).0@,
        !dialog_open ==> match first_new(old(recent).0@, old(achievements).gained()) {
            Some(k) => r == Some(old(recent).0@[k]) && final(recent).0@ == old(recent).0@.skip(
                k + 1,
            ) && final(achievements).gained() == old(achievements).gained().insert(
                old(recent).0@[k]@,
            ),
            None => r is None && final(recent).0@ == Seq::<String>::empty()
                && final(achievements).gained() == old(achievements).gained(),
        },
{
    if dialog_open {
        return None;
    }
    let ghost old_recent = recent.0@;
    let ghost gained = achievements.gained();
    proof {
        lemma_first_new_bounds(old_recent, gained);
    }
    let ghost mut consumed: int = 0;
    while recent.0.len() > 0
        invariant
            !dialog_open,
            old_recent == old(recent).0@,
            gained == old(achievements).gained(),
            0 <= consumed <= old_recent.len(),
            recent.0@ == old_recent.skip(consumed),
            achievements.gained() == gained,
            forall|j: int| 0 <= j < consumed ==> gained.contains(#[trigger] old_recent[j]@),
            first_new(old_recent, gained) matches Some(i) ==> 0 <= i < old_recent.len()
                && !gained.contains(old_recent[i]@) && forall|j: int|
                0 <= j < i ==> gained.contains(#[trigger] old_recent[j]@),
            first_new(old_recent, gained) is None ==> forall|j: int|
                0 <= j < old_recent.len() ==> gained.contains(#[trigger] old_recent[j]@),
        decreases recent.0.len(),
    {
        let achievement = recent.0.remove(0);
        assert(achievement == old_recent[consumed]);
        let is_new = hash_set_insert(&mut achievements.0, achievement.clone());
        proof {
            assert(recent.0@ =~= old_recent.skip(consumed + 1));
            consumed = consumed + 1;
        }
        if is_new {
            proof {
                lemma_first_new_skip(old_recent, gained, consumed - 1);
                assert(old_recent.skip(consumed - 1)[0] == achievement);
                assert(first_new(old_recent.skip(consumed - 1), gained) == Some(0int));
            }
            return Some(achievement);
        }
        proof {
            assert(achievements.gained() =~= gained);
        }
    }
    proof {
        assert(consumed == old_recent.len());
    }
    None
}

/// No achievement waits twice, and none waits that was gained already.
pub open spec fn queue_ok(gained: Set<Seq<char>>, recent: Seq<String>) -> bool {
    &&& forall|i: int, j: int| 0 <= i < j < recent.len() ==> recent[i]@ != recent[j]@
    &&& forall|i: int| 0 <= i < recent.len() ==> !gained.contains(#[trigger] recent[i]@)
}

/// Reporting an achievement keeps the queue free of repeats and of
/// achievements gained already.
pub proof fn lemma_report_keeps_queue_ok(
    gained: Set<Seq<char>>,
    recent: Seq<String>,
    achievement: String,
)
    requires
        queue_ok(gained, recent),
    ensures
        queue_ok(gained, queued_after(gained, recent, achievement)),
{
    let after = queued_after(gained, recent, achievement);
    if !gained.contains(achievement@) && !names_contain(recent, achievement@) {
        assert forall|i: int, j: int| 0 <= i < j < after.len() implies after[i]@ != after[j]@ by {
            if j == recent.len() {
                assert(after[i] == recent[i]);
            }
        }
    }
}

/// With a well-kept queue, the announcement takes the achievement at the head
/// of the queue, gains it, and leaves a well-kept queue: every achievement is
/// announced once and only once.
pub proof fn lemma_announce_takes_head(gained: Set<Seq<char>>, recent: Seq<String>)
    requires
        queue_ok(gained, recent),
        recent.len() > 0,
    ensures
        first_new(recent, gained) == Some(0int),
        !gained.contains(recent[0]@),
        queue_ok(gained.insert(recent[0]@), recent.skip(1)),
{
    let rest = recent.skip(1);
    assert forall|i: int| 0 <= i < rest.len() implies !gained.insert(recent[0]@).contains(
        #[trigger] rest[i]@,
    ) by {
        assert(rest[i] == recent[i + 1]);
    }
    assert forall|i: int, j: int| 0 <= i < j < rest.len() implies rest[i]@ != rest[j]@ by {
        assert(rest[i] == recent[i + 1]);
        assert(rest[j] == recent[j + 1]);
    }
}

} // verus!
