//! Followers of the cult: how many of each type live at a base, how they are
//! moved between bases, and how recruitment fills a base.
use crate::funds::FundsAmount;
use crate::lookup::{find_named, first_named};
use vstd::prelude::*;

verus! {

/// A follower type, by name.
#[derive(Debug, Clone, PartialEq, Eq)]
pub struct Follower(pub String);

/// How many followers of one type live at a base.
#[derive(Debug, Clone, Copy, PartialEq, Eq, Structural)]
pub struct FollowerCount(pub usize);

/// The settings of a follower type in the data files.
#[derive(Debug, Clone)]
pub struct FollowerSettings {
    pub cost_per_day: FundsAmount,
    pub symbol: char,
    pub first_recruit_achievement: Option<String>,
}

/// Recruitment progress that makes one new follower.
pub const RECRUIT_PROGRESS: u32 = 100;

/// Moves `count` followers from one base's count to another's.
pub fn transfer_followers(src: FollowerCount, dst: FollowerCount, count: usize) -> (r: (
    FollowerCount,
    FollowerCount,
))
    requires
        count <= src.0,
        dst.0 + count <= usize::MAX,
    ensures
        r.0.0 == src.0 - count,
        r.1.0 == dst.0 + count,
{
    (FollowerCount(src.0 - count), FollowerCount(dst.0 + count))
}


/// Moves `count` followers of type `follower` from the count `src` at one
/// base to the destination base, whose followers are listed by type: the
/// first entry of that type there receives them. The destination base must
/// have an entry for the type, as every base does for every type.
pub fn transfer_followers_to_base(
    src: &mut FollowerCount,
    dst_base: &mut Vec<(String, FollowerCount)>,
    follower: &String,
    count: usize,
)
    requires
        count <= old(src).0,
        first_named(old(dst_base)@, follower@) is Some,
        old(dst_base)@[first_named(old(dst_base)@, follower@).unwrap()].1.0 + count <= usize::MAX,
    ensures
        final(src).0 == old(src).0 - count,
        ({
            let k = first_named(old(dst_base)@, follower@).unwrap();
            final(dst_base)@ == old(dst_base)@.update(
                k,
                (
                    old(dst_base)@[k].0,
                    FollowerCount((old(dst_base)@[k].1.0 + count) as usize),
                ),
            )
        }),
{
    let k = match find_named(dst_base, follower) {
        Some(k) => k,
        None => return,
    };
    let (s, d) = transfer_followers(*src, dst_base[k].1, count);
    *src = s;
    let name = dst_base[k].0.clone();
    dst_base.set(k, (name, d));
}

/// Moving followers between bases neither creates nor loses any.
pub proof fn lemma_transfer_conserves_followers(src: FollowerCount, dst: FollowerCount, count: usize)
    requires
        count <= src.0,
        dst.0 + count <= usize::MAX,
    ensures
        (src.0 - count) + (dst.0 + count) == src.0 + dst.0,
{
}

/// The number of followers at a base: the sum of its follower counts.
pub open spec fn total_followers(counts: Seq<FollowerCount>) -> int
    decreases counts.len(),
{
    if counts.len() == 0 {
        0
    } else {
        total_followers(counts.drop_last()) + counts.last().0
    }
}

/// The sum of the first `n` counts is at most the sum of all of them.
proof fn lemma_total_followers_prefix(counts: Seq<FollowerCount>, n: int)
    requires
        0 <= n <= counts.len(),
    ensures
        total_followers(counts.take(n)) <= total_followers(counts),
    decreases counts.len() - n,
{
    if n < counts.len() {
        lemma_total_followers_prefix(counts, n + 1);
        assert(counts.take(n + 1).drop_last() == counts.take(n));
    } else {
        assert(counts.take(n) == counts);
    }
}


/// Followers at a base add up: one more count adds its followers to the
/// total, and no counts make no followers.
pub proof fn lemma_total_followers_push(counts: Seq<FollowerCount>, c: FollowerCount)
    ensures
        total_followers(Seq::<FollowerCount>::empty()) == 0,
        total_followers(counts.push(c)) == total_followers(counts) + c.0,
{
    assert(counts.push(c).drop_last() =~= counts);
}

/// Counts the followers living at a base.
pub fn count_followers(counts: &Vec<FollowerCount>) -> (r: usize)
    requires
        total_followers(counts@) <= usize::MAX,
    ensures
        r == total_followers(counts@),
{
    let mut sum: usize = 0;
    let mut i: usize = 0;
    while i < counts.len()
        invariant
            i <= counts.len(),
            sum == total_followers(counts@.take(i as int)),
            total_followers(counts@) <= usize::MAX,
        decreases counts.len() - i,
    {
        proof {
            lemma_total_followers_prefix(counts@, i as int + 1);
            assert(counts@.take(i as int + 1).drop_last() == counts@.take(i as int));
        }
        sum = sum + counts[i].0;
        i += 1;
    }
    assert(counts@.take(counts.len() as int) == counts@);
    sum
}

/// How many new followers a recruiting task at a base adds today.
///
/// `counts` are the follower counts of the base, `max_follower_count` its
/// capacity, and `whole_recruits` the whole number of followers that the
/// accumulated progress pays for. A full base recruits nobody and its progress
/// stands still (`None`); otherwise as many are added as both the progress and
/// the room at the base allow.
pub fn recruit(counts: &Vec<FollowerCount>, max_follower_count: usize, whole_recruits: usize) -> (r:
    Option<usize>)
    requires
        total_followers(counts@) <= usize::MAX,
    ensures
        total_followers(counts@) >= max_follower_count ==> r is None,
        total_followers(counts@) < max_follower_count ==> r == Some(
            if whole_recruits <= max_follower_count - total_followers(counts@) {
                whole_recruits as int
            } else {
                max_follower_count - total_followers(counts@)
            } as usize,
        ),
{
    let total = count_followers(counts);
    if total >= max_follower_count {
        return None;
    }
    let room = max_follower_count - total;
    Some(
        if whole_recruits < room {
            whole_recruits
        } else {
            room
        },
    )
}

/// What a day of recruitment brought: the followers added, and the
/// achievement to report for them, if any.
#[derive(Debug, Clone, PartialEq, Eq)]
pub struct RecruitOutcome {
    pub added: usize,
    pub achievement: Option<String>,
}

/// Changing one count by `k` changes the total by `k`.
proof fn lemma_total_followers_update(counts: Seq<FollowerCount>, i: int, c: FollowerCount)
    requires
        0 <= i < counts.len(),
    ensures
        total_followers(counts.update(i, c)) == total_followers(counts) - counts[i].0 + c.0,
    decreases counts.len(),
{
    let u = counts.update(i, c);
    if i == counts.len() - 1 {
        assert(u.drop_last() =~= counts.drop_last());
    } else {
        lemma_total_followers_update(counts.drop_last(), i, c);
        assert(u.drop_last() =~= counts.drop_last().update(i, c));
    }
}

/// A day of recruitment at a base: `counts` are its follower counts,
/// `recruited` the index of the follower type being recruited, and
/// `whole_recruits` the whole number of followers the accumulated progress
/// pays for. A full base recruits nobody (`None`). Otherwise as many as the
/// progress and the room allow join the recruited type, and the first-recruit
/// achievement of that type is reported when anyone joined.
pub fn recruit_followers(
    counts: &mut Vec<FollowerCount>,
    recruited: usize,
    max_follower_count: usize,
    whole_recruits: usize,
    settings: &FollowerSettings,
) -> (r: Option<RecruitOutcome>)
    requires
        total_followers(old(counts)@) <= usize::MAX,
        recruited < old(counts).len(),
    ensures
        total_followers(old(counts)@) >= max_follower_count ==> r is None && final(counts)@ == old(
            counts,
        )@,
        total_followers(old(counts)@) < max_follower_count ==> ({
            let k = if whole_recruits <= max_follower_count - total_followers(old(counts)@) {
                whole_recruits as int
            } else {
                max_follower_count - total_followers(old(counts)@)
            };
            &&& r matches Some(o)
            &&& o.added == k
            &&& o.achievement == if k > 0 {
                settings.first_recruit_achievement
            } else {
                None
            }
            &&& final(counts)@ == old(counts)@.update(
                recruited as int,
                FollowerCount((old(counts)@[recruited as int].0 + k) as usize),
            )
        }),
        total_followers(final(counts)@) <= max_follower_count || final(counts)@ == old(counts)@,
{
    let added = match recruit(counts, max_follower_count, whole_recruits) {
        None => return None,
        Some(k) => k,
    };
    proof {
        lemma_total_followers_update(
            counts@,
            recruited as int,
            FollowerCount((counts@[recruited as int].0 + added) as usize),
        );
        lemma_count_at_most_total(counts@, recruited as int);
    }
    let updated = FollowerCount(counts[recruited].0 + added);
    counts.set(recruited, updated);
    let achievement = if added > 0 {
        match &settings.first_recruit_achievement {
            Some(a) => Some(a.clone()),
            None => None,
        }
    } else {
        None
    };
    Some(RecruitOutcome { added, achievement })
}

/// One count is at most the total.
proof fn lemma_count_at_most_total(counts: Seq<FollowerCount>, i: int)
    requires
        0 <= i < counts.len(),
    ensures
        counts[i].0 <= total_followers(counts),
    decreases counts.len(),
{
    if i < counts.len() - 1 {
        lemma_count_at_most_total(counts.drop_last(), i);
    } else {
        lemma_total_followers_nonneg(counts.drop_last());
    }
}

/// A total of counts is never negative.
proof fn lemma_total_followers_nonneg(counts: Seq<FollowerCount>)
    ensures
        total_followers(counts) >= 0,
    decreases counts.len(),
{
    if counts.len() > 0 {
        lemma_total_followers_nonneg(counts.drop_last());
    }
}

/// Recruitment never fills a base beyond its capacity.
pub proof fn lemma_recruit_respects_capacity(
    total: int,
    max_follower_count: usize,
    whole_recruits: usize,
)
    requires
        0 <= total < max_follower_count,
    ensures
        total + (if whole_recruits <= max_follower_count - total {
            whole_recruits as int
        } else {
            max_follower_count - total
        }) <= max_follower_count,
{
}

/// The symbols of a base's followers, each repeated as often as there are
/// followers of its type, in the order of the types.
pub open spec fn follower_symbols(followers: Seq<(char, usize)>) -> Seq<char>
    decreases followers.len(),
{
    if followers.len() == 0 {
        Seq::empty()
    } else {
        follower_symbols(followers.drop_last()) + Seq::new(
            followers.last().1 as nat,
            |_i: int| followers.last().0,
        )
    }
}

/// The follower list shown under a base: one symbol per follower.
pub fn follower_list_symbols(followers: &Vec<(char, usize)>) -> (r: Vec<char>)
    ensures
        r@ == follower_symbols(followers@),
{
    let mut r: Vec<char> = Vec::new();
    let mut i: usize = 0;
    while i < followers.len()
        invariant
            i <= followers.len(),
            r@ == follower_symbols(followers@.take(i as int)),
        decreases followers.len() - i,
    {
        let (symbol, count) = followers[i];
        let ghost before = r@;
        let mut k: usize = 0;
        while k < count
            invariant
                k <= count,
                r@ == before + Seq::new(k as nat, |_i: int| symbol),
            decreases count - k,
        {
            r.push(symbol);
            k += 1;
            assert(r@ =~= before + Seq::new(k as nat, |_i: int| symbol));
        }
        assert(followers@.take(i as int + 1).drop_last() == followers@.take(i as int));
        i += 1;
    }
    assert(followers@.take(followers.len() as int) == followers@);
    r
}


/// The follower types, by index, that a base's menu lists: those with at
/// least one follower at the base, in order.
pub open spec fn listed_followers(counts: Seq<FollowerCount>) -> Seq<usize>
    decreases counts.len(),
{
    if counts.len() == 0 {
        Seq::empty()
    } else {
        let rest = listed_followers(counts.drop_last());
        if counts.last().0 == 0 {
            rest
        } else {
            rest.push((counts.len() - 1) as usize)
        }
    }
}


/// The listed follower types are exactly those with followers, each once, in
/// increasing order.
pub proof fn lemma_listed_followers(counts: Seq<FollowerCount>)
    requires
        counts.len() <= usize::MAX,
    ensures
        forall|j: int|
            0 <= j < listed_followers(counts).len() ==> #[trigger] listed_followers(counts)[j]
                < counts.len() && counts[listed_followers(counts)[j] as int].0 != 0,
        forall|i: int|
            0 <= i < counts.len() && #[trigger] counts[i].0 != 0 ==> listed_followers(counts).contains(
                i as usize,
            ),
        forall|j: int, k: int|
            0 <= j < k < listed_followers(counts).len() ==> listed_followers(counts)[j]
                < listed_followers(counts)[k],
    decreases counts.len(),
{
    if counts.len() > 0 {
        let rest = counts.drop_last();
        lemma_listed_followers(rest);
        let l = listed_followers(counts);
        let lr = listed_followers(rest);
        let n = counts.len() - 1;
        assert forall|i: int| 0 <= i < n implies #[trigger] rest[i] == counts[i] by {}
        if counts.last().0 == 0 {
            assert(l == lr);
            assert forall|i: int| 0 <= i < counts.len() && #[trigger] counts[i].0 != 0 implies l.contains(
                i as usize,
            ) by {
                assert(i < n);
                assert(rest[i].0 != 0);
            }
            assert forall|j: int| 0 <= j < l.len() implies #[trigger] l[j] < counts.len()
                && counts[l[j] as int].0 != 0 by {
                assert(lr[j] < rest.len());
                assert(rest[lr[j] as int] == counts[lr[j] as int]);
            }
        } else {
            let l2 = lr.push(n as usize);
            assert(l == l2);
            assert forall|i: int| 0 <= i < counts.len() && #[trigger] counts[i].0 != 0 implies l.contains(
                i as usize,
            ) by {
                if i < n {
                    assert(rest[i].0 != 0);
                    let j = choose|j: int| 0 <= j < lr.len() && lr[j] == i as usize;
                    assert(l2[j] == lr[j]);
                } else {
                    assert(l2[lr.len() as int] == i as usize);
                }
            }
            assert forall|j: int| 0 <= j < l.len() implies #[trigger] l[j] < counts.len()
                && counts[l[j] as int].0 != 0 by {
                if j < lr.len() {
                    assert(l2[j] == lr[j]);
                    assert(lr[j] < rest.len());
                    assert(rest[lr[j] as int] == counts[lr[j] as int]);
                } else {
                    assert(l2[j] == n as usize);
                }
            }
            assert forall|j: int, k: int| 0 <= j < k < l.len() implies l[j] < l[k] by {
                assert(l2[j] == lr[j]);
                assert(lr[j] < rest.len());
                if k < lr.len() {
                    assert(l2[k] == lr[k]);
                } else {
                    assert(l2[k] == n as usize);
                }
            }
        }
    }
}

/// The follower types that a base's menu lists: those with followers there.
pub fn base_menu_followers(counts: &Vec<FollowerCount>) -> (r: Vec<usize>)
    ensures
        r@ == listed_followers(counts@),
        forall|j: int| 0 <= j < r.len() ==> #[trigger] r[j] < counts.len() && counts@[r[j] as int].0 != 0,
        forall|i: int| 0 <= i < counts.len() && #[trigger] counts@[i].0 != 0 ==> r@.contains(i as usize),
        forall|j: int, k: int| 0 <= j < k < r.len() ==> r[j] < r[k],
{
    let n = counts.len();
    proof {
        assert(counts@.len() == n);
        lemma_listed_followers(counts@);
    }
    let mut r: Vec<usize> = Vec::new();
    let mut i: usize = 0;
    while i < counts.len()
        invariant
            i <= counts.len(),
            r@ == listed_followers(counts@.take(i as int)),
        decreases counts.len() - i,
    {
        assert(counts@.take(i as int + 1).drop_last() =~= counts@.take(i as int));
        if counts[i].0 != 0 {
            r.push(i);
        }
        i += 1;
    }
    assert(counts@.take(counts.len() as int) =~= counts@);
    r
}

} // verus!
