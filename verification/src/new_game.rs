//! Starting a new game: the difficulty, the cult's name, and the starting
//! funds and followers.
use crate::followers::FollowerCount;
use crate::funds::{Expense, Funds, FundsAmount};
use crate::lookup::{find_named, first_named};
use vstd::prelude::*;

verus! {

/// The settings of a difficulty level in the data files.
#[derive(Debug, Clone)]
pub struct DifficultySettings {
    /// Exactly one difficulty should be the default.
    pub default: bool,
    pub starting_funds: FundsAmount,
    /// How many followers of each type the cult starts with.
    pub starting_followers: Vec<(String, usize)>,
}

/// The difficulty selected when the new game dialog opens: the first one
/// marked as the default. One must be.
pub fn default_difficulty(difficulties: &Vec<(String, DifficultySettings)>) -> (r: usize)
    requires
        exists|i: int| 0 <= i < difficulties.len() && #[trigger] difficulties[i].1.default,
    ensures
        r < difficulties.len(),
        difficulties[r as int].1.default,
        forall|j: int| 0 <= j < r ==> !difficulties[j].1.default,
{
    let mut i: usize = 0;
    while i < difficulties.len()
        invariant
            i <= difficulties.len(),
            forall|j: int| 0 <= j < i ==> !difficulties[j].1.default,
            exists|m: int| 0 <= m < difficulties.len() && #[trigger] difficulties[m].1.default,
        decreases difficulties.len() - i,
    {
        if difficulties[i].1.default {
            return i;
        }
        i += 1;
    }
    0
}

/// The funds a new game starts with.
pub fn starting_funds(difficulty: &DifficultySettings) -> (r: Funds)
    ensures
        r.0 == difficulty.starting_funds,
{
    Funds(difficulty.starting_funds)
}

/// Sets up the followers of one type at the starting base: if the difficulty
/// gives followers of this type, the base gets that many, and their daily
/// expense counts as many budget entries.
pub fn start_followers(
    difficulty: &DifficultySettings,
    follower: &String,
    count: &mut FollowerCount,
    expense: &mut Expense,
)
    ensures
        match first_named(difficulty.starting_followers@, follower@) {
            Some(i) => final(count).0 == difficulty.starting_followers@[i].1 && final(expense).2
                == difficulty.starting_followers@[i].1 && final(expense).0 == old(expense).0
                && final(expense).1 == old(expense).1,
            None => *final(count) == *old(count) && *final(expense) == *old(expense),
        },
{
    match find_named(&difficulty.starting_followers, follower) {
        Some(i) => {
            let n = difficulty.starting_followers[i].1;
            count.0 = n;
            expense.2 = n;
        },
        None => {},
    }
}

/// The cult's name as typed in the new game dialog; an empty name becomes
/// "Nameless".
pub fn cult_name_or_default(text: String) -> (r: String)
    ensures
        r@ == if text@.len() == 0 {
            "Nameless"@
        } else {
            text@
        },
{
    if text.as_str().is_empty() {
        String::from_str("Nameless")
    } else {
        text
    }
}

} // verus!
