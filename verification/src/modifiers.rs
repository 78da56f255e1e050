//! Modifiers: bonuses and penalties from difficulty, discoveries and events.
//! The arithmetic on their values is done on floating-point numbers outside
//! the library; here are their kinds, how they are described, and when timed
//! ones run out.
use crate::time::{EndDate, MAX_DATE};
use vstd::prelude::*;

verus! {

/// The kind of a modifier: additions are applied before multiplications.
#[derive(Debug, Clone, Copy, PartialEq, Eq, Structural)]
pub enum Operation {
    Add,
    Multiply,
}

/// What a modifier applies to.
#[derive(Debug, Clone, PartialEq, Eq)]
pub enum ModifierKind {
    Income { category: Option<String> },
    Expense { category: Option<String> },
    /// Recruitment by followers of type `by`, of followers of type `of`; at
    /// least one of the two is given.
    Recruit { by: Option<String>, of: Option<String> },
    IntelligenceSuspicion,
    ScientificSuspicion,
    PoliceSuspicion,
    MediaSuspicion,
}

/// A modifier kind names at least what it applies to.
pub open spec fn well_formed_kind(kind: ModifierKind) -> bool {
    !(kind matches ModifierKind::Recruit { by: None, of: None })
}

/// Whether a larger value of the modified quantity is good for the cult, and
/// the message key suffix that describes the modifier.
pub open spec fn modifier_label_spec(kind: ModifierKind) -> (bool, Seq<char>) {
    match kind {
        ModifierKind::Income { category: None } => (true, "income"@),
        ModifierKind::Income { category: Some(_) } => (true, "income-category"@),
        ModifierKind::Expense { category: None } => (false, "expense"@),
        ModifierKind::Expense { category: Some(_) } => (false, "expense-category"@),
        ModifierKind::Recruit { by: Some(_), of: None } => (true, "recruit-by"@),
        ModifierKind::Recruit { by: None, of: Some(_) } => (true, "recruit-of"@),
        ModifierKind::Recruit { by: Some(_), of: Some(_) } => (true, "recruit-by-of"@),
        ModifierKind::Recruit { by: None, of: None } => (true, ""@),
        ModifierKind::IntelligenceSuspicion => (false, "intelligence-suspicion"@),
        ModifierKind::ScientificSuspicion => (false, "scientific-suspicion"@),
        ModifierKind::PoliceSuspicion => (false, "police-suspicion"@),
        ModifierKind::MediaSuspicion => (false, "media-suspicion"@),
    }
}

/// Whether more of what a modifier applies to is good, and its message key
/// suffix (`modifier-{suffix}`).
pub fn modifier_label(kind: &ModifierKind) -> (r: (bool, &'static str))
    requires
        well_formed_kind(*kind),
    ensures
        r.0 == modifier_label_spec(*kind).0,
        r.1@ == modifier_label_spec(*kind).1,
{
    match kind {
        ModifierKind::Income { category: None } => (true, "income"),
        ModifierKind::Income { category: Some(_) } => (true, "income-category"),
        ModifierKind::Expense { category: None } => (false, "expense"),
        ModifierKind::Expense { category: Some(_) } => (false, "expense-category"),
        ModifierKind::Recruit { by: Some(_), of: None } => (true, "recruit-by"),
        ModifierKind::Recruit { by: None, of: Some(_) } => (true, "recruit-of"),
        ModifierKind::Recruit { by: Some(_), of: Some(_) } => (true, "recruit-by-of"),
        ModifierKind::Recruit { by: None, of: None } => (true, ""),
        ModifierKind::IntelligenceSuspicion => (false, "intelligence-suspicion"),
        ModifierKind::ScientificSuspicion => (false, "scientific-suspicion"),
        ModifierKind::PoliceSuspicion => (false, "police-suspicion"),
        ModifierKind::MediaSuspicion => (false, "media-suspicion"),
    }
}

/// Whether a modifier is shown in the colour of good news: it is when it
/// raises something good or lowers something bad.
pub fn modifier_is_beneficial(more_is_good: bool, raises: bool) -> (r: bool)
    ensures
        r == (more_is_good == raises),
{
    !(more_is_good ^ raises)
}


/// The `duration` argument of a modifier's text and its `date` argument, if
/// any: 0 for a permanent modifier; for a timed one, -1 with the date it ends
/// where that is known, else its length in days.
pub fn modifier_duration_args(duration: Option<u32>, end_date: Option<EndDate>) -> (r: (
    i64,
    Option<EndDate>,
))
    ensures
        r == match duration {
            None => (0i64, None::<EndDate>),
            Some(days) => match end_date {
                Some(e) => (-1i64, Some(e)),
                None => (days as i64, None::<EndDate>),
            },
        },
{
    match duration {
        None => (0, None),
        Some(days) => match end_date {
            Some(e) => (-1, Some(e)),
            None => (days as i64, None),
        },
    }
}

/// The end date of a new modifier: a timed modifier made on a known date
/// ends `duration` days later; a permanent one, or one made without a
/// current date, has none.
pub fn modifier_end_date(duration: Option<u32>, current_date: Option<i32>) -> (r: Option<EndDate>)
    requires
        duration matches Some(d) && current_date matches Some(c) ==> c + d <= MAX_DATE,
    ensures
        r == match (duration, current_date) {
            (Some(d), Some(c)) => Some(EndDate((c + d) as i32)),
            _ => None::<EndDate>,
        },
{
    match (duration, current_date) {
        (Some(d), Some(c)) => Some(EndDate::new(c, d)),
        _ => None,
    }
}

} // verus!
